//! Reference codec: the bidirectional mapping between textual cell
//! addresses such as `"B12"` and 1-based `(column, row)` coordinates,
//! and the splitting of merge-range texts such as `"A1:C2"`.
use vstd::prelude::*;
use vstd::pervasive::unreached;

verus! {

/// An uppercase base-26 column letter, `'A'` through `'Z'`.
pub open spec fn is_upper(c: char) -> bool {
    65 <= c as int && c as int <= 90
}

/// The 1-based alphabet position of an uppercase letter.
pub open spec fn letter_val(c: char) -> int {
    c as int - 64
}

/// Bijective base-26 value of a column label: `A = 1`, `Z = 26`, `AA = 27`.
pub open spec fn col_num_of(s: Seq<char>) -> int
    decreases s.len(),
{
    if s.len() == 0 {
        0
    } else {
        col_num_of(s.drop_last()) * 26 + letter_val(s.last())
    }
}

/// 26 to the power `n`.
pub open spec fn pow26(n: nat) -> nat
    decreases n,
{
    if n == 0 {
        1
    } else {
        26 * pow26((n - 1) as nat)
    }
}

/// A column label made of uppercase letters has a bounded base-26 value.
proof fn lemma_col_num_bound(s: Seq<char>)
    requires
        forall|i: int| 0 <= i < s.len() ==> is_upper(s[i]),
    ensures
        0 <= col_num_of(s) <= 2 * pow26(s.len()) - 2,
    decreases s.len(),
{
    if s.len() > 0 {
        lemma_col_num_bound(s.drop_last());
    }
}

/// Tests a character for membership in `'A'..='Z'`.
pub fn is_upper_char(c: char) -> (r: bool)
    ensures
        r == is_upper(c),
{
    let u = c as u32;
    65 <= u && u <= 90
}

/// Length of the leading run of uppercase letters.
pub open spec fn upper_run_len(s: Seq<char>) -> int
    decreases s.len(),
{
    if s.len() == 0 || !is_upper(s[0]) {
        0
    } else {
        1 + upper_run_len(s.subrange(1, s.len() as int))
    }
}

/// A scan that stops at the first non-uppercase position finds the
/// length of the leading uppercase run.
proof fn lemma_upper_run_len(s: Seq<char>, k: int)
    requires
        0 <= k <= s.len(),
        forall|i: int| 0 <= i < k ==> is_upper(s[i]),
        k == s.len() || !is_upper(s[k]),
    ensures
        upper_run_len(s) == k,
    decreases s.len(),
{
    if k == 0 {
    } else {
        let t = s.subrange(1, s.len() as int);
        lemma_upper_run_len(t, k - 1);
    }
}

/// An ASCII decimal digit.
pub open spec fn is_digit(c: char) -> bool {
    48 <= c as int && c as int <= 57
}

pub open spec fn all_digits(s: Seq<char>) -> bool {
    forall|i: int| 0 <= i < s.len() ==> is_digit(s[i])
}

/// Decimal value of a digit string.
pub open spec fn dec_val(s: Seq<char>) -> int
    decreases s.len(),
{
    if s.len() == 0 {
        0
    } else {
        dec_val(s.drop_last()) * 10 + (s.last() as int - 48)
    }
}

proof fn lemma_dec_val_nonneg(s: Seq<char>)
    requires
        all_digits(s),
    ensures
        0 <= dec_val(s),
    decreases s.len(),
{
    if s.len() > 0 {
        lemma_dec_val_nonneg(s.drop_last());
    }
}

/// Appending digits never decreases the decimal value of a prefix.
proof fn lemma_dec_val_prefix_le(s: Seq<char>, j: int, k: int)
    requires
        all_digits(s),
        0 <= j <= k <= s.len(),
    ensures
        dec_val(s.subrange(0, j)) <= dec_val(s.subrange(0, k)),
    decreases k - j,
{
    if j < k {
        lemma_dec_val_prefix_le(s, j, k - 1);
        let p = s.subrange(0, k - 1);
        let q = s.subrange(0, k);
        assert(q.drop_last() =~= p);
        lemma_dec_val_nonneg(p);
    }
}

/// The digit run with an optional leading `'+'` stripped.
pub open spec fn strip_plus(s: Seq<char>) -> Seq<char> {
    if s.len() > 0 && s[0] == '+' {
        s.subrange(1, s.len() as int)
    } else {
        s
    }
}

/// Whether a text is a valid decimal rendering of a `u32`: an optional
/// `'+'`, then at least one digit, with a value that fits.
pub open spec fn u32_text_ok(s: Seq<char>) -> bool {
    let t = strip_plus(s);
    t.len() > 0 && all_digits(t) && dec_val(t) <= u32::MAX as int
}

/// The row number a reference text denotes: its decimal value when the
/// text parses as a `u32`, and 0 (the unknown row) otherwise.
pub open spec fn row_of_text(s: Seq<char>) -> u32 {
    if u32_text_ok(s) {
        dec_val(strip_plus(s)) as u32
    } else {
        0u32
    }
}

/// Decodes the digit run of a cell reference, mirroring a standard
/// `u32` decimal parse: `None` on an empty run, a stray character or
/// overflow.
pub fn try_parse_u32(s: &str) -> (r: Option<u32>)
    ensures
        r is Some <==> u32_text_ok(s@),
        r is Some ==> r->0 as int == dec_val(strip_plus(s@)),
{
    let len = s.unicode_len();
    let mut start: usize = 0;
    if len > 0 && s.get_char(0) == '+' {
        start = 1;
    }
    assert(strip_plus(s@) =~= s@.subrange(start as int, s@.len() as int));
    let ghost t = strip_plus(s@);
    if start == len {
        return None;
    }
    let mut acc: u64 = 0;
    let mut j: usize = start;
    while j < len
        invariant
            start <= j <= len,
            len == s@.len(),
            t == strip_plus(s@),
            t =~= s@.subrange(start as int, s@.len() as int),
            start < len,
            forall|i: int| start <= i < j ==> is_digit(s@[i]),
            acc <= u32::MAX,
            acc as int == dec_val(s@.subrange(start as int, j as int)),
        decreases len - j,
    {
        let c = s.get_char(j);
        let u = c as u32;
        if u < 48 || u > 57 {
            assert(t[j - start] == s@[j as int]);
            assert(!all_digits(t));
            return None;
        }
        let d = (u - 48) as u64;
        let next = acc * 10 + d;
        proof {
            let pre = s@.subrange(start as int, j as int);
            let cur = s@.subrange(start as int, j + 1 as int);
            assert(cur.drop_last() =~= pre);
            assert(cur.last() == s@[j as int]);
        }
        if next > u32::MAX as u64 {
            proof {
                let cur = s@.subrange(start as int, j + 1 as int);
                assert(cur =~= t.subrange(0, j + 1 - start as int));
                assert(t.subrange(0, t.len() as int) =~= t);
                if u32_text_ok(s@) {
                    lemma_dec_val_prefix_le(t, j + 1 - start as int, t.len() as int);
                }
            }
            return None;
        }
        acc = next;
        j += 1;
    }
    assert(s@.subrange(start as int, j as int) =~= t);
    Some(acc as u32)
}

/// Folds a column label such as `"AA"` into its 1-based column number.
///
/// `column_to_number("A") == 1`, `("Z") == 26`, `("AA") == 27`.
pub fn column_to_number(column: &str) -> (n: u32)
    requires
        forall|i: int| 0 <= i < column@.len() ==> is_upper(column@[i]),
        column@.len() <= 6,
    ensures
        n as int == col_num_of(column@),
{
    let len = column.unicode_len();
    let mut acc: u32 = 0;
    let mut i: usize = 0;
    while i < len
        invariant
            0 <= i <= len,
            len == column@.len() <= 6,
            forall|j: int| 0 <= j < column@.len() ==> is_upper(column@[j]),
            acc as int == col_num_of(column@.subrange(0, i as int)),
        decreases len - i,
    {
        let c = column.get_char(i);
        let u = c as u32;
        proof {
            let pre = column@.subrange(0, i as int);
            let cur = column@.subrange(0, i + 1 as int);
            assert(cur.drop_last() =~= pre);
            assert(cur.last() == column@[i as int]);
            lemma_col_num_bound(pre);
            reveal_with_fuel(pow26, 7);
            assert(pow26(pre.len()) <= pow26(5)) by {
                assert(pre.len() <= 5);
            }
            assert(pow26(5) == 11881376);
        }
        acc = acc * 26 + (u - 64);
        i += 1;
    }
    assert(column@.subrange(0, len as int) =~= column@);
    acc
}

/// What `parse_cell_reference` yields: the base-26 value of the leading
/// uppercase run, and the decimal value of the rest (0 when the rest is
/// empty or malformed). `None` when the run is too long for a `u32`.
pub open spec fn spec_parse_ref(s: Seq<char>) -> Option<(u32, u32)> {
    let k = upper_run_len(s);
    if k > 6 {
        None
    } else {
        Some(
            (
                col_num_of(s.subrange(0, k)) as u32,
                row_of_text(s.subrange(k, s.len() as int)),
            ),
        )
    }
}

/// Splits a reference text into its column-letter run and its row
/// digits, rejecting column runs too long to fit a `u32`.
pub fn try_parse_cell_reference(s: &str) -> (r: Option<(u32, u32)>)
    ensures
        r == spec_parse_ref(s@),
{
    let len = s.unicode_len();
    let mut k: usize = 0;
    while k < len && is_upper_char(s.get_char(k))
        invariant
            0 <= k <= len,
            len == s@.len(),
            forall|i: int| 0 <= i < k ==> is_upper(s@[i]),
        decreases len - k,
    {
        k += 1;
    }
    proof {
        lemma_upper_run_len(s@, k as int);
    }
    if k > 6 {
        return None;
    }
    let letters = s.substring_char(0, k);
    let col = column_to_number(letters);
    let rest = s.substring_char(k, len);
    let row = match try_parse_u32(rest) {
        Some(v) => v,
        None => 0,
    };
    Some((col, row))
}

/// Decodes a well-formed cell reference such as `"B12"` into its
/// 1-based `(column, row)` coordinate pair.
///
/// `parse_cell_reference("B12") == (2, 12)`.
pub fn parse_cell_reference(cell_ref: &str) -> (r: (u32, u32))
    requires
        upper_run_len(cell_ref@) <= 6,
    ensures
        Some(r) == spec_parse_ref(cell_ref@),
{
    let r = try_parse_cell_reference(cell_ref);
    match r {
        Some(v) => v,
        None => unreached(),
    }
}

/// The column letters in alphabet order.
pub open spec fn alphabet() -> Seq<char> {
    seq![
        'A', 'B', 'C', 'D', 'E', 'F', 'G', 'H', 'I', 'J', 'K', 'L', 'M', 'N', 'O', 'P', 'Q',
        'R', 'S', 'T', 'U', 'V', 'W', 'X', 'Y', 'Z',
    ]
}

/// The column letter with the given 0-based alphabet position.
pub open spec fn letter_char(d: int) -> char {
    alphabet()[d]
}

/// The bijective base-26 label of a column number: the inverse
/// direction of `col_num_of`, with `letters_of(0)` empty.
pub open spec fn letters_of(n: int) -> Seq<char>
    decreases n,
{
    if n <= 0 {
        Seq::empty()
    } else {
        letters_of((n - 1) / 26) + seq![letter_char((n - 1) % 26)]
    }
}

/// One column letter as a string, for a 0-based alphabet position.
fn letter_str(d: u32) -> (r: &'static str)
    requires
        d < 26,
    ensures
        r@ == seq![letter_char(d as int)],
{
    proof {
        reveal_strlit("A");
        reveal_strlit("B");
        reveal_strlit("C");
        reveal_strlit("D");
        reveal_strlit("E");
        reveal_strlit("F");
        reveal_strlit("G");
        reveal_strlit("H");
        reveal_strlit("I");
        reveal_strlit("J");
        reveal_strlit("K");
        reveal_strlit("L");
        reveal_strlit("M");
        reveal_strlit("N");
        reveal_strlit("O");
        reveal_strlit("P");
        reveal_strlit("Q");
        reveal_strlit("R");
        reveal_strlit("S");
        reveal_strlit("T");
        reveal_strlit("U");
        reveal_strlit("V");
        reveal_strlit("W");
        reveal_strlit("X");
        reveal_strlit("Y");
        reveal_strlit("Z");
    }
    match d {
        0 => "A",
        1 => "B",
        2 => "C",
        3 => "D",
        4 => "E",
        5 => "F",
        6 => "G",
        7 => "H",
        8 => "I",
        9 => "J",
        10 => "K",
        11 => "L",
        12 => "M",
        13 => "N",
        14 => "O",
        15 => "P",
        16 => "Q",
        17 => "R",
        18 => "S",
        19 => "T",
        20 => "U",
        21 => "V",
        22 => "W",
        23 => "X",
        24 => "Y",
        _ => "Z",
    }
}

/// Builds the base-26 column label of a column number:
/// `number_to_column(1) == "A"`, `(26) == "Z"`, `(27) == "AA"`.
pub fn number_to_column(n: u32) -> (r: String)
    ensures
        r@ == letters_of(n as int),
    decreases n,
{
    if n == 0 {
        String::new()
    } else {
        let mut s = number_to_column((n - 1) / 26);
        s.append(letter_str((n - 1) % 26));
        proof {
            assert(s@ =~= letters_of(n as int));
        }
        s
    }
}

/// The decimal digit character for a value below 10, shared with the
/// hexadecimal digits used in text escapes.
pub open spec fn digit16(d: int) -> char {
    if d == 0 {
        '0'
    } else if d == 1 {
        '1'
    } else if d == 2 {
        '2'
    } else if d == 3 {
        '3'
    } else if d == 4 {
        '4'
    } else if d == 5 {
        '5'
    } else if d == 6 {
        '6'
    } else if d == 7 {
        '7'
    } else if d == 8 {
        '8'
    } else if d == 9 {
        '9'
    } else if d == 10 {
        'a'
    } else if d == 11 {
        'b'
    } else if d == 12 {
        'c'
    } else if d == 13 {
        'd'
    } else if d == 14 {
        'e'
    } else {
        'f'
    }
}

/// The decimal rendering of a nonnegative integer.
pub open spec fn dec_str(n: int) -> Seq<char>
    decreases n,
{
    if n < 10 {
        seq![digit16(n)]
    } else {
        dec_str(n / 10).push(digit16(n % 10))
    }
}

/// One character as a string, for values below 16.
pub fn digit16_str(d: u32) -> (r: &'static str)
    requires
        d < 16,
    ensures
        r@ == seq![digit16(d as int)],
{
    proof {
        reveal_strlit("0");
        reveal_strlit("1");
        reveal_strlit("2");
        reveal_strlit("3");
        reveal_strlit("4");
        reveal_strlit("5");
        reveal_strlit("6");
        reveal_strlit("7");
        reveal_strlit("8");
        reveal_strlit("9");
        reveal_strlit("a");
        reveal_strlit("b");
        reveal_strlit("c");
        reveal_strlit("d");
        reveal_strlit("e");
        reveal_strlit("f");
    }
    match d {
        0 => "0",
        1 => "1",
        2 => "2",
        3 => "3",
        4 => "4",
        5 => "5",
        6 => "6",
        7 => "7",
        8 => "8",
        9 => "9",
        10 => "a",
        11 => "b",
        12 => "c",
        13 => "d",
        14 => "e",
        _ => "f",
    }
}

/// The address text of a 1-based coordinate: the column label, then
/// the row number in decimal.
pub open spec fn coord_text(col: int, row: int) -> Seq<char> {
    letters_of(col) + dec_str(row)
}

/// Appends the decimal rendering of `n`.
fn append_u32(out: &mut String, n: u32)
    ensures
        final(out)@ == old(out)@ + dec_str(n as int),
    decreases n,
{
    if n < 10 {
        out.append(digit16_str(n));
        proof {
            assert(final(out)@ =~= old(out)@ + dec_str(n as int));
        }
    } else {
        append_u32(out, n / 10);
        out.append(digit16_str(n % 10));
        proof {
            assert(final(out)@ =~= old(out)@ + dec_str(n as int));
        }
    }
}

/// Builds the address text of a coordinate, such as `"B12"` for
/// column 2, row 12.
pub fn coordinate_text(col: u32, row: u32) -> (r: String)
    ensures
        r@ == coord_text(col as int, row as int),
{
    let mut s = number_to_column(col);
    append_u32(&mut s, row);
    s
}

/// The first index at or after `from` holding `':'`, or the length.
pub open spec fn colon_idx(s: Seq<char>, from: int) -> int
    decreases s.len() - from,
{
    if from < 0 || from >= s.len() {
        s.len() as int
    } else if s[from] == ':' {
        from
    } else {
        colon_idx(s, from + 1)
    }
}

proof fn lemma_colon_idx(s: Seq<char>, from: int, i: int)
    requires
        0 <= from <= i <= s.len(),
        forall|t: int| from <= t < i ==> s[t] != ':',
        i == s.len() || s[i] == ':',
    ensures
        colon_idx(s, from) == i,
    decreases i - from,
{
    if from < i {
        lemma_colon_idx(s, from + 1, i);
    }
}

proof fn lemma_colon_idx_range(s: Seq<char>, from: int)
    requires
        0 <= from <= s.len(),
    ensures
        from <= colon_idx(s, from) <= s.len(),
        colon_idx(s, from) < s.len() ==> s[colon_idx(s, from)] == ':',
        forall|t: int| from <= t < colon_idx(s, from) ==> s[t] != ':',
    decreases s.len() - from,
{
    if from < s.len() && s[from] != ':' {
        lemma_colon_idx_range(s, from + 1);
    }
}

/// Whether a range text holds a `':'` separating two parts.
pub open spec fn has_colon(s: Seq<char>) -> bool {
    colon_idx(s, 0) < s.len()
}

/// The two parts of a merge-range text: the piece before the first
/// `':'` and the piece between the first and the second (or the end).
pub open spec fn spec_merge_parts(s: Seq<char>) -> (Seq<char>, Seq<char>) {
    let i = colon_idx(s, 0);
    let j = colon_idx(s, i + 1);
    (s.subrange(0, i), s.subrange(i + 1, j))
}

/// Splits a range text on `':'`, or reports that none is present.
pub fn try_parse_merge_range(range: &str) -> (r: Option<(String, String)>)
    ensures
        r is Some <==> has_colon(range@),
        r is Some ==> ((r->0).0@, (r->0).1@) == spec_merge_parts(range@),
{
    let len = range.unicode_len();
    let mut i: usize = 0;
    while i < len && range.get_char(i) != ':'
        invariant
            0 <= i <= len,
            len == range@.len(),
            forall|t: int| 0 <= t < i ==> range@[t] != ':',
        decreases len - i,
    {
        i += 1;
    }
    proof {
        lemma_colon_idx(range@, 0, i as int);
    }
    if i == len {
        return None;
    }
    let mut j: usize = i + 1;
    while j < len && range.get_char(j) != ':'
        invariant
            i + 1 <= j <= len,
            len == range@.len(),
            forall|t: int| i + 1 <= t < j ==> range@[t] != ':',
        decreases len - j,
    {
        j += 1;
    }
    proof {
        lemma_colon_idx(range@, i + 1 as int, j as int);
    }
    let first = range.substring_char(0, i);
    let second = range.substring_char(i + 1, j);
    Some((String::from_str(first), String::from_str(second)))
}

/// Splits a merge-range text such as `"A1:C2"` into its start and end
/// reference texts.
///
/// `parse_merge_range("A1:C2") == ("A1", "C2")`.
pub fn parse_merge_range(range: &str) -> (r: (String, String))
    requires
        has_colon(range@),
    ensures
        (r.0@, r.1@) == spec_merge_parts(range@),
{
    let r = try_parse_merge_range(range);
    match r {
        Some(v) => v,
        None => unreached(),
    }
}

} // verus!
