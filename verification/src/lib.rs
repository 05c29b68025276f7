//! Converts one worksheet of a spreadsheet workbook into a textual table
//! description: cell addresses are decoded, the occupied bounding box is
//! computed, merge ranges are resolved, per-cell styling is extracted, and
//! the result is rendered as a key/value configuration text.
pub mod assemble;
pub mod codec;
pub mod extract;
pub mod merge;
pub mod model;
pub mod record;
pub mod scan;
pub mod style;
pub mod toml_text;

use vstd::prelude::*;
use crate::assemble::{build_table, spec_table};
use crate::extract::{extract_sheet, fetch_sheet};
use crate::model::{SheetDataV, StyleToggles};
use crate::toml_text::{render_table, table_toml};
use vstd::utf8::encode_utf8;

verus! {

/// The bytes of the text `"true"`.
pub open spec fn true_bytes() -> Seq<u8> {
    seq![116u8, 114u8, 117u8, 101u8]
}

/// The bytes of the text `"false"`.
pub open spec fn false_bytes() -> Seq<u8> {
    seq![102u8, 97u8, 108u8, 115u8, 101u8]
}

/// What a toggle buffer decodes to: exactly `"true"` or `"false"`,
/// anything else is rejected.
pub open spec fn spec_bool_arg(b: Seq<u8>) -> Option<bool> {
    if b == true_bytes() {
        Some(true)
    } else if b == false_bytes() {
        Some(false)
    } else {
        None
    }
}

/// Decodes one feature-toggle buffer.
pub fn parse_bool_arg(b: &[u8]) -> (r: Option<bool>)
    ensures
        r == spec_bool_arg(b@),
{
    if b.len() == 4 && b[0] == 116 && b[1] == 114 && b[2] == 117 && b[3] == 101 {
        proof {
            assert(b@ =~= true_bytes());
        }
        Some(true)
    } else if b.len() == 5 && b[0] == 102 && b[1] == 97 && b[2] == 108 && b[3] == 115 && b[4]
        == 101 {
        proof {
            assert(b@ =~= false_bytes());
        }
        Some(false)
    } else {
        proof {
            if b@ == true_bytes() {
                assert(b@.len() == 4 && b@[0] == 116 && b@[1] == 114 && b@[2] == 117 && b@[3]
                    == 101);
            }
            if b@ == false_bytes() {
                assert(b@.len() == 5 && b@[0] == 102 && b@[1] == 97 && b@[2] == 108 && b@[3]
                    == 115 && b@[4] == 101);
            }
        }
        None
    }
}

/// An ASCII decimal digit byte.
pub open spec fn is_digit_byte(x: u8) -> bool {
    48 <= x && x <= 57
}

pub open spec fn all_digit_bytes(s: Seq<u8>) -> bool {
    forall|i: int| 0 <= i < s.len() ==> is_digit_byte(s[i])
}

/// Decimal value of a digit byte string.
pub open spec fn bytes_dec_val(s: Seq<u8>) -> int
    decreases s.len(),
{
    if s.len() == 0 {
        0
    } else {
        bytes_dec_val(s.drop_last()) * 10 + (s.last() - 48)
    }
}

proof fn lemma_bytes_dec_val_nonneg(s: Seq<u8>)
    requires
        all_digit_bytes(s),
    ensures
        0 <= bytes_dec_val(s),
    decreases s.len(),
{
    if s.len() > 0 {
        lemma_bytes_dec_val_nonneg(s.drop_last());
    }
}

proof fn lemma_bytes_dec_val_prefix_le(s: Seq<u8>, j: int, k: int)
    requires
        all_digit_bytes(s),
        0 <= j <= k <= s.len(),
    ensures
        bytes_dec_val(s.subrange(0, j)) <= bytes_dec_val(s.subrange(0, k)),
    decreases k - j,
{
    if j < k {
        lemma_bytes_dec_val_prefix_le(s, j, k - 1);
        let p = s.subrange(0, k - 1);
        let q = s.subrange(0, k);
        assert(q.drop_last() =~= p);
        lemma_bytes_dec_val_nonneg(p);
    }
}

/// The digit bytes with an optional leading `'+'` stripped.
pub open spec fn bytes_strip_plus(s: Seq<u8>) -> Seq<u8> {
    if s.len() > 0 && s[0] == 43 {
        s.subrange(1, s.len() as int)
    } else {
        s
    }
}

/// Whether a buffer is a valid decimal rendering of a sheet index: an
/// optional `'+'`, then at least one digit, with a value that fits.
pub open spec fn index_text_ok(s: Seq<u8>) -> bool {
    let t = bytes_strip_plus(s);
    t.len() > 0 && all_digit_bytes(t) && bytes_dec_val(t) <= usize::MAX as int
}

/// Decodes the sheet-index buffer, mirroring a standard decimal
/// parse: `None` on an empty run, a stray byte or overflow.
pub fn parse_index_arg(b: &[u8]) -> (r: Option<usize>)
    ensures
        r is Some <==> index_text_ok(b@),
        r matches Some(v) ==> v as int == bytes_dec_val(bytes_strip_plus(b@)),
{
    let len = b.len();
    let mut start: usize = 0;
    if len > 0 && b[0] == 43 {
        start = 1;
    }
    assert(bytes_strip_plus(b@) =~= b@.subrange(start as int, b@.len() as int));
    let ghost t = bytes_strip_plus(b@);
    if start == len {
        return None;
    }
    let mut acc: u128 = 0;
    let mut j: usize = start;
    while j < len
        invariant
            start <= j <= len,
            len == b@.len(),
            t == bytes_strip_plus(b@),
            t =~= b@.subrange(start as int, b@.len() as int),
            start < len,
            forall|i: int| start <= i < j ==> is_digit_byte(b@[i]),
            acc <= usize::MAX,
            acc as int == bytes_dec_val(b@.subrange(start as int, j as int)),
        decreases len - j,
    {
        let x = b[j];
        if x < 48 || x > 57 {
            assert(t[j - start] == b@[j as int]);
            assert(!all_digit_bytes(t));
            return None;
        }
        let d = (x - 48) as u128;
        let next = acc * 10 + d;
        proof {
            let pre = b@.subrange(start as int, j as int);
            let cur = b@.subrange(start as int, j + 1 as int);
            assert(cur.drop_last() =~= pre);
            assert(cur.last() == b@[j as int]);
        }
        if next > usize::MAX as u128 {
            proof {
                let cur = b@.subrange(start as int, j + 1 as int);
                assert(cur =~= t.subrange(0, j + 1 - start as int));
                assert(t.subrange(0, t.len() as int) =~= t);
                if index_text_ok(b@) {
                    lemma_bytes_dec_val_prefix_le(t, j + 1 - start as int, t.len() as int);
                }
            }
            return None;
        }
        acc = next;
        j += 1;
    }
    assert(b@.subrange(start as int, j as int) =~= t);
    Some(acc as usize)
}

/// The conversion is a pure function of the worksheet snapshot and
/// the enabled toggles: equal snapshots under equal toggles assemble
/// to the same table and render to the same text, so repeated calls
/// on the same inputs produce byte-identical output.
pub proof fn lemma_conversion_deterministic(
    s1: SheetDataV,
    s2: SheetDataV,
    t1: StyleToggles,
    t2: StyleToggles,
)
    requires
        s1 == s2,
        t1 == t2,
    ensures
        spec_table(s1, t1) == spec_table(s2, t2),
        spec_table(s1, t1) matches Ok(tb) ==> table_toml(tb) == table_toml(
            spec_table(s2, t2)->Ok_0,
        ),
{
}

/// The toggle set the four buffers decode to, where they all decode.
pub open spec fn decoded_toggles(
    alignment: Seq<u8>,
    border: Seq<u8>,
    bg_color: Seq<u8>,
    font: Seq<u8>,
) -> StyleToggles {
    StyleToggles {
        alignment: spec_bool_arg(alignment)->0,
        border: spec_bool_arg(border)->0,
        bg_color: spec_bool_arg(bg_color)->0,
        font: spec_bool_arg(font)->0,
    }
}

/// Converts one worksheet of an already-read workbook into the
/// rendered table description. The sheet index arrives as decimal
/// text, each feature toggle as a `"true"`/`"false"` buffer. A
/// malformed index or toggle buffer aborts with a message naming it;
/// on success the output bytes encode the rendering of a table that
/// the verified pipeline assembled, under exactly the decoded
/// toggles, from a snapshot of the chosen worksheet.
pub fn to_typst(
    book: &umya_spreadsheet::Spreadsheet,
    sheet_index: &[u8],
    parse_alignment: &[u8],
    parse_border: &[u8],
    parse_bg_color: &[u8],
    parse_font_style: &[u8],
) -> (r: Result<Vec<u8>, String>)
    ensures
        !index_text_ok(sheet_index@) ==> (r matches Err(m)
            && m@ == "Failed to parse sheet index"@),
        index_text_ok(sheet_index@) && spec_bool_arg(parse_alignment@) is None ==> (r matches Err(m)
            && m@ == "Failed to parse parse_alignment"@),
        index_text_ok(sheet_index@) && spec_bool_arg(parse_alignment@) is Some && spec_bool_arg(
            parse_border@,
        ) is None ==> (r matches Err(m) && m@ == "Failed to parse parse_border"@),
        index_text_ok(sheet_index@) && spec_bool_arg(parse_alignment@) is Some && spec_bool_arg(
            parse_border@,
        ) is Some && spec_bool_arg(parse_bg_color@) is None ==> (r matches Err(m)
            && m@ == "Failed to parse parse_bg_color"@),
        index_text_ok(sheet_index@) && spec_bool_arg(parse_alignment@) is Some && spec_bool_arg(
            parse_border@,
        ) is Some && spec_bool_arg(parse_bg_color@) is Some && spec_bool_arg(parse_font_style@)
            is None ==> (r matches Err(m) && m@ == "Failed to parse parse_font_style"@),
        r is Ok ==> index_text_ok(sheet_index@) && spec_bool_arg(parse_alignment@) is Some
            && spec_bool_arg(parse_border@) is Some && spec_bool_arg(parse_bg_color@) is Some
            && spec_bool_arg(parse_font_style@) is Some,
        r matches Ok(out) ==> exists|s: SheetDataV|
            #[trigger] spec_table(
                s,
                decoded_toggles(parse_alignment@, parse_border@, parse_bg_color@, parse_font_style@),
            ) is Ok && out@ == encode_utf8(
                table_toml(
                    spec_table(
                        s,
                        decoded_toggles(
                            parse_alignment@,
                            parse_border@,
                            parse_bg_color@,
                            parse_font_style@,
                        ),
                    )->Ok_0,
                ),
            ),
{
    let index = match parse_index_arg(sheet_index) {
        Some(i) => i,
        None => {
            return Err(String::from_str("Failed to parse sheet index"));
        },
    };
    let alignment = match parse_bool_arg(parse_alignment) {
        Some(v) => v,
        None => {
            return Err(String::from_str("Failed to parse parse_alignment"));
        },
    };
    let border = match parse_bool_arg(parse_border) {
        Some(v) => v,
        None => {
            return Err(String::from_str("Failed to parse parse_border"));
        },
    };
    let bg_color = match parse_bool_arg(parse_bg_color) {
        Some(v) => v,
        None => {
            return Err(String::from_str("Failed to parse parse_bg_color"));
        },
    };
    let font = match parse_bool_arg(parse_font_style) {
        Some(v) => v,
        None => {
            return Err(String::from_str("Failed to parse parse_font_style"));
        },
    };
    let ws = match fetch_sheet(book, index) {
        Ok(w) => w,
        Err(m) => {
            return Err(m);
        },
    };
    let toggles = StyleToggles { alignment, border, bg_color, font };
    let sheet = extract_sheet(book, ws, toggles);
    let table = match build_table(&sheet, toggles) {
        Ok(tb) => tb,
        Err(m) => {
            return Err(m);
        },
    };
    let text = render_table(&table);
    let out = text.as_str().as_bytes_vec();
    proof {
        let s = sheet@;
        assert(toggles == decoded_toggles(
            parse_alignment@,
            parse_border@,
            parse_bg_color@,
            parse_font_style@,
        ));
        assert(spec_table(s, toggles) is Ok && out@ == encode_utf8(
            table_toml(spec_table(s, toggles)->Ok_0),
        ));
    }
    Ok(out)
}

} // verus!
