//! Renders the structured table description as a human-readable
//! key/value configuration text: quoted strings with escapes, decimal
//! integers, raw size texts, and bracketed section headers.
use vstd::prelude::*;
use crate::merge::MergedCellV;
use crate::record::{CellDataV, RowDataV, TableData, TableDataV, TableDimensionsV};
use crate::style::{CellAlignment, CellStyleV, FontStyleV, HAlign, VAlign};
use crate::model::Border;
use crate::codec::{dec_str, digit16, digit16_str};

verus! {

/// Appends the decimal rendering of `n`.
fn write_u32(out: &mut String, n: u32)
    ensures
        final(out)@ == old(out)@ + dec_str(n as int),
    decreases n,
{
    if n < 10 {
        out.append(digit16_str(n));
        proof {
            assert(final(out)@ =~= old(out)@ + dec_str(n as int));
        }
    } else {
        write_u32(out, n / 10);
        out.append(digit16_str(n % 10));
        proof {
            assert(final(out)@ =~= old(out)@ + dec_str(n as int));
        }
    }
}

/// The escape of one character inside a quoted string: quote and
/// backslash get a backslash, the named control characters their
/// short escapes, other control characters a `\u00..` form, and
/// everything else stands as itself.
pub open spec fn esc_char(c: char) -> Seq<char> {
    if c == '"' {
        "\\\""@
    } else if c == '\\' {
        "\\\\"@
    } else if c == '\n' {
        "\\n"@
    } else if c == '\r' {
        "\\r"@
    } else if c == '\t' {
        "\\t"@
    } else if c == '\u{8}' {
        "\\b"@
    } else if c == '\u{c}' {
        "\\f"@
    } else if (c as int) < 32 || c as int == 127 {
        "\\u00"@ + seq![digit16(c as int / 16), digit16(c as int % 16)]
    } else {
        seq![c]
    }
}

/// The escaped form of a whole text.
pub open spec fn esc(s: Seq<char>) -> Seq<char>
    decreases s.len(),
{
    if s.len() == 0 {
        Seq::empty()
    } else {
        esc(s.drop_last()) + esc_char(s.last())
    }
}

/// A quoted string value: the escaped text between double quotes.
pub open spec fn str_lit(s: Seq<char>) -> Seq<char> {
    "\""@ + esc(s) + "\""@
}

/// Appends the escaped form of `s`.
fn write_escaped(out: &mut String, s: &str)
    ensures
        final(out)@ == old(out)@ + esc(s@),
{
    let len = s.unicode_len();
    let mut i: usize = 0;
    while i < len
        invariant
            0 <= i <= len,
            len == s@.len(),
            out@ == old(out)@ + esc(s@.subrange(0, i as int)),
        decreases len - i,
    {
        let c = s.get_char(i);
        let u = c as u32;
        if c == '"' {
            out.append("\\\"");
        } else if c == '\\' {
            out.append("\\\\");
        } else if c == '\n' {
            out.append("\\n");
        } else if c == '\r' {
            out.append("\\r");
        } else if c == '\t' {
            out.append("\\t");
        } else if u == 8 {
            out.append("\\b");
        } else if u == 12 {
            out.append("\\f");
        } else if u < 32 || u == 127 {
            out.append("\\u00");
            out.append(digit16_str(u / 16));
            out.append(digit16_str(u % 16));
        } else {
            let piece = s.substring_char(i, i + 1);
            out.append(piece);
            proof {
                assert(piece@ =~= seq![s@[i as int]]);
            }
        }
        proof {
            let pre = s@.subrange(0, i as int);
            let cur = s@.subrange(0, i + 1 as int);
            assert(cur.drop_last() =~= pre);
            assert(cur.last() == s@[i as int]);
            assert(out@ =~= old(out)@ + esc(cur));
        }
        i += 1;
    }
    proof {
        assert(s@.subrange(0, len as int) =~= s@);
    }
}

/// Appends a quoted string value.
fn write_str_lit(out: &mut String, s: &str)
    ensures
        final(out)@ == old(out)@ + str_lit(s@),
{
    out.append("\"");
    write_escaped(out, s);
    out.append("\"");
    proof {
        assert(final(out)@ =~= old(out)@ + str_lit(s@));
    }
}

/// The first `n` raw texts joined with `", "`.
pub open spec fn joined(vals: Seq<Seq<char>>, n: int) -> Seq<char>
    decreases n,
{
    if n <= 0 {
        Seq::empty()
    } else if n == 1 {
        vals[0]
    } else {
        joined(vals, n - 1) + ", "@ + vals[n - 1]
    }
}

/// A bracketed array of raw texts.
pub open spec fn arr_lit(vals: Seq<Seq<char>>) -> Seq<char> {
    "["@ + joined(vals, vals.len() as int) + "]"@
}

/// Appends a bracketed array of the given raw texts.
fn write_arr(out: &mut String, vals: &Vec<String>)
    ensures
        final(out)@ == old(out)@ + arr_lit(vals@.map_values(|s: String| s@)),
{
    let ghost vv = vals@.map_values(|s: String| s@);
    out.append("[");
    let mut i: usize = 0;
    while i < vals.len()
        invariant
            0 <= i <= vals.len(),
            vv == vals@.map_values(|s: String| s@),
            out@ == old(out)@ + "["@ + joined(vv, i as int),
        decreases vals.len() - i,
    {
        if i > 0 {
            out.append(", ");
        }
        out.append(vals[i].as_str());
        proof {
            assert(out@ =~= old(out)@ + "["@ + joined(vv, i + 1 as int));
        }
        i += 1;
    }
    out.append("]");
    proof {
        assert(final(out)@ =~= old(out)@ + arr_lit(vv));
    }
}

/// The text of a boolean value.
pub open spec fn bool_str(b: bool) -> Seq<char> {
    if b {
        "true"@
    } else {
        "false"@
    }
}

fn write_bool(out: &mut String, b: bool)
    ensures
        final(out)@ == old(out)@ + bool_str(b),
{
    if b {
        out.append("true");
    } else {
        out.append("false");
    }
}

/// The label of a reported horizontal alignment.
pub open spec fn halign_label(h: HAlign) -> Seq<char> {
    match h {
        HAlign::Left => "left"@,
        HAlign::Center => "center"@,
        HAlign::Right => "right"@,
        HAlign::Default => "default"@,
    }
}

/// The label of a reported vertical alignment.
pub open spec fn valign_label(v: VAlign) -> Seq<char> {
    match v {
        VAlign::Bottom => "bottom"@,
        VAlign::Center => "center"@,
        VAlign::Top => "top"@,
        VAlign::Default => "default"@,
    }
}

/// The dimensions section.
pub open spec fn dims_toml(d: TableDimensionsV) -> Seq<char> {
    "[dimensions]\ncolumns = "@ + arr_lit(d.columns) + "\nrows = "@ + arr_lit(d.rows)
        + "\nmax_columns = "@ + dec_str(d.max_columns as int) + "\nmax_rows = "@ + dec_str(
        d.max_rows as int,
    ) + "\n"@
}

/// An alignment sub-table.
pub open spec fn align_toml(a: CellAlignment) -> Seq<char> {
    "\n[rows.cells.style.alignment]\nhorizontal = \""@ + halign_label(a.horizontal)
        + "\"\nvertical = \""@ + valign_label(a.vertical) + "\"\n"@
}

/// A border sub-table.
pub open spec fn border_toml(b: Border) -> Seq<char> {
    "\n[rows.cells.style.border]\nleft = "@ + bool_str(b.left) + "\nright = "@ + bool_str(b.right)
        + "\ntop = "@ + bool_str(b.top) + "\nbottom = "@ + bool_str(b.bottom) + "\n"@
}

/// A font sub-table; the size is the raw point text.
pub open spec fn font_toml(f: FontStyleV) -> Seq<char> {
    "\n[rows.cells.style.font]\nbold = "@ + bool_str(f.bold) + "\nitalic = "@ + bool_str(f.italic)
        + "\nsize = "@ + f.size + (match f.color {
        Some(c) => "\ncolor = "@ + str_lit(c),
        None => Seq::<char>::empty(),
    }) + "\nunderline = "@ + bool_str(f.underline) + "\nstrike = "@ + bool_str(f.strike) + "\n"@
}

/// A cell's style sub-table: the fill color first, then the present
/// sub-tables.
pub open spec fn style_toml(st: CellStyleV) -> Seq<char> {
    "\n[rows.cells.style]\n"@ + (match st.color {
        Some(c) => "color = "@ + str_lit(c) + "\n"@,
        None => Seq::<char>::empty(),
    }) + (match st.alignment {
        Some(a) => align_toml(a),
        None => Seq::<char>::empty(),
    }) + (match st.border {
        Some(b) => border_toml(b),
        None => Seq::<char>::empty(),
    }) + (match st.font {
        Some(f) => font_toml(f),
        None => Seq::<char>::empty(),
    })
}

/// One cell entry of a row.
pub open spec fn cell_toml(c: CellDataV) -> Seq<char> {
    "\n[[rows.cells]]\nvalue = "@ + str_lit(c.value) + "\ncolumn = "@ + dec_str(c.column as int)
        + "\n"@ + (match c.style {
        Some(st) => style_toml(st),
        None => Seq::<char>::empty(),
    })
}

/// The first `n` cells of a row, in order.
pub open spec fn cells_toml(cs: Seq<CellDataV>, n: int) -> Seq<char>
    decreases n,
{
    if n <= 0 {
        Seq::empty()
    } else {
        cells_toml(cs, n - 1) + cell_toml(cs[n - 1])
    }
}

/// One row entry.
pub open spec fn row_toml(r: RowDataV) -> Seq<char> {
    "\n[[rows]]\nrow_number = "@ + dec_str(r.row_number as int) + "\n"@ + cells_toml(
        r.cells,
        r.cells.len() as int,
    )
}

/// The first `n` rows, in order.
pub open spec fn rows_toml(rs: Seq<RowDataV>, n: int) -> Seq<char>
    decreases n,
{
    if n <= 0 {
        Seq::empty()
    } else {
        rows_toml(rs, n - 1) + row_toml(rs[n - 1])
    }
}

/// One merge descriptor with its start and end coordinates.
pub open spec fn merged_toml(m: MergedCellV) -> Seq<char> {
    "\n[[merged_cells]]\nrange = "@ + str_lit(m.range) + "\n\n[merged_cells.start]\nrow = "@
        + dec_str(m.start.row as int) + "\ncolumn = "@ + dec_str(m.start.column as int)
        + "\n\n[merged_cells.end]\nrow = "@ + dec_str(m.end.row as int) + "\ncolumn = "@ + dec_str(
        m.end.column as int,
    ) + "\n"@
}

/// The first `n` merge descriptors, in order.
pub open spec fn merges_toml(ms: Seq<MergedCellV>, n: int) -> Seq<char>
    decreases n,
{
    if n <= 0 {
        Seq::empty()
    } else {
        merges_toml(ms, n - 1) + merged_toml(ms[n - 1])
    }
}

/// The whole rendered table description.
pub open spec fn table_toml(t: TableDataV) -> Seq<char> {
    dims_toml(t.dimensions) + rows_toml(t.rows, t.rows.len() as int) + merges_toml(
        t.merged_cells,
        t.merged_cells.len() as int,
    )
}

/// Appends an alignment sub-table.
#[verifier::rlimit(100)]
fn write_align(out: &mut String, a: CellAlignment)
    ensures
        final(out)@ == old(out)@ + align_toml(a),
{
    out.append("\n[rows.cells.style.alignment]\nhorizontal = \"");
    match a.horizontal {
        HAlign::Left => out.append("left"),
        HAlign::Center => out.append("center"),
        HAlign::Right => out.append("right"),
        HAlign::Default => out.append("default"),
    }
    out.append("\"\nvertical = \"");
    match a.vertical {
        VAlign::Bottom => out.append("bottom"),
        VAlign::Center => out.append("center"),
        VAlign::Top => out.append("top"),
        VAlign::Default => out.append("default"),
    }
    out.append("\"\n");
    proof {
        assert(final(out)@ =~= old(out)@ + align_toml(a));
    }
}

/// Appends a border sub-table.
#[verifier::rlimit(100)]
fn write_border(out: &mut String, b: Border)
    ensures
        final(out)@ == old(out)@ + border_toml(b),
{
    out.append("\n[rows.cells.style.border]\nleft = ");
    write_bool(out, b.left);
    out.append("\nright = ");
    write_bool(out, b.right);
    out.append("\ntop = ");
    write_bool(out, b.top);
    out.append("\nbottom = ");
    write_bool(out, b.bottom);
    out.append("\n");
    proof {
        assert(final(out)@ =~= old(out)@ + border_toml(b));
    }
}

/// Appends a font sub-table.
#[verifier::rlimit(100)]
#[verifier::spinoff_prover]
fn write_font(out: &mut String, f: &crate::style::FontStyle)
    ensures
        final(out)@ == old(out)@ + font_toml(f@),
{
    out.append("\n[rows.cells.style.font]\nbold = ");
    write_bool(out, f.bold);
    let ghost h1 = "\n[rows.cells.style.font]\nbold = "@ + bool_str(f.bold);
    proof {
        assert(out@ =~= old(out)@ + h1);
    }
    out.append("\nitalic = ");
    write_bool(out, f.italic);
    let ghost h2 = h1 + "\nitalic = "@ + bool_str(f.italic);
    proof {
        assert(out@ =~= old(out)@ + h2);
    }
    out.append("\nsize = ");
    out.append(f.size.as_str());
    let ghost head = h2 + "\nsize = "@ + f@.size;
    proof {
        assert(out@ =~= old(out)@ + head);
    }
    match &f.color {
        Some(col) => {
            out.append("\ncolor = ");
            write_str_lit(out, col.as_str());
        },
        None => {},
    }
    let ghost mid = head + (match f@.color {
        Some(c) => "\ncolor = "@ + str_lit(c),
        None => Seq::<char>::empty(),
    });
    proof {
        assert(out@ =~= old(out)@ + mid);
    }
    out.append("\nunderline = ");
    write_bool(out, f.underline);
    let ghost mid2 = mid + "\nunderline = "@ + bool_str(f.underline);
    proof {
        assert(out@ =~= old(out)@ + mid2);
    }
    out.append("\nstrike = ");
    write_bool(out, f.strike);
    out.append("\n");
    proof {
        assert(font_toml(f@) =~= mid2 + "\nstrike = "@ + bool_str(f.strike) + "\n"@);
        assert(final(out)@ =~= old(out)@ + (mid2 + "\nstrike = "@ + bool_str(f.strike) + "\n"@));
    }
}

/// Appends a cell's style sub-table.
#[verifier::rlimit(100)]
fn write_style(out: &mut String, st: &crate::style::CellStyle)
    ensures
        final(out)@ == old(out)@ + style_toml(st@),
{
    out.append("\n[rows.cells.style]\n");
    match &st.color {
        Some(col) => {
            out.append("color = ");
            write_str_lit(out, col.as_str());
            out.append("\n");
        },
        None => {},
    }
    let ghost head = "\n[rows.cells.style]\n"@ + (match st@.color {
        Some(c) => "color = "@ + str_lit(c) + "\n"@,
        None => Seq::<char>::empty(),
    });
    proof {
        assert(out@ =~= old(out)@ + head);
    }
    match &st.alignment {
        Some(a) => write_align(out, *a),
        None => {},
    }
    let ghost mid = head + (match st@.alignment {
        Some(a) => align_toml(a),
        None => Seq::<char>::empty(),
    });
    proof {
        assert(out@ =~= old(out)@ + mid);
    }
    match &st.border {
        Some(b) => write_border(out, *b),
        None => {},
    }
    match &st.font {
        Some(f) => write_font(out, f),
        None => {},
    }
    proof {
        assert(style_toml(st@) =~= mid + (match st@.border {
            Some(b) => border_toml(b),
            None => Seq::<char>::empty(),
        }) + (match st@.font {
            Some(f) => font_toml(f),
            None => Seq::<char>::empty(),
        }));
        assert(final(out)@ =~= old(out)@ + (mid + (match st@.border {
            Some(b) => border_toml(b),
            None => Seq::<char>::empty(),
        }) + (match st@.font {
            Some(f) => font_toml(f),
            None => Seq::<char>::empty(),
        })));
    }
}

/// Appends one cell entry.
#[verifier::rlimit(100)]
fn write_cell(out: &mut String, c: &crate::record::CellData)
    ensures
        final(out)@ == old(out)@ + cell_toml(c@),
{
    out.append("\n[[rows.cells]]\nvalue = ");
    write_str_lit(out, c.value.as_str());
    out.append("\ncolumn = ");
    write_u32(out, c.column);
    out.append("\n");
    match &c.style {
        Some(st) => write_style(out, st),
        None => {},
    }
    proof {
        assert(final(out)@ =~= old(out)@ + cell_toml(c@));
    }
}

/// Appends one row entry with its cells.
#[verifier::rlimit(100)]
fn write_row(out: &mut String, r: &crate::record::RowData)
    ensures
        final(out)@ == old(out)@ + row_toml(r@),
{
    out.append("\n[[rows]]\nrow_number = ");
    write_u32(out, r.row_number);
    out.append("\n");
    let ghost head = old(out)@ + "\n[[rows]]\nrow_number = "@ + dec_str(r@.row_number as int)
        + "\n"@;
    let mut i: usize = 0;
    while i < r.cells.len()
        invariant
            0 <= i <= r.cells.len(),
            head == old(out)@ + "\n[[rows]]\nrow_number = "@ + dec_str(r@.row_number as int)
                + "\n"@,
            r@.cells == r.cells@.map_values(|c: crate::record::CellData| c@),
            out@ == head + cells_toml(r@.cells, i as int),
        decreases r.cells.len() - i,
    {
        write_cell(out, &r.cells[i]);
        proof {
            assert(out@ =~= head + cells_toml(r@.cells, i + 1 as int));
        }
        i += 1;
    }
    proof {
        assert(final(out)@ =~= old(out)@ + row_toml(r@));
    }
}

/// Appends one merge descriptor.
#[verifier::rlimit(100)]
fn write_merged(out: &mut String, m: &crate::merge::MergedCell)
    ensures
        final(out)@ == old(out)@ + merged_toml(m@),
{
    out.append("\n[[merged_cells]]\nrange = ");
    write_str_lit(out, m.range.as_str());
    out.append("\n\n[merged_cells.start]\nrow = ");
    write_u32(out, m.start.row);
    out.append("\ncolumn = ");
    write_u32(out, m.start.column);
    out.append("\n\n[merged_cells.end]\nrow = ");
    write_u32(out, m.end.row);
    out.append("\ncolumn = ");
    write_u32(out, m.end.column);
    out.append("\n");
    proof {
        assert(final(out)@ =~= old(out)@ + merged_toml(m@));
    }
}

/// Renders the whole table description as configuration text.
pub fn render_table(t: &TableData) -> (r: String)
    ensures
        r@ == table_toml(t@),
{
    let mut out = String::new();
    out.append("[dimensions]\ncolumns = ");
    write_arr(&mut out, &t.dimensions.columns);
    out.append("\nrows = ");
    write_arr(&mut out, &t.dimensions.rows);
    out.append("\nmax_columns = ");
    write_u32(&mut out, t.dimensions.max_columns);
    out.append("\nmax_rows = ");
    write_u32(&mut out, t.dimensions.max_rows);
    out.append("\n");
    proof {
        assert(out@ =~= dims_toml(t@.dimensions));
    }
    let ghost head = dims_toml(t@.dimensions);
    let mut i: usize = 0;
    while i < t.rows.len()
        invariant
            0 <= i <= t.rows.len(),
            head == dims_toml(t@.dimensions),
            t@.rows == t.rows@.map_values(|r: crate::record::RowData| r@),
            out@ == head + rows_toml(t@.rows, i as int),
        decreases t.rows.len() - i,
    {
        write_row(&mut out, &t.rows[i]);
        proof {
            assert(out@ =~= head + rows_toml(t@.rows, i + 1 as int));
        }
        i += 1;
    }
    let ghost head2 = head + rows_toml(t@.rows, t@.rows.len() as int);
    let mut j: usize = 0;
    while j < t.merged_cells.len()
        invariant
            0 <= j <= t.merged_cells.len(),
            head2 == dims_toml(t@.dimensions) + rows_toml(t@.rows, t@.rows.len() as int),
            t@.merged_cells == t.merged_cells@.map_values(|m: crate::merge::MergedCell| m@),
            out@ == head2 + merges_toml(t@.merged_cells, j as int),
        decreases t.merged_cells.len() - j,
    {
        write_merged(&mut out, &t.merged_cells[j]);
        proof {
            assert(out@ =~= head2 + merges_toml(t@.merged_cells, j + 1 as int));
        }
        j += 1;
    }
    proof {
        assert(out@ =~= table_toml(t@));
    }
    out
}

} // verus!
