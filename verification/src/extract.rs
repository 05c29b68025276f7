//! The boundary to the workbook reader crate: declarations of its
//! types, one trusted wrapper per call the pipeline makes, and the
//! verified extraction of a plain worksheet snapshot.
use vstd::prelude::*;
use crate::codec::{coord_text, coordinate_text};
use crate::model::{Border, CellEntry, RawAlignment, RawFont, SheetData, SheetHAlign,
    SheetUnderline, SheetVAlign, SizeOverride, StyleToggles};

verus! {

#[verifier::external_type_specification]
#[verifier::external_body]
pub struct ExSpreadsheet(umya_spreadsheet::Spreadsheet);

#[verifier::external_type_specification]
#[verifier::external_body]
pub struct ExWorksheet(umya_spreadsheet::Worksheet);

#[verifier::external_type_specification]
#[verifier::external_body]
pub struct ExCell(umya_spreadsheet::Cell);

#[verifier::external_type_specification]
#[verifier::external_body]
pub struct ExAlignment(umya_spreadsheet::Alignment);

#[verifier::external_type_specification]
#[verifier::external_body]
pub struct ExFont(umya_spreadsheet::Font);

#[verifier::external_type_specification]
#[verifier::external_body]
pub struct ExColumn(umya_spreadsheet::Column);

#[verifier::external_type_specification]
#[verifier::external_body]
pub struct ExRow(umya_spreadsheet::Row);

#[verifier::external_type_specification]
#[verifier::external_body]
pub struct ExRange(umya_spreadsheet::Range);

/// Relies on `Spreadsheet::get_sheet_collection_no_check`: the
/// worksheet at a 0-based index, when the workbook has one there.
/// (The checked `get_sheet` accessor instead asserts that the sheet
/// was deserialized; this one is total, and the caller is expected to
/// hand in a fully read workbook.)
#[verifier::external_body]
fn get_sheet(book: &umya_spreadsheet::Spreadsheet, index: usize) -> (r: Option<
    &umya_spreadsheet::Worksheet,
>) {
    book.get_sheet_collection_no_check().get(index)
}

/// Relies on `Worksheet::get_cell_collection`: every cell the sheet
/// stores, in its storage order.
#[verifier::external_body]
fn sheet_cells(ws: &umya_spreadsheet::Worksheet) -> (r: Vec<&umya_spreadsheet::Cell>) {
    ws.get_cell_collection()
}

/// Relies on `Coordinate::get_col_num`: the cell's 1-based column
/// number.
#[verifier::external_body]
fn cell_column_number(cell: &umya_spreadsheet::Cell) -> (r: u32) {
    *cell.get_coordinate().get_col_num()
}

/// Relies on `Coordinate::get_row_num`: the cell's 1-based row
/// number.
#[verifier::external_body]
fn cell_row_number(cell: &umya_spreadsheet::Cell) -> (r: u32) {
    *cell.get_coordinate().get_row_num()
}

/// Relies on `CellRawValue::is_error`: whether the cell's raw value
/// is a formula error marker.
#[verifier::external_body]
fn cell_has_error_value(cell: &umya_spreadsheet::Cell) -> (r: bool) {
    cell.get_raw_value().is_error()
}

/// Relies on `Cell::get_value`: the cell's display text.
#[verifier::external_body]
fn cell_value_text(cell: &umya_spreadsheet::Cell) -> (r: String) {
    cell.get_value().to_string()
}

/// Relies on `Style::get_alignment`: the cell style's alignment
/// element, when set.
#[verifier::external_body]
fn cell_alignment<'a>(cell: &'a umya_spreadsheet::Cell) -> (r: Option<
    &'a umya_spreadsheet::Alignment,
>) {
    cell.get_style().get_alignment()
}

/// Relies on `Alignment::get_horizontal`: the stored horizontal
/// alignment, one library variant per reader variant.
#[verifier::external_body]
fn alignment_horizontal(a: &umya_spreadsheet::Alignment) -> (r: SheetHAlign) {
    match a.get_horizontal() {
        umya_spreadsheet::HorizontalAlignmentValues::Center => SheetHAlign::Center,
        umya_spreadsheet::HorizontalAlignmentValues::CenterContinuous => {
            SheetHAlign::CenterContinuous
        },
        umya_spreadsheet::HorizontalAlignmentValues::Distributed => SheetHAlign::Distributed,
        umya_spreadsheet::HorizontalAlignmentValues::Fill => SheetHAlign::Fill,
        umya_spreadsheet::HorizontalAlignmentValues::General => SheetHAlign::General,
        umya_spreadsheet::HorizontalAlignmentValues::Justify => SheetHAlign::Justify,
        umya_spreadsheet::HorizontalAlignmentValues::Left => SheetHAlign::Left,
        umya_spreadsheet::HorizontalAlignmentValues::Right => SheetHAlign::Right,
    }
}

/// Relies on `Alignment::get_vertical`: the stored vertical
/// alignment, one library variant per reader variant.
#[verifier::external_body]
fn alignment_vertical(a: &umya_spreadsheet::Alignment) -> (r: SheetVAlign) {
    match a.get_vertical() {
        umya_spreadsheet::VerticalAlignmentValues::Bottom => SheetVAlign::Bottom,
        umya_spreadsheet::VerticalAlignmentValues::Center => SheetVAlign::Center,
        umya_spreadsheet::VerticalAlignmentValues::Distributed => SheetVAlign::Distributed,
        umya_spreadsheet::VerticalAlignmentValues::Justify => SheetVAlign::Justify,
        umya_spreadsheet::VerticalAlignmentValues::Top => SheetVAlign::Top,
    }
}

/// Relies on `Style::get_borders` and the `Borders` side getters:
/// when the style has a borders element, each flag is true exactly
/// when that side's border style is a variant other than `None`.
#[verifier::external_body]
fn cell_border_flags(cell: &umya_spreadsheet::Cell) -> (r: Option<Border>) {
    cell.get_style().get_borders().map(|b| Border {
        left: b.get_left().get_style() != &umya_spreadsheet::BorderStyleValues::None,
        right: b.get_right().get_style() != &umya_spreadsheet::BorderStyleValues::None,
        top: b.get_top().get_style() != &umya_spreadsheet::BorderStyleValues::None,
        bottom: b.get_bottom().get_style() != &umya_spreadsheet::BorderStyleValues::None,
    })
}

/// Relies on `Style::get_background_color` and
/// `Color::get_argb_with_theme`: the fill's raw ARGB text, resolved
/// through the workbook theme, when the style has a fill color; the
/// text is empty when the stored color holds no value. (The reader
/// aborts on a workbook whose theme holds malformed color text and
/// whose color carries a tint, as the original did.)
#[verifier::external_body]
fn cell_background_argb(
    cell: &umya_spreadsheet::Cell,
    book: &umya_spreadsheet::Spreadsheet,
) -> (r: Option<String>) {
    cell.get_style().get_background_color().map(
        |c| c.get_argb_with_theme(book.get_theme()).to_string(),
    )
}

/// Relies on `Style::get_font`: the cell style's font element, when
/// set.
#[verifier::external_body]
fn cell_font<'a>(cell: &'a umya_spreadsheet::Cell) -> (r: Option<&'a umya_spreadsheet::Font>) {
    cell.get_style().get_font()
}

/// Relies on `Font::get_font_bold`: the stored bold flag.
#[verifier::external_body]
fn font_bold(f: &umya_spreadsheet::Font) -> (r: bool) {
    *f.get_font_bold().get_val()
}

/// Relies on `Font::get_font_italic`: the stored italic flag.
#[verifier::external_body]
fn font_italic(f: &umya_spreadsheet::Font) -> (r: bool) {
    *f.get_font_italic().get_val()
}

/// Relies on `Font::get_font_size`: the stored point size as its
/// decimal text.
#[verifier::external_body]
fn font_size_text(f: &umya_spreadsheet::Font) -> (r: String) {
    format!("{:?}", *f.get_font_size().get_val())
}

/// Relies on `Font::get_color` and `Color::get_argb_with_theme`: the
/// font color's raw ARGB text resolved through the workbook theme,
/// empty when the stored color holds no value. (The reader aborts on
/// a workbook whose theme holds malformed color text and whose color
/// carries a tint, as the original did.)
#[verifier::external_body]
fn font_color_argb(f: &umya_spreadsheet::Font, book: &umya_spreadsheet::Spreadsheet) -> (r:
    String) {
    f.get_color().get_argb_with_theme(book.get_theme()).to_string()
}

/// Relies on `Font::get_font_underline`: the stored underline
/// variant, one library variant per reader variant.
#[verifier::external_body]
fn font_underline_kind(f: &umya_spreadsheet::Font) -> (r: SheetUnderline) {
    match f.get_font_underline().get_val() {
        umya_spreadsheet::UnderlineValues::Double => SheetUnderline::Double,
        umya_spreadsheet::UnderlineValues::DoubleAccounting => SheetUnderline::DoubleAccounting,
        umya_spreadsheet::UnderlineValues::None => SheetUnderline::NoUnderline,
        umya_spreadsheet::UnderlineValues::Single => SheetUnderline::Single,
        umya_spreadsheet::UnderlineValues::SingleAccounting => SheetUnderline::SingleAccounting,
    }
}

/// Relies on `Font::get_font_strike`: the stored strike flag.
#[verifier::external_body]
fn font_strike(f: &umya_spreadsheet::Font) -> (r: bool) {
    *f.get_font_strike().get_val()
}

/// Relies on `Worksheet::get_column_dimensions`: the explicit column
/// width records.
#[verifier::external_body]
fn column_dimensions<'a>(ws: &'a umya_spreadsheet::Worksheet) -> (r: &'a [umya_spreadsheet::Column]) {
    ws.get_column_dimensions()
}

/// Relies on `Column::get_col_num`: the record's 1-based column
/// index.
#[verifier::external_body]
fn column_number(c: &umya_spreadsheet::Column) -> (r: u32) {
    *c.get_col_num()
}

/// Relies on `Column::get_width`: the explicit width as its decimal
/// text.
#[verifier::external_body]
fn column_width_text(c: &umya_spreadsheet::Column) -> (r: String) {
    format!("{:?}", *c.get_width())
}

/// Relies on `Worksheet::get_row_dimensions`: the explicit row height
/// records.
#[verifier::external_body]
fn row_dimensions<'a>(ws: &'a umya_spreadsheet::Worksheet) -> (r: Vec<&'a umya_spreadsheet::Row>) {
    ws.get_row_dimensions()
}

/// Relies on `Row::get_row_num`: the record's 1-based row index.
#[verifier::external_body]
fn row_number(r0: &umya_spreadsheet::Row) -> (r: u32) {
    *r0.get_row_num()
}

/// Relies on `Row::get_height`: the explicit height as its decimal
/// text.
#[verifier::external_body]
fn row_height_text(r0: &umya_spreadsheet::Row) -> (r: String) {
    format!("{:?}", *r0.get_height())
}

/// Relies on `Worksheet::get_merge_cells`: the sheet's merge ranges.
#[verifier::external_body]
fn merge_cells<'a>(ws: &'a umya_spreadsheet::Worksheet) -> (r: &'a [umya_spreadsheet::Range]) {
    ws.get_merge_cells()
}

/// Relies on `Range::get_range`: the range's text, such as `"A1:C2"`.
#[verifier::external_body]
fn range_text(rg: &umya_spreadsheet::Range) -> (r: String) {
    rg.get_range()
}

/// Relies on `SheetFormatProperties::get_default_column_width`: the
/// sheet-wide default column width as its decimal text.
#[verifier::external_body]
fn default_column_width_text(ws: &umya_spreadsheet::Worksheet) -> (r: String) {
    format!("{:?}", *ws.get_sheet_format_properties().get_default_column_width())
}

/// Relies on `SheetFormatProperties::get_default_row_height`: the
/// sheet-wide default row height as its decimal text.
#[verifier::external_body]
fn default_row_height_text(ws: &umya_spreadsheet::Worksheet) -> (r: String) {
    format!("{:?}", *ws.get_sheet_format_properties().get_default_row_height())
}

/// Fetches the worksheet at the given 0-based index, or reports that
/// the workbook has none there.
pub fn fetch_sheet(book: &umya_spreadsheet::Spreadsheet, index: usize) -> (r: Result<
    &umya_spreadsheet::Worksheet,
    String,
>)
    ensures
        r matches Err(m) ==> m@ == "Failed to get worksheet"@,
{
    match get_sheet(book, index) {
        Some(ws) => Ok(ws),
        None => Err(String::from_str("Failed to get worksheet")),
    }
}

/// Reads one worksheet into the plain snapshot the verified pipeline
/// works on. Each cell's coordinate numbers come from the reader's
/// total getters, and its address text is built by the reference
/// codec; style readings are made only for the enabled toggles.
pub fn extract_sheet(
    book: &umya_spreadsheet::Spreadsheet,
    ws: &umya_spreadsheet::Worksheet,
    t: StyleToggles,
) -> (s: SheetData)
    ensures
        forall|i: int|
            0 <= i < s@.cells.len() ==> (#[trigger] s@.cells[i]).coordinate == coord_text(
                s@.cells[i].column as int,
                s@.cells[i].row as int,
            ),
        forall|i: int|
            0 <= i < s@.cells.len() ==> ((!t.alignment ==> (#[trigger] s@.cells[i]).alignment
                is None) && (!t.border ==> s@.cells[i].border is None) && (!t.bg_color
                ==> s@.cells[i].background_argb is None) && (!t.font ==> s@.cells[i].font
                is None)),
{
    let raw_cells = sheet_cells(ws);
    let mut cells: Vec<CellEntry> = Vec::new();
    let mut i: usize = 0;
    while i < raw_cells.len()
        invariant
            forall|k: int|
                0 <= k < cells@.len() ==> (#[trigger] cells@[k]@).coordinate == coord_text(
                    cells@[k]@.column as int,
                    cells@[k]@.row as int,
                ),
            forall|k: int|
                0 <= k < cells@.len() ==> ((!t.alignment ==> (#[trigger] cells@[k]@).alignment
                    is None) && (!t.border ==> cells@[k]@.border is None) && (!t.bg_color
                    ==> cells@[k]@.background_argb is None) && (!t.font ==> cells@[k]@.font
                    is None)),
        decreases raw_cells.len() - i,
    {
        let cell = raw_cells[i];
        let column = cell_column_number(cell);
        let row = cell_row_number(cell);
        let coordinate = coordinate_text(column, row);
        let alignment: Option<RawAlignment> = if t.alignment {
            match cell_alignment(cell) {
                Some(a) => Some(
                    RawAlignment {
                        horizontal: alignment_horizontal(a),
                        vertical: alignment_vertical(a),
                    },
                ),
                None => None,
            }
        } else {
            None
        };
        let border: Option<Border> = if t.border {
            cell_border_flags(cell)
        } else {
            None
        };
        let background_argb: Option<String> = if t.bg_color {
            cell_background_argb(cell, book)
        } else {
            None
        };
        let font: Option<RawFont> = if t.font {
            match cell_font(cell) {
                Some(f) => Some(
                    RawFont {
                        bold: font_bold(f),
                        italic: font_italic(f),
                        size: font_size_text(f),
                        color_argb: font_color_argb(f, book),
                        underline: font_underline_kind(f),
                        strike: font_strike(f),
                    },
                ),
                None => None,
            }
        } else {
            None
        };
        let entry = CellEntry {
            column,
            row,
            coordinate,
            value: cell_value_text(cell),
            is_error: cell_has_error_value(cell),
            alignment,
            border,
            background_argb,
            font,
        };
        cells.push(entry);
        i += 1;
    }
    let cols = column_dimensions(ws);
    let mut column_overrides: Vec<SizeOverride> = Vec::new();
    let mut j: usize = 0;
    while j < cols.len()
        decreases cols.len() - j,
    {
        let c = &cols[j];
        column_overrides.push(SizeOverride { index: column_number(c), size: column_width_text(c) });
        j += 1;
    }
    let rows = row_dimensions(ws);
    let mut row_overrides: Vec<SizeOverride> = Vec::new();
    let mut k: usize = 0;
    while k < rows.len()
        decreases rows.len() - k,
    {
        let rw = rows[k];
        row_overrides.push(SizeOverride { index: row_number(rw), size: row_height_text(rw) });
        k += 1;
    }
    let ranges = merge_cells(ws);
    let mut merge_ranges: Vec<String> = Vec::new();
    let mut n: usize = 0;
    while n < ranges.len()
        decreases ranges.len() - n,
    {
        merge_ranges.push(range_text(&ranges[n]));
        n += 1;
    }
    SheetData {
        cells,
        column_overrides,
        row_overrides,
        merge_ranges,
        default_column_width: default_column_width_text(ws),
        default_row_height: default_row_height_text(ws),
    }
}

} // verus!
