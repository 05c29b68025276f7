use std::io::Cursor;
use xlsx_table::to_typst;

// Writes the workbook to an in-memory file and decodes it back, so
// the conversion sees reader-built structures, as the plugin does.
fn reread(book: &umya_spreadsheet::Spreadsheet) -> umya_spreadsheet::Spreadsheet {
    let mut buf: Vec<u8> = Vec::new();
    umya_spreadsheet::writer::xlsx::write_writer(book, &mut Cursor::new(&mut buf)).unwrap();
    umya_spreadsheet::reader::xlsx::read_reader(Cursor::new(&buf[..]), true).unwrap()
}

fn simple_book() -> umya_spreadsheet::Spreadsheet {
    let mut book = umya_spreadsheet::new_file();
    let ws = book.get_sheet_mut(&0).unwrap();
    ws.get_cell_mut("A1").set_value("Name");
    ws.get_cell_mut("B1").set_value("Age");
    ws.get_cell_mut("A2").set_value("Ann");
    ws.get_cell_mut("B2").set_value("30");
    book
}

#[test]
fn converts_a_simple_sheet() {
    let book = reread(&simple_book());
    let out = to_typst(&book, b"0", b"false", b"false", b"false", b"false").unwrap();
    let text = String::from_utf8(out).unwrap();
    let parsed: toml::Table = toml::from_str(&text).unwrap();
    assert_eq!(parsed["dimensions"]["max_columns"].as_integer().unwrap(), 2);
    assert_eq!(parsed["dimensions"]["max_rows"].as_integer().unwrap(), 2);
    let rows = parsed["rows"].as_array().unwrap();
    assert_eq!(rows.len(), 2);
    let first = rows[0]["cells"].as_array().unwrap();
    assert_eq!(first[0]["value"].as_str().unwrap(), "Name");
    assert_eq!(first[1]["value"].as_str().unwrap(), "Age");
    assert_eq!(first[1]["column"].as_integer().unwrap(), 2);
}

#[test]
fn repeated_calls_yield_identical_bytes() {
    let book = reread(&simple_book());
    let a = to_typst(&book, b"0", b"true", b"true", b"true", b"true").unwrap();
    let b = to_typst(&book, b"0", b"true", b"true", b"true", b"true").unwrap();
    assert_eq!(a, b);
}

#[test]
fn merged_cells_suppress_covered_coordinates() {
    let mut book = umya_spreadsheet::new_file();
    {
        let ws = book.get_sheet_mut(&0).unwrap();
        ws.get_cell_mut("A1").set_value("Title");
        ws.get_cell_mut("B1").set_value("hidden");
        ws.get_cell_mut("A2").set_value("body");
        ws.add_merge_cells("A1:B1");
    }
    let book = reread(&book);
    let out = to_typst(&book, b"0", b"false", b"false", b"false", b"false").unwrap();
    let text = String::from_utf8(out).unwrap();
    let parsed: toml::Table = toml::from_str(&text).unwrap();
    let merged = parsed["merged_cells"].as_array().unwrap();
    assert_eq!(merged.len(), 1);
    assert_eq!(merged[0]["start"]["row"].as_integer().unwrap(), 1);
    assert_eq!(merged[0]["start"]["column"].as_integer().unwrap(), 1);
    assert_eq!(merged[0]["end"]["row"].as_integer().unwrap(), 1);
    assert_eq!(merged[0]["end"]["column"].as_integer().unwrap(), 2);
    let rows = parsed["rows"].as_array().unwrap();
    let first = rows[0]["cells"].as_array().unwrap();
    assert_eq!(first.len(), 1);
    assert_eq!(first[0]["value"].as_str().unwrap(), "Title");
}

#[test]
fn styles_come_through_the_reader() {
    let mut book = umya_spreadsheet::new_file();
    {
        let ws = book.get_sheet_mut(&0).unwrap();
        let cell = ws.get_cell_mut("A1");
        cell.set_value("loud");
        let style = cell.get_style_mut();
        style.set_background_color("FFFF0000");
        let font = style.get_font_mut();
        font.get_font_bold_mut().set_val(true);
        let alignment = style.get_alignment_mut();
        alignment.set_horizontal(umya_spreadsheet::HorizontalAlignmentValues::Center);
        alignment.set_vertical(umya_spreadsheet::VerticalAlignmentValues::Top);
    }
    let book = reread(&book);
    let out = to_typst(&book, b"0", b"true", b"true", b"true", b"true").unwrap();
    let text = String::from_utf8(out).unwrap();
    let parsed: toml::Table = toml::from_str(&text).unwrap();
    let cell = &parsed["rows"].as_array().unwrap()[0]["cells"].as_array().unwrap()[0];
    assert_eq!(cell["style"]["alignment"]["horizontal"].as_str().unwrap(), "center");
    assert_eq!(cell["style"]["alignment"]["vertical"].as_str().unwrap(), "top");
    assert_eq!(cell["style"]["color"].as_str().unwrap(), "ff0000");
    assert_eq!(cell["style"]["font"]["bold"].as_bool().unwrap(), true);
}

#[test]
fn formula_error_cells_abort_with_their_address() {
    let mut book = umya_spreadsheet::new_file();
    {
        let ws = book.get_sheet_mut(&0).unwrap();
        ws.get_cell_mut("A1").set_value("fine");
        ws.get_cell_mut("B2").set_error("#DIV/0!");
    }
    let book = reread(&book);
    let err = to_typst(&book, b"0", b"false", b"false", b"false", b"false").unwrap_err();
    assert_eq!(err, "Error in cell B2");
}

#[test]
fn missing_sheet_index_is_reported() {
    let book = reread(&simple_book());
    let err = to_typst(&book, b"5", b"false", b"false", b"false", b"false").unwrap_err();
    assert_eq!(err, "Failed to get worksheet");
}

#[test]
fn malformed_toggle_buffers_are_reported() {
    let book = reread(&simple_book());
    let err = to_typst(&book, b"0", b"yes", b"false", b"false", b"false").unwrap_err();
    assert_eq!(err, "Failed to parse parse_alignment");
    let err2 = to_typst(&book, b"zero", b"false", b"false", b"false", b"false").unwrap_err();
    assert_eq!(err2, "Failed to parse sheet index");
}

#[test]
fn empty_sheet_is_reported() {
    let book = reread(&umya_spreadsheet::new_file());
    let err = to_typst(&book, b"0", b"false", b"false", b"false", b"false").unwrap_err();
    assert_eq!(err, "No data found in the worksheet");
}

#[test]
fn explicit_column_widths_reach_the_output() {
    let mut book = umya_spreadsheet::new_file();
    {
        let ws = book.get_sheet_mut(&0).unwrap();
        ws.get_cell_mut("A1").set_value("x");
        ws.get_cell_mut("B1").set_value("y");
        ws.get_column_dimension_mut("A").set_width(20.5);
        ws.get_row_dimension_mut(&1).set_height(30.0);
    }
    let book = reread(&book);
    let out = to_typst(&book, b"0", b"false", b"false", b"false", b"false").unwrap();
    let text = String::from_utf8(out).unwrap();
    let parsed: toml::Table = toml::from_str(&text).unwrap();
    let columns = parsed["dimensions"]["columns"].as_array().unwrap();
    assert_eq!(columns[0].as_float().unwrap(), 20.5);
    let heights = parsed["dimensions"]["rows"].as_array().unwrap();
    assert_eq!(heights[0].as_float().unwrap(), 30.0);
}
