use xlsx_table::assemble::{build_table, cell_value};
use xlsx_table::merge::{is_suppressed, parse_merge_cells, Position};
use xlsx_table::model::{CellEntry, SheetData, SizeOverride, StyleToggles};
use xlsx_table::scan::{get_column_widths, get_row_heights, get_table_dimensions};
use xlsx_table::style::resolve_color;
use xlsx_table::style::{HAlign, VAlign};
use xlsx_table::model::{Border, RawAlignment, RawFont, SheetHAlign, SheetUnderline, SheetVAlign};
use xlsx_table::toml_text::render_table;

fn entry(col: u32, row: u32, coord: &str, value: &str) -> CellEntry {
    CellEntry {
        column: col,
        row,
        coordinate: coord.to_string(),
        value: value.to_string(),
        is_error: false,
        alignment: None,
        border: None,
        background_argb: None,
        font: None,
    }
}

fn toggles_off() -> StyleToggles {
    StyleToggles { alignment: false, border: false, bg_color: false, font: false }
}

fn sheet(cells: Vec<CellEntry>, merges: Vec<String>) -> SheetData {
    SheetData {
        cells,
        column_overrides: vec![],
        row_overrides: vec![],
        merge_ranges: merges,
        default_column_width: "10.0".to_string(),
        default_row_height: "13.5".to_string(),
    }
}

#[test]
fn dimensions_track_the_true_maxima() {
    let cells = vec![entry(3, 2, "C2", "x"), entry(1, 5, "A5", "y")];
    assert_eq!(get_table_dimensions(&cells).unwrap(), (3, 5));
}

#[test]
fn empty_worksheet_is_an_error() {
    let r = get_table_dimensions(&vec![]);
    assert_eq!(r.unwrap_err(), "No data found in the worksheet");
    let r2 = get_table_dimensions(&vec![entry(0, 12, "12", "x")]);
    assert_eq!(r2.unwrap_err(), "No data found in the worksheet");
}

#[test]
fn size_overrides_apply_in_order() {
    let overrides = vec![
        SizeOverride { index: 1, size: "5.5".to_string() },
        SizeOverride { index: 3, size: "7.25".to_string() },
        SizeOverride { index: 1, size: "6.0".to_string() },
        SizeOverride { index: 0, size: "9.0".to_string() },
    ];
    let d = "10.0".to_string();
    let w = get_column_widths(&overrides, 2, &d);
    assert_eq!(w, vec!["6.0".to_string(), "10.0".to_string()]);
    let h = get_row_heights(&overrides, 4, &d);
    assert_eq!(
        h,
        vec!["6.0".to_string(), "10.0".to_string(), "7.25".to_string(), "10.0".to_string()],
    );
}

#[test]
fn merge_parsing_yields_rectangles() {
    let ms = parse_merge_cells(&vec!["A1:C2".to_string()]).unwrap();
    assert_eq!(ms.len(), 1);
    assert_eq!(ms[0].range, "A1:C2");
    assert_eq!(ms[0].start, Position { row: 1, column: 1 });
    assert_eq!(ms[0].end, Position { row: 2, column: 3 });
    assert_eq!(ms[0].row_span(), 2);
    assert_eq!(ms[0].col_span(), 3);
}

#[test]
fn single_cell_merge_has_span_one() {
    let ms = parse_merge_cells(&vec!["B2:B2".to_string()]).unwrap();
    assert_eq!(ms[0].row_span(), 1);
    assert_eq!(ms[0].col_span(), 1);
}

#[test]
fn malformed_merge_ranges_are_rejected() {
    let r = parse_merge_cells(&vec!["A1B2".to_string()]);
    assert_eq!(r.unwrap_err(), "Invalid merge range in worksheet");
    let r2 = parse_merge_cells(&vec!["B2:A1".to_string()]);
    assert_eq!(r2.unwrap_err(), "Invalid merge range in worksheet");
}

#[test]
fn double_covering_merge_ranges_are_rejected() {
    let r = parse_merge_cells(&vec!["A1:B2".to_string(), "B2:C3".to_string()]);
    assert_eq!(r.unwrap_err(), "Overlapping merge ranges in worksheet");
    let ok = parse_merge_cells(&vec!["A1:B2".to_string(), "C1:C3".to_string()]);
    assert!(ok.is_ok());
}

#[test]
fn suppression_spares_the_anchor() {
    let ms = parse_merge_cells(&vec!["A1:B2".to_string()]).unwrap();
    assert!(!is_suppressed(&ms, 1, 1));
    assert!(is_suppressed(&ms, 2, 1));
    assert!(is_suppressed(&ms, 1, 2));
    assert!(is_suppressed(&ms, 2, 2));
    assert!(!is_suppressed(&ms, 3, 1));
}

#[test]
fn colors_resolve_to_six_lowercase_hex_digits() {
    assert_eq!(resolve_color("FFFF0000").unwrap(), "ff0000");
    assert_eq!(resolve_color("00ABCDEF").unwrap(), "abcdef");
    assert_eq!(resolve_color("FF0000").unwrap(), "ff0000");
    assert_eq!(resolve_color("abcdef").unwrap(), "abcdef");
    assert_eq!(resolve_color(""), None);
    assert_eq!(resolve_color("12345"), None);
    assert_eq!(resolve_color("GGGGGG"), None);
    assert_eq!(resolve_color("FFFF00001"), None);
    for s in ["FFFF0000", "FF0000", "1a2B3c", "00000000"] {
        if let Some(c) = resolve_color(s) {
            assert_eq!(c.len(), 6);
            assert!(c.chars().all(|ch| ch.is_ascii_hexdigit() && !ch.is_ascii_uppercase()));
        }
    }
}

#[test]
fn value_extraction_fails_on_formula_errors() {
    let mut e = entry(2, 2, "B2", "#DIV/0!");
    assert_eq!(cell_value(&e).unwrap(), "#DIV/0!");
    e.is_error = true;
    assert_eq!(cell_value(&e).unwrap_err(), "Error in cell B2");
}

#[test]
fn error_cell_aborts_the_conversion() {
    let mut bad = entry(2, 2, "B2", "x");
    bad.is_error = true;
    let s = sheet(vec![entry(1, 1, "A1", "ok"), bad], vec![]);
    let r = build_table(&s, toggles_off());
    assert_eq!(r.unwrap_err(), "Error in cell B2");
    let all = StyleToggles { alignment: true, border: true, bg_color: true, font: true };
    let r2 = build_table(&s, all);
    assert_eq!(r2.unwrap_err(), "Error in cell B2");
}

#[test]
fn error_in_suppressed_cell_is_ignored() {
    let mut bad = entry(2, 1, "B1", "x");
    bad.is_error = true;
    let s = sheet(vec![entry(1, 1, "A1", "Title"), bad], vec!["A1:B1".to_string()]);
    let t = build_table(&s, toggles_off()).unwrap();
    assert_eq!(t.rows.len(), 1);
    assert_eq!(t.rows[0].cells.len(), 1);
}

#[test]
fn two_by_two_grid_without_styles() {
    let s = sheet(
        vec![
            entry(1, 1, "A1", "Name"),
            entry(2, 1, "B1", "Age"),
            entry(1, 2, "A2", "Ann"),
            entry(2, 2, "B2", "30"),
        ],
        vec![],
    );
    let t = build_table(&s, toggles_off()).unwrap();
    assert_eq!(t.dimensions.columns, vec!["10.0".to_string(), "10.0".to_string()]);
    assert_eq!(t.dimensions.rows, vec!["13.5".to_string(), "13.5".to_string()]);
    assert_eq!(t.dimensions.max_columns, 2);
    assert_eq!(t.dimensions.max_rows, 2);
    assert_eq!(t.rows.len(), 2);
    assert_eq!(t.rows[0].row_number, 1);
    assert_eq!(t.rows[0].cells.len(), 2);
    assert_eq!(t.rows[0].cells[0].value, "Name");
    assert_eq!(t.rows[0].cells[0].column, 1);
    assert!(t.rows[0].cells[0].style.is_none());
    assert_eq!(t.rows[1].cells[1].value, "30");
    assert!(t.merged_cells.is_empty());
    let text = render_table(&t);
    let expected = "[dimensions]\ncolumns = [10.0, 10.0]\nrows = [13.5, 13.5]\nmax_columns = 2\nmax_rows = 2\n\
\n[[rows]]\nrow_number = 1\n\
\n[[rows.cells]]\nvalue = \"Name\"\ncolumn = 1\n\
\n[[rows.cells]]\nvalue = \"Age\"\ncolumn = 2\n\
\n[[rows]]\nrow_number = 2\n\
\n[[rows.cells]]\nvalue = \"Ann\"\ncolumn = 1\n\
\n[[rows.cells]]\nvalue = \"30\"\ncolumn = 2\n";
    assert_eq!(text, expected);
    let parsed: toml::Table = toml::from_str(&text).unwrap();
    assert!(parsed.contains_key("dimensions"));
    assert!(parsed.contains_key("rows"));
    assert!(!parsed.contains_key("merged_cells"));
}

#[test]
fn merged_header_keeps_only_the_anchor() {
    let s = sheet(
        vec![entry(1, 1, "A1", "Title"), entry(2, 1, "B1", "hidden")],
        vec!["A1:B1".to_string()],
    );
    let t = build_table(&s, toggles_off()).unwrap();
    assert_eq!(t.merged_cells.len(), 1);
    assert_eq!(t.merged_cells[0].start, Position { row: 1, column: 1 });
    assert_eq!(t.merged_cells[0].end, Position { row: 1, column: 2 });
    assert_eq!(t.rows.len(), 1);
    assert_eq!(t.rows[0].cells.len(), 1);
    assert_eq!(t.rows[0].cells[0].value, "Title");
    assert_eq!(t.rows[0].cells[0].column, 1);
    for row in &t.rows {
        for cell in &row.cells {
            assert!(!is_suppressed(&t.merged_cells, cell.column, row.row_number));
        }
    }
    let text = render_table(&t);
    let parsed: toml::Table = toml::from_str(&text).unwrap();
    let merged = parsed["merged_cells"].as_array().unwrap();
    assert_eq!(merged.len(), 1);
    assert_eq!(merged[0]["range"].as_str().unwrap(), "A1:B1");
    assert_eq!(merged[0]["start"]["row"].as_integer().unwrap(), 1);
    assert_eq!(merged[0]["end"]["column"].as_integer().unwrap(), 2);
}

#[test]
fn rows_left_empty_are_omitted() {
    let s = sheet(vec![entry(1, 3, "A3", "only")], vec![]);
    let t = build_table(&s, toggles_off()).unwrap();
    assert_eq!(t.dimensions.max_rows, 3);
    assert_eq!(t.rows.len(), 1);
    assert_eq!(t.rows[0].row_number, 3);
}

#[test]
fn rendering_is_deterministic() {
    let s = sheet(
        vec![entry(1, 1, "A1", "a"), entry(2, 1, "B1", "b")],
        vec![],
    );
    let t1 = build_table(&s, toggles_off()).unwrap();
    let t2 = build_table(&s, toggles_off()).unwrap();
    assert_eq!(render_table(&t1).into_bytes(), render_table(&t2).into_bytes());
}

#[test]
fn style_fields_follow_their_toggles() {
    let mut e = entry(1, 1, "A1", "x");
    e.alignment = Some(RawAlignment { horizontal: SheetHAlign::Left, vertical: SheetVAlign::Top });
    e.border = Some(Border { left: true, right: false, top: true, bottom: false });
    e.background_argb = Some("FFFF0000".to_string());
    e.font = Some(
        RawFont {
            bold: true,
            italic: false,
            size: "11.0".to_string(),
            color_argb: "FF00FF00".to_string(),
            underline: SheetUnderline::Single,
            strike: false,
        },
    );
    let s = sheet(vec![e], vec![]);
    let all = StyleToggles { alignment: true, border: true, bg_color: true, font: true };
    let t = build_table(&s, all).unwrap();
    let st = t.rows[0].cells[0].style.as_ref().unwrap();
    let a = st.alignment.as_ref().unwrap();
    assert_eq!(a.horizontal, HAlign::Left);
    assert_eq!(a.vertical, VAlign::Top);
    let b = st.border.as_ref().unwrap();
    assert!(b.left && b.top && !b.right && !b.bottom);
    assert_eq!(st.color.as_ref().unwrap(), "ff0000");
    let f = st.font.as_ref().unwrap();
    assert!(f.bold && f.underline && !f.italic && !f.strike);
    assert_eq!(f.size, "11.0");
    assert_eq!(f.color.as_ref().unwrap(), "00ff00");
    let text = render_table(&t);
    let parsed: toml::Table = toml::from_str(&text).unwrap();
    let cell = &parsed["rows"].as_array().unwrap()[0]["cells"].as_array().unwrap()[0];
    assert_eq!(cell["style"]["alignment"]["horizontal"].as_str().unwrap(), "left");
    assert_eq!(cell["style"]["alignment"]["vertical"].as_str().unwrap(), "top");
    assert_eq!(cell["style"]["color"].as_str().unwrap(), "ff0000");
    assert_eq!(cell["style"]["border"]["left"].as_bool().unwrap(), true);
    assert_eq!(cell["style"]["font"]["size"].as_float().unwrap(), 11.0);
    assert_eq!(cell["style"]["font"]["color"].as_str().unwrap(), "00ff00");

    let border_only = StyleToggles { alignment: false, border: true, bg_color: true, font: false };
    let t2 = build_table(&s, border_only).unwrap();
    let st2 = t2.rows[0].cells[0].style.as_ref().unwrap();
    assert!(st2.alignment.is_none());
    assert!(st2.font.is_none());
    let b2 = st2.border.as_ref().unwrap();
    assert!(b2.left && b2.top && !b2.right && !b2.bottom);
    assert_eq!(st2.color.as_ref().unwrap(), "ff0000");

    let t3 = build_table(&s, toggles_off()).unwrap();
    assert!(t3.rows[0].cells[0].style.is_none());
}

#[test]
fn values_with_special_characters_survive_rendering() {
    let tricky = "he said \"hi\"\\ and\nleft\tfast\u{1}";
    let s = sheet(vec![entry(1, 1, "A1", tricky)], vec![]);
    let t = build_table(&s, toggles_off()).unwrap();
    let text = render_table(&t);
    let parsed: toml::Table = toml::from_str(&text).unwrap();
    let rows = parsed["rows"].as_array().unwrap();
    let cells = rows[0]["cells"].as_array().unwrap();
    assert_eq!(cells[0]["value"].as_str().unwrap(), tricky);
}
