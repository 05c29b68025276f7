use xlsx_table::codec::{column_to_number, coordinate_text, number_to_column,
    parse_cell_reference, parse_merge_range, try_parse_cell_reference, try_parse_merge_range,
    try_parse_u32};
use xlsx_table::parse_bool_arg;
use xlsx_table::parse_index_arg;

#[test]
fn column_letters_fold_to_numbers() {
    assert_eq!(column_to_number("A"), 1);
    assert_eq!(column_to_number("Z"), 26);
    assert_eq!(column_to_number("AA"), 27);
    assert_eq!(column_to_number(""), 0);
    assert_eq!(column_to_number("AB"), 28);
    assert_eq!(column_to_number("BA"), 53);
    assert_eq!(column_to_number("ZZ"), 702);
}

#[test]
fn column_numbers_fold_back_to_letters() {
    assert_eq!(number_to_column(1), "A");
    assert_eq!(number_to_column(26), "Z");
    assert_eq!(number_to_column(27), "AA");
    assert_eq!(number_to_column(702), "ZZ");
    assert_eq!(number_to_column(703), "AAA");
    assert_eq!(number_to_column(0), "");
    for n in 1..1000u32 {
        assert_eq!(column_to_number(&number_to_column(n)), n);
    }
}

#[test]
fn coordinates_render_as_addresses() {
    assert_eq!(coordinate_text(2, 12), "B12");
    assert_eq!(coordinate_text(1, 1), "A1");
    assert_eq!(coordinate_text(27, 3), "AA3");
    assert_eq!(parse_cell_reference(&coordinate_text(53, 40)), (53, 40));
}

#[test]
fn cell_references_split_into_coordinates() {
    assert_eq!(parse_cell_reference("B12"), (2, 12));
    assert_eq!(parse_cell_reference("A1"), (1, 1));
    assert_eq!(parse_cell_reference("AA10"), (27, 10));
}

#[test]
fn cell_reference_row_defaults_to_zero() {
    assert_eq!(parse_cell_reference("B"), (2, 0));
    assert_eq!(parse_cell_reference("B1x"), (2, 0));
    assert_eq!(parse_cell_reference("12"), (0, 12));
    assert_eq!(parse_cell_reference(""), (0, 0));
    assert_eq!(parse_cell_reference("B99999999999"), (2, 0));
}

#[test]
fn overlong_column_run_is_rejected() {
    assert_eq!(try_parse_cell_reference("AAAAAAA1"), None);
    assert_eq!(try_parse_cell_reference("ZZZZZZ1"), Some((321272406, 1)));
}

#[test]
fn merge_ranges_split_on_colon() {
    let (start, end) = parse_merge_range("A1:C2");
    assert_eq!(start, "A1");
    assert_eq!(end, "C2");
    let (start, end) = parse_merge_range("B3:B3");
    assert_eq!(start, "B3");
    assert_eq!(end, "B3");
}

#[test]
fn merge_range_without_colon_is_rejected() {
    assert_eq!(try_parse_merge_range("A1C2"), None);
    let parts = try_parse_merge_range("A1:B2:C3").unwrap();
    assert_eq!(parts.0, "A1");
    assert_eq!(parts.1, "B2");
}

#[test]
fn row_digits_parse_like_a_standard_u32() {
    assert_eq!(try_parse_u32("0"), Some(0));
    assert_eq!(try_parse_u32("+7"), Some(7));
    assert_eq!(try_parse_u32("4294967295"), Some(u32::MAX));
    assert_eq!(try_parse_u32("4294967296"), None);
    assert_eq!(try_parse_u32(""), None);
    assert_eq!(try_parse_u32("+"), None);
    assert_eq!(try_parse_u32("1 2"), None);
    assert_eq!(try_parse_u32("-1"), None);
}

#[test]
fn toggle_buffers_decode_strictly() {
    assert_eq!(parse_bool_arg(b"true"), Some(true));
    assert_eq!(parse_bool_arg(b"false"), Some(false));
    assert_eq!(parse_bool_arg(b"True"), None);
    assert_eq!(parse_bool_arg(b"yes"), None);
    assert_eq!(parse_bool_arg(b""), None);
    assert_eq!(parse_bool_arg(b"truex"), None);
}

#[test]
fn index_buffers_decode_as_decimal() {
    assert_eq!(parse_index_arg(b"0"), Some(0));
    assert_eq!(parse_index_arg(b"12"), Some(12));
    assert_eq!(parse_index_arg(b"+3"), Some(3));
    assert_eq!(parse_index_arg(b""), None);
    assert_eq!(parse_index_arg(b"1x"), None);
    assert_eq!(parse_index_arg(b"99999999999999999999999999"), None);
}
