//! Value extractor and table assembler: walks the occupied grid row
//! by row, skips merge-suppressed coordinates, extracts values and
//! styles, and assembles the structured table description.
use vstd::prelude::*;
use crate::model::{CellEntry, CellEntryV, SheetData, SheetDataV, SizeOverride, StyleToggles};
use crate::merge::{suppressed, spec_merges, parse_merge_cells, is_suppressed, MergedCell,
    MergedCellV};
use crate::scan::{max_col_of, max_row_of, size_at, get_table_dimensions, get_column_widths,
    get_row_heights};
use crate::style::{spec_cell_style, build_cell_style};
use crate::record::{CellData, CellDataV, RowData, RowDataV, TableData, TableDataV,
    TableDimensions, TableDimensionsV};

verus! {

/// The cell occupying `(col, row)`, if any; when several entries name
/// the same coordinate the one stored last wins.
pub open spec fn find_at(cells: Seq<CellEntryV>, col: u32, row: u32) -> Option<CellEntryV>
    decreases cells.len(),
{
    if cells.len() == 0 {
        None
    } else if cells.last().column == col && cells.last().row == row {
        Some(cells.last())
    } else {
        find_at(cells.drop_last(), col, row)
    }
}

/// Entries past `k` that do not name `(col, row)` do not change the
/// lookup.
proof fn lemma_find_at_prefix(cells: Seq<CellEntryV>, col: u32, row: u32, k: int)
    requires
        0 <= k <= cells.len(),
        forall|t: int|
            k <= t < cells.len() ==> !(cells[t].column == col && cells[t].row == row),
    ensures
        find_at(cells, col, row) == find_at(cells.subrange(0, k), col, row),
    decreases cells.len() - k,
{
    if k < cells.len() {
        assert(cells.drop_last() =~= cells.subrange(0, cells.len() - 1));
        lemma_find_at_prefix(cells.subrange(0, cells.len() - 1), col, row, k);
        assert(cells.subrange(0, cells.len() - 1).subrange(0, k) =~= cells.subrange(0, k));
    } else {
        assert(cells.subrange(0, k) =~= cells);
    }
}

/// Looks the coordinate `(col, row)` up among the occupied cells.
fn find_cell_at<'a>(cells: &'a Vec<CellEntry>, col: u32, row: u32) -> (r: Option<&'a CellEntry>)
    ensures
        ({
            let v = cells@.map_values(|c: CellEntry| c@);
            match r {
                Some(e) => find_at(v, col, row) == Some(e@),
                None => find_at(v, col, row) is None,
            }
        }),
{
    let ghost v = cells@.map_values(|c: CellEntry| c@);
    let mut i: usize = cells.len();
    while i > 0
        invariant
            0 <= i <= cells.len(),
            v == cells@.map_values(|c: CellEntry| c@),
            forall|t: int| i <= t < v.len() ==> !(v[t].column == col && v[t].row == row),
        decreases i,
    {
        i -= 1;
        let e = &cells[i];
        if e.column == col && e.row == row {
            proof {
                lemma_find_at_prefix(v, col, row, i + 1);
                assert(v.subrange(0, i + 1 as int).last() == v[i as int]);
            }
            return Some(e);
        }
    }
    proof {
        lemma_find_at_prefix(v, col, row, 0);
    }
    None
}

/// What extracting a cell's display text yields: the text, or the
/// error naming the cell's address when its raw value is flagged as a
/// formula error.
pub open spec fn spec_cell_value(e: CellEntryV) -> Result<Seq<char>, Seq<char>> {
    if e.is_error {
        Err("Error in cell "@ + e.coordinate)
    } else {
        Ok(e.value)
    }
}

/// Extracts a cell's display text, failing on a formula error.
pub fn cell_value(cell: &CellEntry) -> (r: Result<String, String>)
    ensures
        r is Ok <==> !cell@.is_error,
        r matches Ok(v) ==> v@ == cell@.value,
        r matches Err(m) ==> m@ == "Error in cell "@ + cell@.coordinate,
{
    if cell.is_error {
        let m = String::from_str("Error in cell ");
        Err(m.concat(cell.coordinate.as_str()))
    } else {
        Ok(cell.value.clone())
    }
}

/// The surviving cells of row `row` among columns `1..=c`: suppressed
/// and unoccupied coordinates are skipped, a formula error aborts.
pub open spec fn spec_row_cells(
    cells: Seq<CellEntryV>,
    merges: Seq<MergedCellV>,
    t: StyleToggles,
    row: u32,
    c: int,
) -> Result<Seq<CellDataV>, Seq<char>>
    decreases c,
{
    if c <= 0 {
        Ok(Seq::empty())
    } else {
        match spec_row_cells(cells, merges, t, row, c - 1) {
            Err(m) => Err(m),
            Ok(pre) => {
                if suppressed(merges, c as u32, row) {
                    Ok(pre)
                } else {
                    match find_at(cells, c as u32, row) {
                        None => Ok(pre),
                        Some(e) => {
                            if e.is_error {
                                Err("Error in cell "@ + e.coordinate)
                            } else {
                                Ok(
                                    pre.push(
                                        CellDataV {
                                            value: e.value,
                                            column: c as u32,
                                            style: spec_cell_style(e, t),
                                        },
                                    ),
                                )
                            }
                        },
                    }
                }
            },
        }
    }
}

proof fn lemma_spec_row_cells_err_stable(
    cells: Seq<CellEntryV>,
    merges: Seq<MergedCellV>,
    t: StyleToggles,
    row: u32,
    k: int,
    c: int,
)
    requires
        0 <= k <= c,
        spec_row_cells(cells, merges, t, row, k) is Err,
    ensures
        spec_row_cells(cells, merges, t, row, c) == spec_row_cells(cells, merges, t, row, k),
    decreases c - k,
{
    if k < c {
        lemma_spec_row_cells_err_stable(cells, merges, t, row, k, c - 1);
    }
}

/// Every cell a successful row walk keeps sits at an unsuppressed
/// column between 1 and `c`.
proof fn lemma_spec_row_cells_props(
    cells: Seq<CellEntryV>,
    merges: Seq<MergedCellV>,
    t: StyleToggles,
    row: u32,
    c: int,
)
    requires
        c <= u32::MAX,
        spec_row_cells(cells, merges, t, row, c) is Ok,
    ensures
        forall|k: int|
            0 <= k < spec_row_cells(cells, merges, t, row, c)->Ok_0.len() ==> {
                let cd = #[trigger] spec_row_cells(cells, merges, t, row, c)->Ok_0[k];
                !suppressed(merges, cd.column, row) && 1 <= cd.column <= c
            },
    decreases c,
{
    if c > 0 {
        lemma_spec_row_cells_props(cells, merges, t, row, c - 1);
        let cur = spec_row_cells(cells, merges, t, row, c)->Ok_0;
        let pre = spec_row_cells(cells, merges, t, row, c - 1)->Ok_0;
        assert forall|k: int| 0 <= k < cur.len() implies {
            let cd = #[trigger] cur[k];
            !suppressed(merges, cd.column, row) && 1 <= cd.column <= c
        } by {
            if k < pre.len() {
                assert(cur[k] == pre[k]);
            }
        }
    }
}

/// The surviving rows among `1..=r`: rows whose cell list comes out
/// empty are omitted.
pub open spec fn spec_rows(
    cells: Seq<CellEntryV>,
    merges: Seq<MergedCellV>,
    t: StyleToggles,
    max_col: u32,
    r: int,
) -> Result<Seq<RowDataV>, Seq<char>>
    decreases r,
{
    if r <= 0 {
        Ok(Seq::empty())
    } else {
        match spec_rows(cells, merges, t, max_col, r - 1) {
            Err(m) => Err(m),
            Ok(pre) => match spec_row_cells(cells, merges, t, r as u32, max_col as int) {
                Err(m) => Err(m),
                Ok(cs) => {
                    if cs.len() == 0 {
                        Ok(pre)
                    } else {
                        Ok(pre.push(RowDataV { row_number: r as u32, cells: cs }))
                    }
                },
            },
        }
    }
}

proof fn lemma_spec_rows_err_stable(
    cells: Seq<CellEntryV>,
    merges: Seq<MergedCellV>,
    t: StyleToggles,
    max_col: u32,
    k: int,
    r: int,
)
    requires
        0 <= k <= r,
        spec_rows(cells, merges, t, max_col, k) is Err,
    ensures
        spec_rows(cells, merges, t, max_col, r) == spec_rows(cells, merges, t, max_col, k),
    decreases r - k,
{
    if k < r {
        lemma_spec_rows_err_stable(cells, merges, t, max_col, k, r - 1);
    }
}

/// Every row a successful walk keeps is nonempty, numbered within
/// `1..=r`, and holds no merge-suppressed cell.
pub proof fn lemma_spec_rows_props(
    cells: Seq<CellEntryV>,
    merges: Seq<MergedCellV>,
    t: StyleToggles,
    max_col: u32,
    r: int,
)
    requires
        r <= u32::MAX,
        spec_rows(cells, merges, t, max_col, r) is Ok,
    ensures
        forall|i: int|
            0 <= i < spec_rows(cells, merges, t, max_col, r)->Ok_0.len() ==> {
                let rd = #[trigger] spec_rows(cells, merges, t, max_col, r)->Ok_0[i];
                rd.cells.len() > 0 && 1 <= rd.row_number <= r && forall|j: int|
                    0 <= j < rd.cells.len() ==> !suppressed(
                        merges,
                        #[trigger] rd.cells[j].column,
                        rd.row_number,
                    )
            },
    decreases r,
{
    if r > 0 {
        lemma_spec_rows_props(cells, merges, t, max_col, r - 1);
        if spec_row_cells(cells, merges, t, r as u32, max_col as int) is Ok {
            lemma_spec_row_cells_props(cells, merges, t, r as u32, max_col as int);
        }
    }
}

/// A found cell is one of the stored entries.
proof fn lemma_find_at_mem(cells: Seq<CellEntryV>, col: u32, row: u32)
    requires
        find_at(cells, col, row) is Some,
    ensures
        exists|i: int|
            0 <= i < cells.len() && #[trigger] cells[i] == find_at(cells, col, row)->0,
    decreases cells.len(),
{
    if cells.last().column == col && cells.last().row == row {
        assert(cells[cells.len() - 1] == find_at(cells, col, row)->0);
    } else {
        lemma_find_at_mem(cells.drop_last(), col, row);
        let i = choose|i: int|
            0 <= i < cells.drop_last().len() && #[trigger] cells.drop_last()[i] == find_at(
                cells.drop_last(),
                col,
                row,
            )->0;
        assert(cells[i] == find_at(cells, col, row)->0);
    }
}

/// A row walk that reaches an occupied, unsuppressed error cell
/// fails.
proof fn lemma_row_cells_err_at(
    cells: Seq<CellEntryV>,
    merges: Seq<MergedCellV>,
    t: StyleToggles,
    row: u32,
    col: u32,
    c: int,
)
    requires
        1 <= col <= c <= u32::MAX,
        !suppressed(merges, col, row),
        find_at(cells, col, row) matches Some(e) && e.is_error,
    ensures
        spec_row_cells(cells, merges, t, row, c) is Err,
    decreases c,
{
    if col < c {
        lemma_row_cells_err_at(cells, merges, t, row, col, c - 1);
    } else {
        assert(c as u32 == col);
    }
}

/// A failing row walk fails with a message naming a stored error
/// cell's address.
proof fn lemma_row_cells_err_msg(
    cells: Seq<CellEntryV>,
    merges: Seq<MergedCellV>,
    t: StyleToggles,
    row: u32,
    c: int,
)
    requires
        spec_row_cells(cells, merges, t, row, c) is Err,
    ensures
        exists|i: int|
            0 <= i < cells.len() && (#[trigger] cells[i]).is_error && spec_row_cells(
                cells,
                merges,
                t,
                row,
                c,
            )->Err_0 == "Error in cell "@ + cells[i].coordinate,
    decreases c,
{
    if spec_row_cells(cells, merges, t, row, c - 1) is Err {
        lemma_row_cells_err_msg(cells, merges, t, row, c - 1);
    } else {
        lemma_find_at_mem(cells, c as u32, row);
    }
}

/// A failing row within range makes the whole row walk fail.
proof fn lemma_rows_err_at(
    cells: Seq<CellEntryV>,
    merges: Seq<MergedCellV>,
    t: StyleToggles,
    max_col: u32,
    row: u32,
    r: int,
)
    requires
        1 <= row <= r <= u32::MAX,
        spec_row_cells(cells, merges, t, row, max_col as int) is Err,
    ensures
        spec_rows(cells, merges, t, max_col, r) is Err,
    decreases r,
{
    if row < r {
        lemma_rows_err_at(cells, merges, t, max_col, row, r - 1);
    } else {
        assert(r as u32 == row);
    }
}

/// A failing row walk over rows fails with a message naming a stored
/// error cell's address.
proof fn lemma_rows_err_msg(
    cells: Seq<CellEntryV>,
    merges: Seq<MergedCellV>,
    t: StyleToggles,
    max_col: u32,
    r: int,
)
    requires
        spec_rows(cells, merges, t, max_col, r) is Err,
    ensures
        exists|i: int|
            0 <= i < cells.len() && (#[trigger] cells[i]).is_error && spec_rows(
                cells,
                merges,
                t,
                max_col,
                r,
            )->Err_0 == "Error in cell "@ + cells[i].coordinate,
    decreases r,
{
    if spec_rows(cells, merges, t, max_col, r - 1) is Err {
        lemma_rows_err_msg(cells, merges, t, max_col, r - 1);
    } else {
        lemma_row_cells_err_msg(cells, merges, t, r as u32, max_col as int);
    }
}

/// A formula error in any occupied, unsuppressed coordinate inside
/// the bounding box aborts the whole conversion, whatever the
/// toggles, and the failure names a stored error cell's address.
pub proof fn lemma_error_cell_aborts(s: SheetDataV, t: StyleToggles, col: u32, row: u32)
    requires
        spec_merges(s.merge_ranges, s.merge_ranges.len() as int) is Ok,
        1 <= col <= max_col_of(s.cells),
        1 <= row <= max_row_of(s.cells),
        !suppressed(spec_merges(s.merge_ranges, s.merge_ranges.len() as int)->Ok_0, col, row),
        find_at(s.cells, col, row) matches Some(e) && e.is_error,
    ensures
        spec_table(s, t) is Err,
        exists|i: int|
            0 <= i < s.cells.len() && (#[trigger] s.cells[i]).is_error && spec_table(
                s,
                t,
            )->Err_0 == "Error in cell "@ + s.cells[i].coordinate,
{
    crate::scan::lemma_max_col_of(s.cells);
    crate::scan::lemma_max_row_of(s.cells);
    let merges = spec_merges(s.merge_ranges, s.merge_ranges.len() as int)->Ok_0;
    let mc = max_col_of(s.cells);
    let mr = max_row_of(s.cells);
    lemma_row_cells_err_at(s.cells, merges, t, row, col, mc);
    assert(mc as u32 as int == mc);
    lemma_rows_err_at(s.cells, merges, t, mc as u32, row, mr);
    lemma_rows_err_msg(s.cells, merges, t, mc as u32, mr);
}

/// What the whole conversion of one worksheet snapshot yields: the
/// table description, or the first failure (empty sheet, bad merge
/// range, formula error), walking rows and columns upward.
pub open spec fn spec_table(s: SheetDataV, t: StyleToggles) -> Result<TableDataV, Seq<char>> {
    let mc = max_col_of(s.cells);
    let mr = max_row_of(s.cells);
    if mc == 0 || mr == 0 {
        Err("No data found in the worksheet"@)
    } else {
        match spec_merges(s.merge_ranges, s.merge_ranges.len() as int) {
            Err(m) => Err(m),
            Ok(merges) => match spec_rows(s.cells, merges, t, mc as u32, mr) {
                Err(m) => Err(m),
                Ok(rows) => Ok(
                    TableDataV {
                        dimensions: TableDimensionsV {
                            columns: Seq::new(
                                mc as nat,
                                |i: int| size_at(s.column_overrides, i, s.default_column_width),
                            ),
                            rows: Seq::new(
                                mr as nat,
                                |i: int| size_at(s.row_overrides, i, s.default_row_height),
                            ),
                            max_columns: mc as u32,
                            max_rows: mr as u32,
                        },
                        rows,
                        merged_cells: merges,
                    },
                ),
            },
        }
    }
}

/// Assembles the structured table description of one worksheet
/// snapshot. No merge-suppressed coordinate survives into the row
/// list, and rows left without cells are omitted.
pub fn build_table(sheet: &SheetData, t: StyleToggles) -> (r: Result<TableData, String>)
    ensures
        r is Ok <==> spec_table(sheet@, t) is Ok,
        r matches Ok(tb) ==> tb@ == spec_table(sheet@, t)->Ok_0,
        r matches Err(m) ==> m@ == spec_table(sheet@, t)->Err_0,
        r matches Ok(tb) ==> forall|i: int|
            0 <= i < tb@.rows.len() ==> {
                let rd = #[trigger] tb@.rows[i];
                rd.cells.len() > 0 && forall|j: int|
                    0 <= j < rd.cells.len() ==> !suppressed(
                        tb@.merged_cells,
                        #[trigger] rd.cells[j].column,
                        rd.row_number,
                    )
            },
{
    let ghost sv = sheet@;
    let dims = get_table_dimensions(&sheet.cells);
    let (max_col, max_row) = match dims {
        Ok(d) => d,
        Err(m) => {
            return Err(m);
        },
    };
    let columns = get_column_widths(&sheet.column_overrides, max_col, &sheet.default_column_width);
    let row_sizes = get_row_heights(&sheet.row_overrides, max_row, &sheet.default_row_height);
    let merges = match parse_merge_cells(&sheet.merge_ranges) {
        Ok(m) => m,
        Err(m) => {
            return Err(m);
        },
    };
    let ghost mv = merges@.map_values(|m: MergedCell| m@);
    let mut out_rows: Vec<RowData> = Vec::new();
    let mut rnum: u64 = 1;
    while rnum <= max_row as u64
        invariant
            1 <= rnum <= max_row as int + 1,
            sv == sheet@,
            max_col == max_col_of(sv.cells),
            max_row == max_row_of(sv.cells),
            max_col >= 1,
            max_row >= 1,
            spec_merges(sv.merge_ranges, sv.merge_ranges.len() as int) == Ok::<_, Seq<char>>(mv),
            mv == merges@.map_values(|m: MergedCell| m@),
            spec_rows(sv.cells, mv, t, max_col, rnum as int - 1) is Ok,
            out_rows@.map_values(|r: RowData| r@) == spec_rows(
                sv.cells,
                mv,
                t,
                max_col,
                rnum as int - 1,
            )->Ok_0,
        decreases max_row as int + 1 - rnum,
    {
        let row32 = rnum as u32;
        let mut rcells: Vec<CellData> = Vec::new();
        let mut cnum: u64 = 1;
        while cnum <= max_col as u64
            invariant
                1 <= cnum <= max_col as int + 1,
                1 <= rnum <= max_row as int,
                row32 == rnum as u32,
                rnum <= u32::MAX,
                sv == sheet@,
                max_col == max_col_of(sv.cells),
                max_row == max_row_of(sv.cells),
                spec_merges(sv.merge_ranges, sv.merge_ranges.len() as int) == Ok::<
                    _,
                    Seq<char>,
                >(mv),
                mv == merges@.map_values(|m: MergedCell| m@),
                spec_rows(sv.cells, mv, t, max_col, rnum as int - 1) is Ok,
                spec_row_cells(sv.cells, mv, t, row32, cnum as int - 1) is Ok,
                rcells@.map_values(|c: CellData| c@) == spec_row_cells(
                    sv.cells,
                    mv,
                    t,
                    row32,
                    cnum as int - 1,
                )->Ok_0,
            decreases max_col as int + 1 - cnum,
        {
            let col32 = cnum as u32;
            if !is_suppressed(&merges, col32, row32) {
                match find_cell_at(&sheet.cells, col32, row32) {
                    Some(e) => {
                        let val = match cell_value(e) {
                            Ok(v) => v,
                            Err(m) => {
                                proof {
                                    assert(spec_row_cells(sv.cells, mv, t, row32, cnum as int)
                                        is Err);
                                    lemma_spec_row_cells_err_stable(
                                        sv.cells,
                                        mv,
                                        t,
                                        row32,
                                        cnum as int,
                                        max_col as int,
                                    );
                                    assert(spec_rows(sv.cells, mv, t, max_col, rnum as int)
                                        is Err);
                                    lemma_spec_rows_err_stable(
                                        sv.cells,
                                        mv,
                                        t,
                                        max_col,
                                        rnum as int,
                                        max_row as int,
                                    );
                                }
                                return Err(m);
                            },
                        };
                        let style = build_cell_style(e, t);
                        let cd = CellData { value: val, column: col32, style };
                        let ghost pre = rcells@.map_values(|c: CellData| c@);
                        rcells.push(cd);
                        proof {
                            assert(rcells@.map_values(|c: CellData| c@) =~= pre.push(cd@));
                        }
                    },
                    None => {},
                }
            }
            cnum += 1;
        }
        let ghost prerows = out_rows@.map_values(|r: RowData| r@);
        if rcells.len() > 0 {
            let rd = RowData { row_number: row32, cells: rcells };
            out_rows.push(rd);
            proof {
                assert(out_rows@.map_values(|r: RowData| r@) =~= prerows.push(rd@));
            }
        }
        rnum += 1;
    }
    let dims_out = TableDimensions {
        columns,
        rows: row_sizes,
        max_columns: max_col,
        max_rows: max_row,
    };
    let tb = TableData { dimensions: dims_out, rows: out_rows, merged_cells: merges };
    proof {
        assert(tb@.dimensions.columns =~= Seq::new(
            max_col_of(sv.cells) as nat,
            |i: int| size_at(sv.column_overrides, i, sv.default_column_width),
        ));
        assert(tb@.dimensions.rows =~= Seq::new(
            max_row_of(sv.cells) as nat,
            |i: int| size_at(sv.row_overrides, i, sv.default_row_height),
        ));
        assert(tb@ == spec_table(sv, t)->Ok_0);
        lemma_spec_rows_props(sv.cells, mv, t, max_col, max_row as int);
    }
    Ok(tb)
}

} // verus!
