//! Dimension scanner and size resolver: the occupied bounding box of a
//! worksheet, and the dense per-column-width / per-row-height arrays.
use vstd::prelude::*;
use crate::model::{CellEntry, CellEntryV, SizeOverride, SizeOverrideV};

verus! {

/// The largest column index among the given cells, 0 when none.
pub open spec fn max_col_of(cells: Seq<CellEntryV>) -> int
    decreases cells.len(),
{
    if cells.len() == 0 {
        0
    } else {
        let m = max_col_of(cells.drop_last());
        if cells.last().column > m {
            cells.last().column as int
        } else {
            m
        }
    }
}

/// The largest row index among the given cells, 0 when none.
pub open spec fn max_row_of(cells: Seq<CellEntryV>) -> int
    decreases cells.len(),
{
    if cells.len() == 0 {
        0
    } else {
        let m = max_row_of(cells.drop_last());
        if cells.last().row > m {
            cells.last().row as int
        } else {
            m
        }
    }
}

/// The recursive maximum is the true maximum: an upper bound that is
/// attained whenever it is positive.
pub proof fn lemma_max_col_of(cells: Seq<CellEntryV>)
    ensures
        0 <= max_col_of(cells) <= u32::MAX,
        forall|k: int| 0 <= k < cells.len() ==> cells[k].column <= max_col_of(cells),
        max_col_of(cells) > 0 ==> exists|k: int|
            0 <= k < cells.len() && cells[k].column == max_col_of(cells),
    decreases cells.len(),
{
    if cells.len() > 0 {
        lemma_max_col_of(cells.drop_last());
        assert(forall|k: int| 0 <= k < cells.len() - 1 ==> cells[k] == cells.drop_last()[k]);
    }
}

pub proof fn lemma_max_row_of(cells: Seq<CellEntryV>)
    ensures
        0 <= max_row_of(cells) <= u32::MAX,
        forall|k: int| 0 <= k < cells.len() ==> cells[k].row <= max_row_of(cells),
        max_row_of(cells) > 0 ==> exists|k: int|
            0 <= k < cells.len() && cells[k].row == max_row_of(cells),
    decreases cells.len(),
{
    if cells.len() > 0 {
        lemma_max_row_of(cells.drop_last());
        assert(forall|k: int| 0 <= k < cells.len() - 1 ==> cells[k] == cells.drop_last()[k]);
    }
}

/// Computes the occupied bounding box `(max_col, max_row)` of the
/// given cells, or reports the worksheet empty when either maximum
/// stays 0.
pub fn get_table_dimensions(cells: &Vec<CellEntry>) -> (r: Result<(u32, u32), String>)
    ensures
        ({
            let v = cells@.map_values(|c: CellEntry| c@);
            &&& r is Err <==> (max_col_of(v) == 0 || max_row_of(v) == 0)
            &&& r matches Err(m) ==> m@ == "No data found in the worksheet"@
            &&& r matches Ok(d) ==> d.0 == max_col_of(v) && d.1 == max_row_of(v) && d.0 >= 1
                && d.1 >= 1
            &&& r matches Ok(d) ==> forall|k: int|
                0 <= k < v.len() ==> (#[trigger] v[k]).column <= d.0 && v[k].row <= d.1
            &&& r matches Ok(d) ==> (exists|k: int| 0 <= k < v.len() && (#[trigger] v[k]).column
                == d.0) && (exists|k: int| 0 <= k < v.len() && (#[trigger] v[k]).row == d.1)
        }),
{
    let ghost v = cells@.map_values(|c: CellEntry| c@);
    let mut max_col: u32 = 0;
    let mut max_row: u32 = 0;
    let mut i: usize = 0;
    proof {
        lemma_max_col_of(v);
        lemma_max_row_of(v);
    }
    while i < cells.len()
        invariant
            0 <= i <= cells.len(),
            v == cells@.map_values(|c: CellEntry| c@),
            max_col == max_col_of(v.subrange(0, i as int)),
            max_row == max_row_of(v.subrange(0, i as int)),
        decreases cells.len() - i,
    {
        proof {
            let pre = v.subrange(0, i as int);
            let cur = v.subrange(0, i + 1 as int);
            assert(cur.drop_last() =~= pre);
            assert(cur.last() == v[i as int]);
            lemma_max_col_of(cur);
            lemma_max_row_of(cur);
        }
        let e = &cells[i];
        if e.column > max_col {
            max_col = e.column;
        }
        if e.row > max_row {
            max_row = e.row;
        }
        i += 1;
    }
    assert(v.subrange(0, cells@.len() as int) =~= v);
    if max_col == 0 || max_row == 0 {
        Err(String::from_str("No data found in the worksheet"))
    } else {
        Ok((max_col, max_row))
    }
}

/// The size of the 0-based slot after all overrides apply in order:
/// the last override naming the slot's 1-based index wins, the
/// default stands when none names it.
pub open spec fn size_at(ov: Seq<SizeOverrideV>, slot: int, dflt: Seq<char>) -> Seq<char>
    decreases ov.len(),
{
    if ov.len() == 0 {
        dflt
    } else if ov.last().index == slot + 1 {
        ov.last().size
    } else {
        size_at(ov.drop_last(), slot, dflt)
    }
}

/// Builds the dense size array of length `count`, each slot holding
/// the sheet default unless an override names it; overrides beyond
/// `count` or with index 0 are dropped silently.
fn resolve_sizes(overrides: &Vec<SizeOverride>, count: u32, default_size: &String) -> (r: Vec<
    String,
>)
    ensures
        r@.len() == count,
        forall|slot: int|
            0 <= slot < count ==> r@[slot]@ == size_at(
                overrides@.map_values(|o: SizeOverride| o@),
                slot,
                default_size@,
            ),
{
    let ghost ov = overrides@.map_values(|o: SizeOverride| o@);
    let mut r: Vec<String> = Vec::new();
    let count_us = count as usize;
    while r.len() < count_us
        invariant
            r@.len() <= count_us,
            count_us == count,
            forall|slot: int| 0 <= slot < r@.len() ==> r@[slot]@ == default_size@,
        decreases count_us - r.len(),
    {
        r.push(default_size.clone());
    }
    proof {
        assert(forall|slot: int|
            0 <= slot < count ==> size_at(ov.subrange(0, 0), slot, default_size@)
                == default_size@);
    }
    let mut i: usize = 0;
    while i < overrides.len()
        invariant
            0 <= i <= overrides.len(),
            ov == overrides@.map_values(|o: SizeOverride| o@),
            r@.len() == count,
            forall|slot: int|
                0 <= slot < count ==> r@[slot]@ == size_at(
                    ov.subrange(0, i as int),
                    slot,
                    default_size@,
                ),
        decreases overrides.len() - i,
    {
        let ghost pre = ov.subrange(0, i as int);
        let ghost cur = ov.subrange(0, i + 1 as int);
        proof {
            assert(cur.drop_last() =~= pre);
            assert(cur.last() == ov[i as int]);
        }
        let o = &overrides[i];
        if o.index >= 1 && o.index - 1 < count {
            let slot = (o.index - 1) as usize;
            r.set(slot, o.size.clone());
        }
        proof {
            assert forall|slot: int| 0 <= slot < count implies r@[slot]@ == size_at(
                cur,
                slot,
                default_size@,
            ) by {
                assert(cur.drop_last() =~= pre);
                if cur.last().index == slot + 1 {
                } else {
                    assert(size_at(cur, slot, default_size@) == size_at(pre, slot, default_size@));
                }
            }
        }
        i += 1;
    }
    assert(ov.subrange(0, overrides@.len() as int) =~= ov);
    r
}

/// The dense column-width array for columns `1..=max_col`: the sheet
/// default overwritten by the explicit column-dimension records.
pub fn get_column_widths(overrides: &Vec<SizeOverride>, max_col: u32, default_width: &String) -> (r:
    Vec<String>)
    ensures
        r@.len() == max_col,
        forall|slot: int|
            0 <= slot < max_col ==> r@[slot]@ == size_at(
                overrides@.map_values(|o: SizeOverride| o@),
                slot,
                default_width@,
            ),
{
    resolve_sizes(overrides, max_col, default_width)
}

/// The dense row-height array for rows `1..=max_row`: the sheet
/// default overwritten by the explicit row-dimension records.
pub fn get_row_heights(overrides: &Vec<SizeOverride>, max_row: u32, default_height: &String) -> (r:
    Vec<String>)
    ensures
        r@.len() == max_row,
        forall|slot: int|
            0 <= slot < max_row ==> r@[slot]@ == size_at(
                overrides@.map_values(|o: SizeOverride| o@),
                slot,
                default_height@,
            ),
{
    resolve_sizes(overrides, max_row, default_height)
}

} // verus!
