//! Merge resolver: parses merge-range texts into rectangles, rejects
//! malformed or double-covering ranges, and classifies coordinates as
//! anchor or suppressed.
use vstd::prelude::*;
use crate::codec::{has_colon, spec_merge_parts, spec_parse_ref, try_parse_cell_reference,
    try_parse_merge_range};

verus! {

/// A 1-based grid coordinate.
#[derive(Clone, Copy, PartialEq, Eq, Structural, Debug)]
pub struct Position {
    pub row: u32,
    pub column: u32,
}

/// One merge range: its source text and the inclusive rectangle it
/// covers; the start coordinate is the anchor.
#[derive(Clone, Debug)]
pub struct MergedCell {
    pub range: String,
    pub start: Position,
    pub end: Position,
}

pub ghost struct MergedCellV {
    pub range: Seq<char>,
    pub start: Position,
    pub end: Position,
}

impl View for MergedCell {
    type V = MergedCellV;

    open spec fn view(&self) -> MergedCellV {
        MergedCellV { range: self.range@, start: self.start, end: self.end }
    }
}

/// A well-formed rectangle: 1-based, start at or before end on both
/// axes.
pub open spec fn merge_wf(m: MergedCellV) -> bool {
    1 <= m.start.column && m.start.column <= m.end.column && 1 <= m.start.row && m.start.row
        <= m.end.row
}

/// Whether `(col, row)` lies inside the rectangle, anchor included.
pub open spec fn in_rect(m: MergedCellV, col: u32, row: u32) -> bool {
    m.start.column <= col && col <= m.end.column && m.start.row <= row && row <= m.end.row
}

/// Whether `(col, row)` is suppressed by this range: inside the
/// rectangle but not its anchor.
pub open spec fn suppressed_by(m: MergedCellV, col: u32, row: u32) -> bool {
    in_rect(m, col, row) && !(col == m.start.column && row == m.start.row)
}

/// Whether any of the ranges suppresses `(col, row)`.
pub open spec fn suppressed(ms: Seq<MergedCellV>, col: u32, row: u32) -> bool {
    exists|i: int| 0 <= i < ms.len() && suppressed_by(ms[i], col, row)
}

/// Whether two rectangles share at least one coordinate.
pub open spec fn rects_overlap(a: MergedCellV, b: MergedCellV) -> bool {
    a.start.column <= b.end.column && b.start.column <= a.end.column && a.start.row <= b.end.row
        && b.start.row <= a.end.row
}

/// What one merge-range text decodes to: `None` when the text lacks a
/// `':'`, a part fails to decode, or the rectangle is degenerate.
pub open spec fn spec_merge_of(s: Seq<char>) -> Option<MergedCellV> {
    if !has_colon(s) {
        None
    } else {
        let parts = spec_merge_parts(s);
        if spec_parse_ref(parts.0) is Some && spec_parse_ref(parts.1) is Some {
            let st = spec_parse_ref(parts.0)->0;
            let en = spec_parse_ref(parts.1)->0;
            let m = MergedCellV {
                range: s,
                start: Position { row: st.1, column: st.0 },
                end: Position { row: en.1, column: en.0 },
            };
            if merge_wf(m) {
                Some(m)
            } else {
                None
            }
        } else {
            None
        }
    }
}

/// Decodes one merge-range text into its rectangle, or reports it
/// malformed.
pub fn parse_merged_cell(range: &str) -> (r: Option<MergedCell>)
    ensures
        r is Some <==> spec_merge_of(range@) is Some,
        r matches Some(m) ==> Some(m@) == spec_merge_of(range@),
{
    let parts = match try_parse_merge_range(range) {
        Some(p) => p,
        None => {
            return None;
        },
    };
    let start = match try_parse_cell_reference(parts.0.as_str()) {
        Some(p) => p,
        None => {
            return None;
        },
    };
    let end = match try_parse_cell_reference(parts.1.as_str()) {
        Some(p) => p,
        None => {
            return None;
        },
    };
    if 1 <= start.0 && start.0 <= end.0 && 1 <= start.1 && start.1 <= end.1 {
        Some(
            MergedCell {
                range: String::from_str(range),
                start: Position { row: start.1, column: start.0 },
                end: Position { row: end.1, column: end.0 },
            },
        )
    } else {
        None
    }
}

/// What a list of merge-range texts resolves to, in order: the first
/// malformed text or double-covering rectangle aborts with a message.
pub open spec fn spec_merges(ranges: Seq<Seq<char>>, n: int) -> Result<Seq<MergedCellV>, Seq<char>>
    decreases n,
{
    if n <= 0 {
        Ok(Seq::empty())
    } else {
        match spec_merges(ranges, n - 1) {
            Err(m) => Err(m),
            Ok(pre) => match spec_merge_of(ranges[n - 1]) {
                None => Err("Invalid merge range in worksheet"@),
                Some(m) => {
                    if exists|i: int| 0 <= i < pre.len() && rects_overlap(pre[i], m) {
                        Err("Overlapping merge ranges in worksheet"@)
                    } else {
                        Ok(pre.push(m))
                    }
                },
            },
        }
    }
}

/// Every rectangle a successful resolution yields is well-formed, and
/// no two of them share a coordinate.
pub proof fn lemma_spec_merges_wf(ranges: Seq<Seq<char>>, n: int)
    requires
        spec_merges(ranges, n) is Ok,
    ensures
        forall|i: int| 0 <= i < spec_merges(ranges, n)->Ok_0.len() ==> merge_wf(
            #[trigger] spec_merges(ranges, n)->Ok_0[i],
        ),
        forall|i: int, j: int|
            0 <= i < j < spec_merges(ranges, n)->Ok_0.len() ==> !rects_overlap(
                spec_merges(ranges, n)->Ok_0[i],
                spec_merges(ranges, n)->Ok_0[j],
            ),
    decreases n,
{
    if n > 0 {
        lemma_spec_merges_wf(ranges, n - 1);
    }
}

/// Once resolution fails, processing further ranges keeps the same
/// failure.
proof fn lemma_spec_merges_err_stable(ranges: Seq<Seq<char>>, k: int, n: int)
    requires
        0 <= k <= n,
        spec_merges(ranges, k) is Err,
    ensures
        spec_merges(ranges, n) == spec_merges(ranges, k),
    decreases n - k,
{
    if k < n {
        lemma_spec_merges_err_stable(ranges, k, n - 1);
    }
}

/// Resolves every merge-range text of a worksheet, rejecting the
/// malformed and the double-covering.
pub fn parse_merge_cells(ranges: &Vec<String>) -> (r: Result<Vec<MergedCell>, String>)
    ensures
        ({
            let sr = spec_merges(
                ranges@.map_values(|s: String| s@),
                ranges@.len() as int,
            );
            &&& r is Ok <==> sr is Ok
            &&& r matches Ok(ms) ==> ms@.map_values(|m: MergedCell| m@) == sr->Ok_0
            &&& r matches Err(m) ==> m@ == sr->Err_0
        }),
        r matches Ok(ms) ==> forall|i: int| 0 <= i < ms@.len() ==> merge_wf(#[trigger] ms@[i]@),
        r matches Ok(ms) ==> forall|i: int, j: int|
            0 <= i < j < ms@.len() ==> !rects_overlap(ms@[i]@, ms@[j]@),
{
    let ghost rv = ranges@.map_values(|s: String| s@);
    let mut out: Vec<MergedCell> = Vec::new();
    let mut i: usize = 0;
    while i < ranges.len()
        invariant
            0 <= i <= ranges.len(),
            rv == ranges@.map_values(|s: String| s@),
            spec_merges(rv, i as int) is Ok,
            out@.map_values(|m: MergedCell| m@) == spec_merges(rv, i as int)->Ok_0,
        decreases ranges.len() - i,
    {
        assert(rv[i as int] == ranges@[i as int]@);
        let m = match parse_merged_cell(ranges[i].as_str()) {
            Some(m) => m,
            None => {
                proof {
                    assert(spec_merges(rv, i + 1) is Err);
                    lemma_spec_merges_err_stable(rv, i + 1, rv.len() as int);
                }
                return Err(String::from_str("Invalid merge range in worksheet"));
            },
        };
        let ghost pre = out@.map_values(|mm: MergedCell| mm@);
        let mut j: usize = 0;
        while j < out.len()
            invariant
                0 <= j <= out.len(),
                0 <= i < rv.len(),
                rv == ranges@.map_values(|s: String| s@),
                rv.len() == ranges@.len(),
                pre == out@.map_values(|mm: MergedCell| mm@),
                spec_merges(rv, i as int) is Ok,
                pre == spec_merges(rv, i as int)->Ok_0,
                Some(m@) == spec_merge_of(rv[i as int]),
                forall|t: int| 0 <= t < j ==> !rects_overlap(pre[t], m@),
            decreases out.len() - j,
        {
            let p = &out[j];
            if p.start.column <= m.end.column && m.start.column <= p.end.column && p.start.row
                <= m.end.row && m.start.row <= p.end.row {
                proof {
                    assert(rects_overlap(pre[j as int], m@));
                    assert(spec_merges(rv, i + 1) is Err);
                    lemma_spec_merges_err_stable(rv, i + 1, rv.len() as int);
                }
                return Err(String::from_str("Overlapping merge ranges in worksheet"));
            }
            j += 1;
        }
        out.push(m);
        proof {
            assert(out@.map_values(|mm: MergedCell| mm@) =~= pre.push(m@));
        }
        i += 1;
    }
    assert(rv.len() == ranges@.len());
    proof {
        lemma_spec_merges_wf(rv, rv.len() as int);
        let ov = out@.map_values(|m: MergedCell| m@);
        assert(forall|i: int| 0 <= i < out@.len() ==> #[trigger] out@[i]@ == ov[i]);
    }
    Ok(out)
}

impl MergedCell {
    /// How many rows the merge covers; at least 1 for a well-formed
    /// rectangle.
    pub fn row_span(&self) -> (r: u32)
        requires
            merge_wf(self@),
        ensures
            r as int == self.end.row - self.start.row + 1,
            r >= 1,
    {
        self.end.row - self.start.row + 1
    }

    /// How many columns the merge covers; at least 1 for a well-formed
    /// rectangle.
    pub fn col_span(&self) -> (r: u32)
        requires
            merge_wf(self@),
        ensures
            r as int == self.end.column - self.start.column + 1,
            r >= 1,
    {
        self.end.column - self.start.column + 1
    }
}

/// Tests whether any merge range suppresses the coordinate
/// `(col, row)`.
pub fn is_suppressed(merges: &Vec<MergedCell>, col: u32, row: u32) -> (r: bool)
    ensures
        r == suppressed(merges@.map_values(|m: MergedCell| m@), col, row),
{
    let ghost ms = merges@.map_values(|m: MergedCell| m@);
    let mut i: usize = 0;
    while i < merges.len()
        invariant
            0 <= i <= merges.len(),
            ms == merges@.map_values(|m: MergedCell| m@),
            forall|t: int| 0 <= t < i ==> !suppressed_by(ms[t], col, row),
        decreases merges.len() - i,
    {
        let m = &merges[i];
        if row >= m.start.row && row <= m.end.row && col >= m.start.column && col <= m.end.column
            && !(row == m.start.row && col == m.start.column) {
            assert(suppressed_by(ms[i as int], col, row));
            return true;
        }
        i += 1;
    }
    false
}

} // verus!
