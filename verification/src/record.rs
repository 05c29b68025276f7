//! The structured table description the conversion produces:
//! dimensions, rows of cells, and merge descriptors.
use vstd::prelude::*;
use crate::merge::{MergedCell, MergedCellV};
use crate::style::{CellStyle, CellStyleV};

verus! {

/// One reported cell: its display text, its 1-based column, and its
/// style block when style parsing asked for one.
#[derive(Clone, Debug)]
pub struct CellData {
    pub value: String,
    pub column: u32,
    pub style: Option<CellStyle>,
}

pub ghost struct CellDataV {
    pub value: Seq<char>,
    pub column: u32,
    pub style: Option<CellStyleV>,
}

impl View for CellData {
    type V = CellDataV;

    open spec fn view(&self) -> CellDataV {
        CellDataV {
            value: self.value@,
            column: self.column,
            style: match self.style {
                Some(s) => Some(s@),
                None => None,
            },
        }
    }
}

/// One reported row: its 1-based number and its surviving cells.
#[derive(Clone, Debug)]
pub struct RowData {
    pub row_number: u32,
    pub cells: Vec<CellData>,
}

pub ghost struct RowDataV {
    pub row_number: u32,
    pub cells: Seq<CellDataV>,
}

impl View for RowData {
    type V = RowDataV;

    open spec fn view(&self) -> RowDataV {
        RowDataV {
            row_number: self.row_number,
            cells: self.cells@.map_values(|c: CellData| c@),
        }
    }
}

/// The table's size data: dense width and height arrays and the
/// bounding box.
#[derive(Clone, Debug)]
pub struct TableDimensions {
    pub columns: Vec<String>,
    pub rows: Vec<String>,
    pub max_columns: u32,
    pub max_rows: u32,
}

pub ghost struct TableDimensionsV {
    pub columns: Seq<Seq<char>>,
    pub rows: Seq<Seq<char>>,
    pub max_columns: u32,
    pub max_rows: u32,
}

impl View for TableDimensions {
    type V = TableDimensionsV;

    open spec fn view(&self) -> TableDimensionsV {
        TableDimensionsV {
            columns: self.columns@.map_values(|s: String| s@),
            rows: self.rows@.map_values(|s: String| s@),
            max_columns: self.max_columns,
            max_rows: self.max_rows,
        }
    }
}

/// The whole structured table description.
#[derive(Clone, Debug)]
pub struct TableData {
    pub dimensions: TableDimensions,
    pub rows: Vec<RowData>,
    pub merged_cells: Vec<MergedCell>,
}

pub ghost struct TableDataV {
    pub dimensions: TableDimensionsV,
    pub rows: Seq<RowDataV>,
    pub merged_cells: Seq<MergedCellV>,
}

impl View for TableData {
    type V = TableDataV;

    open spec fn view(&self) -> TableDataV {
        TableDataV {
            dimensions: self.dimensions@,
            rows: self.rows@.map_values(|r: RowData| r@),
            merged_cells: self.merged_cells@.map_values(|m: MergedCell| m@),
        }
    }
}

} // verus!
