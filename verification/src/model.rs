//! The plain-value snapshot of one worksheet that the conversion
//! pipeline works on: occupied cells with their raw style readings,
//! size overrides, merge-range texts and sheet-wide defaults.
use vstd::prelude::*;

verus! {

/// Horizontal alignment as a sheet stores it.
#[derive(Clone, Copy, PartialEq, Eq, Structural, Debug)]
pub enum SheetHAlign {
    Center,
    CenterContinuous,
    Distributed,
    Fill,
    General,
    Justify,
    Left,
    Right,
}

/// Vertical alignment as a sheet stores it.
#[derive(Clone, Copy, PartialEq, Eq, Structural, Debug)]
pub enum SheetVAlign {
    Bottom,
    Center,
    Distributed,
    Justify,
    Top,
}

/// Underline as a sheet stores it.
#[derive(Clone, Copy, PartialEq, Eq, Structural, Debug)]
pub enum SheetUnderline {
    Double,
    DoubleAccounting,
    NoUnderline,
    Single,
    SingleAccounting,
}

/// The alignment pair read from a cell's style, before classification.
#[derive(Clone, Copy, PartialEq, Eq, Structural, Debug)]
pub struct RawAlignment {
    pub horizontal: SheetHAlign,
    pub vertical: SheetVAlign,
}

/// Presence of a drawn border on each side of a cell.
#[derive(Clone, Copy, PartialEq, Eq, Structural, Debug)]
pub struct Border {
    pub left: bool,
    pub right: bool,
    pub top: bool,
    pub bottom: bool,
}

/// Font attributes read from a cell's style; the size and the color
/// are carried as raw text (a decimal point size, an ARGB hex string),
/// the underline as its stored variant.
#[derive(Clone, Debug)]
pub struct RawFont {
    pub bold: bool,
    pub italic: bool,
    pub size: String,
    pub color_argb: String,
    pub underline: SheetUnderline,
    pub strike: bool,
}

pub ghost struct RawFontV {
    pub bold: bool,
    pub italic: bool,
    pub size: Seq<char>,
    pub color_argb: Seq<char>,
    pub underline: SheetUnderline,
    pub strike: bool,
}

impl View for RawFont {
    type V = RawFontV;

    open spec fn view(&self) -> RawFontV {
        RawFontV {
            bold: self.bold,
            italic: self.italic,
            size: self.size@,
            color_argb: self.color_argb@,
            underline: self.underline,
            strike: self.strike,
        }
    }
}

/// One occupied cell: its decoded coordinate, its display text, an
/// error flag, and the style readings the enabled toggles asked for.
#[derive(Clone, Debug)]
pub struct CellEntry {
    pub column: u32,
    pub row: u32,
    pub coordinate: String,
    pub value: String,
    pub is_error: bool,
    pub alignment: Option<RawAlignment>,
    pub border: Option<Border>,
    pub background_argb: Option<String>,
    pub font: Option<RawFont>,
}

pub ghost struct CellEntryV {
    pub column: u32,
    pub row: u32,
    pub coordinate: Seq<char>,
    pub value: Seq<char>,
    pub is_error: bool,
    pub alignment: Option<RawAlignment>,
    pub border: Option<Border>,
    pub background_argb: Option<Seq<char>>,
    pub font: Option<RawFontV>,
}

impl View for CellEntry {
    type V = CellEntryV;

    open spec fn view(&self) -> CellEntryV {
        CellEntryV {
            column: self.column,
            row: self.row,
            coordinate: self.coordinate@,
            value: self.value@,
            is_error: self.is_error,
            alignment: self.alignment,
            border: self.border,
            background_argb: match self.background_argb {
                Some(s) => Some(s@),
                None => None,
            },
            font: match self.font {
                Some(f) => Some(f@),
                None => None,
            },
        }
    }
}

/// An explicit size for one 1-based column or row index, as raw text.
#[derive(Clone, Debug)]
pub struct SizeOverride {
    pub index: u32,
    pub size: String,
}

pub ghost struct SizeOverrideV {
    pub index: u32,
    pub size: Seq<char>,
}

impl View for SizeOverride {
    type V = SizeOverrideV;

    open spec fn view(&self) -> SizeOverrideV {
        SizeOverrideV { index: self.index, size: self.size@ }
    }
}

/// Everything the pipeline reads from one worksheet.
#[derive(Clone, Debug)]
pub struct SheetData {
    pub cells: Vec<CellEntry>,
    pub column_overrides: Vec<SizeOverride>,
    pub row_overrides: Vec<SizeOverride>,
    pub merge_ranges: Vec<String>,
    pub default_column_width: String,
    pub default_row_height: String,
}

pub ghost struct SheetDataV {
    pub cells: Seq<CellEntryV>,
    pub column_overrides: Seq<SizeOverrideV>,
    pub row_overrides: Seq<SizeOverrideV>,
    pub merge_ranges: Seq<Seq<char>>,
    pub default_column_width: Seq<char>,
    pub default_row_height: Seq<char>,
}

impl View for SheetData {
    type V = SheetDataV;

    open spec fn view(&self) -> SheetDataV {
        SheetDataV {
            cells: self.cells@.map_values(|c: CellEntry| c@),
            column_overrides: self.column_overrides@.map_values(|o: SizeOverride| o@),
            row_overrides: self.row_overrides@.map_values(|o: SizeOverride| o@),
            merge_ranges: self.merge_ranges@.map_values(|s: String| s@),
            default_column_width: self.default_column_width@,
            default_row_height: self.default_row_height@,
        }
    }
}

/// Which of the four style sub-resolutions a call asks for.
#[derive(Clone, Copy, PartialEq, Eq, Structural, Debug)]
pub struct StyleToggles {
    pub alignment: bool,
    pub border: bool,
    pub bg_color: bool,
    pub font: bool,
}

} // verus!
