//! Style resolver: classifies alignment, carries border presence
//! through, and resolves raw ARGB color texts to final 6-digit
//! lowercase hex values.
use vstd::prelude::*;
use crate::model::{Border, CellEntry, CellEntryV, RawAlignment, RawFontV, SheetHAlign,
    SheetUnderline, SheetVAlign, StyleToggles};

verus! {

/// Horizontal alignment as the table description reports it.
#[derive(Clone, Copy, PartialEq, Eq, Structural, Debug)]
pub enum HAlign {
    Left,
    Center,
    Right,
    Default,
}

/// Vertical alignment as the table description reports it.
#[derive(Clone, Copy, PartialEq, Eq, Structural, Debug)]
pub enum VAlign {
    Bottom,
    Center,
    Top,
    Default,
}

/// A cell's classified alignment pair.
#[derive(Clone, Copy, PartialEq, Eq, Structural, Debug)]
pub struct CellAlignment {
    pub horizontal: HAlign,
    pub vertical: VAlign,
}

/// Left, center and right stand; every other stored value reads as
/// the default.
pub open spec fn halign_of(h: SheetHAlign) -> HAlign {
    match h {
        SheetHAlign::Left => HAlign::Left,
        SheetHAlign::Center => HAlign::Center,
        SheetHAlign::Right => HAlign::Right,
        _ => HAlign::Default,
    }
}

/// Bottom, center and top stand; every other stored value reads as
/// the default.
pub open spec fn valign_of(v: SheetVAlign) -> VAlign {
    match v {
        SheetVAlign::Bottom => VAlign::Bottom,
        SheetVAlign::Center => VAlign::Center,
        SheetVAlign::Top => VAlign::Top,
        _ => VAlign::Default,
    }
}

pub open spec fn align_of(a: RawAlignment) -> CellAlignment {
    CellAlignment { horizontal: halign_of(a.horizontal), vertical: valign_of(a.vertical) }
}

/// The alignment reported for a cell: its stored pair classified, or
/// nothing when the style has no alignment.
pub open spec fn spec_cell_alignment(e: CellEntryV) -> Option<CellAlignment> {
    match e.alignment {
        Some(a) => Some(align_of(a)),
        None => None,
    }
}

/// Classifies a cell's alignment.
pub fn get_cell_alignment(e: &CellEntry) -> (r: Option<CellAlignment>)
    ensures
        r == spec_cell_alignment(e@),
{
    match &e.alignment {
        Some(a) => Some(
            CellAlignment {
                horizontal: match a.horizontal {
                    SheetHAlign::Left => HAlign::Left,
                    SheetHAlign::Center => HAlign::Center,
                    SheetHAlign::Right => HAlign::Right,
                    _ => HAlign::Default,
                },
                vertical: match a.vertical {
                    SheetVAlign::Bottom => VAlign::Bottom,
                    SheetVAlign::Center => VAlign::Center,
                    SheetVAlign::Top => VAlign::Top,
                    _ => VAlign::Default,
                },
            },
        ),
        None => None,
    }
}

/// The border flags reported for a cell: the stored presence flags,
/// or nothing when the style has no borders.
pub fn get_cell_border(e: &CellEntry) -> (r: Option<Border>)
    ensures
        r == e@.border,
{
    e.border
}

/// An ASCII hexadecimal digit.
pub open spec fn is_hex_char(c: char) -> bool {
    (48 <= c as int && c as int <= 57) || (97 <= c as int && c as int <= 102) || (65 <= c as int
        && c as int <= 70)
}

pub open spec fn all_hex(s: Seq<char>) -> bool {
    forall|i: int| 0 <= i < s.len() ==> is_hex_char(s[i])
}

/// A lowercase hexadecimal digit.
pub open spec fn is_lower_hex_char(c: char) -> bool {
    (48 <= c as int && c as int <= 57) || (97 <= c as int && c as int <= 102)
}

/// The lowercase form of one hexadecimal digit.
pub open spec fn lower_hex_char(c: char) -> char {
    if c == 'A' {
        'a'
    } else if c == 'B' {
        'b'
    } else if c == 'C' {
        'c'
    } else if c == 'D' {
        'd'
    } else if c == 'E' {
        'e'
    } else if c == 'F' {
        'f'
    } else {
        c
    }
}

pub open spec fn lower_hex(s: Seq<char>) -> Seq<char> {
    Seq::new(s.len(), |i: int| lower_hex_char(s[i]))
}

/// What a raw color text resolves to: an 8-digit ARGB loses its alpha
/// pair, a 6-digit RGB passes through, both lowercased; anything else
/// (an empty text in particular) reads as no color.
pub open spec fn resolved_color(s: Seq<char>) -> Option<Seq<char>> {
    if s.len() == 8 && all_hex(s) {
        Some(lower_hex(s.subrange(2, 8)))
    } else if s.len() == 6 && all_hex(s) {
        Some(lower_hex(s))
    } else {
        None
    }
}

/// Every resolved color is exactly 6 lowercase hexadecimal digits.
pub proof fn lemma_resolved_color_shape(s: Seq<char>)
    ensures
        resolved_color(s) matches Some(c) ==> c.len() == 6 && forall|i: int|
            0 <= i < c.len() ==> is_lower_hex_char(#[trigger] c[i]),
{
}

/// Appends the lowercase form of one hexadecimal digit of `s`.
fn push_lower_hex(out: &mut String, s: &str, i: usize)
    requires
        i < s@.len(),
        i < usize::MAX,
        is_hex_char(s@[i as int]),
    ensures
        final(out)@ == old(out)@.push(lower_hex_char(s@[i as int])),
{
    let c = s.get_char(i);
    proof {
        reveal_strlit("a");
        reveal_strlit("b");
        reveal_strlit("c");
        reveal_strlit("d");
        reveal_strlit("e");
        reveal_strlit("f");
    }
    if c == 'A' {
        out.append("a");
    } else if c == 'B' {
        out.append("b");
    } else if c == 'C' {
        out.append("c");
    } else if c == 'D' {
        out.append("d");
    } else if c == 'E' {
        out.append("e");
    } else if c == 'F' {
        out.append("f");
    } else {
        let piece = s.substring_char(i, i + 1);
        out.append(piece);
        proof {
            assert(piece@ =~= seq![s@[i as int]]);
        }
    }
    proof {
        assert(out@ =~= old(out)@.push(lower_hex_char(s@[i as int])));
    }
}

/// Checks that every character of `s` in `from..to` is a hex digit.
fn check_hex_run(s: &str, from: usize, to: usize) -> (r: bool)
    requires
        from <= to <= s@.len(),
    ensures
        r == forall|i: int| from <= i < to ==> is_hex_char(#[trigger] s@[i]),
{
    let mut i = from;
    while i < to
        invariant
            from <= i <= to <= s@.len(),
            forall|t: int| from <= t < i ==> is_hex_char(#[trigger] s@[t]),
        decreases to - i,
    {
        let c = s.get_char(i);
        let u = c as u32;
        if !((48 <= u && u <= 57) || (97 <= u && u <= 102) || (65 <= u && u <= 70)) {
            return false;
        }
        i += 1;
    }
    true
}

/// Builds the lowercase form of the hex digits of `s` in `from..to`.
fn lower_hex_run(s: &str, from: usize, to: usize) -> (r: String)
    requires
        from <= to <= s@.len(),
        forall|i: int| from <= i < to ==> is_hex_char(#[trigger] s@[i]),
    ensures
        r@ == lower_hex(s@.subrange(from as int, to as int)),
{
    let mut out = String::new();
    let mut i = from;
    while i < to
        invariant
            from <= i <= to <= s@.len(),
            forall|t: int| from <= t < to ==> is_hex_char(#[trigger] s@[t]),
            out@ == lower_hex(s@.subrange(from as int, i as int)),
        decreases to - i,
    {
        push_lower_hex(&mut out, s, i);
        proof {
            assert(lower_hex(s@.subrange(from as int, i + 1 as int)) =~= lower_hex(
                s@.subrange(from as int, i as int),
            ).push(lower_hex_char(s@[i as int])));
        }
        i += 1;
    }
    out
}

/// Resolves a raw color text to its final 6-digit lowercase hex form,
/// or to no color. The result, when present, is always exactly 6
/// lowercase hexadecimal characters.
pub fn resolve_color(argb: &str) -> (r: Option<String>)
    ensures
        r is Some <==> resolved_color(argb@) is Some,
        r matches Some(c) ==> Some(c@) == resolved_color(argb@),
        r matches Some(c) ==> c@.len() == 6 && forall|i: int|
            0 <= i < c@.len() ==> is_lower_hex_char(#[trigger] c@[i]),
{
    let len = argb.unicode_len();
    if len == 8 {
        if check_hex_run(argb, 0, 8) {
            Some(lower_hex_run(argb, 2, 8))
        } else {
            None
        }
    } else if len == 6 {
        if check_hex_run(argb, 0, 6) {
            let r = lower_hex_run(argb, 0, 6);
            proof {
                assert(argb@.subrange(0, 6) =~= argb@);
            }
            Some(r)
        } else {
            None
        }
    } else {
        None
    }
}

/// Font attributes as the table description reports them: the size as
/// raw point text, the color resolved.
#[derive(Clone, Debug)]
pub struct FontStyle {
    pub bold: bool,
    pub italic: bool,
    pub size: String,
    pub color: Option<String>,
    pub underline: bool,
    pub strike: bool,
}

pub ghost struct FontStyleV {
    pub bold: bool,
    pub italic: bool,
    pub size: Seq<char>,
    pub color: Option<Seq<char>>,
    pub underline: bool,
    pub strike: bool,
}

impl View for FontStyle {
    type V = FontStyleV;

    open spec fn view(&self) -> FontStyleV {
        FontStyleV {
            bold: self.bold,
            italic: self.italic,
            size: self.size@,
            color: match self.color {
                Some(c) => Some(c@),
                None => None,
            },
            underline: self.underline,
            strike: self.strike,
        }
    }
}

/// A font is underlined exactly when its stored underline is a
/// variant other than the none variant.
pub open spec fn font_style_of(f: RawFontV) -> FontStyleV {
    FontStyleV {
        bold: f.bold,
        italic: f.italic,
        size: f.size,
        color: resolved_color(f.color_argb),
        underline: f.underline != SheetUnderline::NoUnderline,
        strike: f.strike,
    }
}

/// The font attributes reported for a cell, or nothing when the style
/// has no font.
pub open spec fn spec_cell_font(e: CellEntryV) -> Option<FontStyleV> {
    match e.font {
        Some(f) => Some(font_style_of(f)),
        None => None,
    }
}

/// Resolves a cell's font attributes. A font color, when present, is
/// always exactly 6 lowercase hexadecimal characters.
pub fn get_cell_font_style(e: &CellEntry) -> (r: Option<FontStyle>)
    ensures
        r is Some <==> spec_cell_font(e@) is Some,
        r matches Some(f) ==> Some(f@) == spec_cell_font(e@),
        r matches Some(f) ==> (f@.color matches Some(c) ==> c.len() == 6 && forall|i: int|
            0 <= i < c.len() ==> is_lower_hex_char(#[trigger] c[i])),
{
    match &e.font {
        Some(f) => Some(
            FontStyle {
                bold: f.bold,
                italic: f.italic,
                size: f.size.clone(),
                color: resolve_color(f.color_argb.as_str()),
                underline: f.underline != SheetUnderline::NoUnderline,
                strike: f.strike,
            },
        ),
        None => None,
    }
}

/// The background color reported for a cell: the raw reading
/// resolved, or nothing when the style has no fill.
pub open spec fn spec_cell_bg_color(e: CellEntryV) -> Option<Seq<char>> {
    match e.background_argb {
        Some(a) => resolved_color(a),
        None => None,
    }
}

/// Resolves a cell's background color. The result, when present, is
/// always exactly 6 lowercase hexadecimal characters.
pub fn get_cell_bg_color(e: &CellEntry) -> (r: Option<String>)
    ensures
        r is Some <==> spec_cell_bg_color(e@) is Some,
        r matches Some(c) ==> Some(c@) == spec_cell_bg_color(e@),
        r matches Some(c) ==> c@.len() == 6 && forall|i: int|
            0 <= i < c@.len() ==> is_lower_hex_char(#[trigger] c@[i]),
{
    match &e.background_argb {
        Some(a) => resolve_color(a.as_str()),
        None => None,
    }
}

/// A cell's resolved style, each field present only when its toggle
/// asked for it and the sheet holds something to report.
#[derive(Clone, Debug)]
pub struct CellStyle {
    pub alignment: Option<CellAlignment>,
    pub border: Option<Border>,
    pub color: Option<String>,
    pub font: Option<FontStyle>,
}

pub ghost struct CellStyleV {
    pub alignment: Option<CellAlignment>,
    pub border: Option<Border>,
    pub color: Option<Seq<char>>,
    pub font: Option<FontStyleV>,
}

impl View for CellStyle {
    type V = CellStyleV;

    open spec fn view(&self) -> CellStyleV {
        CellStyleV {
            alignment: self.alignment,
            border: self.border,
            color: match self.color {
                Some(c) => Some(c@),
                None => None,
            },
            font: match self.font {
                Some(f) => Some(f@),
                None => None,
            },
        }
    }
}

/// The style block reported for a cell: each of the four fields is
/// present exactly when its own toggle is on and the cell carries
/// that component; the block itself is present when any field is.
pub open spec fn spec_cell_style(e: CellEntryV, t: StyleToggles) -> Option<CellStyleV> {
    let st = CellStyleV {
        alignment: if t.alignment {
            spec_cell_alignment(e)
        } else {
            None
        },
        border: if t.border {
            e.border
        } else {
            None
        },
        color: if t.bg_color {
            spec_cell_bg_color(e)
        } else {
            None
        },
        font: if t.font {
            spec_cell_font(e)
        } else {
            None
        },
    };
    if st.alignment is Some || st.border is Some || st.color is Some || st.font is Some {
        Some(st)
    } else {
        None
    }
}

/// Assembles a cell's style block per the enabled toggles.
pub fn build_cell_style(e: &CellEntry, t: StyleToggles) -> (r: Option<CellStyle>)
    ensures
        r is Some <==> spec_cell_style(e@, t) is Some,
        r matches Some(s) ==> Some(s@) == spec_cell_style(e@, t),
{
    let st = CellStyle {
        alignment: if t.alignment {
            get_cell_alignment(e)
        } else {
            None
        },
        border: if t.border {
            get_cell_border(e)
        } else {
            None
        },
        color: if t.bg_color {
            get_cell_bg_color(e)
        } else {
            None
        },
        font: if t.font {
            get_cell_font_style(e)
        } else {
            None
        },
    };
    if st.alignment.is_some() || st.border.is_some() || st.color.is_some() || st.font.is_some() {
        Some(st)
    } else {
        None
    }
}

} // verus!
