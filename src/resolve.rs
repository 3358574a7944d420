//! Mapping of style records to declaration sets.
use vstd::prelude::*;
use crate::error::RenderError;
use crate::style::{Decls, StyleSet, with_decl};
use crate::text::{dec, push_decimal, push_str};

verus! {

/// A colour reference of the document model.
#[derive(Debug, Clone, Copy, PartialEq, Eq, Structural)]
pub enum ColorRef {
    /// Chosen by the application; not rendered.
    Auto,
    /// An explicit red, green and blue value.
    Manual { r: u8, g: u8, b: u8 },
}

/// Horizontal alignment of a paragraph.
#[derive(Debug, Clone, Copy, PartialEq, Eq, Structural)]
pub enum Alignment {
    Unknown,
    Left,
    Center,
    Right,
}

/// Formatting of one text run, or of a whole paragraph.
///
/// The spacing fields say whether the record carries a spacing value that is
/// present and non-zero; no rule renders such a value from a record.
#[derive(Debug)]
pub struct StyleRecord {
    pub bold: bool,
    pub italic: bool,
    pub underline: bool,
    pub strikethrough: bool,
    pub superscript: bool,
    pub subscript: bool,
    pub hyperlink: bool,
    pub math_formatting: bool,
    pub font: Option<String>,
    /// In half points.
    pub font_size: Option<u16>,
    pub font_color: Option<ColorRef>,
    pub highlight: Option<ColorRef>,
    pub paragraph_alignment: Option<Alignment>,
    pub space_before_nonzero: bool,
    pub space_after_nonzero: bool,
    pub line_spacing_nonzero: bool,
}

/// `rgb(r,g,b)` in decimal.
pub open spec fn rgb_text(r: u8, g: u8, b: u8) -> Seq<char> {
    "rgb("@ + dec(r as nat) + ","@ + dec(g as nat) + ","@ + dec(b as nat) + ")"@
}

/// A size in half points, written in points: `11pt`, `11.5pt`.
pub open spec fn half_points_text(n: nat) -> Seq<char> {
    dec(n / 2) + (if n % 2 == 1 { ".5"@ } else { Seq::empty() }) + "pt"@
}

/// The record carries a paragraph layout attribute that has no rendering rule.
pub open spec fn unsupported_layout(r: StyleRecord) -> bool {
    r.paragraph_alignment is Some || r.space_before_nonzero || r.space_after_nonzero
        || r.line_spacing_nonzero
}

/// The declarations of a record, checked in a fixed order; a later rule
/// overwrites an earlier one on the same property.
pub open spec fn record_decls(r: StyleRecord) -> Decls {
    let d = Seq::empty();
    let d = if r.bold { with_decl(d, "font-weight"@, "bold"@) } else { d };
    let d = if r.italic { with_decl(d, "font-style"@, "italic"@) } else { d };
    let d = if r.underline { with_decl(d, "text-decoration"@, "underline"@) } else { d };
    let d = if r.superscript { with_decl(d, "vertical-align"@, "super"@) } else { d };
    let d = if r.subscript { with_decl(d, "vertical-align"@, "sub"@) } else { d };
    let d = if r.strikethrough { with_decl(d, "text-decoration"@, "line-through"@) } else { d };
    let d = match r.font {
        Some(f) => with_decl(d, "font-family"@, f@),
        None => d,
    };
    let d = match r.font_size {
        Some(n) => with_decl(d, "font-size"@, half_points_text(n as nat)),
        None => d,
    };
    let d = match r.font_color {
        Some(ColorRef::Manual { r: red, g, b }) => with_decl(d, "color"@, rgb_text(red, g, b)),
        _ => d,
    };
    match r.highlight {
        Some(ColorRef::Manual { r: red, g, b }) => with_decl(
            d,
            "background-color"@,
            rgb_text(red, g, b),
        ),
        _ => d,
    }
}

/// What resolving a record gives.
pub open spec fn resolved(r: StyleRecord) -> Result<Decls, RenderError> {
    if unsupported_layout(r) {
        Err(RenderError::UnsupportedStyleFeature)
    } else {
        Ok(record_decls(r))
    }
}

/// The resolution of a style set matches a spec result.
pub open spec fn style_result_is(res: Result<StyleSet, RenderError>, s: Result<Decls, RenderError>) -> bool {
    match res {
        Ok(set) => s == Ok::<Decls, RenderError>(set@) && set.wf(),
        Err(e) => s == Err::<Decls, RenderError>(e),
    }
}

fn rgb(r: u8, g: u8, b: u8) -> (s: String)
    ensures
        s@ == rgb_text(r, g, b),
{
    let mut s = String::new();
    push_str(&mut s, "rgb(");
    push_decimal(&mut s, r as u64);
    push_str(&mut s, ",");
    push_decimal(&mut s, g as u64);
    push_str(&mut s, ",");
    push_decimal(&mut s, b as u64);
    push_str(&mut s, ")");
    assert(s@ =~= rgb_text(r, g, b));
    s
}

fn half_points(n: u16) -> (s: String)
    ensures
        s@ == half_points_text(n as nat),
{
    let mut s = String::new();
    push_decimal(&mut s, (n / 2) as u64);
    if n % 2 == 1 {
        push_str(&mut s, ".5");
    }
    push_str(&mut s, "pt");
    assert(s@ =~= half_points_text(n as nat));
    s
}

/// Resolves a record into declarations, or fails on a layout attribute that
/// has no rendering rule. Math formatting is accepted and not rendered.
pub fn resolve_style(r: &StyleRecord) -> (res: Result<StyleSet, RenderError>)
    ensures
        style_result_is(res, resolved(*r)),
{
    if r.paragraph_alignment.is_some() || r.space_before_nonzero || r.space_after_nonzero
        || r.line_spacing_nonzero {
        return Err(RenderError::UnsupportedStyleFeature);
    }
    let mut s = StyleSet::new();
    if r.bold {
        s.set("font-weight", String::from_str("bold"));
    }
    if r.italic {
        s.set("font-style", String::from_str("italic"));
    }
    if r.underline {
        s.set("text-decoration", String::from_str("underline"));
    }
    if r.superscript {
        s.set("vertical-align", String::from_str("super"));
    }
    if r.subscript {
        s.set("vertical-align", String::from_str("sub"));
    }
    if r.strikethrough {
        s.set("text-decoration", String::from_str("line-through"));
    }
    match &r.font {
        Some(f) => s.set("font-family", f.clone()),
        None => {},
    }
    match r.font_size {
        Some(n) => s.set("font-size", half_points(n)),
        None => {},
    }
    match r.font_color {
        Some(ColorRef::Manual { r: red, g, b }) => s.set("color", rgb(red, g, b)),
        _ => {},
    }
    match r.highlight {
        Some(ColorRef::Manual { r: red, g, b }) => s.set("background-color", rgb(red, g, b)),
        _ => {},
    }
    Ok(s)
}

} // verus!
