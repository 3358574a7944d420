//! Rendering of one paragraph node.
use vstd::prelude::*;
use crate::error::RenderError;
use crate::resolve::{Alignment, StyleRecord, resolve_style, resolved};
use crate::runs::{bounds_ok, content_of, has_prefix, parse_content, span, starts_with};
use crate::style::{Decls, StyleSet, extended, serialized, with_decl};
use crate::text::{dec, push_decimal, push_str};

verus! {

/// A paragraph of the document model.
pub struct RichTextNode {
    /// The paragraph's full text.
    pub text: String,
    /// Character offsets at which the text is cut into runs.
    pub text_run_indices: Vec<u32>,
    /// One record per run, in order.
    pub text_run_formatting: Vec<StyleRecord>,
    /// The paragraph-level record.
    pub paragraph_style: StyleRecord,
    /// The paragraph's semantic style identifier, if any.
    pub style_id: Option<String>,
    /// Padding above in pixels; present when the spacing before is positive.
    pub space_before_px: Option<u32>,
    /// Padding below in pixels; present when the spacing after is positive.
    pub space_after_px: Option<u32>,
    /// The paragraph has a positive exact line spacing.
    pub line_spacing_positive: bool,
    pub alignment: Alignment,
}

impl RichTextNode {
    /// Offsets within the text, not decreasing, and no more records than runs.
    pub open spec fn wf(&self) -> bool {
        &&& bounds_ok(self.text@.len(), self.text_run_indices@)
        &&& self.text_run_indices@.len() + 1 >= self.text_run_formatting@.len()
        &&& self.text_run_indices@.len() < usize::MAX
    }
}

/// `<n>px`.
pub open spec fn px_text(p: u32) -> Seq<char> {
    dec(p as nat) + "px"@
}

/// Paragraph-level declarations after the record, the single run's record,
/// the spacing and the alignment.
pub open spec fn layout_decls(n: RichTextNode, d: Decls) -> Result<Decls, RenderError> {
    let d = match n.space_before_px {
        Some(p) => with_decl(d, "padding-top"@, px_text(p)),
        None => d,
    };
    let d = match n.space_after_px {
        Some(p) => with_decl(d, "padding-bottom"@, px_text(p)),
        None => d,
    };
    if n.line_spacing_positive {
        Err(RenderError::UnsupportedStyleFeature)
    } else {
        Ok(match n.alignment {
            Alignment::Center => with_decl(d, "text-align"@, "center"@),
            Alignment::Right => with_decl(d, "text-align"@, "right"@),
            _ => d,
        })
    }
}

/// The declarations of a paragraph; none for an empty text.
pub open spec fn paragraph_decls(n: RichTextNode) -> Result<Decls, RenderError> {
    if n.text@.len() == 0 {
        Ok(Seq::empty())
    } else {
        match resolved(n.paragraph_style) {
            Err(e) => Err(e),
            Ok(d) => if n.text_run_formatting@.len() == 1 {
                match resolved(n.text_run_formatting@[0]) {
                    Err(e) => Err(e),
                    Ok(o) => layout_decls(n, extended(d, o)),
                }
            } else {
                layout_decls(n, d)
            },
        }
    }
}

/// Content that begins with `http://` or `https://` becomes a link to itself.
pub open spec fn autolinked(c: Seq<char>) -> Seq<char> {
    if has_prefix(c, "http://"@) || has_prefix(c, "https://"@) {
        "<a href=\""@ + c + "\">"@ + c + "</a>"@
    } else {
        c
    }
}

/// A style identifier that names a content element.
pub open spec fn is_tag_name(t: Seq<char>) -> bool {
    t != "PageDateTime"@ && t != "PageTitle"@
}

/// The content wrapped in its semantic element, or in a span, or bare.
pub open spec fn wrapped(id: Option<Seq<char>>, in_list: bool, d: Decls, c: Seq<char>) -> Seq<char> {
    if id is Some && !in_list && is_tag_name(id->Some_0) {
        let t = id->Some_0;
        "<"@ + t + " style=\""@ + serialized(d) + "\">"@ + c + "</"@ + t + ">"@
    } else if d.len() > 0 {
        span(serialized(d), c)
    } else {
        c
    }
}

/// The views of note-tag markup and declarations.
pub open spec fn tags_view(t: Option<(String, StyleSet)>) -> Option<(Seq<char>, Decls)> {
    match t {
        Some((h, s)) => Some((h@, s@)),
        None => None,
    }
}

/// The markup of a paragraph node.
pub open spec fn rendered(n: RichTextNode, in_list: bool, tags: Option<(Seq<char>, Decls)>) -> Result<Seq<char>, RenderError> {
    match paragraph_decls(n) {
        Err(e) => Err(e),
        Ok(d) => {
            let pre = match tags {
                Some((h, _)) => h,
                None => Seq::empty(),
            };
            let d = match tags {
                Some((_, td)) => extended(d, td),
                None => d,
            };
            match content_of(n.text@, n.text_run_indices@, n.text_run_formatting@) {
                Err(e) => Err(e),
                Ok(c) => Ok(
                    wrapped(
                        match n.style_id {
                            Some(s) => Some(s@),
                            None => None,
                        },
                        in_list,
                        d,
                        autolinked(pre + c),
                    ),
                ),
            }
        },
    }
}

/// Whether a style identifier names a content element, that is, neither the
/// page title nor the page timestamp.
pub fn is_tag(tag: &str) -> (r: bool)
    ensures
        r == is_tag_name(tag@),
{
    let t = String::from_str(tag);
    !(t == String::from_str("PageDateTime") || t == String::from_str("PageTitle"))
}

fn set_px(s: &mut StyleSet, key: &str, p: u32)
    requires
        old(s).wf(),
    ensures
        final(s).wf(),
        final(s)@ == with_decl(old(s)@, key@, px_text(p)),
{
    let mut v = String::new();
    push_decimal(&mut v, p as u64);
    push_str(&mut v, "px");
    s.set(key, v);
}

/// Resolves the declarations of a paragraph: none for an empty text; else the
/// paragraph record's, overwritten by the single run's where the paragraph is
/// one run, then padding for positive spacing and the alignment (left is not
/// written). A positive exact line spacing has no rendering rule and fails.
pub fn parse_paragraph_styles(n: &RichTextNode) -> (r: Result<StyleSet, RenderError>)
    ensures
        match r {
            Ok(s) => paragraph_decls(*n) == Ok::<Decls, RenderError>(s@) && s.wf(),
            Err(e) => paragraph_decls(*n) == Err::<Decls, RenderError>(e),
        },
{
    if n.text.as_str().unicode_len() == 0 {
        return Ok(StyleSet::new());
    }
    let mut s = match resolve_style(&n.paragraph_style) {
        Ok(s) => s,
        Err(e) => return Err(e),
    };
    if n.text_run_formatting.len() == 1 {
        match resolve_style(&n.text_run_formatting[0]) {
            Ok(o) => s.extend(o),
            Err(e) => return Err(e),
        }
    }
    match n.space_before_px {
        Some(p) => set_px(&mut s, "padding-top", p),
        None => {},
    }
    match n.space_after_px {
        Some(p) => set_px(&mut s, "padding-bottom", p),
        None => {},
    }
    if n.line_spacing_positive {
        return Err(RenderError::UnsupportedStyleFeature);
    }
    match n.alignment {
        Alignment::Center => s.set("text-align", String::from_str("center")),
        Alignment::Right => s.set("text-align", String::from_str("right")),
        _ => {},
    }
    Ok(s)
}

/// Renders a paragraph node: its declarations, the note-tag markup (if any)
/// in front with its declarations merged in, the body, a self link where the
/// whole content begins with `http://` or `https://`, and finally the
/// semantic element named by the style identifier (outside lists, and not for
/// the page title or timestamp), else a styled span, else the bare content.
pub fn render_rich_text(n: &RichTextNode, in_list: bool, note_tags: Option<(String, StyleSet)>) -> (r: Result<String, RenderError>)
    requires
        n.wf(),
    ensures
        match r {
            Ok(s) => rendered(*n, in_list, tags_view(note_tags)) == Ok::<Seq<char>, RenderError>(s@),
            Err(e) => rendered(*n, in_list, tags_view(note_tags)) == Err::<Seq<char>, RenderError>(e),
        },
{
    let mut style = match parse_paragraph_styles(n) {
        Ok(s) => s,
        Err(e) => return Err(e),
    };
    let mut content = String::new();
    match note_tags {
        Some((h, ts)) => {
            content = h;
            style.extend(ts);
        },
        None => {},
    }
    let body = match parse_content(n.text.as_str(), &n.text_run_indices, &n.text_run_formatting) {
        Ok(b) => b,
        Err(e) => return Err(e),
    };
    push_str(&mut content, body.as_str());
    if starts_with(content.as_str(), "http://") || starts_with(content.as_str(), "https://") {
        let mut a = String::new();
        push_str(&mut a, "<a href=\"");
        push_str(&mut a, content.as_str());
        push_str(&mut a, "\">");
        push_str(&mut a, content.as_str());
        push_str(&mut a, "</a>");
        content = a;
    }
    let css = style.serialize();
    let tag = match &n.style_id {
        Some(t) => if !in_list && is_tag(t.as_str()) {
            Some(t)
        } else {
            None
        },
        None => None,
    };
    match tag {
        Some(t) => {
            let mut o = String::new();
            push_str(&mut o, "<");
            push_str(&mut o, t.as_str());
            push_str(&mut o, " style=\"");
            push_str(&mut o, css.as_str());
            push_str(&mut o, "\">");
            push_str(&mut o, content.as_str());
            push_str(&mut o, "</");
            push_str(&mut o, t.as_str());
            push_str(&mut o, ">");
            Ok(o)
        },
        None => if style.len() > 0 {
            let mut o = String::new();
            push_str(&mut o, "<span style=\"");
            push_str(&mut o, css.as_str());
            push_str(&mut o, "\">");
            push_str(&mut o, content.as_str());
            push_str(&mut o, "</span>");
            Ok(o)
        } else {
            Ok(content)
        },
    }
}

/// A paragraph with an empty text and no semantic element renders, without
/// note tags, to exactly `&nbsp;`.
pub proof fn lemma_empty_paragraph(n: RichTextNode, in_list: bool)
    requires
        n.text@.len() == 0,
        n.style_id is None,
    ensures
        rendered(n, in_list, None) == Ok::<Seq<char>, RenderError>("&nbsp;"@),
{
    reveal_strlit("&nbsp;");
    reveal_strlit("http://");
    reveal_strlit("https://");
    let c = Seq::<char>::empty() + "&nbsp;"@;
    assert(c =~= "&nbsp;"@);
    assert(c[0] == '&');
    assert("http://"@[0] == 'h');
    assert("https://"@[0] == 'h');
    assert(!has_prefix(c, "http://"@)) by {
        if has_prefix(c, "http://"@) {
            assert(c.take(7)[0] == c[0]);
        }
    }
    assert(!has_prefix(c, "https://"@)) by {
        if has_prefix(c, "https://"@) {
            assert(c.take(8)[0] == c[0]);
        }
    }
}

} // verus!
