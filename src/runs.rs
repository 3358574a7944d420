//! Splitting a paragraph into styled runs and stitching hyperlinks.
use vstd::prelude::*;
use crate::error::RenderError;
use crate::resolve::{ColorRef, StyleRecord, record_decls, resolve_style, resolved, unsupported_layout};
use crate::style::{Decls, serialized};
use crate::text::push_str;
use crate::whitespace::{fix_newlines, normalized};

verus! {

/// Split offsets lie within the text and do not decrease.
pub open spec fn bounds_ok(n: nat, idx: Seq<u32>) -> bool {
    &&& forall|i: int| 0 <= i < idx.len() ==> idx[i] <= n
    &&& forall|i: int, j: int| 0 <= i <= j < idx.len() ==> idx[i] <= idx[j]
}

/// Where part `j` starts.
pub open spec fn part_start(idx: Seq<u32>, j: int) -> int {
    if j == 0 { 0 } else { idx[j - 1] as int }
}

/// Where part `j` ends, in a text of `n` characters.
pub open spec fn part_end(idx: Seq<u32>, j: int, n: int) -> int {
    if j == idx.len() { n } else { idx[j] as int }
}

/// The text cut at every offset: one more part than offsets.
pub open spec fn run_parts(t: Seq<char>, idx: Seq<u32>) -> Seq<Seq<char>> {
    Seq::new(
        idx.len() + 1,
        |j: int| t.subrange(part_start(idx, j), part_end(idx, j, t.len() as int)),
    )
}

/// The views of a sequence of strings.
pub open spec fn views(v: Seq<String>) -> Seq<Seq<char>> {
    v.map_values(|s: String| s@)
}

/// The marker that opens a hyperlink target run.
pub open spec fn link_marker() -> Seq<char> {
    "\u{fddf}HYPERLINK \""@
}

/// `s` begins with `p`.
pub open spec fn has_prefix(s: Seq<char>, p: Seq<char>) -> bool {
    p.len() <= s.len() && s.take(p.len() as int) == p
}

/// `<a href="url" style="style">`.
pub open spec fn anchor_open(url: Seq<char>, style: Seq<char>) -> Seq<char> {
    "<a href=\""@ + url + "\" style=\""@ + style + "\">"@
}

/// `<span style="style">content</span>`.
pub open spec fn span(style: Seq<char>, content: Seq<char>) -> Seq<char> {
    "<span style=\""@ + style + "\">"@ + content + "</span>"@
}

/// A hyperlink run with its resolved declarations, given whether an anchor is
/// open: the markup and whether an anchor is open afterwards.
pub open spec fn hyperlink_step(part: Seq<char>, d: Decls, open: bool) -> Result<(Seq<char>, bool), RenderError> {
    if has_prefix(part, link_marker()) {
        let rest = part.skip(link_marker().len() as int);
        if rest.len() > 0 && rest.last() == '"' {
            Ok((anchor_open(rest.drop_last(), serialized(d)), true))
        } else {
            Err(RenderError::MalformedHyperlinkMarker)
        }
    } else if open {
        Ok((part + "</a>"@, false))
    } else {
        Ok((anchor_open(part, serialized(d)) + part + "</a>"@, false))
    }
}

/// One run: its markup and whether an anchor is open afterwards.
pub open spec fn run_step(part: Seq<char>, r: StyleRecord, open: bool) -> Result<(Seq<char>, bool), RenderError> {
    match resolved(r) {
        Err(e) => Err(e),
        Ok(d) => if r.hyperlink {
            hyperlink_step(part, d, open)
        } else if d.len() > 0 {
            Ok((span(serialized(d), part), false))
        } else {
            Ok((part, false))
        },
    }
}

/// The first `k` runs rendered in order, carrying the anchor state.
pub open spec fn runs_upto(parts: Seq<Seq<char>>, recs: Seq<StyleRecord>, k: nat) -> Result<(Seq<char>, bool), RenderError>
    decreases k,
{
    if k == 0 {
        Ok((Seq::empty(), false))
    } else {
        match runs_upto(parts, recs, (k - 1) as nat) {
            Err(e) => Err(e),
            Ok((out, open)) => match run_step(parts[k - 1], recs[k - 1], open) {
                Err(e) => Err(e),
                Ok((f, next)) => Ok((out + f, next)),
            },
        }
    }
}

/// The body markup of a paragraph.
pub open spec fn content_of(t: Seq<char>, idx: Seq<u32>, recs: Seq<StyleRecord>) -> Result<Seq<char>, RenderError> {
    if t.len() == 0 {
        Ok("&nbsp;"@)
    } else if idx.len() == 0 {
        Ok(normalized(t))
    } else {
        let k = if idx.len() + 1 <= recs.len() { idx.len() + 1 } else { recs.len() };
        match runs_upto(run_parts(t, idx), recs, k) {
            Err(e) => Err(e),
            Ok((out, _)) => Ok(normalized(out)),
        }
    }
}

/// A failing run fails every longer prefix of runs with the same error.
pub proof fn lemma_runs_err_sticks(parts: Seq<Seq<char>>, recs: Seq<StyleRecord>, k1: nat, k2: nat, e: RenderError)
    requires
        k1 <= k2,
        runs_upto(parts, recs, k1) == Err::<(Seq<char>, bool), RenderError>(e),
    ensures
        runs_upto(parts, recs, k2) == Err::<(Seq<char>, bool), RenderError>(e),
    decreases k2 - k1,
{
    if k1 < k2 {
        lemma_runs_err_sticks(parts, recs, k1, (k2 - 1) as nat, e);
    }
}

/// Whether `s` begins with `p`.
pub fn starts_with(s: &str, p: &str) -> (r: bool)
    ensures
        r == has_prefix(s@, p@),
{
    let n = s.unicode_len();
    let m = p.unicode_len();
    if m > n {
        return false;
    }
    let mut i: usize = 0;
    while i < m
        invariant
            n == s@.len(),
            m == p@.len(),
            m <= n,
            0 <= i <= m,
            forall|j: int| 0 <= j < i ==> s@[j] == p@[j],
        decreases m - i,
    {
        if s.get_char(i) != p.get_char(i) {
            assert(s@.take(m as int)[i as int] != p@[i as int]);
            return false;
        }
        i = i + 1;
    }
    assert(s@.take(m as int) =~= p@);
    true
}

/// Cuts `text` at every offset of `idx`, giving the parts in order.
pub fn split_runs(text: &str, idx: &Vec<u32>) -> (r: Vec<String>)
    requires
        bounds_ok(text@.len(), idx@),
        idx@.len() < usize::MAX,
    ensures
        views(r@) == run_parts(text@, idx@),
{
    let n = text.unicode_len();
    let k = idx.len();
    let mut r: Vec<String> = Vec::new();
    let mut start: usize = 0;
    let mut j: usize = 0;
    while j <= k
        invariant
            n == text@.len(),
            k == idx@.len(),
            k < usize::MAX,
            bounds_ok(n as nat, idx@),
            0 <= j <= k + 1,
            r@.len() == j,
            j <= k ==> start == part_start(idx@, j as int),
            forall|i: int| 0 <= i < j ==> #[trigger] r@[i]@ == run_parts(text@, idx@)[i],
        decreases k + 1 - j,
    {
        let end: usize = if j == k { n } else { idx[j] as usize };
        assert(start <= end) by {
            if j > 0 && j < k {
                assert(idx@[j - 1] <= idx@[j as int]);
            }
        }
        let part = String::from_str(text.substring_char(start, end));
        r.push(part);
        start = end;
        j = j + 1;
    }
    assert(views(r@) =~= run_parts(text@, idx@));
    r
}

/// Renders a hyperlink run. A run that begins with the link marker carries
/// the target between the marker and a closing quote and opens an anchor; a
/// run without it closes an open anchor after its text, or else is a whole
/// anchor whose target is its own text. Gives the markup and whether an
/// anchor is open afterwards.
pub fn render_hyperlink(text: &str, style: &StyleRecord, in_hyperlink: bool) -> (r: Result<(String, bool), RenderError>)
    requires
        style.hyperlink,
    ensures
        match r {
            Ok((s, open)) => run_step(text@, *style, in_hyperlink) == Ok::<(Seq<char>, bool), RenderError>((s@, open)),
            Err(e) => run_step(text@, *style, in_hyperlink) == Err::<(Seq<char>, bool), RenderError>(e),
        },
{
    let decls = match resolve_style(style) {
        Ok(d) => d,
        Err(e) => return Err(e),
    };
    let css = decls.serialize();
    let marker = "\u{fddf}HYPERLINK \"";
    if starts_with(text, marker) {
        let n = text.unicode_len();
        let m = marker.unicode_len();
        if n > m && text.get_char(n - 1) == '"' {
            let url = text.substring_char(m, n - 1);
            let mut s = String::new();
            push_str(&mut s, "<a href=\"");
            push_str(&mut s, url);
            push_str(&mut s, "\" style=\"");
            push_str(&mut s, css.as_str());
            push_str(&mut s, "\">");
            proof {
                let rest = text@.skip(m as int);
                assert(rest.drop_last() =~= url@);
            }
            assert(s@ =~= anchor_open(url@, css@));
            Ok((s, true))
        } else {
            Err(RenderError::MalformedHyperlinkMarker)
        }
    } else if in_hyperlink {
        let mut s = String::from_str(text);
        push_str(&mut s, "</a>");
        Ok((s, false))
    } else {
        let mut s = String::new();
        push_str(&mut s, "<a href=\"");
        push_str(&mut s, text);
        push_str(&mut s, "\" style=\"");
        push_str(&mut s, css.as_str());
        push_str(&mut s, "\">");
        push_str(&mut s, text);
        push_str(&mut s, "</a>");
        assert(s@ =~= anchor_open(text@, css@) + text@ + "</a>"@);
        Ok((s, false))
    }
}

/// Renders one run given whether an anchor is open: a hyperlink run goes to
/// [`render_hyperlink`]; any other run is wrapped in a styled span when its
/// style has declarations, else left as it is, and closes the anchor state.
pub fn render_run(text: &str, style: &StyleRecord, in_hyperlink: bool) -> (r: Result<(String, bool), RenderError>)
    ensures
        match r {
            Ok((s, open)) => run_step(text@, *style, in_hyperlink) == Ok::<(Seq<char>, bool), RenderError>((s@, open)),
            Err(e) => run_step(text@, *style, in_hyperlink) == Err::<(Seq<char>, bool), RenderError>(e),
        },
{
    if style.hyperlink {
        return render_hyperlink(text, style, in_hyperlink);
    }
    let decls = match resolve_style(style) {
        Ok(d) => d,
        Err(e) => return Err(e),
    };
    if decls.len() > 0 {
        let css = decls.serialize();
        let mut s = String::new();
        push_str(&mut s, "<span style=\"");
        push_str(&mut s, css.as_str());
        push_str(&mut s, "\">");
        push_str(&mut s, text);
        push_str(&mut s, "</span>");
        assert(s@ =~= span(css@, text@));
        Ok((s, false))
    } else {
        Ok((String::from_str(text), false))
    }
}

/// Renders the body of a paragraph: `&nbsp;` for an empty text; the
/// normalised text where there are no split offsets; else each part paired
/// with its style record in order (records beyond the parts are ignored),
/// rendered with the anchor state carried along, joined and normalised.
pub fn parse_content(text: &str, idx: &Vec<u32>, recs: &Vec<StyleRecord>) -> (r: Result<String, RenderError>)
    requires
        bounds_ok(text@.len(), idx@),
        idx@.len() + 1 >= recs@.len(),
        idx@.len() < usize::MAX,
    ensures
        match r {
            Ok(s) => content_of(text@, idx@, recs@) == Ok::<Seq<char>, RenderError>(s@),
            Err(e) => content_of(text@, idx@, recs@) == Err::<Seq<char>, RenderError>(e),
        },
{
    if text.unicode_len() == 0 {
        return Ok(String::from_str("&nbsp;"));
    }
    if idx.len() == 0 {
        return Ok(fix_newlines(text));
    }
    let parts = split_runs(text, idx);
    let k: usize = if idx.len() + 1 <= recs.len() { idx.len() + 1 } else { recs.len() };
    let ghost ps = run_parts(text@, idx@);
    let mut out = String::new();
    let mut open = false;
    let mut i: usize = 0;
    while i < k
        invariant
            views(parts@) == ps,
            ps == run_parts(text@, idx@),
            text@.len() != 0,
            idx@.len() != 0,
            k == (if idx@.len() + 1 <= recs@.len() { idx@.len() + 1 } else { recs@.len() }),
            ps.len() == idx@.len() + 1,
            k <= ps.len(),
            k <= recs@.len(),
            0 <= i <= k,
            runs_upto(ps, recs@, i as nat) == Ok::<(Seq<char>, bool), RenderError>((out@, open)),
        decreases k - i,
    {
        assert(parts@[i as int]@ == ps[i as int]);
        match render_run(parts[i].as_str(), &recs[i], open) {
            Ok((f, next)) => {
                push_str(&mut out, f.as_str());
                open = next;
            },
            Err(e) => {
                proof {
                    assert(run_step(ps[i as int], recs@[i as int], open) == Err::<(Seq<char>, bool), RenderError>(e));
                    assert(runs_upto(ps, recs@, (i + 1) as nat) == Err::<(Seq<char>, bool), RenderError>(e));
                    lemma_runs_err_sticks(ps, recs@, (i + 1) as nat, k as nat, e);
                }
                return Err(e);
            },
        }
        i = i + 1;
    }
    Ok(fix_newlines(out.as_str()))
}

/// A record with no flag, font, size, manual colour or layout attribute.
pub open spec fn is_plain(r: StyleRecord) -> bool {
    &&& !r.bold && !r.italic && !r.underline && !r.strikethrough
    &&& !r.superscript && !r.subscript && !r.hyperlink
    &&& r.font is None && r.font_size is None
    &&& !(r.font_color matches Some(ColorRef::Manual { .. }))
    &&& !(r.highlight matches Some(ColorRef::Manual { .. }))
    &&& !unsupported_layout(r)
}

/// A plain record resolves to no declarations, and its run is emitted as its
/// raw text, with no span, whatever the anchor state.
pub proof fn lemma_plain_run_is_raw(part: Seq<char>, r: StyleRecord, open: bool)
    requires
        is_plain(r),
    ensures
        resolved(r) == Ok::<Decls, RenderError>(Seq::empty()),
        run_step(part, r, open) == Ok::<(Seq<char>, bool), RenderError>((part, false)),
{
}

/// The parts of a cut text, joined in order, give the text back.
pub proof fn lemma_parts_rejoin(t: Seq<char>, idx: Seq<u32>)
    requires
        bounds_ok(t.len(), idx),
    ensures
        run_parts(t, idx).flatten() == t,
    decreases idx.len(),
{
    if idx.len() == 0 {
        let ps = run_parts(t, idx);
        assert(t.subrange(0, t.len() as int) =~= t);
        assert(ps =~= seq![t]);
        ps.lemma_flatten_one_element();
    } else {
        let x = idx.last() as int;
        let front = idx.drop_last();
        let head = t.take(x);
        assert(bounds_ok(head.len(), front));
        lemma_parts_rejoin(head, front);
        let tail = t.subrange(x, t.len() as int);
        let whole = run_parts(t, idx);
        let joined = run_parts(head, front) + seq![tail];
        assert forall|j: int| 0 <= j < whole.len() implies whole[j] == joined[j] by {
            if j < front.len() {
                assert(idx[j] <= x);
                if j > 0 {
                    assert(idx[j - 1] <= idx[j]);
                }
                assert(whole[j] =~= joined[j]);
            } else if j == front.len() {
                if j > 0 {
                    assert(idx[j - 1] <= idx[j]);
                }
                assert(whole[j] =~= joined[j]);
            }
        }
        assert(whole =~= joined);
        vstd::seq_lib::lemma_flatten_concat(run_parts(head, front), seq![tail]);
        seq![tail].lemma_flatten_one_element();
        assert(head + tail =~= t);
    }
}

/// A marker run carrying `url`, followed by a hyperlink run without marker,
/// give one anchor: the opening tag with the first run's style, the second
/// run's text, and the closing tag.
pub proof fn lemma_split_link(url: Seq<char>, label: Seq<char>, r1: StyleRecord, r2: StyleRecord)
    requires
        r1.hyperlink,
        r2.hyperlink,
        !unsupported_layout(r1),
        !unsupported_layout(r2),
        !has_prefix(label, link_marker()),
    ensures
        runs_upto(
            seq![link_marker() + url + seq!['"'], label],
            seq![r1, r2],
            2,
        ) == Ok::<(Seq<char>, bool), RenderError>(
            (anchor_open(url, serialized(record_decls(r1))) + label + "</a>"@, false),
        ),
{
    let p1 = link_marker() + url + seq!['"'];
    let parts = seq![p1, label];
    let recs = seq![r1, r2];
    assert(p1.take(link_marker().len() as int) =~= link_marker());
    let rest = p1.skip(link_marker().len() as int);
    assert(rest =~= url + seq!['"']);
    assert(rest.drop_last() =~= url);
    assert(runs_upto(parts, recs, 0) == Ok::<(Seq<char>, bool), RenderError>((Seq::<char>::empty(), false)));
    assert(Seq::<char>::empty() + anchor_open(url, serialized(record_decls(r1))) =~= anchor_open(url, serialized(record_decls(r1))));
    assert(runs_upto(parts, recs, 1) == Ok::<(Seq<char>, bool), RenderError>((anchor_open(url, serialized(record_decls(r1))), true)));
    assert(anchor_open(url, serialized(record_decls(r1))) + (label + "</a>"@) =~= anchor_open(url, serialized(record_decls(r1))) + label + "</a>"@);
}

} // verus!
