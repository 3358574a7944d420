use onenote_html::error::RenderError;
use onenote_html::files::FileRegistry;
use onenote_html::media::{classify_media, embed_markup, guess_type, FileType};
use onenote_html::resolve::{resolve_style, Alignment, ColorRef, StyleRecord};
use onenote_html::rich_text::{is_tag, parse_paragraph_styles, render_rich_text, RichTextNode};
use onenote_html::runs::{parse_content, render_hyperlink, render_run, split_runs, starts_with};
use onenote_html::style::StyleSet;
use onenote_html::text::push_decimal;
use onenote_html::whitespace::fix_newlines;

fn plain() -> StyleRecord {
    StyleRecord {
        bold: false,
        italic: false,
        underline: false,
        strikethrough: false,
        superscript: false,
        subscript: false,
        hyperlink: false,
        math_formatting: false,
        font: None,
        font_size: None,
        font_color: None,
        highlight: None,
        paragraph_alignment: None,
        space_before_nonzero: false,
        space_after_nonzero: false,
        line_spacing_nonzero: false,
    }
}

fn link() -> StyleRecord {
    StyleRecord { hyperlink: true, ..plain() }
}

fn node(text: &str) -> RichTextNode {
    RichTextNode {
        text: text.to_string(),
        text_run_indices: vec![],
        text_run_formatting: vec![],
        paragraph_style: plain(),
        style_id: None,
        space_before_px: None,
        space_after_px: None,
        line_spacing_positive: false,
        alignment: Alignment::Unknown,
    }
}

fn css(r: &StyleRecord) -> String {
    resolve_style(r).unwrap().serialize()
}

#[test]
fn plain_record_resolves_to_nothing() {
    let s = resolve_style(&plain()).unwrap();
    assert!(s.is_empty());
    assert_eq!(s.serialize(), "");
    let (out, open) = render_run("raw text", &plain(), false).unwrap();
    assert_eq!(out, "raw text");
    assert!(!open);
    let r = StyleRecord { math_formatting: true, font_color: Some(ColorRef::Auto), ..plain() };
    assert_eq!(css(&r), "");
}

#[test]
fn serialize_empty_and_single() {
    let mut s = StyleSet::new();
    assert_eq!(s.serialize(), "");
    s.set("font-weight", "bold".to_string());
    assert_eq!(s.serialize(), "font-weight:bold;");
}

#[test]
fn extend_later_wins_in_first_position() {
    let mut s = StyleSet::new();
    s.set("color", "red".to_string());
    let mut o = StyleSet::new();
    o.set("color", "blue".to_string());
    s.extend(o);
    assert_eq!(s.serialize(), "color:blue;");
    assert_eq!(s.len(), 1);

    let mut a = StyleSet::new();
    a.set("a", "1".to_string());
    a.set("b", "2".to_string());
    let mut b = StyleSet::new();
    b.set("c", "3".to_string());
    b.set("a", "4".to_string());
    a.extend(b);
    assert_eq!(a.serialize(), "a:4;b:2;c:3;");
}

#[test]
fn resolve_order_and_values() {
    let r = StyleRecord {
        bold: true,
        italic: true,
        font: Some("Calibri".to_string()),
        font_size: Some(22),
        font_color: Some(ColorRef::Manual { r: 1, g: 20, b: 255 }),
        highlight: Some(ColorRef::Manual { r: 0, g: 0, b: 0 }),
        ..plain()
    };
    assert_eq!(
        css(&r),
        "font-weight:bold;font-style:italic;font-family:Calibri;font-size:11pt;color:rgb(1,20,255);background-color:rgb(0,0,0);"
    );
    let odd = StyleRecord { font_size: Some(23), ..plain() };
    assert_eq!(css(&odd), "font-size:11.5pt;");
}

#[test]
fn strikethrough_overwrites_underline() {
    let r = StyleRecord { underline: true, strikethrough: true, ..plain() };
    assert_eq!(css(&r), "text-decoration:line-through;");
    let v = StyleRecord { superscript: true, subscript: true, ..plain() };
    assert_eq!(css(&v), "vertical-align:sub;");
}

#[test]
fn run_layout_attributes_are_unsupported() {
    let cases = [
        StyleRecord { paragraph_alignment: Some(Alignment::Left), ..plain() },
        StyleRecord { space_before_nonzero: true, ..plain() },
        StyleRecord { space_after_nonzero: true, ..plain() },
        StyleRecord { line_spacing_nonzero: true, ..plain() },
    ];
    for r in cases.iter() {
        assert!(matches!(resolve_style(r), Err(RenderError::UnsupportedStyleFeature)));
    }
}

#[test]
fn newline_becomes_break() {
    assert_eq!(fix_newlines("a\nb"), "a<br>b");
}

#[test]
fn indentation_after_break_is_kept() {
    assert_eq!(fix_newlines("\n  x"), "<br>&nbsp;&nbsp;x");
    assert_eq!(fix_newlines("a b\u{b} c"), "a b<br>&nbsp;c");
    assert_eq!(fix_newlines("\r\n"), "<br><br>");
    assert_eq!(fix_newlines("x  y"), "x  y");
    assert_eq!(fix_newlines("\n\tx"), "<br>\tx");
}

#[test]
fn split_points_rejoin() {
    let parts = split_runs("hello world", &vec![3, 5]);
    assert_eq!(parts, vec!["hel".to_string(), "lo".to_string(), " world".to_string()]);
    assert_eq!(parts.concat(), "hello world");
    let uni = split_runs("äöü", &vec![1, 1]);
    assert_eq!(uni, vec!["ä".to_string(), "".to_string(), "öü".to_string()]);
}

#[test]
fn split_hyperlink_is_stitched() {
    let text = "\u{fddf}HYPERLINK \"http://x\"click";
    let marker_len = "\u{fddf}HYPERLINK \"http://x\"".chars().count() as u32;
    let out = parse_content(text, &vec![marker_len], &vec![link(), link()]).unwrap();
    assert_eq!(out, "<a href=\"http://x\" style=\"\">click</a>");

    let (open_tag, open) = render_hyperlink("\u{fddf}HYPERLINK \"http://x\"", &link(), false).unwrap();
    assert_eq!(open_tag, "<a href=\"http://x\" style=\"\">");
    assert!(open);
    let (label, open) = render_hyperlink("click", &link(), true).unwrap();
    assert_eq!(label, "click</a>");
    assert!(!open);
}

#[test]
fn lone_hyperlink_uses_its_text() {
    let (out, open) = render_hyperlink("http://x", &link(), false).unwrap();
    assert_eq!(out, "<a href=\"http://x\" style=\"\">http://x</a>");
    assert!(!open);
    let bold_link = StyleRecord { bold: true, ..link() };
    let (out, _) = render_hyperlink("http://x", &bold_link, false).unwrap();
    assert_eq!(out, "<a href=\"http://x\" style=\"font-weight:bold;\">http://x</a>");
}

#[test]
fn malformed_marker_fails() {
    let r = render_hyperlink("\u{fddf}HYPERLINK \"http://x", &link(), false);
    assert_eq!(r, Err(RenderError::MalformedHyperlinkMarker));
    let r = render_hyperlink("\u{fddf}HYPERLINK \"", &link(), false);
    assert_eq!(r, Err(RenderError::MalformedHyperlinkMarker));
}

#[test]
fn styled_runs_and_breaks_across_runs() {
    let bold = StyleRecord { bold: true, ..plain() };
    let out = parse_content("ab\n cd", &vec![2], &vec![bold, plain()]).unwrap();
    assert_eq!(out, "<span style=\"font-weight:bold;\">ab</span><br>&nbsp;cd");
    let out = parse_content("abcd", &vec![2], &vec![plain()]).unwrap();
    assert_eq!(out, "ab");
}

#[test]
fn empty_text_is_placeholder() {
    assert_eq!(parse_content("", &vec![], &vec![]).unwrap(), "&nbsp;");
    assert_eq!(render_rich_text(&node(""), false, None).unwrap(), "&nbsp;");
    let mut n = node("");
    n.alignment = Alignment::Center;
    n.space_before_px = Some(4);
    assert_eq!(render_rich_text(&n, false, None).unwrap(), "&nbsp;");
}

#[test]
fn heading_tag_is_used() {
    let mut n = node("Title text");
    n.style_id = Some("Heading1".to_string());
    assert_eq!(
        render_rich_text(&n, false, None).unwrap(),
        "<Heading1 style=\"\">Title text</Heading1>"
    );
    assert_eq!(render_rich_text(&n, true, None).unwrap(), "Title text");
    n.style_id = Some("PageTitle".to_string());
    assert_eq!(render_rich_text(&n, false, None).unwrap(), "Title text");
    n.alignment = Alignment::Center;
    assert_eq!(
        render_rich_text(&n, false, None).unwrap(),
        "<span style=\"text-align:center;\">Title text</span>"
    );
    assert!(is_tag("Heading1"));
    assert!(!is_tag("PageTitle"));
    assert!(!is_tag("PageDateTime"));
}

#[test]
fn paragraph_styles_combine() {
    let mut n = node("x");
    n.paragraph_style = StyleRecord { bold: true, ..plain() };
    n.text_run_formatting = vec![StyleRecord { italic: true, bold: true, ..plain() }];
    n.space_before_px = Some(12);
    n.space_after_px = Some(0);
    n.alignment = Alignment::Right;
    let s = parse_paragraph_styles(&n).unwrap();
    assert_eq!(
        s.serialize(),
        "font-weight:bold;font-style:italic;padding-top:12px;padding-bottom:0px;text-align:right;"
    );
    n.line_spacing_positive = true;
    assert!(matches!(parse_paragraph_styles(&n), Err(RenderError::UnsupportedStyleFeature)));
}

#[test]
fn note_tags_and_autolink() {
    let mut tag_style = StyleSet::new();
    tag_style.set("color", "red".to_string());
    let out = render_rich_text(&node("text"), false, Some(("[x]".to_string(), tag_style))).unwrap();
    assert_eq!(out, "<span style=\"color:red;\">[x]text</span>");
    let out = render_rich_text(&node("https://example.org"), false, None).unwrap();
    assert_eq!(out, "<a href=\"https://example.org\">https://example.org</a>");
    assert!(starts_with("http://a", "http://"));
    assert!(!starts_with("http", "http://"));
}

#[test]
fn filename_dedup() {
    let mut scope = FileRegistry::new();
    assert_eq!(scope.determine_filename("img.png").unwrap(), "img.png");
    assert_eq!(scope.determine_filename("img.png").unwrap(), "img-0.png");
    assert_eq!(scope.determine_filename("img.png").unwrap(), "img-1.png");
    assert!(scope.contains("img-1.png"));
    let mut other = FileRegistry::new();
    assert_eq!(other.determine_filename("img.png").unwrap(), "img.png");
}

#[test]
fn filename_without_extension_fails_when_taken() {
    let mut scope = FileRegistry::new();
    assert_eq!(scope.determine_filename("README").unwrap(), "README");
    assert_eq!(
        scope.determine_filename("README"),
        Err(RenderError::FilenameDisambiguationFailure)
    );
    assert!(!scope.contains("README-0"));
    assert_eq!(scope.determine_filename("a.b.txt").unwrap(), "a.b.txt");
    assert_eq!(scope.determine_filename("a.b.txt").unwrap(), "a.b-0.txt");
}

#[test]
fn media_type_guessing() {
    assert_eq!(guess_type(FileType::Unknown, "song.mp3"), FileType::Audio);
    assert_eq!(guess_type(FileType::Unknown, "clip.mp4"), FileType::Video);
    assert_eq!(guess_type(FileType::Unknown, "notes.txt"), FileType::Unknown);
    assert_eq!(guess_type(FileType::Unknown, "noext"), FileType::Unknown);
    assert_eq!(guess_type(FileType::Video, "song.mp3"), FileType::Video);
    assert_eq!(classify_media(FileType::Unknown, Some("audio".to_string())), FileType::Audio);
    assert_eq!(classify_media(FileType::Unknown, Some("text".to_string())), FileType::Unknown);
    assert_eq!(classify_media(FileType::Audio, None), FileType::Audio);
}

#[test]
fn embed_elements() {
    assert_eq!(embed_markup(FileType::Audio, "a.mp3"), "<audio controls src=\"a.mp3\"></audio>");
    assert_eq!(embed_markup(FileType::Video, "v.mp4"), "<video controls src=\"v.mp4\"></video>");
    assert_eq!(embed_markup(FileType::Unknown, "f.bin"), "<embed src=\"f.bin\" />");
}

#[test]
fn decimal_digits() {
    let mut s = String::from("n=");
    push_decimal(&mut s, 0);
    push_decimal(&mut s, 1209);
    assert_eq!(s, "n=01209");
}
