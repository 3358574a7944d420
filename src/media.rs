//! Media category of an attachment and the element that embeds it.
use vstd::prelude::*;
use crate::text::push_str;

verus! {

/// The media category of an attachment.
#[derive(Debug, Clone, Copy, PartialEq, Eq, Structural)]
pub enum FileType {
    Unknown,
    Audio,
    Video,
}

/// The top-level type (`audio` of `audio/mpeg`) of the first media type that
/// mime_guess associates with the extension of a path.
pub uninterp spec fn first_mime_top_type(path: Seq<char>) -> Option<Seq<char>>;

/// Relies on mime_guess::from_path(..).first() and mime::Mime::type_ for the
/// top-level type of the first media type known for the path's extension.
#[verifier::external_body]
fn guess_top_type(path: &str) -> (r: Option<String>)
    ensures
        match r {
            Some(t) => first_mime_top_type(path@) == Some(t@),
            None => first_mime_top_type(path@) is None,
        },
{
    match mime_guess::from_path(path).first() {
        Some(m) => Some(m.type_().as_str().to_string()),
        None => None,
    }
}

/// The category: a declared audio or video type wins; else the guessed
/// top-level type decides.
pub open spec fn media_kind(declared: FileType, guessed: Option<Seq<char>>) -> FileType {
    match declared {
        FileType::Audio => FileType::Audio,
        FileType::Video => FileType::Video,
        FileType::Unknown => match guessed {
            Some(t) => if t == "audio"@ {
                FileType::Audio
            } else if t == "video"@ {
                FileType::Video
            } else {
                FileType::Unknown
            },
            None => FileType::Unknown,
        },
    }
}

/// Decides the category from the declared type and the top-level media type
/// guessed from the name, if any.
pub fn classify_media(declared: FileType, guessed: Option<String>) -> (r: FileType)
    ensures
        r == media_kind(
            declared,
            match guessed {
                Some(t) => Some(t@),
                None => None,
            },
        ),
{
    match declared {
        FileType::Audio => FileType::Audio,
        FileType::Video => FileType::Video,
        FileType::Unknown => match guessed {
            Some(t) => if t == String::from_str("audio") {
                FileType::Audio
            } else if t == String::from_str("video") {
                FileType::Video
            } else {
                FileType::Unknown
            },
            None => FileType::Unknown,
        },
    }
}

/// The category of an attachment: its declared audio or video type, else the
/// category of the media type guessed from its file name.
pub fn guess_type(declared: FileType, filename: &str) -> (r: FileType)
    ensures
        r == media_kind(declared, first_mime_top_type(filename@)),
{
    match declared {
        FileType::Audio => FileType::Audio,
        FileType::Video => FileType::Video,
        FileType::Unknown => classify_media(declared, guess_top_type(filename)),
    }
}

/// The element that embeds a file of the category.
pub open spec fn embed_element(kind: FileType, src: Seq<char>) -> Seq<char> {
    match kind {
        FileType::Audio => "<audio controls src=\""@ + src + "\"></audio>"@,
        FileType::Video => "<video controls src=\""@ + src + "\"></video>"@,
        FileType::Unknown => "<embed src=\""@ + src + "\" />"@,
    }
}

/// The element that embeds the file written under `filename`.
pub fn embed_markup(kind: FileType, filename: &str) -> (r: String)
    ensures
        r@ == embed_element(kind, filename@),
{
    let mut s = String::new();
    match kind {
        FileType::Audio => {
            push_str(&mut s, "<audio controls src=\"");
            push_str(&mut s, filename);
            push_str(&mut s, "\"></audio>");
        },
        FileType::Video => {
            push_str(&mut s, "<video controls src=\"");
            push_str(&mut s, filename);
            push_str(&mut s, "\"></video>");
        },
        FileType::Unknown => {
            push_str(&mut s, "<embed src=\"");
            push_str(&mut s, filename);
            push_str(&mut s, "\" />");
        },
    }
    s
}

} // verus!
