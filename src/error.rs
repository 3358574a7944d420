//! Failures that abort the rendering of one node.
use vstd::prelude::*;

verus! {

/// Why a node could not be rendered.
#[derive(Debug, Clone, Copy, PartialEq, Eq, Structural)]
pub enum RenderError {
    /// A style attribute with no defined rendering rule.
    UnsupportedStyleFeature,
    /// A hyperlink marker without its closing quote.
    MalformedHyperlinkMarker,
    /// An attachment name that cannot be split into base and extension.
    FilenameDisambiguationFailure,
}

} // verus!
