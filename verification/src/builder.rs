//! Builder-style construction of the document renderer. The builder is the
//! configuration stage; [`NotionToMarkdownBuilder::build`] freezes it into a
//! renderer, whose behaviour is then immutable.
use vstd::prelude::*;

use crate::notion_to_md::NotionToMarkdown;

verus! {

/// Mutable-until-frozen configuration of a [`NotionToMarkdown`] renderer.
/// The converter dispatch it builds is fixed: one default converter of
/// [`crate::converters`] per supported block type. The configurable
/// behaviour is the call-out child de-duplication, on by default.
pub struct NotionToMarkdownBuilder {
    pub dedupe_callout_children: bool,
}

impl NotionToMarkdownBuilder {
    /// Starts configuring a renderer, with every option at its default.
    pub fn new() -> (r: NotionToMarkdownBuilder)
        ensures
            r.dedupe_callout_children,
    {
        NotionToMarkdownBuilder { dedupe_callout_children: true }
    }

    /// Chooses whether the call-out converter drops child lines that repeat
    /// the call-out's own text. The default drops them; switching this off
    /// keeps every child line, quoted.
    pub fn dedupe_callout_children(self, enabled: bool) -> (r: NotionToMarkdownBuilder)
        ensures
            r.dedupe_callout_children == enabled,
    {
        NotionToMarkdownBuilder { dedupe_callout_children: enabled }
    }

    /// Freezes the configuration into a renderer; the builder is consumed,
    /// so later changes cannot reach the built renderer.
    pub fn build(self) -> (r: NotionToMarkdown)
        ensures
            r.dedupe_callout_children == self.dedupe_callout_children,
    {
        NotionToMarkdown { dedupe_callout_children: self.dedupe_callout_children }
    }
}

} // verus!
