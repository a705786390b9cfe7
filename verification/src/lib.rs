//! Conversion of a hierarchical block document into a single Markdown text.
//!
//! The crate renders a tree of typed content blocks (paragraphs, headings,
//! lists, tables, and so on) into Markdown. The tree is materialized page by
//! page from a paginated collaborator through [`fetch::BlockSource`], and the
//! render pass walks it depth-first, concatenating the per-block output.
#![verifier::loop_isolation(false)]

pub mod blocks;
pub mod builder;
pub mod converters;
pub mod fetch;
pub mod notion_to_md;
pub mod text;
pub mod utils;
