//! The data model of the content tree: typed blocks, their rich-text spans,
//! and file references. Values of these types are plain data; the collaborator
//! that talks to the remote content service builds them, and the renderer
//! reads them.
use vstd::prelude::*;

verus! {

/// Boolean style flags attached to a rich-text span.
#[derive(Debug, Clone)]
pub struct Annotations {
    pub bold: bool,
    pub italic: bool,
    pub strikethrough: bool,
    pub code: bool,
}

/// A hyperlink carried by a text span.
#[derive(Debug, Clone)]
pub struct TextLink {
    pub url: String,
}

/// The content of a text span: its raw text and an optional hyperlink.
#[derive(Debug, Clone)]
pub struct TextValue {
    pub content: String,
    pub link: Option<TextLink>,
}

/// An atomic styled text unit. A paragraph's displayed text is composed of a
/// sequence of spans. The `Absent` variant stands for a span the source
/// delivered empty; it renders as nothing.
#[derive(Debug, Clone)]
pub enum RichText {
    Text { text: TextValue, plain_text: Option<String>, annotations: Option<Annotations> },
    Mention { plain_text: String, annotations: Annotations },
    Equation { plain_text: String, annotations: Annotations },
    Absent,
}

/// A file reference: either an external URL or one hosted by the content
/// service.
#[derive(Debug, Clone)]
pub enum FileRef {
    External { url: String },
    Hosted { url: String },
}

/// Payload of a paragraph block.
#[derive(Debug, Clone)]
pub struct ParagraphValue {
    pub rich_text: Vec<RichText>,
}

/// Payload of a heading block of any level.
#[derive(Debug, Clone)]
pub struct HeadingsValue {
    pub rich_text: Vec<RichText>,
}

/// Payload of a bulleted list item.
#[derive(Debug, Clone)]
pub struct BulletedListItemValue {
    pub rich_text: Vec<RichText>,
}

/// Payload of a numbered list item.
#[derive(Debug, Clone)]
pub struct NumberedListItemValue {
    pub rich_text: Vec<RichText>,
}

/// Payload of a to-do item with its check state.
#[derive(Debug, Clone)]
pub struct ToDoValue {
    pub rich_text: Vec<RichText>,
    pub checked: Option<bool>,
}

/// Payload of a toggle block.
#[derive(Debug, Clone)]
pub struct ToggleValue {
    pub rich_text: Vec<RichText>,
}

/// Payload of a quote block.
#[derive(Debug, Clone)]
pub struct QuoteValue {
    pub rich_text: Vec<RichText>,
}

/// Payload of a fenced code block with its language tag.
#[derive(Debug, Clone)]
pub struct CodeValue {
    pub rich_text: Vec<RichText>,
    pub language: String,
}

/// Payload of a call-out block.
#[derive(Debug, Clone)]
pub struct CalloutValue {
    pub rich_text: Vec<RichText>,
}

/// Payload of an image block.
#[derive(Debug, Clone)]
pub struct ImageValue {
    pub file_type: FileRef,
}

/// Payload of a video block.
#[derive(Debug, Clone)]
pub struct VideoValue {
    pub file_type: FileRef,
}

/// Payload of a bookmark block.
#[derive(Debug, Clone)]
pub struct BookmarkValue {
    pub url: String,
}

/// Payload of a link-preview block.
#[derive(Debug, Clone)]
pub struct LinkPreviewValue {
    pub url: String,
}

/// Payload of a divider block.
#[derive(Debug, Clone)]
pub struct DividerValue {}

/// Payload of a table block; its rows arrive as `TableRow` children.
#[derive(Debug, Clone)]
pub struct TableValue {}

/// Payload of one table row: one rich-text sequence per cell.
#[derive(Debug, Clone)]
pub struct TableRowValue {
    pub cells: Vec<Vec<RichText>>,
}

/// Payload of an embed block.
#[derive(Debug, Clone)]
pub struct EmbedValue {
    pub url: String,
}

/// The tagged variant of a block: its type and the type-specific fields.
/// `Unsupported` stands for every type the renderer does not know; such a
/// block renders as empty output.
#[derive(Debug, Clone)]
pub enum BlockType {
    Paragraph { paragraph: ParagraphValue },
    Heading1 { heading_1: HeadingsValue },
    Heading2 { heading_2: HeadingsValue },
    Heading3 { heading_3: HeadingsValue },
    BulletedListItem { bulleted_list_item: BulletedListItemValue },
    NumberedListItem { numbered_list_item: NumberedListItemValue },
    ToDo { to_do: ToDoValue },
    Toggle { toggle: ToggleValue },
    Quote { quote: QuoteValue },
    Code { code: CodeValue },
    Callout { callout: CalloutValue },
    Image { image: ImageValue },
    Video { video: VideoValue },
    Bookmark { bookmark: BookmarkValue },
    LinkPreview { link_preview: LinkPreviewValue },
    Divider { divider: DividerValue },
    Table { table: TableValue },
    TableRow { table_row: TableRowValue },
    Embed { embed: EmbedValue },
    Unsupported,
}

/// One node of the content tree as the collaborator returns it: an optional
/// identifier, a flag telling whether children exist, and the typed payload.
#[derive(Debug, Clone)]
pub struct Block {
    pub id: Option<String>,
    pub has_children: Option<bool>,
    pub block_type: BlockType,
}

} // verus!
