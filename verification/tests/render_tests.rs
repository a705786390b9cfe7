use notion_to_md_rs::blocks::Annotations;
use notion_to_md_rs::blocks::Block;
use notion_to_md_rs::blocks::BlockType;
use notion_to_md_rs::blocks::BookmarkValue;
use notion_to_md_rs::blocks::BulletedListItemValue;
use notion_to_md_rs::blocks::CalloutValue;
use notion_to_md_rs::blocks::CodeValue;
use notion_to_md_rs::blocks::DividerValue;
use notion_to_md_rs::blocks::FileRef;
use notion_to_md_rs::blocks::HeadingsValue;
use notion_to_md_rs::blocks::ImageValue;
use notion_to_md_rs::blocks::NumberedListItemValue;
use notion_to_md_rs::blocks::ParagraphValue;
use notion_to_md_rs::blocks::QuoteValue;
use notion_to_md_rs::blocks::RichText;
use notion_to_md_rs::blocks::TableRowValue;
use notion_to_md_rs::blocks::TableValue;
use notion_to_md_rs::blocks::TextLink;
use notion_to_md_rs::blocks::TextValue;
use notion_to_md_rs::blocks::ToDoValue;
use notion_to_md_rs::builder::NotionToMarkdownBuilder;
use notion_to_md_rs::converters;
use notion_to_md_rs::notion_to_md::BlockWithChildren;
use notion_to_md_rs::notion_to_md::ListContext;
use notion_to_md_rs::notion_to_md::NotionToMarkdown;

fn span(text: &str) -> RichText {
    RichText::Text {
        text: TextValue { content: text.to_string(), link: None },
        plain_text: None,
        annotations: None,
    }
}

fn styled_span(text: &str, bold: bool, italic: bool, strikethrough: bool, code: bool) -> RichText {
    RichText::Text {
        text: TextValue { content: text.to_string(), link: None },
        plain_text: None,
        annotations: Some(Annotations { bold, italic, strikethrough, code }),
    }
}

fn block(bt: BlockType) -> BlockWithChildren {
    BlockWithChildren {
        block: Block { id: None, has_children: None, block_type: bt },
        children: Vec::new(),
    }
}

fn block_with_children(bt: BlockType, children: Vec<BlockWithChildren>) -> BlockWithChildren {
    BlockWithChildren {
        block: Block { id: None, has_children: Some(true), block_type: bt },
        children,
    }
}

fn paragraph_block(text: &str) -> BlockWithChildren {
    block(BlockType::Paragraph {
        paragraph: ParagraphValue { rich_text: vec![span(text)] },
    })
}

fn numbered_block(text: &str) -> BlockWithChildren {
    block(BlockType::NumberedListItem {
        numbered_list_item: NumberedListItemValue { rich_text: vec![span(text)] },
    })
}

fn table_row(cells: Vec<&str>) -> BlockWithChildren {
    block(BlockType::TableRow {
        table_row: TableRowValue {
            cells: cells.into_iter().map(|c| vec![span(c)]).collect(),
        },
    })
}

// Unannotated spans concatenate in order; hyperlink wrapping applies only
// where a link is present.
#[test]
fn rich_text_plain_concatenation() {
    let spans = vec![
        span("one "),
        RichText::Text {
            text: TextValue {
                content: "two".to_string(),
                link: Some(TextLink { url: "https://e.com".to_string() }),
            },
            plain_text: None,
            annotations: None,
        },
        span(" three"),
    ];
    assert_eq!(
        NotionToMarkdown::rich_text_to_markdown(&spans),
        "one [two](https://e.com) three"
    );
}

#[test]
fn rich_text_prefers_plain_text() {
    let spans = vec![RichText::Text {
        text: TextValue { content: "raw".to_string(), link: None },
        plain_text: Some("plain".to_string()),
        annotations: None,
    }];
    assert_eq!(NotionToMarkdown::rich_text_to_markdown(&spans), "plain");
}

#[test]
fn rich_text_empty_is_empty() {
    let spans: Vec<RichText> = Vec::new();
    assert_eq!(NotionToMarkdown::rich_text_to_markdown(&spans), "");
}

// Annotation nesting order: code > strikethrough > italic > bold.
#[test]
fn rich_text_full_annotation_nesting() {
    let spans = vec![styled_span("X", true, true, true, true)];
    assert_eq!(NotionToMarkdown::rich_text_to_markdown(&spans), "`~~***X***~~`");
}

#[test]
fn rich_text_single_annotations() {
    assert_eq!(
        NotionToMarkdown::rich_text_to_markdown(&[styled_span("X", true, false, false, false)]),
        "**X**"
    );
    assert_eq!(
        NotionToMarkdown::rich_text_to_markdown(&[styled_span("X", false, true, false, false)]),
        "*X*"
    );
    assert_eq!(
        NotionToMarkdown::rich_text_to_markdown(&[styled_span("X", false, false, true, false)]),
        "~~X~~"
    );
    assert_eq!(
        NotionToMarkdown::rich_text_to_markdown(&[styled_span("X", false, false, false, true)]),
        "`X`"
    );
}

// Numbering context: first number one, steps of one, nested levels start
// fresh, popped levels resume.
#[test]
fn list_context_numbering() {
    let mut ctx = ListContext::new();
    assert_eq!(ctx.next_number(), 1);
    assert_eq!(ctx.next_number(), 2);
    ctx.push();
    assert_eq!(ctx.next_number(), 1);
    assert_eq!(ctx.next_number(), 2);
    ctx.pop();
    assert_eq!(ctx.next_number(), 3);
}

#[test]
fn list_context_pop_never_empties() {
    let mut ctx = ListContext::new();
    ctx.pop();
    ctx.pop();
    assert_eq!(ctx.next_number(), 1);
}

// A numbered list interrupted by a paragraph restarts at one.
#[test]
fn numbered_list_restarts_after_interruption() {
    let renderer = NotionToMarkdownBuilder::new().build();
    let blocks = vec![
        numbered_block("a"),
        numbered_block("b"),
        paragraph_block("p"),
        numbered_block("c"),
    ];
    let out = renderer.convert_blocks_to_markdown(&blocks).unwrap();
    assert_eq!(out, "1. a\n2. b\np\n1. c\n");
}

// An empty paragraph renders as exactly one newline.
#[test]
fn empty_paragraph_single_newline() {
    let renderer = NotionToMarkdownBuilder::new().build();
    let blocks = vec![block(BlockType::Paragraph {
        paragraph: ParagraphValue { rich_text: Vec::new() },
    })];
    assert_eq!(renderer.convert_blocks_to_markdown(&blocks).unwrap(), "\n");
}

#[test]
fn blank_paragraph_single_newline() {
    let renderer = NotionToMarkdownBuilder::new().build();
    let blocks = vec![paragraph_block("   ")];
    assert_eq!(renderer.convert_blocks_to_markdown(&blocks).unwrap(), "\n");
}

// Table converter: header, separator of the same column count, data rows.
#[test]
fn table_converter_three_rows() {
    let renderer = NotionToMarkdownBuilder::new().build();
    let mut ctx = ListContext::new();
    let children = vec![
        table_row(vec!["number", "char"]),
        table_row(vec!["1", "a"]),
        table_row(vec!["2", "b"]),
    ];
    let out = converters::table(&TableValue {}, &children, &mut ctx, &renderer).unwrap();
    assert_eq!(out, "| number | char |\n| --- | --- |\n| 1 | a |\n| 2 | b |\n\n");
}

#[test]
fn table_converter_without_rows() {
    let renderer = NotionToMarkdownBuilder::new().build();
    let mut ctx = ListContext::new();
    let children: Vec<BlockWithChildren> = Vec::new();
    let out = converters::table(&TableValue {}, &children, &mut ctx, &renderer).unwrap();
    assert_eq!(out, "\n");
}

// End-to-end rendering of a small sibling sequence.
#[test]
fn heading_and_bullet_render() {
    let renderer = NotionToMarkdownBuilder::new().build();
    let blocks = vec![
        block(BlockType::Heading1 {
            heading_1: HeadingsValue { rich_text: vec![span("Title")] },
        }),
        block(BlockType::BulletedListItem {
            bulleted_list_item: BulletedListItemValue { rich_text: vec![span("Item")] },
        }),
    ];
    assert_eq!(renderer.convert_blocks_to_markdown(&blocks).unwrap(), "# Title\n- Item\n");
}

#[test]
fn nested_bulleted_list_indents_children() {
    let renderer = NotionToMarkdownBuilder::new().build();
    let child = block(BlockType::BulletedListItem {
        bulleted_list_item: BulletedListItemValue { rich_text: vec![span("inner")] },
    });
    let blocks = vec![block_with_children(
        BlockType::BulletedListItem {
            bulleted_list_item: BulletedListItemValue { rich_text: vec![span("outer")] },
        },
        vec![child],
    )];
    assert_eq!(
        renderer.convert_blocks_to_markdown(&blocks).unwrap(),
        "- outer\n  - inner\n"
    );
}

#[test]
fn nested_numbered_list_starts_fresh() {
    let renderer = NotionToMarkdownBuilder::new().build();
    let blocks = vec![
        block_with_children(
            BlockType::NumberedListItem {
                numbered_list_item: NumberedListItemValue { rich_text: vec![span("outer")] },
            },
            vec![numbered_block("inner")],
        ),
        numbered_block("second"),
    ];
    assert_eq!(
        renderer.convert_blocks_to_markdown(&blocks).unwrap(),
        "1. outer\n  1. inner\n2. second\n"
    );
}

#[test]
fn quote_renders_lines_and_children() {
    let renderer = NotionToMarkdownBuilder::new().build();
    let blocks = vec![block_with_children(
        BlockType::Quote { quote: QuoteValue { rich_text: vec![span("l1\nl2")] } },
        vec![paragraph_block("kid")],
    )];
    assert_eq!(
        renderer.convert_blocks_to_markdown(&blocks).unwrap(),
        "> l1\n> l2\n> kid\n\n"
    );
}

#[test]
fn callout_drops_duplicate_child_lines() {
    let renderer = NotionToMarkdownBuilder::new().build();
    let blocks = vec![block_with_children(
        BlockType::Callout { callout: CalloutValue { rich_text: vec![span("dup")] } },
        vec![paragraph_block("dup"), paragraph_block("kept")],
    )];
    assert_eq!(
        renderer.convert_blocks_to_markdown(&blocks).unwrap(),
        "> [!note] dup\n> kept\n\n"
    );
}

#[test]
fn callout_keeps_duplicate_lines_when_configured() {
    let renderer = NotionToMarkdownBuilder::new().dedupe_callout_children(false).build();
    let blocks = vec![block_with_children(
        BlockType::Callout { callout: CalloutValue { rich_text: vec![span("dup")] } },
        vec![paragraph_block("dup"), paragraph_block("kept")],
    )];
    assert_eq!(
        renderer.convert_blocks_to_markdown(&blocks).unwrap(),
        "> [!note] dup\n> dup\n> kept\n\n"
    );
}

#[test]
fn code_block_language_lowercased() {
    let renderer = NotionToMarkdownBuilder::new().build();
    let blocks = vec![block(BlockType::Code {
        code: CodeValue { rich_text: vec![span("let x = 1;")], language: "Rust".to_string() },
    })];
    assert_eq!(
        renderer.convert_blocks_to_markdown(&blocks).unwrap(),
        "```rust\nlet x = 1;\n```\n"
    );
}

#[test]
fn to_do_render_both_states() {
    let renderer = NotionToMarkdownBuilder::new().build();
    let blocks = vec![
        block(BlockType::ToDo {
            to_do: ToDoValue { rich_text: vec![span("done")], checked: Some(true) },
        }),
        block(BlockType::ToDo {
            to_do: ToDoValue { rich_text: vec![span("open")], checked: None },
        }),
    ];
    assert_eq!(
        renderer.convert_blocks_to_markdown(&blocks).unwrap(),
        "- [x] done\n- [ ] open\n"
    );
}

#[test]
fn image_bookmark_divider_render() {
    let renderer = NotionToMarkdownBuilder::new().build();
    let blocks = vec![
        block(BlockType::Image {
            image: ImageValue {
                file_type: FileRef::External { url: "https://e.com/i.png".to_string() },
            },
        }),
        block(BlockType::Bookmark {
            bookmark: BookmarkValue { url: "https://e.com".to_string() },
        }),
        block(BlockType::Divider { divider: DividerValue {} }),
    ];
    assert_eq!(
        renderer.convert_blocks_to_markdown(&blocks).unwrap(),
        "![](https://e.com/i.png)\n\n[https://e.com](https://e.com)\n\n---\n\n"
    );
}

#[test]
fn unsupported_block_renders_empty() {
    let renderer = NotionToMarkdownBuilder::new().build();
    let blocks = vec![block(BlockType::Unsupported), paragraph_block("after")];
    assert_eq!(renderer.convert_blocks_to_markdown(&blocks).unwrap(), "after\n");
}
