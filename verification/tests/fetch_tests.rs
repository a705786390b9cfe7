use notion_to_md_rs::blocks::Block;
use notion_to_md_rs::blocks::BlockType;
use notion_to_md_rs::blocks::HeadingsValue;
use notion_to_md_rs::blocks::BulletedListItemValue;
use notion_to_md_rs::blocks::ParagraphValue;
use notion_to_md_rs::blocks::RichText;
use notion_to_md_rs::blocks::TextValue;
use notion_to_md_rs::builder::NotionToMarkdownBuilder;
use notion_to_md_rs::fetch::fetch_block_tree;
use notion_to_md_rs::fetch::BlockSource;
use notion_to_md_rs::fetch::PageResult;
use notion_to_md_rs::notion_to_md::ConvertError;

fn span(text: &str) -> RichText {
    RichText::Text {
        text: TextValue { content: text.to_string(), link: None },
        plain_text: None,
        annotations: None,
    }
}

fn leaf_block(id: &str, text: &str) -> Block {
    Block {
        id: Some(id.to_string()),
        has_children: Some(false),
        block_type: BlockType::Paragraph {
            paragraph: ParagraphValue { rich_text: vec![span(text)] },
        },
    }
}

fn parent_block(id: &str, text: &str) -> Block {
    Block {
        id: Some(id.to_string()),
        has_children: Some(true),
        block_type: BlockType::BulletedListItem {
            bulleted_list_item: BulletedListItemValue { rich_text: vec![span(text)] },
        },
    }
}

/// A collaborator stub: one scripted queue of pages per block identifier.
struct StubSource {
    pages: Vec<(String, PageResult)>,
    calls: usize,
}

impl BlockSource for StubSource {
    fn list_children(&mut self, block_id: &str, _cursor: Option<&str>) -> Result<
        PageResult,
        String,
    > {
        self.calls += 1;
        let pos = self
            .pages
            .iter()
            .position(|(id, _)| id == block_id)
            .ok_or_else(|| format!("no page scripted for {}", block_id))?;
        Ok(self.pages.remove(pos).1)
    }
}

struct FailingSource {}

impl BlockSource for FailingSource {
    fn list_children(&mut self, _block_id: &str, _cursor: Option<&str>) -> Result<
        PageResult,
        String,
    > {
        Err("boom".to_string())
    }
}

// Two pages for one block with no nested children: exactly two calls, items
// concatenated in order.
#[test]
fn fetch_two_pages_concatenates_in_order() {
    let mut source = StubSource {
        pages: vec![
            (
                "root".to_string(),
                PageResult {
                    items: vec![leaf_block("1", "a"), leaf_block("2", "b")],
                    has_more: true,
                    next_cursor: Some("cur".to_string()),
                },
            ),
            (
                "root".to_string(),
                PageResult {
                    items: vec![leaf_block("3", "c")],
                    has_more: false,
                    next_cursor: None,
                },
            ),
        ],
        calls: 0,
    };
    let result = fetch_block_tree(&mut source, "root", 10).unwrap();
    assert_eq!(source.calls, 2);
    let ids: Vec<String> = result.iter().map(|b| b.block.id.clone().unwrap()).collect();
    assert_eq!(ids, vec!["1", "2", "3"]);
    assert!(result.iter().all(|b| b.children.is_empty()));
}

#[test]
fn fetch_descends_into_children_depth_first() {
    let mut source = StubSource {
        pages: vec![
            (
                "root".to_string(),
                PageResult {
                    items: vec![parent_block("p", "outer"), leaf_block("z", "tail")],
                    has_more: false,
                    next_cursor: None,
                },
            ),
            (
                "p".to_string(),
                PageResult {
                    items: vec![leaf_block("c", "inner")],
                    has_more: false,
                    next_cursor: None,
                },
            ),
        ],
        calls: 0,
    };
    let result = fetch_block_tree(&mut source, "root", 10).unwrap();
    assert_eq!(source.calls, 2);
    assert_eq!(result.len(), 2);
    assert_eq!(result[0].block.id.as_deref(), Some("p"));
    assert_eq!(result[0].children.len(), 1);
    assert_eq!(result[0].children[0].block.id.as_deref(), Some("c"));
    assert_eq!(result[1].block.id.as_deref(), Some("z"));
    assert!(result[1].children.is_empty());
}

#[test]
fn fetch_child_without_id_treated_as_leaf() {
    let mut source = StubSource {
        pages: vec![(
            "root".to_string(),
            PageResult {
                items: vec![Block {
                    id: None,
                    has_children: Some(true),
                    block_type: BlockType::Paragraph {
                        paragraph: ParagraphValue { rich_text: vec![span("x")] },
                    },
                }],
                has_more: false,
                next_cursor: None,
            },
        )],
        calls: 0,
    };
    let result = fetch_block_tree(&mut source, "root", 10).unwrap();
    assert_eq!(source.calls, 1);
    assert_eq!(result.len(), 1);
    assert!(result[0].children.is_empty());
}

#[test]
fn fetch_propagates_collaborator_error() {
    let mut source = FailingSource {};
    match fetch_block_tree(&mut source, "root", 10) {
        Err(ConvertError::Retrieval(msg)) => assert_eq!(msg, "boom"),
        _ => panic!("expected a retrieval error"),
    }
}

#[test]
fn fetch_budget_exhaustion_is_retrieval_error() {
    let mut source = FailingSource {};
    match fetch_block_tree(&mut source, "root", 0) {
        Err(ConvertError::Retrieval(_)) => (),
        _ => panic!("expected a retrieval error"),
    }
}

// End-to-end: one heading-1 block "Title" and one bulleted item "Item".
#[test]
fn convert_page_end_to_end() {
    let mut source = StubSource {
        pages: vec![(
            "page".to_string(),
            PageResult {
                items: vec![
                    Block {
                        id: Some("h".to_string()),
                        has_children: Some(false),
                        block_type: BlockType::Heading1 {
                            heading_1: HeadingsValue { rich_text: vec![span("Title")] },
                        },
                    },
                    Block {
                        id: Some("b".to_string()),
                        has_children: Some(false),
                        block_type: BlockType::BulletedListItem {
                            bulleted_list_item: BulletedListItemValue {
                                rich_text: vec![span("Item")],
                            },
                        },
                    },
                ],
                has_more: false,
                next_cursor: None,
            },
        )],
        calls: 0,
    };
    let renderer = NotionToMarkdownBuilder::new().build();
    let out = renderer.convert_page(&mut source, "page", 10).unwrap();
    assert_eq!(out, "# Title\n- Item\n");
}

#[test]
fn convert_page_zero_budget_fails() {
    let mut source = StubSource {
        pages: vec![(
            "page".to_string(),
            PageResult { items: Vec::new(), has_more: false, next_cursor: None },
        )],
        calls: 0,
    };
    let renderer = NotionToMarkdownBuilder::new().build();
    match renderer.convert_page(&mut source, "page", 0) {
        Err(ConvertError::Retrieval(_)) => assert_eq!(source.calls, 0),
        _ => panic!("expected a retrieval error"),
    }
}

#[test]
fn convert_page_surfaces_retrieval_error() {
    let mut source = FailingSource {};
    let renderer = NotionToMarkdownBuilder::new().build();
    match renderer.convert_page(&mut source, "page", 10) {
        Err(ConvertError::Retrieval(msg)) => assert_eq!(msg, "boom"),
        _ => panic!("expected a retrieval error"),
    }
}
