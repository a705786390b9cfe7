use notion_to_md_rs::utils::add_tab_space;
use notion_to_md_rs::utils::bold;
use notion_to_md_rs::utils::bullet;
use notion_to_md_rs::utils::callout;
use notion_to_md_rs::utils::code_block;
use notion_to_md_rs::utils::divider;
use notion_to_md_rs::utils::equation;
use notion_to_md_rs::utils::heading1;
use notion_to_md_rs::utils::heading2;
use notion_to_md_rs::utils::heading3;
use notion_to_md_rs::utils::image;
use notion_to_md_rs::utils::image_embedded;
use notion_to_md_rs::utils::inline_code;
use notion_to_md_rs::utils::inline_equation;
use notion_to_md_rs::utils::italic;
use notion_to_md_rs::utils::link;
use notion_to_md_rs::utils::quote;
use notion_to_md_rs::utils::strikethrough;
use notion_to_md_rs::utils::table;
use notion_to_md_rs::utils::todo;
use notion_to_md_rs::utils::toggle;
use notion_to_md_rs::utils::underline;
use notion_to_md_rs::utils::CalloutIcon;

fn nospace(s: &str) -> String {
    s.chars().filter(|c| !c.is_whitespace()).collect()
}

// ---------------- Callout ----------------
#[test]
fn callout_without_emoji() {
    let text = "Call out text content.";
    assert_eq!(callout(text, None), format!("> {}", text));
}

#[test]
fn callout_with_emoji() {
    let text = "Call out text content.";
    assert_eq!(
        callout(text, Some(CalloutIcon::Emoji("😍".into()))),
        format!("> 😍 {}", text)
    );
}

#[test]
fn callout_preserves_heading_level() {
    assert_eq!(callout("## Title", None), "> ##Title");
}

// --------------- Markdown Table ----------
#[test]
fn simple_table() {
    let mock = vec![
        vec!["number".to_string(), "char".to_string()],
        vec!["1".to_string(), "a".to_string()],
        vec!["2".to_string(), "b".to_string()],
    ];
    let expected = "| number | char |\n| ------ | ---- |\n| 1      | a    |\n| 2      | b    |";
    assert_eq!(table(&mock), expected);
}

// --------------- Text Annotations --------
#[test]
fn inline_code_test() {
    assert_eq!(inline_code("simple text"), "`simple text`");
}

#[test]
fn code_block_test() {
    let expected = "```javascript\nsimple text\n```";
    assert_eq!(code_block("simple text", Some("javascript")), expected);
}

#[test]
fn code_block_defaults_to_plaintext() {
    assert_eq!(code_block("x", None), "```plaintext\nx\n```");
    assert_eq!(code_block("x", Some("  ")), "```plaintext\nx\n```");
    assert_eq!(code_block("x", Some(" RUST ")), "```rust\nx\n```");
}

#[test]
fn inline_equation_test() {
    assert_eq!(inline_equation("E = mc^2"), "$E = mc^2$");
}

#[test]
fn equation_block_test() {
    let expected = "$$\nE = mc^2\n$$";
    assert_eq!(equation("E = mc^2"), expected);
}

#[test]
fn bold_test() {
    assert_eq!(bold("simple text"), "**simple text**");
}

#[test]
fn italic_test() {
    assert_eq!(italic("simple text"), "_simple text_");
}

#[test]
fn strikethrough_test() {
    assert_eq!(strikethrough("simple text"), "~~simple text~~");
}

#[test]
fn underline_test() {
    assert_eq!(underline("simple text"), "<u>simple text</u>");
}

#[test]
fn link_test() {
    assert_eq!(link("text", "https://example.com"), "[text](https://example.com)");
}

// ---------------- Headings ---------------
#[test]
fn heading1_test() {
    assert_eq!(heading1("simple text"), "# simple text");
}

#[test]
fn heading2_test() {
    assert_eq!(heading2("simple text"), "## simple text");
}

#[test]
fn heading3_test() {
    assert_eq!(heading3("simple text"), "### simple text");
}

// ---------------- List Elements ----------
#[test]
fn bullet_test() {
    assert_eq!(bullet("simple text", None), "- simple text");
}

#[test]
fn numbered_bullet_test() {
    assert_eq!(bullet("simple text", Some(12)), "12. simple text");
}

#[test]
fn checked_todo_test() {
    assert_eq!(todo("simple text", true), "- [x] simple text");
}

#[test]
fn unchecked_todo_test() {
    assert_eq!(todo("simple text", false), "- [ ] simple text");
}

// ---------------- Quote / divider --------
#[test]
fn quote_test() {
    assert_eq!(quote("wisdom"), "> wisdom");
}

#[test]
fn divider_test() {
    assert_eq!(divider(), "---");
}

// ---------------- Indentation ------------
#[test]
fn add_tab_space_single_line() {
    assert_eq!(add_tab_space("a", 1), "    a");
    assert_eq!(add_tab_space("a", 0), "a");
}

#[test]
fn add_tab_space_multi_line() {
    assert_eq!(add_tab_space("a\nb", 2), "        a\n        b");
}

// ---------------- Image ------------------
#[test]
fn image_with_alt_text() {
    let out = image("simple text", "https://example.com/image", false).unwrap();
    assert_eq!(out, "![simple text](https://example.com/image)");
}

#[test]
fn image_data_uri_normalised() {
    let out = image("alt", "data:image/gif;base64,QUJD", true).unwrap();
    assert_eq!(out, "![alt](data:image/png;base64,QUJD)");
}

#[test]
fn image_needs_download() {
    assert!(image("alt", "https://example.com/a.png", true).is_none());
}

#[test]
fn image_embedded_encodes_base64() {
    let bytes = vec![b'M', b'a', b'n'];
    assert_eq!(image_embedded("alt", &bytes), "![alt](data:image/png;base64,TWFu)");
}

// ---------------- Toggle -----------------
#[test]
fn toggle_no_summary() {
    assert_eq!(nospace(&toggle(None, Some("content"))), "content");
}

#[test]
fn toggle_empty() {
    assert_eq!(nospace(&toggle(None, None)), "");
}

#[test]
fn toggle_details_summary() {
    assert_eq!(
        nospace(&toggle(Some("title"), Some("content"))),
        "<details><summary>title</summary>content</details>"
    );
}
