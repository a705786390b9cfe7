//! The per-block-type converters and the recursive rendering model. Each
//! converter turns one typed block, its already-materialized children and the
//! shared numbering context into Markdown; the spec functions here pin the
//! whole tree walk down, reset rule and numbering included.
use vstd::prelude::*;

use crate::blocks::BlockType;
use crate::blocks::BulletedListItemValue;
use crate::blocks::CalloutValue;
use crate::blocks::CodeValue;
use crate::blocks::HeadingsValue;
use crate::blocks::NumberedListItemValue;
use crate::blocks::ParagraphValue;
use crate::blocks::QuoteValue;
use crate::blocks::ToDoValue;
use crate::blocks::ToggleValue;
use crate::blocks::TableValue;
use crate::blocks::EmbedValue;
use crate::blocks::DividerValue;
use crate::blocks::BookmarkValue;
use crate::blocks::LinkPreviewValue;
use crate::blocks::ImageValue;
use crate::blocks::VideoValue;
use crate::notion_to_md::BlockWithChildren;
use crate::notion_to_md::ConvertError;
use crate::notion_to_md::ListContext;
use crate::notion_to_md::NotionToMarkdown;
use crate::notion_to_md::file_url;
use crate::notion_to_md::render_rich_text;
use crate::text::blank;
use crate::text::collapse_nl;
use crate::text::dec_digits;
use crate::text::join_with;
use crate::text::keep_lines;
use crate::text::lowercase_of;
use crate::text::prefixed_lines;
use crate::text::repeat_seq;
use crate::text::spec_lines;
use crate::text::trim_spec;
use crate::utils::code_lang;

verus! {

/// Whether a block is a numbered list item: the block kind the numbering
/// reset rule watches for.
pub open spec fn is_numbered(bt: BlockType) -> bool {
    bt matches BlockType::NumberedListItem { .. }
}

/// The counter stack after one numbered list item: the top counter bumped.
pub open spec fn bump_top(ctx: Seq<usize>) -> Seq<usize> {
    ctx.update(ctx.len() - 1, ((ctx.last() + 1) as usize))
}

/// The counter stack after a block has been rendered: bumped for a numbered
/// list item, untouched for every other kind.
pub open spec fn ctx_after(bt: BlockType, ctx: Seq<usize>) -> Seq<usize> {
    if is_numbered(bt) {
        bump_top(ctx)
    } else {
        ctx
    }
}

/// Child content prepared for a list item: doubled blank lines collapsed to
/// single, then every line indented by two spaces.
pub open spec fn indented_children(c: Seq<char>) -> Seq<char> {
    join_with(prefixed_lines(spec_lines(collapse_nl(c)), "  "@), "\n"@)
}

/// Child content prepared for a quote: every line behind a `> ` marker.
pub open spec fn quoted_children(c: Seq<char>) -> Seq<char> {
    join_with(prefixed_lines(spec_lines(c), "> "@), "\n"@)
}

/// Child content prepared for a call-out: the lines that repeat the
/// call-out's own text dropped, the rest behind `> ` markers.
pub open spec fn callout_children(c: Seq<char>, text: Seq<char>) -> Seq<char> {
    join_with(prefixed_lines(keep_lines(spec_lines(c), text), "> "@), "\n"@)
}

/// A paragraph: its text and a newline, or a bare newline when the text is
/// blank.
pub open spec fn conv_paragraph(v: ParagraphValue) -> Seq<char> {
    let text = render_rich_text(v.rich_text@);
    if blank(text) {
        "\n"@
    } else {
        text + "\n"@
    }
}

/// A heading of level one.
pub open spec fn conv_heading_1(v: HeadingsValue) -> Seq<char> {
    "# "@ + render_rich_text(v.rich_text@) + "\n"@
}

/// A heading of level two.
pub open spec fn conv_heading_2(v: HeadingsValue) -> Seq<char> {
    "## "@ + render_rich_text(v.rich_text@) + "\n"@
}

/// A heading of level three.
pub open spec fn conv_heading_3(v: HeadingsValue) -> Seq<char> {
    "### "@ + render_rich_text(v.rich_text@) + "\n"@
}

/// The shared shape of bulleted list items and toggles: a `- ` line, then
/// the indented children when any line of them remains.
pub open spec fn conv_bullet_like(text: Seq<char>, rc: Seq<char>, has_children: bool) -> Seq<
    char,
> {
    let head = "- "@ + trim_spec(text) + "\n"@;
    if has_children && indented_children(rc).len() > 0 {
        head + indented_children(rc) + "\n"@
    } else {
        head
    }
}

/// A bulleted list item.
pub open spec fn conv_bulleted_list_item(v: BulletedListItemValue, rc: Seq<char>, has_children: bool) -> Seq<char> {
    conv_bullet_like(render_rich_text(v.rich_text@), rc, has_children)
}

/// A toggle: rendered exactly as a bulleted list item; the collapsible
/// semantics are not preserved.
pub open spec fn conv_toggle(v: ToggleValue, rc: Seq<char>, has_children: bool) -> Seq<char> {
    conv_bullet_like(render_rich_text(v.rich_text@), rc, has_children)
}

/// A numbered list item carrying the ordinal `n` the numbering context
/// handed out.
pub open spec fn conv_numbered_list_item(
    v: NumberedListItemValue,
    rc: Seq<char>,
    has_children: bool,
    n: nat,
) -> Seq<char> {
    let head = dec_digits(n) + ". "@ + trim_spec(render_rich_text(v.rich_text@)) + "\n"@;
    if has_children && indented_children(rc).len() > 0 {
        head + indented_children(rc) + "\n"@
    } else {
        head
    }
}

/// A to-do item with its check mark.
pub open spec fn conv_to_do(v: ToDoValue) -> Seq<char> {
    let text = render_rich_text(v.rich_text@);
    let checked = v.checked matches Option::Some(true);
    if checked {
        "- [x] "@ + text + "\n"@
    } else {
        "- [ ] "@ + text + "\n"@
    }
}

/// The quote marker lines of a text: each of its lines behind `> ` with a
/// newline after each.
pub open spec fn quote_head(ls: Seq<Seq<char>>) -> Seq<char>
    decreases ls.len(),
{
    if ls.len() == 0 {
        Seq::empty()
    } else {
        quote_head(ls.drop_last()) + "> "@ + ls.last() + "\n"@
    }
}

/// A quote: its own lines quoted, then the quoted children when any, then a
/// closing newline.
pub open spec fn conv_quote(v: QuoteValue, rc: Seq<char>, has_children: bool) -> Seq<char> {
    let text = render_rich_text(v.rich_text@);
    let head = quote_head(spec_lines(text));
    let body = if has_children && quoted_children(rc).len() > 0 {
        head + quoted_children(rc) + "\n"@
    } else {
        head
    };
    body + "\n"@
}

/// A fenced code block: the language tag lower-cased from the block's
/// language field.
pub open spec fn conv_code(v: CodeValue) -> Seq<char> {
    "```"@ + code_lang(Option::Some(lowercase_of(v.language@))) + "\n"@ + trim_spec(
        render_rich_text(v.rich_text@),
    ) + "\n```"@ + "\n"@
}

/// A call-out: a note marker line, then the quoted children, then a
/// closing newline. With `dedupe` set — the default — child lines that
/// repeat the call-out's own text are dropped; without it every child
/// line stays.
pub open spec fn conv_callout(v: CalloutValue, rc: Seq<char>, has_children: bool, dedupe: bool) -> Seq<char> {
    let text = render_rich_text(v.rich_text@);
    let head = "> [!note] "@ + text + "\n"@;
    let kept = if dedupe {
        callout_children(rc, text)
    } else {
        quoted_children(rc)
    };
    let body = if has_children && kept.len() > 0 {
        head + kept + "\n"@
    } else {
        head
    };
    body + "\n"@
}

/// An image: an empty-alt Markdown image of the file's URL.
pub open spec fn conv_image(v: ImageValue) -> Seq<char> {
    "![]("@ + file_url(v.file_type) + ")\n\n"@
}

/// A video: rendered exactly as an image.
pub open spec fn conv_video(v: VideoValue) -> Seq<char> {
    "![]("@ + file_url(v.file_type) + ")\n\n"@
}

/// A bookmark: a link whose text is its own URL.
pub open spec fn conv_bookmark(v: BookmarkValue) -> Seq<char> {
    "["@ + v.url@ + "]("@ + v.url@ + ")\n\n"@
}

/// A link preview: rendered exactly as a bookmark.
pub open spec fn conv_link_preview(v: LinkPreviewValue) -> Seq<char> {
    "["@ + v.url@ + "]("@ + v.url@ + ")\n\n"@
}

/// A divider: a horizontal rule.
pub open spec fn conv_divider(v: DividerValue) -> Seq<char> {
    "---\n\n"@
}

/// An embed: an inline HTML iframe pointing at the embedded URL.
pub open spec fn conv_embed(v: EmbedValue) -> Seq<char> {
    "<iframe src=\""@ + v.url@ + "\" width=\"100%\" height=\"500px\"></iframe>\n\n"@
}

/// The first `k` cells of a table row: each cell's rich text between a
/// leading space and a ` |` separator.
pub open spec fn table_cells(cells: Seq<Vec<crate::blocks::RichText>>, k: int) -> Seq<char>
    decreases k,
{
    if k <= 0 {
        Seq::empty()
    } else {
        table_cells(cells, k - 1) + " "@ + render_rich_text(cells[k - 1]@) + " |"@
    }
}

/// One full table row line.
pub open spec fn table_row_line(cells: Seq<Vec<crate::blocks::RichText>>) -> Seq<char> {
    "|"@ + table_cells(cells, cells.len() as int) + "\n"@
}

/// The data rows of a table: the table-row children after the header, in
/// order; children of any other kind contribute nothing.
pub open spec fn table_data_rows(children: Seq<BlockWithChildren>, k: int) -> Seq<char>
    decreases k,
{
    if k <= 1 {
        Seq::empty()
    } else {
        table_data_rows(children, k - 1) + match children[k - 1].block.block_type {
            BlockType::TableRow { table_row } => table_row_line(table_row.cells@),
            _ => Seq::empty(),
        }
    }
}

/// A table: a header row built from the first table-row child, a `---`
/// separator of the same column count, then the data rows; a closing
/// newline always. A table without a leading table-row child renders as the
/// closing newline alone.
pub open spec fn conv_table(v: TableValue, children: Seq<BlockWithChildren>) -> Seq<char> {
    let body = if children.len() > 0 {
        match children[0].block.block_type {
            BlockType::TableRow { table_row } => table_row_line(table_row.cells@) + "|"@
                + repeat_seq(" --- |"@, table_row.cells@.len()) + "\n"@ + table_data_rows(
                children,
                children.len() as int,
            ),
            _ => Seq::empty(),
        }
    } else {
        Seq::empty()
    };
    body + "\n"@
}

/// The output of one block under the counter stack `ctx`, children
/// included; `dedupe` is the renderer's call-out de-duplication choice.
/// An unsupported block renders as empty output.
pub open spec fn spec_render_block(bwc: BlockWithChildren, ctx: Seq<usize>, dedupe: bool) -> Seq<char>
    decreases bwc, 0int, 0int,
{
    let children = bwc.children@;
    let has = children.len() > 0;
    match bwc.block.block_type {
        BlockType::Paragraph { paragraph } => conv_paragraph(paragraph),
        BlockType::Heading1 { heading_1 } => conv_heading_1(heading_1),
        BlockType::Heading2 { heading_2 } => conv_heading_2(heading_2),
        BlockType::Heading3 { heading_3 } => conv_heading_3(heading_3),
        BlockType::BulletedListItem { bulleted_list_item } => conv_bulleted_list_item(
            bulleted_list_item,
            spec_render_blocks(children, dedupe),
            has,
        ),
        BlockType::NumberedListItem { numbered_list_item } => conv_numbered_list_item(
            numbered_list_item,
            spec_render_blocks(children, dedupe),
            has,
            (ctx.last() + 1) as nat,
        ),
        BlockType::ToDo { to_do } => conv_to_do(to_do),
        BlockType::Toggle { toggle } => conv_toggle(
            toggle,
            spec_render_blocks(children, dedupe),
            has,
        ),
        BlockType::Quote { quote } => conv_quote(
            quote,
            spec_render_blocks(children, dedupe),
            has,
        ),
        BlockType::Code { code } => conv_code(code),
        BlockType::Callout { callout } => conv_callout(
            callout,
            spec_render_blocks(children, dedupe),
            has,
            dedupe,
        ),
        BlockType::Image { image } => conv_image(image),
        BlockType::Video { video } => conv_video(video),
        BlockType::Bookmark { bookmark } => conv_bookmark(bookmark),
        BlockType::LinkPreview { link_preview } => conv_link_preview(link_preview),
        BlockType::Divider { divider } => conv_divider(divider),
        BlockType::Table { table } => conv_table(table, children),
        BlockType::TableRow { .. } => Seq::empty(),
        BlockType::Embed { embed } => conv_embed(embed),
        BlockType::Unsupported => Seq::empty(),
    }
}

/// The output of the blocks from index `k` on, under the counter stack
/// `ctx`: each block's output in order, with the context reset to a fresh
/// stack whenever a numbered list item follows a block of another kind.
pub open spec fn spec_render_blocks_from(
    blocks: Seq<BlockWithChildren>,
    k: int,
    ctx: Seq<usize>,
    dedupe: bool,
) -> Seq<char>
    decreases blocks, 1int, blocks.len() - k,
{
    if k < 0 || k >= blocks.len() {
        Seq::empty()
    } else {
        let ctx1 = if k > 0 && !is_numbered(blocks[k - 1].block.block_type) && is_numbered(
            blocks[k].block.block_type,
        ) {
            seq![0usize]
        } else {
            ctx
        };
        spec_render_block(blocks[k], ctx1, dedupe) + spec_render_blocks_from(
            blocks,
            k + 1,
            ctx_after(blocks[k].block.block_type, ctx1),
            dedupe,
        )
    }
}

/// The output of a sibling sequence rendered with a fresh numbering
/// context, as one render pass produces it.
pub open spec fn spec_render_blocks(blocks: Seq<BlockWithChildren>, dedupe: bool) -> Seq<char>
    decreases blocks, 2int, 0int,
{
    spec_render_blocks_from(blocks, 0, seq![0usize], dedupe)
}

/// Prepares already-rendered child content for a list item, exactly as
/// [`indented_children`] describes.
fn indent_children(c: &str) -> (r: String)
    ensures
        r@ == indented_children(c@),
{
    let collapsed = crate::text::collapse_newlines(c);
    let ls = crate::text::lines(collapsed.as_str());
    let pre = crate::text::prefix_each(&ls, "  ");
    crate::text::join(&pre, "\n")
}

/// Prepares already-rendered child content for a quote, exactly as
/// [`quoted_children`] describes.
fn quote_children(c: &str) -> (r: String)
    ensures
        r@ == quoted_children(c@),
{
    let ls = crate::text::lines(c);
    let pre = crate::text::prefix_each(&ls, "> ");
    crate::text::join(&pre, "\n")
}

/// Prepares already-rendered child content for a call-out, exactly as
/// [`callout_children`] describes.
fn callout_child_lines(c: &str, text: &str) -> (r: String)
    ensures
        r@ == callout_children(c@, text@),
{
    let ls = crate::text::lines(c);
    let kept = crate::text::filter_not_containing(&ls, text);
    let pre = crate::text::prefix_each(&kept, "> ");
    crate::text::join(&pre, "\n")
}

/// Quotes every line of a text with a newline after each, exactly as
/// [`quote_head`] describes.
fn quote_text_lines(text: &str) -> (r: String)
    ensures
        r@ == quote_head(spec_lines(text@)),
{
    let ls = crate::text::lines(text);
    let ghost model = ls@.map_values(|l: String| l@);
    let mut r = String::new();
    let mut i: usize = 0;
    proof {
        assert(model.take(0) =~= Seq::<Seq<char>>::empty());
    }
    while i < ls.len()
        invariant
            0 <= i <= ls@.len(),
            model == ls@.map_values(|l: String| l@),
            r@ == quote_head(model.take(i as int)),
        decreases ls@.len() - i,
    {
        r.append("> ");
        r.append(ls[i].as_str());
        r.append("\n");
        proof {
            assert(model.take(i + 1).drop_last() =~= model.take(i as int));
            assert(model.take(i + 1).last() == model[i as int]);
        }
        i = i + 1;
    }
    proof {
        assert(model.take(model.len() as int) =~= model);
    }
    r
}

/// Default converter for paragraph blocks.
pub fn paragraph(
    value: &ParagraphValue,
    children: &[BlockWithChildren],
    list_context: &mut ListContext,
    owner: &NotionToMarkdown,
) -> (r: Result<String, ConvertError>)
    ensures
        r is Ok,
        r->Ok_0@ == conv_paragraph(*value),
        final(list_context)@ == old(list_context)@,
{
    let text = NotionToMarkdown::rich_text_to_markdown(value.rich_text.as_slice());
    if crate::text::is_blank(text.as_str()) {
        Result::Ok(String::from_str("\n"))
    } else {
        let mut r = text;
        r.append("\n");
        Result::Ok(r)
    }
}

/// Default converter for level-one heading blocks.
pub fn heading_1(
    value: &HeadingsValue,
    children: &[BlockWithChildren],
    list_context: &mut ListContext,
    owner: &NotionToMarkdown,
) -> (r: Result<String, ConvertError>)
    ensures
        r is Ok,
        r->Ok_0@ == conv_heading_1(*value),
        final(list_context)@ == old(list_context)@,
{
    let text = NotionToMarkdown::rich_text_to_markdown(value.rich_text.as_slice());
    let mut r = crate::utils::heading1(text.as_str());
    r.append("\n");
    Result::Ok(r)
}

/// Default converter for level-two heading blocks.
pub fn heading_2(
    value: &HeadingsValue,
    children: &[BlockWithChildren],
    list_context: &mut ListContext,
    owner: &NotionToMarkdown,
) -> (r: Result<String, ConvertError>)
    ensures
        r is Ok,
        r->Ok_0@ == conv_heading_2(*value),
        final(list_context)@ == old(list_context)@,
{
    let text = NotionToMarkdown::rich_text_to_markdown(value.rich_text.as_slice());
    let mut r = crate::utils::heading2(text.as_str());
    r.append("\n");
    Result::Ok(r)
}

/// Default converter for level-three heading blocks.
pub fn heading_3(
    value: &HeadingsValue,
    children: &[BlockWithChildren],
    list_context: &mut ListContext,
    owner: &NotionToMarkdown,
) -> (r: Result<String, ConvertError>)
    ensures
        r is Ok,
        r->Ok_0@ == conv_heading_3(*value),
        final(list_context)@ == old(list_context)@,
{
    let text = NotionToMarkdown::rich_text_to_markdown(value.rich_text.as_slice());
    let mut r = crate::utils::heading3(text.as_str());
    r.append("\n");
    Result::Ok(r)
}

/// Default converter for bulleted list items: the item line, then its
/// children rendered recursively and indented.
pub fn bulleted_list_item(
    value: &BulletedListItemValue,
    children: &[BlockWithChildren],
    list_context: &mut ListContext,
    owner: &NotionToMarkdown,
) -> (r: Result<String, ConvertError>)
    ensures
        r is Ok,
        r->Ok_0@ == conv_bulleted_list_item(
            *value,
            spec_render_blocks(children@, owner.dedupe_callout_children),
            children@.len() > 0,
        ),
        final(list_context)@ == old(list_context)@,
    decreases children@, 1int,
{
    let text = NotionToMarkdown::rich_text_to_markdown(value.rich_text.as_slice());
    let mut content = crate::utils::bullet(text.as_str(), Option::None);
    content.append("\n");
    if children.len() > 0 {
        let child_content = match owner.convert_blocks_to_markdown(children) {
            Result::Ok(c) => c,
            Result::Err(e) => {
                return Result::Err(e);
            },
        };
        let indented = indent_children(child_content.as_str());
        if indented.unicode_len() > 0 {
            content.append(indented.as_str());
            content.append("\n");
        }
    }
    Result::Ok(content)
}

/// Default converter for toggles: rendered exactly as a bulleted list item.
pub fn toggle(
    value: &ToggleValue,
    children: &[BlockWithChildren],
    list_context: &mut ListContext,
    owner: &NotionToMarkdown,
) -> (r: Result<String, ConvertError>)
    ensures
        r is Ok,
        r->Ok_0@ == conv_toggle(
            *value,
            spec_render_blocks(children@, owner.dedupe_callout_children),
            children@.len() > 0,
        ),
        final(list_context)@ == old(list_context)@,
    decreases children@, 1int,
{
    let text = NotionToMarkdown::rich_text_to_markdown(value.rich_text.as_slice());
    let mut content = crate::utils::bullet(text.as_str(), Option::None);
    content.append("\n");
    if children.len() > 0 {
        let child_content = match owner.convert_blocks_to_markdown(children) {
            Result::Ok(c) => c,
            Result::Err(e) => {
                return Result::Err(e);
            },
        };
        let indented = indent_children(child_content.as_str());
        if indented.unicode_len() > 0 {
            content.append(indented.as_str());
            content.append("\n");
        }
    }
    Result::Ok(content)
}

/// Default converter for numbered list items: takes the next ordinal from
/// the numbering context, and renders children under a pushed level.
pub fn numbered_list_item(
    value: &NumberedListItemValue,
    children: &[BlockWithChildren],
    list_context: &mut ListContext,
    owner: &NotionToMarkdown,
) -> (r: Result<String, ConvertError>)
    requires
        old(list_context)@.len() >= 1,
        old(list_context)@.last() < usize::MAX,
    ensures
        r is Ok,
        r->Ok_0@ == conv_numbered_list_item(
            *value,
            spec_render_blocks(children@, owner.dedupe_callout_children),
            children@.len() > 0,
            (old(list_context)@.last() + 1) as nat,
        ),
        final(list_context)@ == bump_top(old(list_context)@),
    decreases children@, 1int,
{
    let text = NotionToMarkdown::rich_text_to_markdown(value.rich_text.as_slice());
    let number = list_context.next_number();
    let mut content = crate::utils::bullet(text.as_str(), Option::Some(number));
    content.append("\n");
    if children.len() > 0 {
        list_context.push();
        let converted = owner.convert_blocks_to_markdown(children);
        list_context.pop();
        proof {
            assert(bump_top(old(list_context)@).push(0).drop_last() =~= bump_top(
                old(list_context)@,
            ));
        }
        let child_content = match converted {
            Result::Ok(c) => c,
            Result::Err(e) => {
                return Result::Err(e);
            },
        };
        let indented = indent_children(child_content.as_str());
        if indented.unicode_len() > 0 {
            content.append(indented.as_str());
            content.append("\n");
        }
    }
    Result::Ok(content)
}

/// Default converter for to-do blocks.
pub fn to_do(
    value: &ToDoValue,
    children: &[BlockWithChildren],
    list_context: &mut ListContext,
    owner: &NotionToMarkdown,
) -> (r: Result<String, ConvertError>)
    ensures
        r is Ok,
        r->Ok_0@ == conv_to_do(*value),
        final(list_context)@ == old(list_context)@,
{
    let text = NotionToMarkdown::rich_text_to_markdown(value.rich_text.as_slice());
    let checked = match value.checked {
        Option::Some(b) => b,
        Option::None => false,
    };
    let mut r = crate::utils::todo(text.as_str(), checked);
    r.append("\n");
    Result::Ok(r)
}

/// Default converter for quotes: the quoted text lines, then the quoted
/// children.
pub fn quote(
    value: &QuoteValue,
    children: &[BlockWithChildren],
    list_context: &mut ListContext,
    owner: &NotionToMarkdown,
) -> (r: Result<String, ConvertError>)
    ensures
        r is Ok,
        r->Ok_0@ == conv_quote(
            *value,
            spec_render_blocks(children@, owner.dedupe_callout_children),
            children@.len() > 0,
        ),
        final(list_context)@ == old(list_context)@,
    decreases children@, 1int,
{
    let text = NotionToMarkdown::rich_text_to_markdown(value.rich_text.as_slice());
    let mut content = quote_text_lines(text.as_str());
    if children.len() > 0 {
        let child_content = match owner.convert_blocks_to_markdown(children) {
            Result::Ok(c) => c,
            Result::Err(e) => {
                return Result::Err(e);
            },
        };
        let formatted = quote_children(child_content.as_str());
        if formatted.unicode_len() > 0 {
            content.append(formatted.as_str());
            content.append("\n");
        }
    }
    content.append("\n");
    Result::Ok(content)
}

/// Default converter for code blocks.
pub fn code(
    value: &CodeValue,
    children: &[BlockWithChildren],
    list_context: &mut ListContext,
    owner: &NotionToMarkdown,
) -> (r: Result<String, ConvertError>)
    ensures
        r is Ok,
        r->Ok_0@ == conv_code(*value),
        final(list_context)@ == old(list_context)@,
{
    let text = NotionToMarkdown::rich_text_to_markdown(value.rich_text.as_slice());
    let language = crate::text::to_lowercase(value.language.as_str());
    let mut r = crate::utils::code_block(text.as_str(), Option::Some(language.as_str()));
    r.append("\n");
    Result::Ok(r)
}

/// Default converter for call-outs: a `> [!note]` line, then the children
/// with lines duplicating the call-out's own text dropped.
pub fn callout(
    value: &CalloutValue,
    children: &[BlockWithChildren],
    list_context: &mut ListContext,
    owner: &NotionToMarkdown,
) -> (r: Result<String, ConvertError>)
    ensures
        r is Ok,
        r->Ok_0@ == conv_callout(
            *value,
            spec_render_blocks(children@, owner.dedupe_callout_children),
            children@.len() > 0,
            owner.dedupe_callout_children,
        ),
        final(list_context)@ == old(list_context)@,
    decreases children@, 1int,
{
    let text = NotionToMarkdown::rich_text_to_markdown(value.rich_text.as_slice());
    let mut content = String::from_str("> [!note] ");
    content.append(text.as_str());
    content.append("\n");
    if children.len() > 0 {
        let child_content = match owner.convert_blocks_to_markdown(children) {
            Result::Ok(c) => c,
            Result::Err(e) => {
                return Result::Err(e);
            },
        };
        let formatted = if owner.dedupe_callout_children {
            callout_child_lines(child_content.as_str(), text.as_str())
        } else {
            quote_children(child_content.as_str())
        };
        if formatted.unicode_len() > 0 {
            content.append(formatted.as_str());
            content.append("\n");
        }
    }
    content.append("\n");
    Result::Ok(content)
}

/// Default converter for images.
pub fn image(
    value: &ImageValue,
    children: &[BlockWithChildren],
    list_context: &mut ListContext,
    owner: &NotionToMarkdown,
) -> (r: Result<String, ConvertError>)
    ensures
        r is Ok,
        r->Ok_0@ == conv_image(*value),
        final(list_context)@ == old(list_context)@,
{
    let url = NotionToMarkdown::get_file_url(&value.file_type);
    let mut r = String::from_str("![](");
    r.append(url.as_str());
    r.append(")\n\n");
    Result::Ok(r)
}

/// Default converter for videos.
pub fn video(
    value: &VideoValue,
    children: &[BlockWithChildren],
    list_context: &mut ListContext,
    owner: &NotionToMarkdown,
) -> (r: Result<String, ConvertError>)
    ensures
        r is Ok,
        r->Ok_0@ == conv_video(*value),
        final(list_context)@ == old(list_context)@,
{
    let url = NotionToMarkdown::get_file_url(&value.file_type);
    let mut r = String::from_str("![](");
    r.append(url.as_str());
    r.append(")\n\n");
    Result::Ok(r)
}

/// Default converter for bookmarks.
pub fn bookmark(
    value: &BookmarkValue,
    children: &[BlockWithChildren],
    list_context: &mut ListContext,
    owner: &NotionToMarkdown,
) -> (r: Result<String, ConvertError>)
    ensures
        r is Ok,
        r->Ok_0@ == conv_bookmark(*value),
        final(list_context)@ == old(list_context)@,
{
    let mut r = String::from_str("[");
    r.append(value.url.as_str());
    r.append("](");
    r.append(value.url.as_str());
    r.append(")\n\n");
    Result::Ok(r)
}

/// Default converter for link previews.
pub fn link_preview(
    value: &LinkPreviewValue,
    children: &[BlockWithChildren],
    list_context: &mut ListContext,
    owner: &NotionToMarkdown,
) -> (r: Result<String, ConvertError>)
    ensures
        r is Ok,
        r->Ok_0@ == conv_link_preview(*value),
        final(list_context)@ == old(list_context)@,
{
    let mut r = String::from_str("[");
    r.append(value.url.as_str());
    r.append("](");
    r.append(value.url.as_str());
    r.append(")\n\n");
    Result::Ok(r)
}

/// Default converter for dividers.
pub fn divider(
    value: &DividerValue,
    children: &[BlockWithChildren],
    list_context: &mut ListContext,
    owner: &NotionToMarkdown,
) -> (r: Result<String, ConvertError>)
    ensures
        r is Ok,
        r->Ok_0@ == conv_divider(*value),
        final(list_context)@ == old(list_context)@,
{
    Result::Ok(String::from_str("---\n\n"))
}

/// Default converter for embeds.
pub fn embed(
    value: &EmbedValue,
    children: &[BlockWithChildren],
    list_context: &mut ListContext,
    owner: &NotionToMarkdown,
) -> (r: Result<String, ConvertError>)
    ensures
        r is Ok,
        r->Ok_0@ == conv_embed(*value),
        final(list_context)@ == old(list_context)@,
{
    let mut r = String::from_str("<iframe src=\"");
    r.append(value.url.as_str());
    r.append("\" width=\"100%\" height=\"500px\"></iframe>\n\n");
    Result::Ok(r)
}

/// Builds one table row line, exactly as [`table_row_line`] describes.
fn build_table_row(cells: &Vec<Vec<crate::blocks::RichText>>) -> (r: String)
    ensures
        r@ == table_row_line(cells@),
{
    let mut r = String::from_str("|");
    let mut i: usize = 0;
    while i < cells.len()
        invariant
            0 <= i <= cells@.len(),
            r@ == "|"@ + table_cells(cells@, i as int),
        decreases cells@.len() - i,
    {
        let cell_text = NotionToMarkdown::rich_text_to_markdown(cells[i].as_slice());
        r.append(" ");
        r.append(cell_text.as_str());
        r.append(" |");
        i = i + 1;
    }
    r.append("\n");
    r
}

/// Default converter for tables: the first table-row child is the header,
/// the rest are data rows.
pub fn table(
    value: &TableValue,
    children: &[BlockWithChildren],
    list_context: &mut ListContext,
    owner: &NotionToMarkdown,
) -> (r: Result<String, ConvertError>)
    ensures
        r is Ok,
        r->Ok_0@ == conv_table(*value, children@),
        final(list_context)@ == old(list_context)@,
{
    let mut content = String::new();
    if children.len() > 0 {
        let first = &children[0];
        match &first.block.block_type {
            BlockType::TableRow { table_row } => {
                let header = build_table_row(&table_row.cells);
                content.append(header.as_str());
                content.append("|");
                let sep = crate::text::repeat_str(" --- |", table_row.cells.len());
                content.append(sep.as_str());
                content.append("\n");
                let mut i: usize = 1;
                while i < children.len()
                    invariant
                        1 <= i <= children@.len(),
                        children@.len() > 0,
                        children@[0].block.block_type matches BlockType::TableRow { .. },
                        content@ == table_row_line(
                            children@[0].block.block_type->TableRow_table_row.cells@,
                        ) + "|"@ + repeat_seq(
                            " --- |"@,
                            children@[0].block.block_type->TableRow_table_row.cells@.len(),
                        ) + "\n"@ + table_data_rows(children@, i as int),
                    decreases children@.len() - i,
                {
                    let row = &children[i];
                    match &row.block.block_type {
                        BlockType::TableRow { table_row } => {
                            let line = build_table_row(&table_row.cells);
                            content.append(line.as_str());
                        },
                        _ => (),
                    }
                    i = i + 1;
                }
            },
            _ => (),
        }
    }
    content.append("\n");
    Result::Ok(content)
}

} // verus!
