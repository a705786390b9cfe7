//! The document renderer: rich-text span rendering, the nested ordered-list
//! numbering state machine, and the orchestrator that walks a materialized
//! block tree and concatenates the per-block Markdown.
use vstd::prelude::*;

use crate::blocks::Annotations;
use crate::blocks::Block;
use crate::blocks::BlockType;
use crate::blocks::FileRef;
use crate::blocks::RichText;

verus! {

/// Why a page conversion failed: the collaborator could not deliver a page
/// of children, or a converter signalled a malformed block. The default
/// converters never fail, so only the retrieval kind is ever produced by
/// this crate's own code paths.
#[derive(Debug)]
pub enum ConvertError {
    Retrieval(String),
    Conversion(String),
}

/// A block paired with its materialized children, in rendered order.
#[derive(Debug)]
pub struct BlockWithChildren {
    pub block: Block,
    pub children: Vec<BlockWithChildren>,
}

/// The style flags that apply to a span: a text span's own optional flags,
/// the mandatory flags of a mention or an equation, none for an absent span.
pub open spec fn span_annotations(t: RichText) -> Option<Annotations> {
    match t {
        RichText::Text { annotations, .. } => annotations,
        RichText::Mention { annotations, .. } => Option::Some(annotations),
        RichText::Equation { annotations, .. } => Option::Some(annotations),
        RichText::Absent => Option::None,
    }
}

/// The unstyled text of a span: the precomputed plain text when present,
/// else the raw content; a text span with a hyperlink is wrapped as
/// `[text](url)`.
pub open spec fn span_base_text(t: RichText) -> Seq<char> {
    match t {
        RichText::Text { text, plain_text, .. } => {
            let content = match plain_text {
                Option::Some(p) => p@,
                Option::None => text.content@,
            };
            match text.link {
                Option::Some(l) => "["@ + content + "]("@ + l.url@ + ")"@,
                Option::None => content,
            }
        },
        RichText::Mention { plain_text, .. } => plain_text@,
        RichText::Equation { plain_text, .. } => plain_text@,
        RichText::Absent => Seq::empty(),
    }
}

/// Style wrapping in its fixed order: bold innermost, then italic, then
/// strikethrough, then code outermost.
pub open spec fn apply_annotations(c: Seq<char>, a: Option<Annotations>) -> Seq<char> {
    match a {
        Option::None => c,
        Option::Some(an) => {
            let c1 = if an.bold {
                "**"@ + c + "**"@
            } else {
                c
            };
            let c2 = if an.italic {
                "*"@ + c1 + "*"@
            } else {
                c1
            };
            let c3 = if an.strikethrough {
                "~~"@ + c2 + "~~"@
            } else {
                c2
            };
            if an.code {
                "`"@ + c3 + "`"@
            } else {
                c3
            }
        },
    }
}

/// One span fully rendered: its base text with the style wrapping applied.
pub open spec fn span_rendered(t: RichText) -> Seq<char> {
    apply_annotations(span_base_text(t), span_annotations(t))
}

/// A span sequence rendered: the spans concatenated in order with no
/// separator.
pub open spec fn render_rich_text(spans: Seq<RichText>) -> Seq<char>
    decreases spans.len(),
{
    if spans.len() == 0 {
        Seq::empty()
    } else {
        render_rich_text(spans.drop_last()) + span_rendered(spans.last())
    }
}

/// The URL a file reference points at, wherever it is hosted.
pub open spec fn file_url(f: FileRef) -> Seq<char> {
    match f {
        FileRef::External { url } => url@,
        FileRef::Hosted { url } => url@,
    }
}

/// The renderer. Dispatch is fixed: every block type renders through its
/// default converter in [`crate::converters`]. The one configurable
/// behaviour is whether the call-out converter drops child lines that
/// repeat the call-out's own text; every render pass threads its numbering
/// context explicitly.
pub struct NotionToMarkdown {
    pub dedupe_callout_children: bool,
}

impl NotionToMarkdown {
    /// A renderer with the default converter for every supported block
    /// type, and the call-out de-duplication switched on.
    pub fn new() -> (r: NotionToMarkdown)
        ensures
            r.dedupe_callout_children,
    {
        NotionToMarkdown { dedupe_callout_children: true }
    }

    /// Renders a sequence of styled spans, exactly as [`render_rich_text`]
    /// describes.
    pub fn rich_text_to_markdown(rich_text: &[RichText]) -> (r: String)
        ensures
            r@ == render_rich_text(rich_text@),
    {
        let mut markdown = String::new();
        let mut i: usize = 0;
        proof {
            assert(rich_text@.take(0) =~= Seq::<RichText>::empty());
        }
        while i < rich_text.len()
            invariant
                0 <= i <= rich_text@.len(),
                markdown@ == render_rich_text(rich_text@.take(i as int)),
            decreases rich_text@.len() - i,
        {
            let t = &rich_text[i];
            let base: String = match t {
                RichText::Text { text, plain_text, .. } => {
                    let content: &str = match plain_text {
                        Option::Some(p) => p.as_str(),
                        Option::None => text.content.as_str(),
                    };
                    match &text.link {
                        Option::Some(l) => crate::utils::link(content, l.url.as_str()),
                        Option::None => content.to_owned(),
                    }
                },
                RichText::Mention { plain_text, .. } => plain_text.clone(),
                RichText::Equation { plain_text, .. } => plain_text.clone(),
                RichText::Absent => String::new(),
            };
            proof {
                assert(base@ == span_base_text(rich_text@[i as int]));
            }
            let styled: String = match t {
                RichText::Text { annotations: Option::None, .. } => base,
                RichText::Absent => base,
                RichText::Text { annotations: Option::Some(an), .. }
                | RichText::Mention { annotations: an, .. }
                | RichText::Equation { annotations: an, .. } => {
                    let mut c = base;
                    if an.bold {
                        let mut w = String::from_str("**");
                        w.append(c.as_str());
                        w.append("**");
                        c = w;
                    }
                    if an.italic {
                        let mut w = String::from_str("*");
                        w.append(c.as_str());
                        w.append("*");
                        c = w;
                    }
                    if an.strikethrough {
                        let mut w = String::from_str("~~");
                        w.append(c.as_str());
                        w.append("~~");
                        c = w;
                    }
                    if an.code {
                        let mut w = String::from_str("`");
                        w.append(c.as_str());
                        w.append("`");
                        c = w;
                    }
                    c
                },
            };
            proof {
                assert(styled@ == span_rendered(rich_text@[i as int]));
                assert(rich_text@.take(i + 1).drop_last() =~= rich_text@.take(i as int));
                assert(rich_text@.take(i + 1).last() == rich_text@[i as int]);
            }
            markdown.append(styled.as_str());
            i = i + 1;
        }
        proof {
            assert(rich_text@.take(rich_text@.len() as int) =~= rich_text@);
        }
        markdown
    }

    /// Renders one block, children included, dispatching on its type to the
    /// default converter. An unsupported type renders as empty output; the
    /// numbering context advances exactly as [`crate::converters::ctx_after`]
    /// describes.
    pub fn convert_block_to_markdown_inner(
        &self,
        bwc: &BlockWithChildren,
        ctx: &mut ListContext,
    ) -> (r: Result<String, ConvertError>)
        requires
            old(ctx)@.len() >= 1,
            old(ctx)@.last() < usize::MAX,
        ensures
            r is Ok,
            r->Ok_0@ == crate::converters::spec_render_block(
                *bwc,
                old(ctx)@,
                self.dedupe_callout_children,
            ),
            final(ctx)@ == crate::converters::ctx_after(bwc.block.block_type, old(ctx)@),
        decreases *bwc, 0int,
    {
        match &bwc.block.block_type {
            BlockType::Paragraph { paragraph } => crate::converters::paragraph(
                paragraph,
                bwc.children.as_slice(),
                ctx,
                self,
            ),
            BlockType::Heading1 { heading_1 } => crate::converters::heading_1(
                heading_1,
                bwc.children.as_slice(),
                ctx,
                self,
            ),
            BlockType::Heading2 { heading_2 } => crate::converters::heading_2(
                heading_2,
                bwc.children.as_slice(),
                ctx,
                self,
            ),
            BlockType::Heading3 { heading_3 } => crate::converters::heading_3(
                heading_3,
                bwc.children.as_slice(),
                ctx,
                self,
            ),
            BlockType::BulletedListItem { bulleted_list_item } => crate::converters::bulleted_list_item(
                bulleted_list_item,
                bwc.children.as_slice(),
                ctx,
                self,
            ),
            BlockType::NumberedListItem { numbered_list_item } => crate::converters::numbered_list_item(
                numbered_list_item,
                bwc.children.as_slice(),
                ctx,
                self,
            ),
            BlockType::ToDo { to_do } => crate::converters::to_do(
                to_do,
                bwc.children.as_slice(),
                ctx,
                self,
            ),
            BlockType::Toggle { toggle } => crate::converters::toggle(
                toggle,
                bwc.children.as_slice(),
                ctx,
                self,
            ),
            BlockType::Quote { quote } => crate::converters::quote(
                quote,
                bwc.children.as_slice(),
                ctx,
                self,
            ),
            BlockType::Code { code } => crate::converters::code(
                code,
                bwc.children.as_slice(),
                ctx,
                self,
            ),
            BlockType::Callout { callout } => crate::converters::callout(
                callout,
                bwc.children.as_slice(),
                ctx,
                self,
            ),
            BlockType::Image { image } => crate::converters::image(
                image,
                bwc.children.as_slice(),
                ctx,
                self,
            ),
            BlockType::Video { video } => crate::converters::video(
                video,
                bwc.children.as_slice(),
                ctx,
                self,
            ),
            BlockType::Bookmark { bookmark } => crate::converters::bookmark(
                bookmark,
                bwc.children.as_slice(),
                ctx,
                self,
            ),
            BlockType::LinkPreview { link_preview } => crate::converters::link_preview(
                link_preview,
                bwc.children.as_slice(),
                ctx,
                self,
            ),
            BlockType::Divider { divider } => crate::converters::divider(
                divider,
                bwc.children.as_slice(),
                ctx,
                self,
            ),
            BlockType::Table { table } => crate::converters::table(
                table,
                bwc.children.as_slice(),
                ctx,
                self,
            ),
            BlockType::Embed { embed } => crate::converters::embed(
                embed,
                bwc.children.as_slice(),
                ctx,
                self,
            ),
            BlockType::TableRow { .. } => Result::Ok(String::new()),
            BlockType::Unsupported => Result::Ok(String::new()),
        }
    }

    /// Renders an ordered sibling sequence with a fresh numbering context,
    /// resetting that context whenever a numbered list item follows a block
    /// of another kind, exactly as
    /// [`crate::converters::spec_render_blocks`] describes.
    pub fn convert_blocks_to_markdown(&self, blocks: &[BlockWithChildren]) -> (r: Result<
        String,
        ConvertError,
    >)
        ensures
            r is Ok,
            r->Ok_0@ == crate::converters::spec_render_blocks(
                blocks@,
                self.dedupe_callout_children,
            ),
        decreases blocks@, 0int,
    {
        let mut markdown = String::new();
        let mut list_context = ListContext::new();
        let mut prev_numbered = false;
        let n = blocks.len();
        let mut i: usize = 0;
        while i < n
            invariant
                0 <= i <= n == blocks@.len(),
                list_context@.len() >= 1,
                list_context@.last() <= i,
                i > 0 ==> prev_numbered == crate::converters::is_numbered(
                    blocks@[i - 1].block.block_type,
                ),
                i == 0 ==> prev_numbered == false,
                crate::converters::spec_render_blocks(blocks@, self.dedupe_callout_children)
                    == markdown@ + crate::converters::spec_render_blocks_from(
                    blocks@,
                    i as int,
                    list_context@,
                    self.dedupe_callout_children,
                ),
            decreases n - i,
        {
            let bwc = &blocks[i];
            let numbered = match &bwc.block.block_type {
                BlockType::NumberedListItem { .. } => true,
                _ => false,
            };
            if i > 0 && !prev_numbered && numbered {
                list_context = ListContext::new();
            }
            let piece = match self.convert_block_to_markdown_inner(bwc, &mut list_context) {
                Result::Ok(p) => p,
                Result::Err(e) => {
                    return Result::Err(e);
                },
            };
            markdown.append(piece.as_str());
            prev_numbered = numbered;
            i = i + 1;
        }
        Result::Ok(markdown)
    }

    /// Converts a whole page: materializes the block tree through the
    /// collaborator with at most `max_requests` paginated calls, then
    /// renders it. A failure is always a retrieval failure (the render
    /// itself cannot fail), a zero budget always fails, and a success is
    /// the rendering of the fetched tree as
    /// [`crate::converters::spec_render_blocks`] describes it.
    pub fn convert_page<C: crate::fetch::BlockSource>(
        &self,
        source: &mut C,
        page_id: &str,
        max_requests: usize,
    ) -> (r: Result<String, ConvertError>)
        ensures
            r is Err ==> r->Err_0 is Retrieval,
            max_requests == 0 ==> r is Err,
            r is Ok ==> exists|bs: Seq<BlockWithChildren>|
                r->Ok_0@ == crate::converters::spec_render_blocks(
                    bs,
                    self.dedupe_callout_children,
                ),
    {
        let blocks = match crate::fetch::fetch_block_tree(source, page_id, max_requests) {
            Result::Ok(b) => b,
            Result::Err(e) => {
                return Result::Err(e);
            },
        };
        match self.convert_blocks_to_markdown(blocks.as_slice()) {
            Result::Ok(content) => {
                proof {
                    assert(content@ == crate::converters::spec_render_blocks(
                        blocks@,
                        self.dedupe_callout_children,
                    ));
                }
                Result::Ok(content)
            },
            Result::Err(e) => {
                proof {
                    assert(false);
                }
                Result::Err(e)
            },
        }
    }

    /// Reads the URL out of a file reference, exactly as [`file_url`]
    /// describes.
    pub fn get_file_url(file: &FileRef) -> (r: String)
        ensures
            r@ == file_url(*file),
    {
        match file {
            FileRef::External { url } => url.clone(),
            FileRef::Hosted { url } => url.clone(),
        }
    }
}

/// The nested ordered-list numbering state machine: a stack of counters,
/// one per active nesting depth, never empty.
pub struct ListContext {
    counters: Vec<usize>,
}

impl View for ListContext {
    type V = Seq<usize>;

    closed spec fn view(&self) -> Seq<usize> {
        self.counters@
    }
}

impl ListContext {
    /// A fresh context: one level whose counter stands at zero.
    pub fn new() -> (r: ListContext)
        ensures
            r@ == seq![0usize],
    {
        let mut counters: Vec<usize> = Vec::new();
        counters.push(0);
        proof {
            assert(counters@ =~= seq![0usize]);
        }
        ListContext { counters }
    }

    /// Increments the counter of the current depth and returns it: the
    /// ordinal of the next numbered-list item.
    pub fn next_number(&mut self) -> (r: usize)
        requires
            old(self)@.len() >= 1,
            old(self)@.last() < usize::MAX,
        ensures
            r == old(self)@.last() + 1,
            final(self)@ == old(self)@.update(old(self)@.len() - 1, r),
    {
        let current_level = self.counters.len() - 1;
        let n = self.counters[current_level] + 1;
        self.counters.set(current_level, n);
        n
    }

    /// Enters one nesting depth: a new zero counter on top.
    pub fn push(&mut self)
        ensures
            final(self)@ == old(self)@.push(0),
    {
        self.counters.push(0);
    }

    /// Leaves the current depth. Popping the last level reinserts a zero
    /// counter, so the stack never empties.
    pub fn pop(&mut self)
        ensures
            final(self)@ == if old(self)@.len() > 1 {
                old(self)@.drop_last()
            } else {
                seq![0usize]
            },
    {
        self.counters.pop();
        if self.counters.len() == 0 {
            self.counters.push(0);
        }
        proof {
            if old(self)@.len() <= 1 {
                assert(self.counters@ =~= seq![0usize]);
            }
        }
    }
}

/// The plain concatenation of a span sequence: each span's base text in
/// order — hyperlink wrapping where a link is present, no styling.
pub open spec fn concat_plain(spans: Seq<RichText>) -> Seq<char>
    decreases spans.len(),
{
    if spans.len() == 0 {
        Seq::empty()
    } else {
        concat_plain(spans.drop_last()) + span_base_text(spans.last())
    }
}

/// Whether a span carries no styling: no flags at all, or every flag false.
pub open spec fn unstyled(t: RichText) -> bool {
    match span_annotations(t) {
        Option::None => true,
        Option::Some(a) => !a.bold && !a.italic && !a.strikethrough && !a.code,
    }
}

/// Law: rendering a span sequence without styling is the order-preserving
/// concatenation of the spans' plain text, with hyperlink wrapping applied
/// exactly where a link is present.
pub proof fn lemma_render_unstyled(spans: Seq<RichText>)
    requires
        forall|i: int| 0 <= i < spans.len() ==> unstyled(#[trigger] spans[i]),
    ensures
        render_rich_text(spans) == concat_plain(spans),
    decreases spans.len(),
{
    if spans.len() > 0 {
        assert forall|i: int| 0 <= i < spans.drop_last().len() implies unstyled(
            #[trigger] spans.drop_last()[i],
        ) by {
            assert(spans.drop_last()[i] == spans[i]);
        }
        lemma_render_unstyled(spans.drop_last());
        assert(unstyled(spans.last()));
        assert(span_rendered(spans.last()) == span_base_text(spans.last()));
    }
}

/// Law: a span with bold, italic, strikethrough and code all set renders,
/// outer to inner, as code around strikethrough around italic around bold
/// around its base text, whatever non-empty base text it carries.
pub proof fn lemma_annotation_nesting(t: RichText)
    requires
        span_annotations(t) is Some,
        span_annotations(t)->0.bold,
        span_annotations(t)->0.italic,
        span_annotations(t)->0.strikethrough,
        span_annotations(t)->0.code,
        span_base_text(t).len() > 0,
    ensures
        span_rendered(t) == seq!['`', '~', '~', '*', '*', '*'] + span_base_text(t) + seq![
            '*',
            '*',
            '*',
            '~',
            '~',
            '`',
        ],
{
    reveal_strlit("**");
    reveal_strlit("*");
    reveal_strlit("~~");
    reveal_strlit("`");
    assert(span_rendered(t) =~= seq!['`', '~', '~', '*', '*', '*'] + span_base_text(t) + seq![
        '*',
        '*',
        '*',
        '~',
        '~',
        '`',
    ]);
}

/// Law: the numbering context numbers as the ordered-list rule asks. Read
/// with the contracts of [`ListContext::new`], [`ListContext::next_number`],
/// [`ListContext::push`] and [`ListContext::pop`]: a fresh context's first
/// number is one; a second number at the same depth is one greater than the
/// first; the first number after entering a depth is one, whatever the outer
/// counter holds; and leaving a depth restores the outer level's counter, so
/// numbering there resumes where it left off.
pub proof fn lemma_list_numbering(s: Seq<usize>, m: usize, n: usize)
    requires
        s.len() >= 1,
    ensures
        seq![0usize].last() + 1 == 1,
        s.update(s.len() - 1, n).last() == n,
        s.push(0).last() + 1 == 1,
        s.push(m).drop_last() == s,
        s.push(m).drop_last().last() == s.last(),
{
    assert(s.push(m).drop_last() =~= s);
}

/// The counter stack after `k` consecutive numbers have been taken at the
/// current depth: each take bumps the top counter by one, exactly the
/// transition [`ListContext::next_number`] ensures.
pub open spec fn after_numbers(s: Seq<usize>, k: nat) -> Seq<usize>
    decreases k,
{
    if k == 0 {
        s
    } else {
        let t = after_numbers(s, (k - 1) as nat);
        t.update(t.len() - 1, ((t.last() + 1) as usize))
    }
}

/// Law: numbering at a nested depth never disturbs the outer context.
/// Entering a depth ([`ListContext::push`]), taking any number `k` of
/// numbers there ([`after_numbers`] models those `k`
/// [`ListContext::next_number`] transitions), and leaving again
/// ([`ListContext::pop`], whose result on this stack of at least two
/// levels is `drop_last`) restores the outer counter stack exactly. The
/// outer level's counter is therefore unchanged, and the next number taken
/// there is one more than the last one taken before the descent, not a
/// restart. The bound on `k` is the machine limit of the `usize` counters.
pub proof fn lemma_nested_numbering_resumes(s: Seq<usize>, k: nat)
    requires
        s.len() >= 1,
        k <= usize::MAX,
    ensures
        after_numbers(s.push(0), k).len() == s.len() + 1,
        after_numbers(s.push(0), k).last() == k,
        after_numbers(s.push(0), k).drop_last() == s,
    decreases k,
{
    if k == 0 {
        assert(s.push(0).drop_last() =~= s);
    } else {
        lemma_nested_numbering_resumes(s, (k - 1) as nat);
        let t = after_numbers(s.push(0), (k - 1) as nat);
        assert(t.update(t.len() - 1, ((t.last() + 1) as usize)).drop_last() =~= t.drop_last());
    }
}

} // verus!
