//! Paginated, recursive materialization of a block tree. The collaborator
//! behind [`BlockSource`] answers one "list children" request at a time; the
//! [`BlockTreeFetcher`] state machine decides, step by step, which request
//! comes next, descends into a child's subtree before continuing the current
//! page, and preserves the collaborator's return order at every level.
use vstd::prelude::*;

use crate::blocks::Block;
use crate::notion_to_md::BlockWithChildren;
use crate::notion_to_md::ConvertError;

verus! {

/// One page of children as the collaborator returns it.
pub struct PageResult {
    pub items: Vec<Block>,
    pub has_more: bool,
    pub next_cursor: Option<String>,
}

/// The next paginated call the fetcher wants answered.
pub struct FetchRequest {
    pub block_id: String,
    pub cursor: Option<String>,
}

/// The collaborator that talks to the remote content service: one paginated
/// "list the children of this block" call. An error message aborts the whole
/// fetch; retry policy belongs to the implementor.
pub trait BlockSource {
    fn list_children(&mut self, block_id: &str, cursor: Option<&str>) -> Result<
        PageResult,
        String,
    >;
}

/// The abstract state of one fetch frame: which block's children it
/// collects, the resume cursor, the finished children so far, the items of
/// the current page still to process, whether more pages follow, and the
/// item whose subtree the frame above is collecting.
pub struct FrameModel {
    pub block_id: Seq<char>,
    pub cursor: Option<Seq<char>>,
    pub built: Seq<BlockWithChildren>,
    pub pending: Seq<Block>,
    pub more: bool,
    pub expanding: Option<Block>,
}

/// The abstract state of the fetcher: the stack of open frames (the root
/// frame lowest), and the finished forest once the root frame completes.
pub struct FetcherModel {
    pub frames: Seq<FrameModel>,
    pub done: Option<Seq<BlockWithChildren>>,
}

/// Whether a returned item asks for a recursive descent: it reports
/// children and carries an identifier. An item that reports children but
/// has no identifier is treated as having none.
pub open spec fn expand_wanted(b: Block) -> bool {
    b.has_children == Option::Some(true) && b.id is Some
}

/// A frame as it starts: no output, no pending items, first page ahead.
pub open spec fn fresh_frame_model(id: Seq<char>) -> FrameModel {
    FrameModel {
        block_id: id,
        cursor: Option::None,
        built: Seq::empty(),
        pending: Seq::empty(),
        more: true,
        expanding: Option::None,
    }
}

/// The fetcher holds its answer.
pub open spec fn finished(m: FetcherModel) -> bool {
    m.done is Some
}

/// The fetcher waits for the collaborator: the top frame has processed its
/// page and more pages follow.
pub open spec fn awaiting(m: FetcherModel) -> bool {
    m.done is None && m.frames.len() > 0 && m.frames.last().pending.len() == 0
        && m.frames.last().more
}

/// The fetcher has internal work left: items to process or a frame to
/// close.
pub open spec fn busy(m: FetcherModel) -> bool {
    m.done is None && m.frames.len() > 0 && (m.frames.last().pending.len() > 0
        || !m.frames.last().more)
}

/// Every frame below the top waits on an item under expansion.
pub open spec fn wf(m: FetcherModel) -> bool {
    forall|i: int| 0 <= i < m.frames.len() - 1 ==> (#[trigger] m.frames[i]).expanding is Some
}

/// The items still to process over all frames.
pub open spec fn frames_pending(fs: Seq<FrameModel>) -> nat
    decreases fs.len(),
{
    if fs.len() == 0 {
        0
    } else {
        frames_pending(fs.drop_last()) + fs.last().pending.len()
    }
}

/// The termination measure of the internal work: every step shrinks it.
pub open spec fn step_measure(m: FetcherModel) -> nat {
    2 * frames_pending(m.frames) + m.frames.len()
}

/// How one internal step changes the state. With `top` the old top frame:
/// an item that wants expansion moves into `expanding` and opens a fresh
/// frame for its children; any other item joins the output as a leaf; a
/// frame whose pages are exhausted closes, handing its output to the item
/// waiting one frame down, or to `done` when it was the root frame.
pub open spec fn step_rel(pre: FetcherModel, post: FetcherModel) -> bool {
    let top = pre.frames.last();
    let rest = pre.frames.drop_last();
    if top.pending.len() > 0 {
        let item = top.pending[0];
        if expand_wanted(item) {
            post.done is None && post.frames == rest.push(
                FrameModel {
                    block_id: top.block_id,
                    cursor: top.cursor,
                    built: top.built,
                    pending: top.pending.skip(1),
                    more: top.more,
                    expanding: Option::Some(item),
                },
            ).push(fresh_frame_model(item.id->0@))
        } else {
            let nf = post.frames.last();
            post.done is None && post.frames.len() == pre.frames.len()
                && post.frames.drop_last() == rest && nf.block_id == top.block_id && nf.cursor
                == top.cursor && nf.more == top.more && nf.expanding == top.expanding
                && nf.pending == top.pending.skip(1) && nf.built.len() == top.built.len() + 1
                && nf.built.take(top.built.len() as int) == top.built && nf.built.last().block
                == item && nf.built.last().children@ == Seq::<BlockWithChildren>::empty()
        }
    } else {
        if pre.frames.len() == 1 {
            post.frames.len() == 0 && post.done == Option::Some(top.built)
        } else {
            let parent = pre.frames[pre.frames.len() - 2];
            let nf = post.frames.last();
            post.done is None && post.frames.len() == pre.frames.len() - 1
                && post.frames.drop_last() == rest.drop_last() && nf.block_id
                == parent.block_id && nf.cursor == parent.cursor && nf.more == parent.more
                && nf.pending == parent.pending && nf.expanding is None && nf.built.len()
                == parent.built.len() + 1 && nf.built.take(parent.built.len() as int)
                == parent.built && nf.built.last().block == parent.expanding->0
                && nf.built.last().children@ == top.built
        }
    }
}

/// A frame's abstract state.
pub open spec fn frame_model(f: Frame) -> FrameModel {
    FrameModel {
        block_id: f.block_id@,
        cursor: match f.cursor {
            Option::Some(c) => Option::Some(c@),
            Option::None => Option::None,
        },
        built: f.built@,
        pending: f.pending@,
        more: f.more,
        expanding: f.expanding,
    }
}

/// One open level of the depth-first materialization.
pub struct Frame {
    pub block_id: String,
    pub cursor: Option<String>,
    pub built: Vec<BlockWithChildren>,
    pub pending: Vec<Block>,
    pub more: bool,
    pub expanding: Option<Block>,
}

/// The paginated, recursive block-tree fetch as an explicit state machine.
/// Callers alternate: [`Self::next_request`] names the collaborator call to
/// make, [`Self::on_page`] hands the answer in, [`Self::step`] works the
/// page off, and [`Self::into_result`] surrenders the finished forest.
pub struct BlockTreeFetcher {
    frames: Vec<Frame>,
    result: Option<Vec<BlockWithChildren>>,
}

impl View for BlockTreeFetcher {
    type V = FetcherModel;

    closed spec fn view(&self) -> FetcherModel {
        FetcherModel {
            frames: self.frames@.map_values(|f: Frame| frame_model(f)),
            done: match self.result {
                Option::Some(v) => Option::Some(v@),
                Option::None => Option::None,
            },
        }
    }
}

impl BlockTreeFetcher {
    /// Starts a fetch of the children of `block_id`: one fresh root frame,
    /// waiting for the first page.
    pub fn new(block_id: &str) -> (r: BlockTreeFetcher)
        ensures
            r@.frames == seq![fresh_frame_model(block_id@)],
            r@.done is None,
            wf(r@),
            awaiting(r@),
    {
        let frame = Frame {
            block_id: block_id.to_owned(),
            cursor: Option::None,
            built: Vec::new(),
            pending: Vec::new(),
            more: true,
            expanding: Option::None,
        };
        let mut frames: Vec<Frame> = Vec::new();
        frames.push(frame);
        let r = BlockTreeFetcher { frames, result: Option::None };
        proof {
            assert(r@.frames =~= seq![fresh_frame_model(block_id@)]);
        }
        r
    }

    /// Whether internal work is left before the next request is known.
    pub fn is_busy(&self) -> (r: bool)
        ensures
            r == busy(self@),
    {
        if self.result.is_some() {
            return false;
        }
        let n = self.frames.len();
        if n == 0 {
            return false;
        }
        let top = &self.frames[n - 1];
        proof {
            assert(self@.frames.last() == frame_model(self.frames@[n - 1]));
        }
        top.pending.len() > 0 || !top.more
    }

    /// The request the collaborator should answer next, or nothing while
    /// internal work is left or the fetch is finished.
    pub fn next_request(&self) -> (r: Option<FetchRequest>)
        ensures
            (r is Some) == awaiting(self@),
            r is Some ==> r->0.block_id@ == self@.frames.last().block_id && (match r->0.cursor {
                Option::Some(c) => self@.frames.last().cursor == Option::Some(c@),
                Option::None => self@.frames.last().cursor is None,
            }),
    {
        if self.result.is_some() {
            return Option::None;
        }
        let n = self.frames.len();
        if n == 0 {
            return Option::None;
        }
        let top = &self.frames[n - 1];
        proof {
            assert(self@.frames.last() == frame_model(self.frames@[n - 1]));
        }
        if top.pending.len() == 0 && top.more {
            let cursor = match &top.cursor {
                Option::Some(c) => Option::Some(c.clone()),
                Option::None => Option::None,
            };
            Option::Some(FetchRequest { block_id: top.block_id.clone(), cursor })
        } else {
            Option::None
        }
    }

    /// Takes one page in: the top frame records the items to process, the
    /// follow-up cursor and whether more pages follow. No item is processed
    /// yet; [`Self::step`] works them off.
    pub fn on_page(&mut self, page: PageResult)
        requires
            awaiting(old(self)@),
        ensures
            final(self)@.done == old(self)@.done,
            final(self)@.frames.len() == old(self)@.frames.len(),
            final(self)@.frames.drop_last() == old(self)@.frames.drop_last(),
            final(self)@.frames.last() == (FrameModel {
                cursor: match page.next_cursor {
                    Option::Some(c) => Option::Some(c@),
                    Option::None => Option::None,
                },
                pending: page.items@,
                more: page.has_more,
                ..old(self)@.frames.last()
            }),
            wf(old(self)@) ==> wf(final(self)@),
    {
        let mut top = self.frames.pop().unwrap();
        top.cursor = page.next_cursor;
        top.pending = page.items;
        top.more = page.has_more;
        self.frames.push(top);
        proof {
            assert(self@.frames.drop_last() =~= old(self)@.frames.drop_last());
            assert(self@.frames.last() == (FrameModel {
                cursor: match page.next_cursor {
                    Option::Some(c) => Option::Some(c@),
                    Option::None => Option::None,
                },
                pending: page.items@,
                more: page.has_more,
                ..old(self)@.frames.last()
            }));
            if wf(old(self)@) {
                assert forall|i: int|
                    0 <= i < self@.frames.len() - 1 implies (#[trigger] self@.frames[
                    i]).expanding is Some by {
                    assert(self@.frames[i] == self@.frames.drop_last()[i]);
                    assert(old(self)@.frames[i] == old(self)@.frames.drop_last()[i]);
                    assert(old(self)@.frames[i].expanding is Some);
                }
            }
        }
    }

    /// One internal step, exactly as [`step_rel`] describes: processes one
    /// pending item or closes the exhausted top frame.
    pub fn step(&mut self)
        requires
            busy(old(self)@),
            wf(old(self)@),
        ensures
            step_rel(old(self)@, final(self)@),
            wf(final(self)@),
            step_measure(final(self)@) < step_measure(old(self)@),
            finished(final(self)@) == (old(self)@.frames.len() == 1 && old(
                self,
            )@.frames.last().pending.len() == 0 && !old(self)@.frames.last().more),
    {
        proof {
            lemma_frames_pending_last(old(self)@.frames);
        }
        let mut top = self.frames.pop().unwrap();
        if top.pending.len() > 0 {
            let item = top.pending.remove(0);
            proof {
                assert(top.pending@ =~= old(self)@.frames.last().pending.skip(1));
            }
            let has_kids = match item.has_children {
                Option::Some(true) => true,
                _ => false,
            };
            let expand = has_kids && item.id.is_some();
            if expand {
                let child_id = match &item.id {
                    Option::Some(s) => s.clone(),
                    Option::None => String::new(),
                };
                top.expanding = Option::Some(item);
                let child = Frame {
                    block_id: child_id,
                    cursor: Option::None,
                    built: Vec::new(),
                    pending: Vec::new(),
                    more: true,
                    expanding: Option::None,
                };
                self.frames.push(top);
                self.frames.push(child);
                proof {
                    let pre = old(self)@;
                    assert(self@.frames =~= pre.frames.drop_last().push(
                        frame_model(self.frames@[self.frames@.len() - 2]),
                    ).push(fresh_frame_model(pre.frames.last().pending[0].id->0@)));
                    lemma_frames_pending_last(self@.frames);
                    lemma_frames_pending_last(self@.frames.drop_last());
                    assert(self@.frames.drop_last().drop_last() =~= pre.frames.drop_last());
                    assert forall|i: int|
                        0 <= i < self@.frames.len() - 1 implies (#[trigger] self@.frames[
                        i]).expanding is Some by {
                        if i < pre.frames.len() - 1 {
                            assert(pre.frames[i].expanding is Some);
                        }
                    }
                }
            } else {
                top.built.push(BlockWithChildren { block: item, children: Vec::new() });
                self.frames.push(top);
                proof {
                    let pre = old(self)@;
                    assert(self@.frames.drop_last() =~= pre.frames.drop_last());
                    lemma_frames_pending_last(self@.frames);
                    assert(self@.frames.last().built.take(
                        pre.frames.last().built.len() as int,
                    ) =~= pre.frames.last().built);
                    assert forall|i: int|
                        0 <= i < self@.frames.len() - 1 implies (#[trigger] self@.frames[
                        i]).expanding is Some by {
                        assert(pre.frames[i].expanding is Some);
                    }
                }
            }
        } else {
            if self.frames.len() == 0 {
                self.result = Option::Some(top.built);
                proof {
                    assert(self@.frames.len() == 0);
                }
            } else {
                let mut parent = self.frames.pop().unwrap();
                proof {
                    assert(old(self)@.frames[old(self)@.frames.len() - 2] == frame_model(
                        parent,
                    ));
                }
                let expanding = parent.expanding;
                parent.expanding = Option::None;
                let x = expanding.unwrap();
                parent.built.push(BlockWithChildren { block: x, children: top.built });
                self.frames.push(parent);
                proof {
                    let pre = old(self)@;
                    assert(self@.frames.drop_last() =~= pre.frames.drop_last().drop_last());
                    lemma_frames_pending_last(pre.frames);
                    lemma_frames_pending_last(pre.frames.drop_last());
                    lemma_frames_pending_last(self@.frames);
                    assert(self@.frames.last().built.take(
                        pre.frames[pre.frames.len() - 2].built.len() as int,
                    ) =~= pre.frames[pre.frames.len() - 2].built);
                    assert forall|i: int|
                        0 <= i < self@.frames.len() - 1 implies (#[trigger] self@.frames[
                        i]).expanding is Some by {
                        assert(pre.frames[i].expanding is Some);
                    }
                }
            }
        }
    }

    /// Whether the fetch is complete.
    pub fn is_finished(&self) -> (r: bool)
        ensures
            r == finished(self@),
    {
        self.result.is_some()
    }

    /// Surrenders the finished forest: the root block's children with all
    /// their descendants, in collaborator order.
    pub fn into_result(self) -> (r: Option<Vec<BlockWithChildren>>)
        ensures
            (r is Some) == finished(self@),
            r is Some ==> r->0@ == self@.done->0,
    {
        self.result
    }
}

proof fn lemma_frames_pending_last(fs: Seq<FrameModel>)
    ensures
        fs.len() > 0 ==> frames_pending(fs) == frames_pending(fs.drop_last())
            + fs.last().pending.len(),
{
}

/// Drives the fetch against a collaborator, issuing at most `max_requests`
/// paginated calls: the children of `block_id`, each with its own subtree,
/// in collaborator order. A collaborator failure, or a document that needs
/// more than `max_requests` pages, aborts with a retrieval error; in
/// particular, a zero budget always fails, since even an empty tree takes
/// one page.
pub fn fetch_block_tree<C: BlockSource>(
    source: &mut C,
    block_id: &str,
    max_requests: usize,
) -> (r: Result<Vec<BlockWithChildren>, ConvertError>)
    ensures
        r is Err ==> r->Err_0 is Retrieval,
        max_requests == 0 ==> r is Err,
{
    let mut fetcher = BlockTreeFetcher::new(block_id);
    let mut budget = max_requests;
    loop
        invariant
            wf(fetcher@),
            budget <= max_requests,
            max_requests == 0 ==> !finished(fetcher@) && !busy(fetcher@),
        decreases budget, step_measure(fetcher@),
    {
        if fetcher.is_busy() {
            fetcher.step();
        } else if fetcher.is_finished() {
            match fetcher.into_result() {
                Option::Some(v) => {
                    return Result::Ok(v);
                },
                Option::None => {
                    return Result::Err(
                        ConvertError::Retrieval(String::from_str("fetch state lost")),
                    );
                },
            }
        } else {
            match fetcher.next_request() {
                Option::Some(req) => {
                    if budget == 0 {
                        return Result::Err(
                            ConvertError::Retrieval(
                                String::from_str("page limit exhausted before the tree completed"),
                            ),
                        );
                    }
                    budget = budget - 1;
                    let cursor_ref = match &req.cursor {
                        Option::Some(c) => Option::Some(c.as_str()),
                        Option::None => Option::None,
                    };
                    match source.list_children(req.block_id.as_str(), cursor_ref) {
                        Result::Ok(page) => {
                            fetcher.on_page(page);
                        },
                        Result::Err(msg) => {
                            return Result::Err(ConvertError::Retrieval(msg));
                        },
                    }
                },
                Option::None => {
                    return Result::Err(
                        ConvertError::Retrieval(String::from_str("fetch state lost")),
                    );
                },
            }
        }
    }
}

} // verus!
