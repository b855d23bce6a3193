use vstd::prelude::*;
use crate::metrics::{BlockHash, Metrics};

verus! {

/// Why a report cannot be made.
#[derive(Clone, Copy, Debug, PartialEq, Eq, Structural)]
pub enum ReportError {
    /// No batch reported the block that included its head.
    MissingBeginBlock,
    /// No batch reported the block that finalized its tail.
    MissingEndBlock,
    /// No batch recorded when it began sending.
    MissingBeginTime,
    /// The end timestamp lies before the begin timestamp.
    ClockWentBack,
    /// Walking back from the end block did not reach the begin block within
    /// the allowed depth.
    DivergentChain,
}

/// The measured window of a run, read from a complete metrics record.
#[derive(Clone, Copy, Debug)]
pub struct Window {
    pub begin_block: BlockHash,
    pub end_block: BlockHash,
    pub begin_ms: u64,
    pub end_ms: u64,
    pub total_tx: u32,
}

impl Window {
    /// Milliseconds from the first send to the last finalization.
    pub fn duration_ms(&self) -> (r: u64)
        requires
            self.begin_ms <= self.end_ms,
        ensures
            r == self.end_ms - self.begin_ms,
    {
        self.end_ms - self.begin_ms
    }

    /// Whole seconds from the first send to the last finalization.
    pub fn duration_secs(&self) -> (r: u64)
        requires
            self.begin_ms <= self.end_ms,
        ensures
            r == (self.end_ms - self.begin_ms) / 1000,
    {
        (self.end_ms - self.begin_ms) / 1000
    }
}

/// Reads the window out of the record once every task has reported.
pub fn window_of(m: &Metrics) -> (r: Result<Window, ReportError>)
    ensures
        m.first_tx_begin_block is None ==> r == Err::<Window, ReportError>(ReportError::MissingBeginBlock),
        m.first_tx_begin_block is Some && m.last_tx_finalize_block is None
            ==> r == Err::<Window, ReportError>(ReportError::MissingEndBlock),
        m.first_tx_begin_block is Some && m.last_tx_finalize_block is Some && m.begin_send is None
            ==> r == Err::<Window, ReportError>(ReportError::MissingBeginTime),
        m.first_tx_begin_block is Some && m.last_tx_finalize_block is Some
            && m.begin_send is Some && m.finalize_end < m.begin_send->0
            ==> r == Err::<Window, ReportError>(ReportError::ClockWentBack),
        r is Ok <==> (m.first_tx_begin_block is Some && m.last_tx_finalize_block is Some
            && m.begin_send is Some && m.begin_send->0 <= m.finalize_end),
        r matches Ok(w) ==> {
            &&& Some(w.begin_block) == m.first_tx_begin_block
            &&& Some(w.end_block) == m.last_tx_finalize_block
            &&& Some(w.begin_ms) == m.begin_send
            &&& w.end_ms == m.finalize_end
            &&& w.begin_ms <= w.end_ms
            &&& w.total_tx == m.total_tx
        },
{
    let begin_block = match m.first_tx_begin_block {
        Some(b) => b,
        None => return Err(ReportError::MissingBeginBlock),
    };
    let end_block = match m.last_tx_finalize_block {
        Some(b) => b,
        None => return Err(ReportError::MissingEndBlock),
    };
    let begin_ms = match m.begin_send {
        Some(t) => t,
        None => return Err(ReportError::MissingBeginTime),
    };
    if m.finalize_end < begin_ms {
        return Err(ReportError::ClockWentBack);
    }
    Ok(Window { begin_block, end_block, begin_ms, end_ms: m.finalize_end, total_tx: m.total_tx })
}

/// What the report shows of one block.
#[derive(Clone, Copy, Debug, PartialEq, Eq, Structural)]
pub struct BlockSummary {
    pub number: u64,
    pub hash: BlockHash,
    pub timestamp: u64,
    pub tx_count: u64,
}

/// Where a backward walk stands.
#[derive(Clone, Copy, Debug, PartialEq, Eq, Structural)]
pub enum WalkState {
    Walking,
    Reached,
    Diverged,
}

/// What the caller is asked to do next in a backward walk.
#[derive(Clone, Copy, Debug, PartialEq, Eq, Structural)]
pub enum WalkStep {
    /// Look up the block with this hash and hand it over with its parent.
    Fetch(BlockHash),
    /// The begin block was reached.
    Done,
    /// The depth bound was hit first.
    Diverged,
}

/// The decisions of a walk from the end block back to the begin block along
/// parent links, visiting at most `max_depth` blocks.
#[derive(Debug)]
pub struct BackwardWalk {
    pub begin: BlockHash,
    pub max_depth: usize,
    pub next: BlockHash,
    pub state: WalkState,
    pub collected: Vec<BlockSummary>,
}

/// A backward walk as plain values.
pub struct WalkModel {
    pub begin: BlockHash,
    pub max_depth: nat,
    pub next: BlockHash,
    pub state: WalkState,
    pub collected: Seq<BlockSummary>,
}

/// The walk `w` after it was handed `block`, whose parent is `parent`.
pub open spec fn after_block(w: WalkModel, block: BlockSummary, parent: BlockHash) -> WalkModel {
    WalkModel {
        next: parent,
        collected: w.collected.push(block),
        state: if block.hash == w.begin {
            WalkState::Reached
        } else if w.collected.len() + 1 == w.max_depth {
            WalkState::Diverged
        } else {
            WalkState::Walking
        },
        ..w
    }
}

/// The `k`-th ancestor of `h` along `parent` links.
pub open spec fn ancestor(parent: spec_fn(BlockHash) -> BlockHash, h: BlockHash, k: nat) -> BlockHash
    decreases k,
{
    if k == 0 {
        h
    } else {
        parent(ancestor(parent, h, (k - 1) as nat))
    }
}

/// The walk `w` after it was handed `blocks` in order, each with the parent
/// that `parent` gives it.
pub open spec fn after_blocks(
    w: WalkModel,
    blocks: Seq<BlockSummary>,
    parent: spec_fn(BlockHash) -> BlockHash,
) -> WalkModel
    decreases blocks.len(),
{
    if blocks.len() == 0 {
        w
    } else {
        after_block(after_blocks(w, blocks.drop_last(), parent), blocks.last(), parent(blocks.last().hash))
    }
}

impl BackwardWalk {
    pub open spec fn model(self) -> WalkModel {
        WalkModel {
            begin: self.begin,
            max_depth: self.max_depth as nat,
            next: self.next,
            state: self.state,
            collected: self.collected@,
        }
    }

    pub open spec fn wf(self) -> bool {
        &&& self.max_depth >= 1
        &&& self.collected@.len() <= self.max_depth
        &&& (self.state == WalkState::Walking ==> self.collected@.len() < self.max_depth)
    }

    pub open spec fn step_of(self) -> WalkStep {
        match self.state {
            WalkState::Walking => WalkStep::Fetch(self.next),
            WalkState::Reached => WalkStep::Done,
            WalkState::Diverged => WalkStep::Diverged,
        }
    }

    /// Starts a walk from `end` back to `begin`.
    pub fn new(begin: BlockHash, end: BlockHash, max_depth: usize) -> (r: BackwardWalk)
        requires
            max_depth >= 1,
        ensures
            r.wf(),
            r.begin == begin,
            r.next == end,
            r.max_depth == max_depth,
            r.state == WalkState::Walking,
            r.collected@.len() == 0,
    {
        BackwardWalk { begin, max_depth, next: end, state: WalkState::Walking, collected: Vec::new() }
    }

    pub fn step(&self) -> (r: WalkStep)
        ensures
            r == self.step_of(),
    {
        match self.state {
            WalkState::Walking => WalkStep::Fetch(self.next),
            WalkState::Reached => WalkStep::Done,
            WalkState::Diverged => WalkStep::Diverged,
        }
    }

    /// Takes in the block that `step` asked for, and the hash of its parent.
    /// The walk ends at the begin block, or fails once `max_depth` blocks were
    /// visited without meeting it.
    pub fn on_block(&mut self, block: BlockSummary, parent: BlockHash)
        requires
            old(self).wf(),
            old(self).state == WalkState::Walking,
        ensures
            final(self).wf(),
            final(self).model() == after_block(old(self).model(), block, parent),
    {
        self.collected.push(block);
        self.next = parent;
        if block.hash == self.begin {
            self.state = WalkState::Reached;
        } else if self.collected.len() == self.max_depth {
            self.state = WalkState::Diverged;
        }
    }

    /// The visited blocks in chronological order (oldest first), or
    /// `DivergentChain` where the walk hit its bound.
    pub fn chronological(&self) -> (r: Result<Vec<BlockSummary>, ReportError>)
        requires
            self.state != WalkState::Walking,
        ensures
            self.state == WalkState::Diverged ==> r == Err::<Vec<BlockSummary>, ReportError>(ReportError::DivergentChain),
            self.state == WalkState::Reached ==> r is Ok,
            r matches Ok(v) ==> {
                &&& v@.len() == self.collected@.len()
                &&& forall|i: int| 0 <= i < v@.len()
                    ==> #[trigger] v@[i] == self.collected@[self.collected@.len() - 1 - i]
            },
    {
        if self.state == WalkState::Diverged {
            return Err(ReportError::DivergentChain);
        }
        let n = self.collected.len();
        let mut out: Vec<BlockSummary> = Vec::new();
        let mut i: usize = 0;
        while i < n
            invariant
                n == self.collected@.len(),
                i <= n,
                out@.len() == i,
                forall|k: int| 0 <= k < i ==> #[trigger] out@[k] == self.collected@[n - 1 - k],
            decreases n - i,
        {
            out.push(self.collected[n - 1 - i]);
            i = i + 1;
        }
        Ok(out)
    }
}


proof fn lemma_walk_prefix(
    w: WalkModel,
    blocks: Seq<BlockSummary>,
    parent: spec_fn(BlockHash) -> BlockHash,
    end: BlockHash,
    k: nat,
)
    requires
        w.max_depth >= 1,
        w.next == end,
        w.state == WalkState::Walking,
        w.collected.len() == 0,
        k <= blocks.len(),
        forall|i: int| 0 <= i < blocks.len() ==> (#[trigger] blocks[i]).hash == ancestor(parent, end, i as nat),
        forall|i: nat| i + 1 < k ==> #[trigger] ancestor(parent, end, i) != w.begin,
        k - 1 < w.max_depth,
    ensures
        ({
            let r = after_blocks(w, blocks.take(k as int), parent);
            &&& r.begin == w.begin
            &&& r.max_depth == w.max_depth
            &&& r.collected == blocks.take(k as int)
            &&& r.next == ancestor(parent, end, k)
            &&& r.state == if k == 0 {
                WalkState::Walking
            } else if ancestor(parent, end, (k - 1) as nat) == w.begin {
                WalkState::Reached
            } else if k == w.max_depth {
                WalkState::Diverged
            } else {
                WalkState::Walking
            }
        }),
    decreases k,
{
    if k == 0 {
        assert(blocks.take(0) =~= Seq::<BlockSummary>::empty());
    } else {
        lemma_walk_prefix(w, blocks, parent, end, (k - 1) as nat);
        assert(blocks.take(k as int).drop_last() =~= blocks.take(k - 1));
        assert(blocks.take(k as int).last() == blocks[k - 1]);
        assert(blocks.take(k - 1).push(blocks[k - 1]) =~= blocks.take(k as int));
    }
}

/// A walk that is handed, for each hash it asks for, the block with that hash
/// and its parent, asks for the end block and then its ancestors in turn. If
/// the begin block is the `d`-th ancestor of the end block (and no nearer one)
/// with `d < max_depth`, the walk has reached it after exactly `d + 1` blocks,
/// which it holds newest first.
pub proof fn lemma_walk_reaches_begin(
    w: WalkModel,
    blocks: Seq<BlockSummary>,
    parent: spec_fn(BlockHash) -> BlockHash,
    end: BlockHash,
    d: nat,
)
    requires
        w.next == end,
        w.state == WalkState::Walking,
        w.collected.len() == 0,
        d < w.max_depth,
        ancestor(parent, end, d) == w.begin,
        forall|i: nat| i < d ==> #[trigger] ancestor(parent, end, i) != w.begin,
        blocks.len() == d + 1,
        forall|i: int| 0 <= i < blocks.len() ==> (#[trigger] blocks[i]).hash == ancestor(parent, end, i as nat),
    ensures
        after_blocks(w, blocks, parent).state == WalkState::Reached,
        after_blocks(w, blocks, parent).collected == blocks,
        forall|k: nat| k <= d ==> after_blocks(w, #[trigger] blocks.take(k as int), parent).next == ancestor(parent, end, k),
        forall|k: nat| k <= d ==> after_blocks(w, #[trigger] blocks.take(k as int), parent).state == WalkState::Walking,
{
    assert forall|k: nat| k <= d implies after_blocks(w, #[trigger] blocks.take(k as int), parent).next == ancestor(parent, end, k)
        && after_blocks(w, blocks.take(k as int), parent).state == WalkState::Walking by {
        lemma_walk_prefix(w, blocks, parent, end, k);
    }
    lemma_walk_prefix(w, blocks, parent, end, d + 1);
    assert(blocks.take((d + 1) as int) =~= blocks);
}

/// A walk along parent links that meets no begin block among the first
/// `max_depth` ancestors of the end block stops after exactly `max_depth`
/// blocks, diverged.
pub proof fn lemma_walk_diverges(
    w: WalkModel,
    blocks: Seq<BlockSummary>,
    parent: spec_fn(BlockHash) -> BlockHash,
    end: BlockHash,
)
    requires
        w.max_depth >= 1,
        w.next == end,
        w.state == WalkState::Walking,
        w.collected.len() == 0,
        forall|i: nat| i < w.max_depth ==> #[trigger] ancestor(parent, end, i) != w.begin,
        blocks.len() == w.max_depth,
        forall|i: int| 0 <= i < blocks.len() ==> (#[trigger] blocks[i]).hash == ancestor(parent, end, i as nat),
    ensures
        after_blocks(w, blocks, parent).state == WalkState::Diverged,
        after_blocks(w, blocks, parent).collected == blocks,
{
    lemma_walk_prefix(w, blocks, parent, end, w.max_depth);
    assert(blocks.take(w.max_depth as int) =~= blocks);
}

} // verus!
