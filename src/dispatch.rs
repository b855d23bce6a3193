use vstd::prelude::*;
use crate::metrics::{BlockHash, Metrics, first_block};

verus! {

/// How one transaction of a batch is handed to the chain client.
#[derive(Clone, Copy, Debug, PartialEq, Eq, Structural)]
pub enum SubmitMode {
    /// Submitted and watched until finalized.
    Watched,
    /// Submitted without waiting for any outcome beyond acceptance.
    FireAndForget,
}

/// Head-and-tail rule: the first and the last transaction of a batch of
/// `len` are watched, every other one is not.
pub open spec fn mode_of(len: nat, index: nat) -> SubmitMode {
    if index == 0 || index + 1 == len {
        SubmitMode::Watched
    } else {
        SubmitMode::FireAndForget
    }
}

/// How many entries of `plan` are `m`.
pub open spec fn count_mode(plan: Seq<SubmitMode>, m: SubmitMode) -> nat
    decreases plan.len(),
{
    if plan.len() == 0 {
        0
    } else {
        count_mode(plan.drop_last(), m) + if plan.last() == m { 1nat } else { 0nat }
    }
}

/// The modes of a whole batch of `len`, in submission order.
pub open spec fn plan_of(len: nat) -> Seq<SubmitMode> {
    Seq::new(len, |i: int| mode_of(len, i as nat))
}

/// Number of watched submissions that a batch of `len` makes.
pub open spec fn watched_count(len: nat) -> nat {
    if len == 0 {
        0
    } else if len == 1 {
        1
    } else {
        2
    }
}

/// The mode of transaction `index` in a batch of `len`.
pub fn submit_mode(len: usize, index: usize) -> (r: SubmitMode)
    requires
        index < len,
    ensures
        r == mode_of(len as nat, index as nat),
{
    if index == 0 || index + 1 == len {
        SubmitMode::Watched
    } else {
        SubmitMode::FireAndForget
    }
}

/// The modes of a whole batch, in submission order.
pub fn submission_plan(len: usize) -> (r: Vec<SubmitMode>)
    ensures
        r@ == plan_of(len as nat),
{
    let mut plan: Vec<SubmitMode> = Vec::new();
    let mut i: usize = 0;
    while i < len
        invariant
            i <= len,
            plan@ == Seq::new(i as nat, |k: int| mode_of(len as nat, k as nat)),
        decreases len - i,
    {
        plan.push(submit_mode(len, i));
        i = i + 1;
        assert(plan@ =~= Seq::new(i as nat, |k: int| mode_of(len as nat, k as nat)));
    }
    assert(plan@ =~= plan_of(len as nat));
    plan
}

proof fn lemma_plan_prefix_counts(len: nat, k: nat)
    requires
        1 <= k <= len,
    ensures
        ({
            let prefix = Seq::new(k, |i: int| mode_of(len, i as nat));
            let t: nat = if k == len && len > 1 { 2 } else { 1 };
            &&& count_mode(prefix, SubmitMode::Watched) == t
            &&& count_mode(prefix, SubmitMode::FireAndForget) == k - t
        }),
    decreases k,
{
    let prefix = Seq::new(k, |i: int| mode_of(len, i as nat));
    if k > 1 {
        lemma_plan_prefix_counts(len, (k - 1) as nat);
        assert(prefix.drop_last() =~= Seq::new((k - 1) as nat, |i: int| mode_of(len, i as nat)));
    } else {
        assert(prefix.drop_last() =~= Seq::<SubmitMode>::empty());
        assert(count_mode(prefix.drop_last(), SubmitMode::Watched) == 0);
        assert(count_mode(prefix.drop_last(), SubmitMode::FireAndForget) == 0);
    }
    assert(prefix.last() == mode_of(len, (k - 1) as nat));
    assert(count_mode(prefix, SubmitMode::Watched) == count_mode(prefix.drop_last(), SubmitMode::Watched)
        + if prefix.last() == SubmitMode::Watched { 1nat } else { 0nat });
    assert(count_mode(prefix, SubmitMode::FireAndForget) == count_mode(prefix.drop_last(), SubmitMode::FireAndForget)
        + if prefix.last() == SubmitMode::FireAndForget { 1nat } else { 0nat });
}

/// A head-and-tail batch of `len >= 1` transactions makes exactly
/// `watched_count(len)` watched submissions (two, or one for a single
/// transaction), and sends the rest fire-and-forget.
pub proof fn lemma_head_and_tail_counts(len: nat)
    requires
        len >= 1,
    ensures
        count_mode(plan_of(len), SubmitMode::Watched) == watched_count(len),
        count_mode(plan_of(len), SubmitMode::FireAndForget) == len - watched_count(len),
{
    lemma_plan_prefix_counts(len, len);
    assert(plan_of(len) =~= Seq::new(len, |i: int| mode_of(len, i as nat)));
}


/// Where a head-and-tail dispatch of one batch stands.
#[derive(Clone, Copy, Debug, PartialEq, Eq, Structural)]
pub enum Stage {
    /// Handing transaction `next` to the chain client.
    Submitting,
    /// All transactions were handed over; waiting for the head to finalize.
    AwaitHead,
    /// The head's finalization wait failed; submitting the head again.
    RetryHead,
    /// Waiting for the tail to finalize.
    AwaitTail,
    /// The tail's finalization wait failed; submitting the tail again.
    RetryTail,
    /// The window of this batch is known and can be reported.
    Finished,
    /// A boundary transaction failed on every allowed attempt.
    GaveUp,
}

/// What the caller is asked to do next.
#[derive(Clone, Copy, Debug, PartialEq, Eq, Structural)]
pub enum Step {
    /// Hand transaction `index` to the chain client, watched or not.
    Submit { index: usize, watched: bool },
    /// Wait until the head transaction's block is finalized.
    AwaitHead,
    /// Wait until the tail transaction's block is finalized.
    AwaitTail,
    /// Nothing is left to do; report the batch.
    Finished,
    /// A boundary transaction could not be submitted and finalized within
    /// the allowed attempts; report the batch and fail.
    GaveUp,
}

/// The decisions of a head-and-tail dispatch of one batch of `len`
/// transactions: which transaction goes next and how, how often a boundary
/// transaction is tried again, and what the batch reports.
///
/// `attempts` counts the failures of the current boundary phase: failed
/// submissions of the head or tail, or, once it was handed over, failed
/// finalization waits on it together with failed resubmissions. A phase is
/// abandoned after `max_attempts` failures.
#[derive(Clone, Copy, Debug)]
pub struct HeadTailDispatch {
    pub len: usize,
    pub max_attempts: u32,
    pub stage: Stage,
    pub next: usize,
    pub attempts: u32,
    pub accepted: u32,
    pub begin_block: Option<BlockHash>,
    pub end_block: Option<BlockHash>,
    pub end_timestamp: u64,
}

impl HeadTailDispatch {
    pub open spec fn wf(self) -> bool {
        &&& 1 <= self.len <= u32::MAX
        &&& self.max_attempts >= 1
        &&& self.next <= self.len
        &&& self.accepted <= self.next
        &&& (self.attempts < self.max_attempts || self.stage == Stage::GaveUp)
        &&& (self.stage == Stage::Submitting ==> self.next < self.len)
        &&& (self.stage != Stage::Submitting && self.stage != Stage::GaveUp ==> self.next == self.len)
    }

    /// The state in which a dispatch of `len` transactions starts.
    pub open spec fn initial(len: nat, max_attempts: nat) -> HeadTailDispatch {
        HeadTailDispatch {
            len: len as usize,
            max_attempts: max_attempts as u32,
            stage: Stage::Submitting,
            next: 0,
            attempts: 0,
            accepted: 0,
            begin_block: None,
            end_block: None,
            end_timestamp: 0,
        }
    }

    pub open spec fn step_of(self) -> Step {
        match self.stage {
            Stage::Submitting => Step::Submit {
                index: self.next,
                watched: mode_of(self.len as nat, self.next as nat) == SubmitMode::Watched,
            },
            Stage::AwaitHead => Step::AwaitHead,
            Stage::RetryHead => Step::Submit { index: 0, watched: true },
            Stage::AwaitTail => Step::AwaitTail,
            Stage::RetryTail => Step::Submit { index: (self.len - 1) as usize, watched: true },
            Stage::Finished => Step::Finished,
            Stage::GaveUp => Step::GaveUp,
        }
    }

    /// One more failure in the current boundary phase, moving to `retry`
    /// while attempts remain and giving up otherwise.
    pub open spec fn failed_attempt(self, retry: Stage) -> HeadTailDispatch {
        if self.attempts + 1 >= self.max_attempts {
            HeadTailDispatch { attempts: (self.attempts + 1) as u32, stage: Stage::GaveUp, ..self }
        } else {
            HeadTailDispatch { attempts: (self.attempts + 1) as u32, stage: retry, ..self }
        }
    }

    /// Moves on to the next transaction, counting `accepted` more.
    pub open spec fn advanced(self, accepted: u32) -> HeadTailDispatch {
        HeadTailDispatch {
            next: (self.next + 1) as usize,
            attempts: 0,
            accepted,
            stage: if self.next + 1 == self.len { Stage::AwaitHead } else { Stage::Submitting },
            ..self
        }
    }

    /// The state after the chain client accepted (`ok`) or refused the
    /// submission that `step` asked for. While handing the batch over, a
    /// refused fire-and-forget submission is skipped and a refused watched
    /// one is tried again. A resubmitted boundary transaction that is
    /// accepted is waited on again; one that is refused is tried again.
    pub open spec fn after_submit(self, ok: bool) -> HeadTailDispatch {
        match self.stage {
            Stage::RetryHead => if ok {
                HeadTailDispatch { stage: Stage::AwaitHead, ..self }
            } else {
                self.failed_attempt(Stage::RetryHead)
            },
            Stage::RetryTail => if ok {
                HeadTailDispatch { stage: Stage::AwaitTail, ..self }
            } else {
                self.failed_attempt(Stage::RetryTail)
            },
            _ => if ok {
                self.advanced((self.accepted + 1) as u32)
            } else if mode_of(self.len as nat, self.next as nat) == SubmitMode::FireAndForget {
                self.advanced(self.accepted)
            } else {
                self.failed_attempt(Stage::Submitting)
            },
        }
    }

    /// The state after the head's finalization wait returned `block` at `now`.
    /// A failed wait (`None`) has the head submitted again while attempts
    /// remain. A batch of one has its head as its tail, so it is finished
    /// once the head is finalized.
    pub open spec fn after_head(self, block: Option<BlockHash>, now: u64) -> HeadTailDispatch {
        match block {
            None => self.failed_attempt(Stage::RetryHead),
            Some(b) => if self.len == 1 {
                HeadTailDispatch {
                    begin_block: Some(b),
                    end_block: Some(b),
                    end_timestamp: now,
                    stage: Stage::Finished,
                    ..self
                }
            } else {
                HeadTailDispatch { begin_block: Some(b), stage: Stage::AwaitTail, attempts: 0, ..self }
            },
        }
    }

    /// The state after the tail's finalization wait returned `block` at `now`.
    /// A failed wait (`None`) has the tail submitted again while attempts
    /// remain.
    pub open spec fn after_tail(self, block: Option<BlockHash>, now: u64) -> HeadTailDispatch {
        match block {
            None => self.failed_attempt(Stage::RetryTail),
            Some(b) => HeadTailDispatch {
                end_block: Some(b),
                end_timestamp: now,
                stage: Stage::Finished,
                ..self
            },
        }
    }

    /// Starts the dispatch of a batch of `len` transactions, trying each
    /// watched submission at most `max_attempts` times.
    pub fn new(len: usize, max_attempts: u32) -> (r: HeadTailDispatch)
        requires
            1 <= len <= u32::MAX,
            max_attempts >= 1,
        ensures
            r == HeadTailDispatch::initial(len as nat, max_attempts as nat),
            r.wf(),
    {
        HeadTailDispatch {
            len,
            max_attempts,
            stage: Stage::Submitting,
            next: 0,
            attempts: 0,
            accepted: 0,
            begin_block: None,
            end_block: None,
            end_timestamp: 0,
        }
    }

    /// What the caller is to do next.
    pub fn step(&self) -> (r: Step)
        requires
            self.wf(),
        ensures
            r == self.step_of(),
    {
        match self.stage {
            Stage::Submitting => Step::Submit {
                index: self.next,
                watched: submit_mode(self.len, self.next) == SubmitMode::Watched,
            },
            Stage::AwaitHead => Step::AwaitHead,
            Stage::RetryHead => Step::Submit { index: 0, watched: true },
            Stage::AwaitTail => Step::AwaitTail,
            Stage::RetryTail => Step::Submit { index: self.len - 1, watched: true },
            Stage::Finished => Step::Finished,
            Stage::GaveUp => Step::GaveUp,
        }
    }

    fn fail_attempt(&mut self, retry: Stage)
        requires
            old(self).attempts < old(self).max_attempts,
        ensures
            *final(self) == old(self).failed_attempt(retry),
    {
        self.attempts = self.attempts + 1;
        if self.attempts >= self.max_attempts {
            self.stage = Stage::GaveUp;
        } else {
            self.stage = retry;
        }
    }

    /// Takes in the outcome of the submission that `step` asked for.
    pub fn on_submitted(&mut self, ok: bool)
        requires
            old(self).wf(),
            old(self).stage == Stage::Submitting || old(self).stage == Stage::RetryHead
                || old(self).stage == Stage::RetryTail,
        ensures
            *final(self) == old(self).after_submit(ok),
            final(self).wf(),
    {
        match self.stage {
            Stage::RetryHead => {
                if ok {
                    self.stage = Stage::AwaitHead;
                } else {
                    self.fail_attempt(Stage::RetryHead);
                }
            },
            Stage::RetryTail => {
                if ok {
                    self.stage = Stage::AwaitTail;
                } else {
                    self.fail_attempt(Stage::RetryTail);
                }
            },
            _ => {
                let mode = submit_mode(self.len, self.next);
                if ok {
                    self.accepted = self.accepted + 1;
                    self.advance();
                } else if mode == SubmitMode::FireAndForget {
                    self.advance();
                } else {
                    self.fail_attempt(Stage::Submitting);
                }
            },
        }
    }

    fn advance(&mut self)
        requires
            old(self).stage == Stage::Submitting,
            old(self).next < old(self).len,
        ensures
            *final(self) == old(self).advanced(old(self).accepted),
    {
        self.next = self.next + 1;
        self.attempts = 0;
        if self.next == self.len {
            self.stage = Stage::AwaitHead;
        }
    }

    /// Takes in the outcome of the head's finalization wait: the finalized
    /// block, or `None` where the wait failed, and the time it returned.
    pub fn on_head_finalized(&mut self, block: Option<BlockHash>, now: u64)
        requires
            old(self).wf(),
            old(self).stage == Stage::AwaitHead,
        ensures
            *final(self) == old(self).after_head(block, now),
            final(self).wf(),
    {
        match block {
            None => {
                self.fail_attempt(Stage::RetryHead);
            },
            Some(b) => {
                self.begin_block = Some(b);
                if self.len == 1 {
                    self.end_block = Some(b);
                    self.end_timestamp = now;
                    self.stage = Stage::Finished;
                } else {
                    self.attempts = 0;
                    self.stage = Stage::AwaitTail;
                }
            },
        }
    }

    /// Takes in the outcome of the tail's finalization wait: the finalized
    /// block, or `None` where the wait failed, and the time it returned.
    pub fn on_tail_finalized(&mut self, block: Option<BlockHash>, now: u64)
        requires
            old(self).wf(),
            old(self).stage == Stage::AwaitTail,
        ensures
            *final(self) == old(self).after_tail(block, now),
            final(self).wf(),
    {
        match block {
            None => {
                self.fail_attempt(Stage::RetryTail);
            },
            Some(b) => {
                self.end_block = Some(b);
                self.end_timestamp = now;
                self.stage = Stage::Finished;
            },
        }
    }

    /// Reports the head's finalized block into the shared record as soon as
    /// it is known, as the window's begin (first writer wins).
    pub fn report_head_to(&self, metrics: &mut Metrics)
        requires
            self.begin_block is Some,
        ensures
            *final(metrics) == (Metrics {
                first_tx_begin_block: first_block(old(metrics).first_tx_begin_block, self.begin_block->0),
                ..*old(metrics)
            }),
    {
        if let Some(b) = self.begin_block {
            metrics.set_begin_block(b);
        }
    }

    /// Reports a finished or abandoned batch into the shared record: the
    /// head's block as the window's begin (first writer wins), the tail's block
    /// and time as its end (last writer wins), and the accepted count.
    pub fn report_to(&self, metrics: &mut Metrics)
        requires
            self.wf(),
            self.stage == Stage::Finished || self.stage == Stage::GaveUp,
            old(metrics).total_tx + self.accepted <= u32::MAX,
        ensures
            *final(metrics) == reported(*old(metrics), *self),
    {
        if let Some(b) = self.begin_block {
            metrics.set_begin_block(b);
        }
        if let Some(b) = self.end_block {
            metrics.set_finalize_block(b);
            metrics.set_end_timestamp(self.end_timestamp);
        }
        metrics.add_tx_number(self.accepted);
    }
}

/// The record `m` after batch `d` has reported into it.
pub open spec fn reported(m: Metrics, d: HeadTailDispatch) -> Metrics {
    let with_begin = match d.begin_block {
        Some(b) => Metrics { first_tx_begin_block: first_block(m.first_tx_begin_block, b), ..m },
        None => m,
    };
    let with_end = match d.end_block {
        Some(b) => Metrics {
            last_tx_finalize_block: Some(b),
            finalize_end: d.end_timestamp,
            ..with_begin
        },
        None => with_begin,
    };
    Metrics { total_tx: (with_end.total_tx + d.accepted) as u32, ..with_end }
}

/// The dispatch `d` after the submission outcomes `oks`, in order.
pub open spec fn after_submits(d: HeadTailDispatch, oks: Seq<bool>) -> HeadTailDispatch
    decreases oks.len(),
{
    if oks.len() == 0 {
        d
    } else {
        after_submits(d, oks.drop_last()).after_submit(oks.last())
    }
}

/// How many of `oks` are `false`.
pub open spec fn count_failed(oks: Seq<bool>) -> nat
    decreases oks.len(),
{
    if oks.len() == 0 {
        0
    } else {
        count_failed(oks.drop_last()) + if oks.last() { 0nat } else { 1nat }
    }
}

proof fn lemma_submits_prefix(len: nat, max_attempts: nat, oks: Seq<bool>, k: nat)
    requires
        2 <= len <= u32::MAX,
        1 <= max_attempts <= u32::MAX,
        oks.len() == len,
        oks[0],
        oks[len - 1],
        k <= len,
    ensures
        ({
            let d = after_submits(HeadTailDispatch::initial(len, max_attempts), oks.take(k as int));
            &&& d.wf()
            &&& d.next == k
            &&& d.attempts == 0
            &&& d.stage == (if k == len { Stage::AwaitHead } else { Stage::Submitting })
            &&& d.accepted == k - count_failed(oks.take(k as int))
            &&& d.len == len
            &&& d.max_attempts == max_attempts
            &&& (k < len ==> d.step_of() == Step::Submit {
                index: k as usize,
                watched: mode_of(len, k) == SubmitMode::Watched,
            })
        }),
    decreases k,
{
    let init = HeadTailDispatch::initial(len, max_attempts);
    if k > 0 {
        lemma_submits_prefix(len, max_attempts, oks, (k - 1) as nat);
        assert(oks.take(k as int).drop_last() =~= oks.take(k - 1));
        assert(oks.take(k as int).last() == oks[k - 1]);
    } else {
        assert(oks.take(0) =~= Seq::<bool>::empty());
    }
}

/// A failed fire-and-forget submission does not stop a batch: when the head
/// and the tail are accepted, transaction `k` of a batch of `len >= 2` is
/// handed over once, watched exactly where the head-and-tail plan says, the
/// tail included; the dispatch then goes on to the finalization waits, and the
/// accepted count is `len` less the failed submissions.
pub proof fn lemma_interior_failures_tolerated(len: nat, max_attempts: nat, oks: Seq<bool>)
    requires
        2 <= len <= u32::MAX,
        1 <= max_attempts <= u32::MAX,
        oks.len() == len,
        oks[0],
        oks[len - 1],
    ensures
        ({
            let d = after_submits(HeadTailDispatch::initial(len, max_attempts), oks);
            &&& d.wf()
            &&& d.next == len
            &&& d.stage == Stage::AwaitHead
            &&& d.accepted == len - count_failed(oks)
        }),
        forall|k: nat| k < len ==> (#[trigger] after_submits(HeadTailDispatch::initial(len, max_attempts), oks.take(k as int))).step_of()
            == (Step::Submit { index: k as usize, watched: plan_of(len)[k as int] == SubmitMode::Watched }),
{
    assert forall|k: nat| k < len implies (#[trigger] after_submits(HeadTailDispatch::initial(len, max_attempts), oks.take(k as int))).step_of()
        == (Step::Submit { index: k as usize, watched: plan_of(len)[k as int] == SubmitMode::Watched }) by {
        lemma_submits_prefix(len, max_attempts, oks, k);
    }
    lemma_submits_prefix(len, max_attempts, oks, len);
    assert(oks.take(len as int) =~= oks);
}

/// The record `m` after the batches `ds` reported into it, in the order in
/// which their reports took the lock.
pub open spec fn reported_all(m: Metrics, ds: Seq<HeadTailDispatch>) -> Metrics
    decreases ds.len(),
{
    if ds.len() == 0 {
        m
    } else {
        reported_all(reported(m, ds[0]), ds.skip(1))
    }
}

/// The head block of the first batch among `ds` that has one.
pub open spec fn first_head_block(ds: Seq<HeadTailDispatch>) -> Option<BlockHash>
    decreases ds.len(),
{
    if ds.len() == 0 {
        None
    } else if ds[0].begin_block is Some {
        ds[0].begin_block
    } else {
        first_head_block(ds.skip(1))
    }
}

/// The last batch among `ds` whose tail block is known, if any.
pub open spec fn last_tail_batch(ds: Seq<HeadTailDispatch>) -> Option<HeadTailDispatch>
    decreases ds.len(),
{
    if ds.len() == 0 {
        None
    } else {
        match last_tail_batch(ds.skip(1)) {
            Some(d) => Some(d),
            None => if ds[0].end_block is Some { Some(ds[0]) } else { None },
        }
    }
}

proof fn lemma_begin_block_stays(m: Metrics, ds: Seq<HeadTailDispatch>)
    requires
        m.first_tx_begin_block is Some,
    ensures
        reported_all(m, ds).first_tx_begin_block == m.first_tx_begin_block,
    decreases ds.len(),
{
    if ds.len() > 0 {
        lemma_begin_block_stays(reported(m, ds[0]), ds.skip(1));
    }
}

/// However the batches' reports interleave, the record's begin block is the
/// head block of the first batch to report one: later batches change nothing.
pub proof fn lemma_batches_begin_first_writer_wins(m: Metrics, ds: Seq<HeadTailDispatch>)
    requires
        m.first_tx_begin_block is None,
    ensures
        reported_all(m, ds).first_tx_begin_block == first_head_block(ds),
    decreases ds.len(),
{
    if ds.len() > 0 {
        if ds[0].begin_block is Some {
            lemma_begin_block_stays(reported(m, ds[0]), ds.skip(1));
        } else {
            lemma_batches_begin_first_writer_wins(reported(m, ds[0]), ds.skip(1));
        }
    }
}

/// However the batches' reports interleave, the record's end block and end
/// time both come from the last batch to report a tail block; where none
/// did, they stay as they were.
pub proof fn lemma_batches_end_last_writer_wins(m: Metrics, ds: Seq<HeadTailDispatch>)
    ensures
        reported_all(m, ds).last_tx_finalize_block == (match last_tail_batch(ds) {
            Some(d) => d.end_block,
            None => m.last_tx_finalize_block,
        }),
        reported_all(m, ds).finalize_end == (match last_tail_batch(ds) {
            Some(d) => d.end_timestamp,
            None => m.finalize_end,
        }),
    decreases ds.len(),
{
    if ds.len() > 0 {
        lemma_batches_end_last_writer_wins(reported(m, ds[0]), ds.skip(1));
    }
}

} // verus!
