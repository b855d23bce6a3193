use vstd::prelude::*;

verus! {

/// A 256-bit block identifier, held as its high and low halves (big-endian).
#[derive(Clone, Copy, Debug, PartialEq, Eq, Structural)]
pub struct BlockHash {
    pub hi: u128,
    pub lo: u128,
}

impl BlockHash {
    pub fn from_halves(hi: u128, lo: u128) -> (r: BlockHash)
        ensures
            r.hi == hi,
            r.lo == lo,
    {
        BlockHash { hi, lo }
    }
}

/// The timing window of one run, shared by every submission task.
///
/// `begin_send` and `first_tx_begin_block` are written by the first writer
/// only; `finalize_end` and
/// `last_tx_finalize_block` hold the latest report; `total_tx` only grows.
#[derive(Clone, Copy, Debug)]
pub struct Metrics {
    pub begin_send: Option<u64>,
    pub finalize_end: u64,
    pub first_tx_begin_block: Option<BlockHash>,
    pub last_tx_finalize_block: Option<BlockHash>,
    pub total_tx: u32,
}

impl Default for Metrics {
    fn default() -> (r: Metrics)
        ensures
            r.is_empty(),
    {
        Metrics::new()
    }
}

/// First-writer-wins update of an optional timestamp.
pub open spec fn first_timestamp(cur: Option<u64>, t: u64) -> Option<u64> {
    if cur is None { Some(t) } else { cur }
}

/// First-writer-wins update of an optional block.
pub open spec fn first_block(cur: Option<BlockHash>, b: BlockHash) -> Option<BlockHash> {
    if cur is None { Some(b) } else { cur }
}

impl Metrics {
    /// An empty record: nothing set, no transactions counted.
    pub open spec fn is_empty(self) -> bool {
        &&& self.begin_send is None
        &&& self.finalize_end == 0
        &&& self.first_tx_begin_block is None
        &&& self.last_tx_finalize_block is None
        &&& self.total_tx == 0
    }

    pub fn new() -> (r: Metrics)
        ensures
            r.is_empty(),
    {
        Metrics {
            begin_send: None,
            finalize_end: 0,
            first_tx_begin_block: None,
            last_tx_finalize_block: None,
            total_tx: 0,
        }
    }

    /// Records the block that included the first transaction, unless one is
    /// already recorded.
    pub fn set_begin_block(&mut self, begin: BlockHash)
        ensures
            *final(self) == (Metrics {
                first_tx_begin_block: first_block(old(self).first_tx_begin_block, begin),
                ..*old(self)
            }),
    {
        if self.first_tx_begin_block.is_none() {
            self.first_tx_begin_block = Some(begin);
        }
    }

    /// Records the time the first transaction was sent, unless one is already
    /// recorded.
    pub fn set_begin_timestamp(&mut self, begin_timestamp: u64)
        ensures
            *final(self) == (Metrics {
                begin_send: first_timestamp(old(self).begin_send, begin_timestamp),
                ..*old(self)
            }),
    {
        if self.begin_send.is_none() {
            self.begin_send = Some(begin_timestamp);
        }
    }

    /// Records the time of the latest finalization, replacing any earlier one.
    pub fn set_end_timestamp(&mut self, end_timestamp: u64)
        ensures
            *final(self) == (Metrics { finalize_end: end_timestamp, ..*old(self) }),
    {
        self.finalize_end = end_timestamp;
    }

    /// Records the latest finalized block, replacing any earlier one.
    pub fn set_finalize_block(&mut self, finalize: BlockHash)
        ensures
            *final(self) == (Metrics { last_tx_finalize_block: Some(finalize), ..*old(self) }),
    {
        self.last_tx_finalize_block = Some(finalize);
    }

    /// Adds `num` successfully submitted transactions to the total.
    pub fn add_tx_number(&mut self, num: u32)
        requires
            old(self).total_tx + num <= u32::MAX,
        ensures
            *final(self) == (Metrics { total_tx: (old(self).total_tx + num) as u32, ..*old(self) }),
    {
        self.total_tx = self.total_tx + num;
    }
}


/// One call on the shared record, as the lock lets it through.
pub enum MetricsUpdate {
    BeginTimestamp(u64),
    BeginBlock(BlockHash),
    EndTimestamp(u64),
    FinalizeBlock(BlockHash),
    AddTx(u32),
}

impl Metrics {
    /// The record after one call, as the methods' own contracts give it.
    pub open spec fn applied(self, u: MetricsUpdate) -> Metrics {
        match u {
            MetricsUpdate::BeginTimestamp(t) => Metrics {
                begin_send: first_timestamp(self.begin_send, t),
                ..self
            },
            MetricsUpdate::BeginBlock(b) => Metrics {
                first_tx_begin_block: first_block(self.first_tx_begin_block, b),
                ..self
            },
            MetricsUpdate::EndTimestamp(t) => Metrics { finalize_end: t, ..self },
            MetricsUpdate::FinalizeBlock(b) => Metrics { last_tx_finalize_block: Some(b), ..self },
            MetricsUpdate::AddTx(n) => Metrics { total_tx: (self.total_tx + n) as u32, ..self },
        }
    }

    /// The record after the calls `us`, in the order given.
    pub open spec fn applied_all(self, us: Seq<MetricsUpdate>) -> Metrics
        decreases us.len(),
    {
        if us.len() == 0 {
            self
        } else {
            self.applied(us[0]).applied_all(us.skip(1))
        }
    }
}

/// The argument of the first `BeginTimestamp` among `us`.
pub open spec fn first_begin_timestamp(us: Seq<MetricsUpdate>) -> Option<u64>
    decreases us.len(),
{
    if us.len() == 0 {
        None
    } else {
        match us[0] {
            MetricsUpdate::BeginTimestamp(t) => Some(t),
            _ => first_begin_timestamp(us.skip(1)),
        }
    }
}

/// The argument of the first `BeginBlock` among `us`.
pub open spec fn first_begin_block(us: Seq<MetricsUpdate>) -> Option<BlockHash>
    decreases us.len(),
{
    if us.len() == 0 {
        None
    } else {
        match us[0] {
            MetricsUpdate::BeginBlock(b) => Some(b),
            _ => first_begin_block(us.skip(1)),
        }
    }
}

/// The argument of the last `EndTimestamp` among `us`.
pub open spec fn last_end_timestamp(us: Seq<MetricsUpdate>) -> Option<u64>
    decreases us.len(),
{
    if us.len() == 0 {
        None
    } else {
        match last_end_timestamp(us.skip(1)) {
            Some(t) => Some(t),
            None => match us[0] {
                MetricsUpdate::EndTimestamp(t) => Some(t),
                _ => None,
            },
        }
    }
}

/// The argument of the last `FinalizeBlock` among `us`.
pub open spec fn last_finalize_block(us: Seq<MetricsUpdate>) -> Option<BlockHash>
    decreases us.len(),
{
    if us.len() == 0 {
        None
    } else {
        match last_finalize_block(us.skip(1)) {
            Some(b) => Some(b),
            None => match us[0] {
                MetricsUpdate::FinalizeBlock(b) => Some(b),
                _ => None,
            },
        }
    }
}

/// The sum of the `AddTx` arguments among `us`.
pub open spec fn added_total(us: Seq<MetricsUpdate>) -> nat
    decreases us.len(),
{
    if us.len() == 0 {
        0
    } else {
        added_total(us.skip(1)) + match us[0] {
            MetricsUpdate::AddTx(n) => n as nat,
            _ => 0nat,
        }
    }
}

proof fn lemma_begin_timestamp_kept(m: Metrics, us: Seq<MetricsUpdate>)
    requires
        m.begin_send is Some,
    ensures
        m.applied_all(us).begin_send == m.begin_send,
    decreases us.len(),
{
    if us.len() > 0 {
        lemma_begin_timestamp_kept(m.applied(us[0]), us.skip(1));
    }
}

proof fn lemma_begin_block_kept(m: Metrics, us: Seq<MetricsUpdate>)
    requires
        m.first_tx_begin_block is Some,
    ensures
        m.applied_all(us).first_tx_begin_block == m.first_tx_begin_block,
    decreases us.len(),
{
    if us.len() > 0 {
        lemma_begin_block_kept(m.applied(us[0]), us.skip(1));
    }
}

proof fn lemma_begin_timestamp_first(m: Metrics, us: Seq<MetricsUpdate>)
    requires
        m.begin_send is None,
    ensures
        m.applied_all(us).begin_send == first_begin_timestamp(us),
    decreases us.len(),
{
    if us.len() > 0 {
        if let MetricsUpdate::BeginTimestamp(t) = us[0] {
            lemma_begin_timestamp_kept(m.applied(us[0]), us.skip(1));
        } else {
            lemma_begin_timestamp_first(m.applied(us[0]), us.skip(1));
        }
    }
}

proof fn lemma_begin_block_first(m: Metrics, us: Seq<MetricsUpdate>)
    requires
        m.first_tx_begin_block is None,
    ensures
        m.applied_all(us).first_tx_begin_block == first_begin_block(us),
    decreases us.len(),
{
    if us.len() > 0 {
        if let MetricsUpdate::BeginBlock(b) = us[0] {
            lemma_begin_block_kept(m.applied(us[0]), us.skip(1));
        } else {
            lemma_begin_block_first(m.applied(us[0]), us.skip(1));
        }
    }
}

/// Whatever the order in which racing tasks' calls get the lock, the begin
/// timestamp and the begin block of a fresh record end up as the arguments of
/// the first such call: later calls change nothing.
pub proof fn lemma_begin_first_writer_wins(m: Metrics, us: Seq<MetricsUpdate>)
    requires
        m.begin_send is None,
        m.first_tx_begin_block is None,
    ensures
        m.applied_all(us).begin_send == first_begin_timestamp(us),
        m.applied_all(us).first_tx_begin_block == first_begin_block(us),
{
    lemma_begin_timestamp_first(m, us);
    lemma_begin_block_first(m, us);
}

/// The end timestamp and the finalized block always hold the argument of the
/// latest such call, and stay as they were where there was none.
pub proof fn lemma_end_last_writer_wins(m: Metrics, us: Seq<MetricsUpdate>)
    ensures
        m.applied_all(us).finalize_end == (match last_end_timestamp(us) {
            Some(t) => t,
            None => m.finalize_end,
        }),
        m.applied_all(us).last_tx_finalize_block == (match last_finalize_block(us) {
            Some(b) => Some(b),
            None => m.last_tx_finalize_block,
        }),
    decreases us.len(),
{
    if us.len() > 0 {
        lemma_end_last_writer_wins(m.applied(us[0]), us.skip(1));
    }
}

proof fn lemma_added_total_concat(a: Seq<MetricsUpdate>, b: Seq<MetricsUpdate>)
    ensures
        added_total(a + b) == added_total(a) + added_total(b),
    decreases a.len(),
{
    if a.len() == 0 {
        assert(a + b =~= b);
    } else {
        lemma_added_total_concat(a.skip(1), b);
        assert((a + b).skip(1) =~= a.skip(1) + b);
        assert((a + b)[0] == a[0]);
    }
}

proof fn lemma_total_sum(m: Metrics, us: Seq<MetricsUpdate>)
    requires
        m.total_tx + added_total(us) <= u32::MAX,
    ensures
        m.applied_all(us).total_tx == m.total_tx + added_total(us),
    decreases us.len(),
{
    if us.len() > 0 {
        lemma_total_sum(m.applied(us[0]), us.skip(1));
    }
}

/// Counting is indifferent to interleaving: the total after any sequence of
/// calls is the starting total plus the sum of the `AddTx` arguments, so two
/// groups of calls give the same total in either order.
pub proof fn lemma_add_tx_order_free(m: Metrics, a: Seq<MetricsUpdate>, b: Seq<MetricsUpdate>)
    requires
        m.total_tx + added_total(a) + added_total(b) <= u32::MAX,
    ensures
        m.applied_all(a + b).total_tx == m.total_tx + added_total(a) + added_total(b),
        m.applied_all(a + b).total_tx == m.applied_all(b + a).total_tx,
{
    lemma_added_total_concat(a, b);
    lemma_added_total_concat(b, a);
    lemma_total_sum(m, a + b);
    lemma_total_sum(m, b + a);
}

} // verus!
