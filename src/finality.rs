use vstd::prelude::*;

verus! {

/// No block number occurs twice among the `(number, millis)` arrival times.
pub open spec fn keys_unique(s: Seq<(u64, u64)>) -> bool {
    forall|i: int, j: int| 0 <= i < j < s.len() ==> #[trigger] s[i].0 != #[trigger] s[j].0
}

/// The time recorded for block `k` in `s`, if any.
pub open spec fn time_of(s: Seq<(u64, u64)>, k: u64) -> Option<u64>
    decreases s.len(),
{
    if s.len() == 0 {
        None
    } else if s.last().0 == k {
        Some(s.last().1)
    } else {
        time_of(s.drop_last(), k)
    }
}

proof fn lemma_time_of_index(s: Seq<(u64, u64)>, i: int)
    requires
        keys_unique(s),
        0 <= i < s.len(),
    ensures
        time_of(s, s[i].0) == Some(s[i].1),
    decreases s.len(),
{
    if i < s.len() - 1 {
        assert(s[i].0 != s[s.len() - 1].0);
        assert(s.drop_last()[i] == s[i]);
        lemma_time_of_index(s.drop_last(), i);
    }
}

proof fn lemma_time_of_absent(s: Seq<(u64, u64)>, k: u64)
    requires
        forall|i: int| 0 <= i < s.len() ==> (#[trigger] s[i]).0 != k,
    ensures
        time_of(s, k) is None,
    decreases s.len(),
{
    if s.len() > 0 {
        assert(s[s.len() - 1].0 != k);
        assert forall|i: int| 0 <= i < s.drop_last().len() implies (#[trigger] s.drop_last()[i]).0 != k by {
            assert(s.drop_last()[i] == s[i]);
        }
        lemma_time_of_absent(s.drop_last(), k);
    }
}

/// Looks up the time recorded for block `k`.
pub fn find_time(s: &Vec<(u64, u64)>, k: u64) -> (r: Option<u64>)
    requires
        keys_unique(s@),
    ensures
        r == time_of(s@, k),
{
    let mut i: usize = 0;
    while i < s.len()
        invariant
            i <= s.len(),
            keys_unique(s@),
            forall|j: int| 0 <= j < i ==> (#[trigger] s@[j]).0 != k,
        decreases s.len() - i,
    {
        if s[i].0 == k {
            proof {
                lemma_time_of_index(s@, i as int);
            }
            return Some(s[i].1);
        }
        i = i + 1;
    }
    proof {
        lemma_time_of_absent(s@, k);
    }
    None
}


proof fn lemma_time_of_update(s: Seq<(u64, u64)>, i: int, p: (u64, u64), x: u64)
    requires
        0 <= i < s.len(),
        s[i].0 != x,
        p.0 != x,
    ensures
        time_of(s.update(i, p), x) == time_of(s, x),
    decreases s.len(),
{
    let u = s.update(i, p);
    if i == s.len() - 1 {
        assert(u.drop_last() =~= s.drop_last());
    } else {
        assert(u.drop_last() =~= s.drop_last().update(i, p));
        lemma_time_of_update(s.drop_last(), i, p, x);
    }
}

/// Records that block `k` arrived at `t`, replacing an earlier time of the
/// same block.
pub fn record_time(s: &mut Vec<(u64, u64)>, k: u64, t: u64)
    requires
        keys_unique(old(s)@),
    ensures
        keys_unique(final(s)@),
        forall|x: u64| #[trigger] time_of(final(s)@, x) == if x == k {
            Some(t)
        } else {
            time_of(old(s)@, x)
        },
{
    let mut i: usize = 0;
    while i < s.len()
        invariant
            i <= s.len(),
            s@ == old(s)@,
            keys_unique(s@),
            forall|j: int| 0 <= j < i ==> (#[trigger] s@[j]).0 != k,
        decreases s.len() - i,
    {
        if s[i].0 == k {
            let ghost before = s@;
            s.set(i, (k, t));
            proof {
                assert(s@ == before.update(i as int, (k, t)));
                assert forall|a: int, b: int| 0 <= a < b < s@.len() implies #[trigger] s@[a].0 != #[trigger] s@[b].0 by {
                    assert(before[a].0 != before[b].0);
                }
                lemma_time_of_index(s@, i as int);
                assert forall|x: u64| x != k implies #[trigger] time_of(s@, x) == time_of(before, x) by {
                    lemma_time_of_update(before, i as int, (k, t), x);
                }
            }
            return;
        }
        i = i + 1;
    }
    let ghost before = s@;
    s.push((k, t));
    proof {
        assert(s@.drop_last() =~= before);
        assert forall|a: int, b: int| 0 <= a < b < s@.len() implies #[trigger] s@[a].0 != #[trigger] s@[b].0 by {
            if b < before.len() {
                assert(before[a].0 != before[b].0);
            } else {
                assert(before[a].0 != k);
            }
        }
        assert forall|x: u64| #[trigger] time_of(s@, x) == if x == k {
            Some(t)
        } else {
            time_of(before, x)
        } by {}
    }
}

/// Collects arrival times from one stream of block notifications: the first
/// notification is skipped (it reports a block that existed before
/// listening began), then `limit` notifications are recorded.
#[derive(Debug)]
pub struct HeadSampler {
    pub remaining: u32,
    pub skip_next: bool,
    pub samples: Vec<(u64, u64)>,
}

impl HeadSampler {
    pub open spec fn wf(self) -> bool {
        keys_unique(self.samples@)
    }

    pub fn new(limit: u32) -> (r: HeadSampler)
        ensures
            r.wf(),
            r.remaining == limit,
            r.skip_next,
            r.samples@.len() == 0,
    {
        HeadSampler { remaining: limit, skip_next: true, samples: Vec::new() }
    }

    /// Whether more notifications are wanted.
    pub fn wants_more(&self) -> (r: bool)
        ensures
            r == (self.remaining > 0),
    {
        self.remaining > 0
    }

    /// Takes in a notification of block `number` that arrived at `now`, and
    /// tells whether more are wanted.
    pub fn observe(&mut self, number: u64, now: u64) -> (keep: bool)
        requires
            old(self).wf(),
            old(self).remaining > 0,
        ensures
            final(self).wf(),
            !final(self).skip_next,
            old(self).skip_next ==> final(self).samples@ == old(self).samples@
                && final(self).remaining == old(self).remaining,
            !old(self).skip_next ==> final(self).remaining == old(self).remaining - 1
                && forall|x: u64| #[trigger] time_of(final(self).samples@, x) == if x == number {
                Some(now)
            } else {
                time_of(old(self).samples@, x)
            },
            keep == (final(self).remaining > 0),
    {
        if self.skip_next {
            self.skip_next = false;
        } else {
            record_time(&mut self.samples, number, now);
            self.remaining = self.remaining - 1;
        }
        self.remaining > 0
    }
}


/// The lowest block number in a non-empty `s`.
pub open spec fn min_key(s: Seq<(u64, u64)>) -> u64
    decreases s.len(),
{
    if s.len() <= 1 {
        s[0].0
    } else if s.last().0 < min_key(s.drop_last()) {
        s.last().0
    } else {
        min_key(s.drop_last())
    }
}

/// The highest block number in a non-empty `s`.
pub open spec fn max_key(s: Seq<(u64, u64)>) -> u64
    decreases s.len(),
{
    if s.len() <= 1 {
        s[0].0
    } else if s.last().0 > max_key(s.drop_last()) {
        s.last().0
    } else {
        max_key(s.drop_last())
    }
}

/// How long block `(k, b)` of the best chain took to be finalized, if the
/// finalized stream saw it later than the best stream did.
pub open spec fn latency_of(entry: (u64, u64), fin: Seq<(u64, u64)>) -> Option<nat> {
    match time_of(fin, entry.0) {
        Some(f) => if f > entry.1 { Some((f - entry.1) as nat) } else { None },
        None => None,
    }
}

/// The number of best-chain blocks with a latency.
pub open spec fn latency_count(best: Seq<(u64, u64)>, fin: Seq<(u64, u64)>) -> nat
    decreases best.len(),
{
    if best.len() == 0 {
        0
    } else {
        latency_count(best.drop_last(), fin) + if latency_of(best.last(), fin) is Some { 1nat } else { 0nat }
    }
}

/// The sum of the latencies of the best-chain blocks.
pub open spec fn latency_total(best: Seq<(u64, u64)>, fin: Seq<(u64, u64)>) -> nat
    decreases best.len(),
{
    if best.len() == 0 {
        0
    } else {
        latency_total(best.drop_last(), fin) + match latency_of(best.last(), fin) {
            Some(l) => l,
            None => 0nat,
        }
    }
}

/// Finality speed over a sampling window.
#[derive(Clone, Copy, Debug)]
pub struct FinalityStats {
    /// Lowest and highest finalized block numbers seen.
    pub first_block: u64,
    pub last_block: u64,
    /// Milliseconds between the arrivals of those two blocks.
    pub span_ms: u64,
}

impl FinalityStats {
    /// Whole seconds between the first and the last finalized block.
    pub fn span_secs(&self) -> (r: u64)
        ensures
            r == self.span_ms / 1000,
    {
        self.span_ms / 1000
    }

    /// Finalized blocks in the window.
    pub fn block_count(&self) -> (r: u64)
        requires
            self.first_block <= self.last_block,
        ensures
            r == self.last_block - self.first_block,
    {
        self.last_block - self.first_block
    }
}

/// Best-to-finalized latencies: how many best-chain blocks were later seen
/// finalized, and the sum of their latencies.
#[derive(Clone, Copy, Debug)]
pub struct LatencyStats {
    pub count: u64,
    pub total_ms: u128,
}

impl LatencyStats {
    /// Mean latency in milliseconds, where any block has one.
    pub fn avg_latency_ms(&self) -> (r: Option<u128>)
        ensures
            self.count == 0 ==> r is None,
            self.count > 0 ==> r == Some((self.total_ms / self.count as u128) as u128),
    {
        if self.count == 0 {
            None
        } else {
            Some(self.total_ms / (self.count as u128))
        }
    }
}

/// The finality window from the arrival times of finalized blocks: it spans
/// the lowest to the highest finalized block. There is none without a
/// finalized block, or where the highest finalized block arrived before the
/// lowest.
pub fn finality_stats(finalized: &Vec<(u64, u64)>) -> (r: Option<FinalityStats>)
    requires
        keys_unique(finalized@),
    ensures
        finalized@.len() == 0 ==> r is None,
        finalized@.len() > 0 ==> ({
            let lo = min_key(finalized@);
            let hi = max_key(finalized@);
            &&& time_of(finalized@, lo) is Some
            &&& time_of(finalized@, hi) is Some
            &&& (r is None <==> time_of(finalized@, hi)->0 < time_of(finalized@, lo)->0)
            &&& (r matches Some(st) ==> {
                &&& st.first_block == lo
                &&& st.last_block == hi
                &&& st.first_block <= st.last_block
                &&& st.span_ms == time_of(finalized@, hi)->0 - time_of(finalized@, lo)->0
            })
        }),
{
    if finalized.len() == 0 {
        return None;
    }
    let mut lo: usize = 0;
    let mut hi: usize = 0;
    let mut i: usize = 1;
    while i < finalized.len()
        invariant
            1 <= i <= finalized.len(),
            lo < i,
            hi < i,
            finalized@[lo as int].0 == min_key(finalized@.take(i as int)),
            finalized@[hi as int].0 == max_key(finalized@.take(i as int)),
            finalized@[lo as int].0 <= finalized@[hi as int].0,
        decreases finalized.len() - i,
    {
        assert(finalized@.take(i + 1).drop_last() =~= finalized@.take(i as int));
        if finalized[i].0 < finalized[lo].0 {
            lo = i;
        }
        if finalized[i].0 > finalized[hi].0 {
            hi = i;
        }
        i = i + 1;
    }
    assert(finalized@.take(i as int) =~= finalized@);
    proof {
        lemma_time_of_index(finalized@, lo as int);
        lemma_time_of_index(finalized@, hi as int);
    }
    if finalized[hi].1 < finalized[lo].1 {
        return None;
    }
    Some(FinalityStats {
        first_block: finalized[lo].0,
        last_block: finalized[hi].0,
        span_ms: finalized[hi].1 - finalized[lo].1,
    })
}

/// The latencies of the best-chain blocks: a block counts where the
/// finalized stream saw it later than the best stream did.
pub fn latency_stats(best: &Vec<(u64, u64)>, finalized: &Vec<(u64, u64)>) -> (r: LatencyStats)
    requires
        keys_unique(finalized@),
    ensures
        r.count == latency_count(best@, finalized@),
        r.total_ms == latency_total(best@, finalized@),
{
    let mut count: u64 = 0;
    let mut total: u128 = 0;
    let mut j: usize = 0;
    while j < best.len()
        invariant
            j <= best.len(),
            keys_unique(finalized@),
            count == latency_count(best@.take(j as int), finalized@),
            total == latency_total(best@.take(j as int), finalized@),
            count <= j,
            total <= j * 0xffff_ffff_ffff_ffffnat,
            best.len() <= usize::MAX,
        decreases best.len() - j,
    {
        assert(best@.take(j + 1).drop_last() =~= best@.take(j as int));
        assert(best@.take(j + 1).last() == best@[j as int]);
        let (number, seen) = best[j];
        match find_time(finalized, number) {
            Some(f) => {
                if f > seen {
                    proof {
                        assert(j * 0xffff_ffff_ffff_ffffnat + 0xffff_ffff_ffff_ffffnat == (j + 1) * 0xffff_ffff_ffff_ffffnat) by (nonlinear_arith);
                        assert((j + 1) * 0xffff_ffff_ffff_ffffnat <= 0xffff_ffff_ffff_ffffnat * 0xffff_ffff_ffff_ffffnat) by (nonlinear_arith)
                            requires j + 1 <= 0xffff_ffff_ffff_ffffnat;
                    }
                    total = total + ((f - seen) as u128);
                    count = count + 1;
                }
            },
            None => {},
        }
        j = j + 1;
    }
    assert(best@.take(j as int) =~= best@);
    LatencyStats { count, total_ms: total }
}

} // verus!
