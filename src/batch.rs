use vstd::prelude::*;

verus! {

/// The nonces of a batch of `count` transactions starting at `start`.
pub open spec fn nonce_seq(start: nat, count: nat) -> Seq<u64> {
    Seq::new(count, |i: int| (start + i) as u64)
}

/// The nonces of a batch: `start, start + 1, ..., start + count - 1`, with no
/// gap and no repeat.
pub fn batch_nonces(start: u64, count: u32) -> (r: Vec<u64>)
    requires
        start + count <= u64::MAX + 1,
    ensures
        r@ == nonce_seq(start as nat, count as nat),
{
    let mut nonces: Vec<u64> = Vec::new();
    let mut i: u32 = 0;
    while i < count
        invariant
            i <= count,
            start + count <= u64::MAX + 1,
            nonces@ == nonce_seq(start as nat, i as nat),
        decreases count - i,
    {
        nonces.push(start + i as u64);
        i = i + 1;
        assert(nonces@ =~= nonce_seq(start as nat, i as nat));
    }
    nonces
}

/// Whether `sign` may succeed on nonce `m`.
pub open spec fn signs_ok<T, E, F: Fn(u64) -> Result<T, E>>(sign: F, m: u64) -> bool {
    exists|t: T| #[trigger] sign.ensures((m,), Ok::<T, E>(t))
}

/// Builds a batch of `count` signed transactions for one account, signing
/// transaction `i` with nonce `start + i` through `sign`. The first signing
/// error ends the build and is returned; a partial batch never is.
pub fn build_batch<T, E, F: Fn(u64) -> Result<T, E>>(start: u64, count: u32, sign: F) -> (r:
    Result<Vec<T>, E>)
    requires
        start + count <= u64::MAX + 1,
        forall|n: u64| sign.requires((n,)),
    ensures
        r is Ok ==> r->Ok_0.len() == count,
        r is Ok ==> forall|i: int|
            0 <= i < count ==> sign.ensures(((start + i) as u64,), Ok::<T, E>(#[trigger] r->Ok_0[i])),
        r is Err ==> exists|n: u64|
            {
                &&& start <= n < start + count
                &&& #[trigger] sign.ensures((n,), Err::<T, E>(r->Err_0))
                &&& forall|m: u64| start <= m < n ==> #[trigger] signs_ok(sign, m)
            },
{
    let mut txs: Vec<T> = Vec::new();
    let mut i: u32 = 0;
    while i < count
        invariant
            i <= count,
            start + count <= u64::MAX + 1,
            forall|n: u64| sign.requires((n,)),
            txs.len() == i,
            forall|j: int| 0 <= j < i ==> sign.ensures(((start + j) as u64,), Ok::<T, E>(#[trigger] txs[j])),
        decreases count - i,
    {
        let nonce: u64 = start + i as u64;
        let signed = sign(nonce);
        match signed {
            Ok(tx) => {
                txs.push(tx);
            },
            Err(e) => {
                let r: Result<Vec<T>, E> = Err(e);
                assert(sign.ensures((nonce,), Err::<T, E>(r->Err_0)));
                assert forall|m: u64| start <= m < nonce implies #[trigger] signs_ok(sign, m) by {
                    let j: int = m - start;
                    assert(sign.ensures(((start + j) as u64,), Ok::<T, E>(txs[j])));
                }
                return r;
            },
        }
        i = i + 1;
    }
    Ok(txs)
}

/// How many of the outcomes are successes.
pub open spec fn count_ok(oks: Seq<bool>) -> nat
    decreases oks.len(),
{
    if oks.len() == 0 {
        0
    } else {
        count_ok(oks.drop_last()) + if oks.last() { 1nat } else { 0nat }
    }
}

/// Counts the transactions that reached finality among the outcomes of a
/// batch that was watched in full.
pub fn count_finalized(oks: &Vec<bool>) -> (r: u64)
    ensures
        r == count_ok(oks@),
{
    let mut n: u64 = 0;
    let mut i: usize = 0;
    while i < oks.len()
        invariant
            i <= oks.len(),
            n == count_ok(oks@.take(i as int)),
            n <= i,
        decreases oks.len() - i,
    {
        assert(oks@.take(i + 1).drop_last() =~= oks@.take(i as int));
        if oks[i] {
            n = n + 1;
        }
        i = i + 1;
    }
    assert(oks@.take(i as int) =~= oks@);
    n
}

} // verus!
