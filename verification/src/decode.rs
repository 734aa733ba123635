//! Timing-sample decoder.
//!
//! After the transactional probe, the sampler measures the access latency of
//! each of the 256 oracle pages; the decoder classifies a latency below
//! [`CACHE_HIT_THRESHOLD`] as a cache hit and selects the earliest
//! minimum-latency page as the recovered byte.
//! When no sample falls below the hit threshold, the decoder reports the
//! explicit no-signal outcome instead of an arbitrary index. Latency units
//! are only comparable within one probe call.

use vstd::prelude::*;

use crate::tsx_memcmp::ORACLE_PAGES;
use crate::tsx_memcmp::TransactionStatus;
use crate::tsx_memcmp::probe_warms;

verus! {

/// Latency below this is classified as a cache hit (page served warm).
pub const CACHE_HIT_THRESHOLD: u64 = 80;

/// The decoder's verdict on one timing sample: the recovered byte value, or
/// the explicit statement that no sample looked like a cache hit.
#[derive(Clone, Copy, PartialEq, Eq, Structural, Debug)]
pub enum ByteGuess {
    Signal(u8),
    NoSignal,
}

/// Exact characterization of the decoder's outcome on a 256-entry sample:
/// `NoSignal` exactly when every latency is at or above the hit threshold;
/// otherwise the earliest index of minimum latency, which is below it.
pub open spec fn decode_post(samples: Seq<u64>, g: ByteGuess) -> bool {
    match g {
        ByteGuess::NoSignal => forall|i: int|
            0 <= i < samples.len() ==> samples[i] >= CACHE_HIT_THRESHOLD,
        ByteGuess::Signal(b) => {
            &&& (b as int) < samples.len()
            &&& samples[b as int] < CACHE_HIT_THRESHOLD
            &&& forall|j: int| 0 <= j < samples.len() ==> samples[b as int] <= samples[j]
            &&& forall|j: int| 0 <= j < b as int ==> samples[j] > samples[b as int]
        },
    }
}

/// Selects the earliest minimum-latency page and applies the hit threshold:
/// the recovered byte when some page was served warm, else `NoSignal`.
pub fn decode(samples: &Vec<u64>) -> (g: ByteGuess)
    requires
        samples@.len() == ORACLE_PAGES,
    ensures
        decode_post(samples@, g),
{
    let mut best: usize = 0;
    let mut i: usize = 1;
    while i < samples.len()
        invariant
            samples@.len() == ORACLE_PAGES,
            best < i <= samples@.len(),
            forall|j: int| 0 <= j < i ==> samples@[best as int] <= samples@[j],
            forall|j: int| 0 <= j < best ==> samples@[j] > samples@[best as int],
        decreases samples@.len() - i,
    {
        if samples[i] < samples[best] {
            best = i;
        }
        i = i + 1;
    }
    if samples[best] < CACHE_HIT_THRESHOLD {
        ByteGuess::Signal(best as u8)
    } else {
        ByteGuess::NoSignal
    }
}

/// The indices whose latency falls below the hit threshold, in ascending
/// index order, over the first `n` samples.
pub open spec fn hits_below(samples: Seq<u64>, n: int) -> Seq<u8>
    decreases n,
{
    if n <= 0 {
        Seq::empty()
    } else if samples[n - 1] < CACHE_HIT_THRESHOLD {
        hits_below(samples, n - 1).push((n - 1) as u8)
    } else {
        hits_below(samples, n - 1)
    }
}

/// All pages classified as cache hits, in ascending index order: the full
/// candidate list, letting a caller detect ambiguous recovery (more than one
/// hit) rather than trusting the single argmin.
pub fn hit_indices(samples: &Vec<u64>) -> (hits: Vec<u8>)
    requires
        samples@.len() == ORACLE_PAGES,
    ensures
        hits@ == hits_below(samples@, ORACLE_PAGES as int),
{
    let mut hits: Vec<u8> = Vec::new();
    let mut i: usize = 0;
    while i < samples.len()
        invariant
            samples@.len() == ORACLE_PAGES,
            i <= samples@.len(),
            hits@ == hits_below(samples@, i as int),
        decreases samples@.len() - i,
    {
        if samples[i] < CACHE_HIT_THRESHOLD {
            hits.push(i as u8);
        }
        i = i + 1;
    }
    hits
}

/// Page `x` ranks no later than page `y`: strictly lower latency, or equal
/// latency and no higher index.
pub open spec fn ranks_before(samples: Seq<u64>, x: u8, y: u8) -> bool {
    ||| samples[x as int] < samples[y as int]
    ||| (samples[x as int] == samples[y as int] && x <= y)
}

/// The full ranked list: every page index exactly once, ordered by measured
/// latency with ties resolved toward the lower index. The head is the
/// decoder's argmin; a caller reads down the list to judge how distinguished
/// the recovery is instead of trusting the single argmin.
pub fn rank_pages(samples: &Vec<u64>) -> (order: Vec<u8>)
    requires
        samples@.len() == ORACLE_PAGES,
    ensures
        order@.len() == ORACLE_PAGES,
        forall|a: int, b: int|
            0 <= a < b < ORACLE_PAGES ==> ranks_before(samples@, order@[a], order@[b]),
        forall|a: int, b: int| 0 <= a < b < ORACLE_PAGES ==> order@[a] != order@[b],
        forall|v: u8| order@.contains(v),
{
    let mut order: Vec<u8> = Vec::new();
    let mut k: usize = 0;
    while k < ORACLE_PAGES
        invariant
            k <= ORACLE_PAGES,
            order@.len() == k,
            forall|a: int| 0 <= a < k ==> order@[a] == a as u8,
        decreases ORACLE_PAGES - k,
    {
        order.push(k as u8);
        k = k + 1;
    }
    proof {
        assert forall|v: u8| order@.contains(v) by {
            assert(order@[v as int] == v);
        }
    }
    let mut i: usize = 1;
    while i < ORACLE_PAGES
        invariant
            1 <= i <= ORACLE_PAGES,
            samples@.len() == ORACLE_PAGES,
            order@.len() == ORACLE_PAGES,
            forall|a: int, b: int| 0 <= a < b < i ==> ranks_before(samples@, order@[a], order@[b]),
            forall|a: int, b: int| 0 <= a < b < ORACLE_PAGES ==> order@[a] != order@[b],
            forall|v: u8| order@.contains(v),
        decreases ORACLE_PAGES - i,
    {
        let mut j: usize = i;
        loop
            invariant_except_break
                j <= i < ORACLE_PAGES,
                samples@.len() == ORACLE_PAGES,
                order@.len() == ORACLE_PAGES,
                forall|a: int, b: int|
                    0 <= a < b <= i && b != j ==> ranks_before(samples@, order@[a], order@[b]),
                forall|b: int| j < b <= i ==> ranks_before(samples@, order@[j as int], order@[b]),
                forall|a: int, b: int| 0 <= a < b < ORACLE_PAGES ==> order@[a] != order@[b],
                forall|v: u8| order@.contains(v),
            ensures
                samples@.len() == ORACLE_PAGES,
                order@.len() == ORACLE_PAGES,
                i < ORACLE_PAGES,
                forall|a: int, b: int|
                    0 <= a < b <= i ==> ranks_before(samples@, order@[a], order@[b]),
                forall|a: int, b: int| 0 <= a < b < ORACLE_PAGES ==> order@[a] != order@[b],
                forall|v: u8| order@.contains(v),
            decreases j,
        {
            if j == 0 {
                break ;
            }
            let x = order[j - 1];
            let y = order[j];
            if samples[x as usize] < samples[y as usize] || (samples[x as usize]
                == samples[y as usize] && x <= y) {
                // the neighbours already rank in order; everything before
                // them does too, by transitivity
                proof {
                    assert forall|a: int, b: int|
                        0 <= a < b <= i implies ranks_before(samples@, order@[a], order@[b]) by {
                        if b == j as int && a < j - 1 {
                            assert(ranks_before(samples@, order@[a], order@[j - 1]));
                            assert(ranks_before(samples@, order@[j - 1], order@[j as int]));
                        }
                    }
                }
                break ;
            }
            let ghost pre = order@;
            order.set(j - 1, y);
            order.set(j, x);
            proof {
                assert forall|v: u8| order@.contains(v) by {
                    assert(pre.contains(v));
                    let w = choose|w: int| 0 <= w < pre.len() && pre[w] == v;
                    if w == j - 1 {
                        assert(order@[j as int] == v);
                    } else if w == j {
                        assert(order@[j - 1] == v);
                    } else {
                        assert(order@[w] == v);
                    }
                }
            }
            j = j - 1;
        }
        i = i + 1;
    }
    order
}

/// Law: the head of the ranked list is the decoder's recovery. Whenever the
/// decoder reports a signal, the first entry of the full ranking is exactly
/// the recovered byte.
pub proof fn lemma_ranking_head_is_decoded(samples: Seq<u64>, order: Seq<u8>, b: u8)
    requires
        samples.len() == ORACLE_PAGES,
        order.len() == ORACLE_PAGES,
        forall|x: int, y: int| 0 <= x < y < ORACLE_PAGES ==> ranks_before(samples, order[x], order[y]),
        forall|v: u8| order.contains(v),
        decode_post(samples, ByteGuess::Signal(b)),
    ensures
        order[0] == b,
{
    assert(order.contains(b));
    let k = choose|k: int| 0 <= k < order.len() && order[k] == b;
    if k != 0 {
        assert(ranks_before(samples, order[0], order[k]));
        // the recovered byte has globally minimal latency ...
        assert(samples[b as int] <= samples[order[0] as int]);
        // ... so the head's latency equals it, and the head's index is no
        // higher; an index strictly below the recovered byte's would have a
        // strictly higher latency
        if order[0] != b {
            assert(samples[order[0] as int] > samples[b as int]);
            assert(false);
        }
    }
}

/// A timing sample agrees with the cache state a probe run leaves behind:
/// page `v` reads below the hit threshold exactly when the probe warmed it.
pub open spec fn sample_matches_probe(
    samples: Seq<u64>,
    secret: Seq<u8>,
    input: Seq<u8>,
    n: int,
    status: TransactionStatus,
) -> bool {
    &&& samples.len() == ORACLE_PAGES
    &&& forall|v: u8|
        (samples[v as int] < CACHE_HIT_THRESHOLD) <==> probe_warms(secret, input, n, status, v)
}

/// A value appears in the hit list exactly when it indexes one of the first
/// `n` samples and that sample reads below the hit threshold.
pub proof fn lemma_hits_below_contains(samples: Seq<u64>, n: int, v: u8)
    requires
        0 <= n <= ORACLE_PAGES,
    ensures
        hits_below(samples, n).contains(v) <==> ((v as int) < n && samples[v as int]
            < CACHE_HIT_THRESHOLD),
    decreases n,
{
    if n > 0 {
        lemma_hits_below_contains(samples, n - 1, v);
        let prev = hits_below(samples, n - 1);
        if samples[n - 1] < CACHE_HIT_THRESHOLD {
            let cur = prev.push((n - 1) as u8);
            assert(prev.contains(v) ==> cur.contains(v)) by {
                if prev.contains(v) {
                    let j = choose|j: int| 0 <= j < prev.len() && prev[j] == v;
                    assert(cur[j] == v);
                }
            }
            if cur.contains(v) {
                let j = choose|j: int| 0 <= j < cur.len() && cur[j] == v;
                if j < prev.len() {
                    assert(prev[j] == v);
                } else {
                    assert(v == (n - 1) as u8);
                }
            }
            if v as int == n - 1 {
                assert(cur[prev.len() as int] == v);
            }
        }
    }
}

/// Law: the candidate list is faithful. For any sample agreeing with the
/// cache state a probe run left behind, the hit list holds exactly the pages
/// the probe warmed — no warmed page is missed and no cold page intrudes.
pub proof fn lemma_hit_list_is_warm_set(
    secret: Seq<u8>,
    input: Seq<u8>,
    n: int,
    status: TransactionStatus,
    samples: Seq<u64>,
)
    requires
        sample_matches_probe(samples, secret, input, n, status),
    ensures
        forall|v: u8|
            hits_below(samples, ORACLE_PAGES as int).contains(v) <==> probe_warms(
                secret,
                input,
                n,
                status,
                v,
            ),
{
    assert forall|v: u8|
        hits_below(samples, ORACLE_PAGES as int).contains(v) <==> probe_warms(
            secret,
            input,
            n,
            status,
            v,
        ) by {
        lemma_hits_below_contains(samples, ORACLE_PAGES as int, v);
    }
}

/// Law: single-mismatch recovery. When secret and input differ at exactly one
/// of the first `n` positions, an entered probe warms exactly the page of the
/// secret byte at that position, and any sample agreeing with that cache
/// state decodes to precisely that byte.
pub proof fn lemma_single_mismatch_recovered(
    secret: Seq<u8>,
    input: Seq<u8>,
    n: int,
    p: int,
    samples: Seq<u64>,
    g: ByteGuess,
)
    requires
        0 <= p < n,
        secret[p] != input[p],
        forall|i: int| 0 <= i < n && i != p ==> secret[i] == input[i],
        sample_matches_probe(samples, secret, input, n, TransactionStatus::Entered),
        decode_post(samples, g),
    ensures
        g == ByteGuess::Signal(secret[p]),
{
    let s = secret[p];
    assert(probe_warms(secret, input, n, TransactionStatus::Entered, s));
    assert(samples[s as int] < CACHE_HIT_THRESHOLD);
    match g {
        ByteGuess::NoSignal => {
            assert(false);
        },
        ByteGuess::Signal(b) => {
            assert(samples[b as int] < CACHE_HIT_THRESHOLD);
            assert(probe_warms(secret, input, n, TransactionStatus::Entered, b));
            let i = choose|i: int| 0 <= i < n && secret[i] == b && secret[i] != input[i];
            assert(i == p);
        },
    }
}

/// Law: no mismatch, no signal. When secret and input agree on the whole
/// compared prefix, no oracle page is warmed, every sample reads at or above
/// the hit threshold, and the decoder reports the explicit no-signal outcome
/// — never a misleading byte.
pub proof fn lemma_no_mismatch_no_signal(
    secret: Seq<u8>,
    input: Seq<u8>,
    n: int,
    status: TransactionStatus,
    samples: Seq<u64>,
    g: ByteGuess,
)
    requires
        forall|i: int| 0 <= i < n ==> secret[i] == input[i],
        sample_matches_probe(samples, secret, input, n, status),
        decode_post(samples, g),
    ensures
        g == ByteGuess::NoSignal,
{
    match g {
        ByteGuess::Signal(b) => {
            assert(samples[b as int] < CACHE_HIT_THRESHOLD);
            assert(probe_warms(secret, input, n, status, b));
            assert(false);
        },
        ByteGuess::NoSignal => {
        },
    }
}

/// Law: an aborted transaction never yields a byte. Whatever the buffers
/// hold, a probe whose transaction aborted warms no page, so a sample
/// agreeing with its cache state decodes to the no-signal outcome.
pub proof fn lemma_aborted_no_signal(
    secret: Seq<u8>,
    input: Seq<u8>,
    n: int,
    samples: Seq<u64>,
    g: ByteGuess,
)
    requires
        sample_matches_probe(samples, secret, input, n, TransactionStatus::Aborted),
        decode_post(samples, g),
    ensures
        g == ByteGuess::NoSignal,
{
    match g {
        ByteGuess::Signal(b) => {
            assert(samples[b as int] < CACHE_HIT_THRESHOLD);
            assert(probe_warms(secret, input, n, TransactionStatus::Aborted, b));
            assert(false);
        },
        ByteGuess::NoSignal => {
        },
    }
}

} // verus!
