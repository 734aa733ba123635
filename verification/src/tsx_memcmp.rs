//! Transactional cache-timing probe engine.
//!
//! The probe compares a secret buffer against an attacker-supplied input
//! inside a hardware transactional region. For every mismatching position it
//! touches one page of a 256-page oracle region — the page whose index is the
//! secret byte at that position — so the residual cache warmth of the oracle
//! encodes the secret byte as "which page is warm".
//!
//! Entering the transaction yields exactly one of two outcomes,
//! [`TransactionStatus::Entered`] or [`TransactionStatus::Aborted`]; an abort
//! is an expected branch of the state machine, not a failure, and touches no
//! page. This module holds the decision logic of the probe: which pages a run
//! touches, and how the oracle's cache state evolves. The unverified front
//! end drives the actual hardware (flushes, the transactional region, page
//! loads) from the plan computed here.
//!
//! Signal quality assumes exclusive use of the executing core during a probe
//! call; that is an operating condition the engine cannot enforce. An
//! `OracleCache` must likewise not be shared across concurrent probe calls.

use vstd::prelude::*;

verus! {

/// Bytes per oracle page: the stride between designated hot locations.
pub const PAGE_SIZE: usize = 4096;

/// Number of oracle pages, one per possible byte value.
pub const ORACLE_PAGES: usize = 256;

/// Total size of the oracle region in bytes.
pub const ORACLE_SIZE: usize = 256 * 4096;

/// Number of ephemeral stress regions flushed and decommitted before a probe.
pub const STRESS_REGIONS: usize = 4;

/// Size of each stress region in bytes.
pub const STRESS_REGION_SIZE: usize = 1048576;

/// Outcome of entering the hardware transactional region. There is no third
/// state: the entry instruction either runs the body (`Entered`) or lands in
/// the fallback path (`Aborted`), in which case no oracle page is touched.
#[derive(Clone, Copy, PartialEq, Eq, Structural, Debug)]
pub enum TransactionStatus {
    Entered,
    Aborted,
}

/// Byte offset of the oracle page designated hot for byte `value`:
/// page `value`, at `value * PAGE_SIZE`, always inside the oracle region.
pub fn oracle_offset(value: u8) -> (off: usize)
    ensures
        off == value as int * PAGE_SIZE,
        off + PAGE_SIZE <= ORACLE_SIZE,
{
    value as usize * PAGE_SIZE
}

/// The ordered sequence of oracle page indices the probe body touches on the
/// first `n` positions: for each position where secret and input differ, the
/// secret's byte value at that position.
pub open spec fn touch_seq(secret: Seq<u8>, input: Seq<u8>, n: int) -> Seq<u8>
    decreases n,
{
    if n <= 0 {
        Seq::empty()
    } else if secret[n - 1] != input[n - 1] {
        touch_seq(secret, input, n - 1).push(secret[n - 1])
    } else {
        touch_seq(secret, input, n - 1)
    }
}

/// A value appears in the touch sequence exactly when it is the secret byte
/// at some mismatching position among the first `n`.
pub proof fn lemma_touch_seq_contains(secret: Seq<u8>, input: Seq<u8>, n: int, v: u8)
    ensures
        touch_seq(secret, input, n).contains(v) <==> exists|i: int|
            0 <= i < n && secret[i] == v && secret[i] != input[i],
    decreases n,
{
    if n > 0 {
        lemma_touch_seq_contains(secret, input, n - 1, v);
        let prev = touch_seq(secret, input, n - 1);
        if secret[n - 1] != input[n - 1] {
            let cur = prev.push(secret[n - 1]);
            assert(prev.contains(v) ==> cur.contains(v)) by {
                if prev.contains(v) {
                    let j = choose|j: int| 0 <= j < prev.len() && prev[j] == v;
                    assert(cur[j] == v);
                }
            }
            if cur.contains(v) {
                let j = choose|j: int| 0 <= j < cur.len() && cur[j] == v;
                if j < prev.len() {
                    assert(prev[j] == v);
                } else {
                    assert(v == secret[n - 1]);
                }
            }
            if secret[n - 1] == v {
                assert(cur[prev.len() as int] == v);
            }
        }
    }
}

/// Whether a probe over the first `n` positions, with the given transaction
/// outcome, leaves the oracle page for byte value `v` warm: only an entered
/// transaction touches pages, and it touches exactly the secret bytes at
/// mismatching positions.
pub open spec fn probe_warms(
    secret: Seq<u8>,
    input: Seq<u8>,
    n: int,
    status: TransactionStatus,
    v: u8,
) -> bool {
    status == TransactionStatus::Entered && exists|i: int|
        0 <= i < n && secret[i] == v && secret[i] != input[i]
}

/// The ordered touch plan of one probe run: empty when the transaction
/// aborted, else the oracle page indices the body touches, in position order.
pub fn plan_touches(secret: &[u8], input: &[u8], len: usize, status: TransactionStatus) -> (plan:
    Vec<u8>)
    requires
        len <= secret@.len(),
        len <= input@.len(),
    ensures
        status == TransactionStatus::Entered ==> plan@ == touch_seq(secret@, input@, len as int),
        status == TransactionStatus::Aborted ==> plan@ == Seq::<u8>::empty(),
{
    let mut plan: Vec<u8> = Vec::new();
    match status {
        TransactionStatus::Aborted => plan,
        TransactionStatus::Entered => {
            let mut i: usize = 0;
            while i < len
                invariant
                    i <= len,
                    len <= secret@.len(),
                    len <= input@.len(),
                    plan@ == touch_seq(secret@, input@, i as int),
                decreases len - i,
            {
                let s = secret[i];
                let c = input[i];
                if s != c {
                    plan.push(s);
                }
                i = i + 1;
            }
            plan
        },
    }
}

/// Models the cache state of the oracle region: one warmth flag per page,
/// page `i` standing for candidate byte value `i`.
pub struct OracleCache {
    pub warm: Vec<bool>,
}

impl OracleCache {
    /// Well-formed: exactly one flag per possible byte value.
    pub open spec fn wf(self) -> bool {
        self.warm@.len() == ORACLE_PAGES
    }

    /// The warmth flags, page `i` standing for byte value `i`.
    pub open spec fn warm_seq(self) -> Seq<bool> {
        self.warm@
    }

    /// Every page is cold (evicted).
    pub open spec fn all_cold(self) -> bool {
        forall|i: int| 0 <= i < self.warm@.len() ==> !self.warm@[i]
    }

    /// A fresh oracle cache model, all pages cold.
    pub fn new() -> (c: Self)
        ensures
            c.wf(),
            c.all_cold(),
    {
        let mut warm: Vec<bool> = Vec::new();
        let mut i: usize = 0;
        while i < ORACLE_PAGES
            invariant
                i <= ORACLE_PAGES,
                warm@.len() == i,
                forall|j: int| 0 <= j < i ==> !warm@[j],
            decreases ORACLE_PAGES - i,
        {
            warm.push(false);
            i = i + 1;
        }
        OracleCache { warm }
    }

    /// Evicts every oracle page: the mandatory reset at the start of each
    /// probe call. The resulting state does not depend on the previous one.
    pub fn prepare(&mut self)
        ensures
            final(self).wf(),
            final(self).all_cold(),
    {
        *self = OracleCache::new();
    }

    /// Records the single load of the page designated for `value`.
    pub fn touch(&mut self, value: u8)
        requires
            old(self).wf(),
        ensures
            final(self).wf(),
            final(self).warm_seq() == old(self).warm_seq().update(value as int, true),
    {
        self.warm.set(value as usize, true);
    }

    /// Whether the page designated for `value` is warm.
    pub fn is_warm(&self, value: u8) -> (r: bool)
        requires
            self.wf(),
        ensures
            r == self.warm_seq()[value as int],
    {
        self.warm[value as usize]
    }
}

/// One whole probe run over the cache model: reset the oracle to cold, then
/// — only if the transaction entered — touch one page per mismatching byte.
/// The final cache state is a function of the probe inputs alone; whatever
/// the oracle held before the call is erased by the reset.
pub fn run_probe(
    cache: &mut OracleCache,
    secret: &[u8],
    input: &[u8],
    len: usize,
    status: TransactionStatus,
) -> (plan: Vec<u8>)
    requires
        len <= secret@.len(),
        len <= input@.len(),
    ensures
        final(cache).wf(),
        forall|v: u8|
            final(cache).warm_seq()[v as int] == probe_warms(
                secret@,
                input@,
                len as int,
                status,
                v,
            ),
        status == TransactionStatus::Entered ==> plan@ == touch_seq(secret@, input@, len as int),
        status == TransactionStatus::Aborted ==> plan@ == Seq::<u8>::empty(),
{
    cache.prepare();
    let plan = plan_touches(secret, input, len, status);
    let mut i: usize = 0;
    while i < plan.len()
        invariant
            i <= plan@.len(),
            cache.wf(),
            forall|v: u8|
                cache.warm_seq()[v as int] == plan@.subrange(0, i as int).contains(v),
        decreases plan@.len() - i,
    {
        let v = plan[i];
        cache.touch(v);
        proof {
            let pre = plan@.subrange(0, i as int);
            let post = plan@.subrange(0, i as int + 1);
            assert(post == pre.push(plan@[i as int]));
            assert forall|u: u8| post.contains(u) == (pre.contains(u) || u == plan@[i as int]) by {
                if pre.contains(u) {
                    let j = choose|j: int| 0 <= j < pre.len() && pre[j] == u;
                    assert(post[j] == u);
                }
                if u == plan@[i as int] {
                    assert(post[pre.len() as int] == u);
                }
                if post.contains(u) {
                    let j = choose|j: int| 0 <= j < post.len() && post[j] == u;
                    if j < pre.len() {
                        assert(pre[j] == u);
                    }
                }
            }
        }
        i = i + 1;
    }
    proof {
        assert(plan@.subrange(0, plan@.len() as int) == plan@);
        assert forall|v: u8|
            cache.warm_seq()[v as int] == probe_warms(
                secret@,
                input@,
                len as int,
                status,
                v,
            ) by {
            lemma_touch_seq_contains(secret@, input@, len as int, v);
            if status == TransactionStatus::Aborted {
                assert(!plan@.contains(v));
            }
        }
    }
    plan
}

/// Law: a probe's outcome on the oracle cache is determined by its inputs
/// alone. Two runs with identical secret, input, length and transaction
/// outcome leave identical cache states, whatever state each started from —
/// the reset at the head of every run erases all history.
pub proof fn lemma_probe_idempotent(
    c1: OracleCache,
    c2: OracleCache,
    secret: Seq<u8>,
    input: Seq<u8>,
    n: int,
    status: TransactionStatus,
)
    requires
        c1.wf(),
        c2.wf(),
        forall|v: u8| c1.warm_seq()[v as int] == probe_warms(secret, input, n, status, v),
        forall|v: u8| c2.warm_seq()[v as int] == probe_warms(secret, input, n, status, v),
    ensures
        c1.warm_seq() == c2.warm_seq(),
{
    assert forall|i: int| 0 <= i < ORACLE_PAGES implies c1.warm_seq()[i] == c2.warm_seq()[i] by {
        let v = i as u8;
        assert(c1.warm_seq()[v as int] == probe_warms(secret, input, n, status, v));
        assert(c2.warm_seq()[v as int] == probe_warms(secret, input, n, status, v));
    }
    assert(c1.warm_seq() =~= c2.warm_seq());
}

} // verus!
