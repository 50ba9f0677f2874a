//! Latency samples and the limits of a request's length.

use std::collections::VecDeque;
use vstd::prelude::*;

use crate::serve_config::MAX_COMPLETION_TOKENS;

verus! {

/// The most time-to-first-token samples that are kept.
pub const TTFT_RING_CAPACITY: usize = 20;

/// The time from a request to its first token.
#[derive(Debug)]
pub struct TtftSample {
    pub model_id: String,
    pub ttft_ms: u64,
}

/// The latest samples over all models, oldest first.
pub struct TtftStore {
    samples: VecDeque<TtftSample>,
}

/// The last items of a list, at most as many as are kept.
pub open spec fn latest<T>(s: Seq<T>, cap: nat) -> Seq<T> {
    if s.len() <= cap {
        s
    } else {
        s.skip(s.len() - cap)
    }
}

impl View for TtftStore {
    type V = Seq<TtftSample>;

    closed spec fn view(&self) -> Seq<TtftSample> {
        self.samples@
    }
}

impl TtftStore {
    #[verifier::type_invariant]
    spec fn bounded(&self) -> bool {
        self.samples@.len() <= TTFT_RING_CAPACITY
    }

    /// No samples.
    pub fn new() -> (r: TtftStore)
        ensures
            r@ == Seq::<TtftSample>::empty(),
    {
        TtftStore { samples: VecDeque::new() }
    }

    /// The number of samples.
    pub fn len(&self) -> (r: usize)
        ensures
            r == self@.len(),
    {
        self.samples.len()
    }

    /// The sample at a position, the oldest at zero.
    pub fn at(&self, i: usize) -> (r: &TtftSample)
        requires
            i < self@.len(),
        ensures
            *r == self@[i as int],
    {
        &self.samples[i]
    }

    /// Adds a sample. Where the ring is full, the oldest one leaves.
    pub fn record(&mut self, sample: TtftSample)
        ensures
            final(self)@ == latest(old(self)@.push(sample), TTFT_RING_CAPACITY as nat),
            final(self)@.len() <= TTFT_RING_CAPACITY,
    {
        proof {
            use_type_invariant(&*self);
        }
        let ghost before = self.samples@;
        let mut samples: VecDeque<TtftSample> = VecDeque::new();
        std::mem::swap(&mut samples, &mut self.samples);
        if samples.len() >= TTFT_RING_CAPACITY {
            samples.pop_front();
        }
        samples.push_back(sample);
        self.samples = samples;
        assert(self@ =~= latest(before.push(sample), TTFT_RING_CAPACITY as nat));
    }
}

/// A ring that took in samples in turn holds the latest of them: taking in one
/// more is the same as keeping the latest of the longer list.
pub proof fn ring_keeps_the_latest(all: Seq<TtftSample>, sample: TtftSample, cap: nat)
    requires
        cap > 0,
    ensures
        latest(latest(all, cap).push(sample), cap) == latest(all.push(sample), cap),
{
    assert(latest(latest(all, cap).push(sample), cap) =~= latest(all.push(sample), cap));
}

/// The rank of a percentile among `n` values: the least rank at which at least `p`
/// per cent of the values are reached, between the first and the last one.
pub open spec fn nearest_rank(n: nat, p: nat) -> nat {
    let rank = (p * n + 99) / 100;
    if rank < 1 {
        1
    } else if rank > n {
        n
    } else {
        rank
    }
}

/// The percentile of values in ascending order, by the nearest rank; zero where
/// there are none.
pub fn percentile_u64(sorted: &[u64], p: u64) -> (r: u64)
    ensures
        r == (if sorted@.len() == 0 {
            0
        } else {
            sorted@[nearest_rank(sorted@.len(), p as nat) - 1]
        }),
{
    let n: usize = sorted.len();
    if n == 0 {
        return 0;
    }
    proof {
        assert(p as u128 * n as u128 <= 0xffff_ffff_ffff_ffffu128 * 0xffff_ffff_ffff_ffffu128)
            by (nonlinear_arith)
            requires
                p <= 0xffff_ffff_ffff_ffff,
                n <= 0xffff_ffff_ffff_ffff,
        ;
    }
    let rank: u128 = (p as u128 * n as u128 + 99) / 100;
    proof {
        assert(p as u128 * n as u128 == p as nat * n as nat) by (nonlinear_arith);
    }
    let i: usize = if rank < 1 {
        0
    } else if rank > n as u128 {
        n - 1
    } else {
        (rank - 1) as usize
    };
    sorted[i]
}

/// The nearest rank reaches `p` per cent of the values, and one rank less does
/// not.
pub proof fn nearest_rank_is_least(n: nat, p: nat)
    requires
        n > 0,
        p <= 100,
    ensures
        1 <= nearest_rank(n, p) <= n,
        nearest_rank(n, p) * 100 >= p * n,
        nearest_rank(n, p) > 1 ==> (nearest_rank(n, p) - 1) * 100 < p * n,
{
    assert(p * n <= 100 * n) by (nonlinear_arith)
        requires
            p <= 100,
    ;
}

/// Why a request's `max_tokens` is refused: it asks for more than the ceiling.
#[derive(Debug, Clone, Copy, PartialEq, Eq, Structural)]
pub struct MaxTokensRefusal {
    pub requested: u32,
    pub ceiling: u32,
}

/// The most tokens that a request may ask for: the operator's cap, but never more
/// than the structural ceiling.
pub open spec fn token_ceiling(cap: u32) -> u32 {
    if cap < MAX_COMPLETION_TOKENS {
        cap
    } else {
        MAX_COMPLETION_TOKENS
    }
}

/// Refuses a `max_tokens` above the ceiling. It is answered with status 400, never
/// clamped.
pub fn enforce_max_tokens_cap(requested: u32, cap: u32) -> (r: Result<(), MaxTokensRefusal>)
    ensures
        requested <= token_ceiling(cap) ==> r is Ok,
        requested > token_ceiling(cap) ==> r == Err::<(), MaxTokensRefusal>(
            MaxTokensRefusal { requested, ceiling: token_ceiling(cap) },
        ),
{
    let ceiling: u32 = if cap < MAX_COMPLETION_TOKENS {
        cap
    } else {
        MAX_COMPLETION_TOKENS
    };
    if requested > ceiling {
        Err(MaxTokensRefusal { requested, ceiling })
    } else {
        Ok(())
    }
}

/// A sample that is recorded is the latest one. The others stay in their order, and only
/// where the ring is full the oldest leaves.
pub proof fn a_sample_joins_the_ring(t: &mut TtftStore, sample: TtftSample)
    requires
        old(t)@.len() <= 20,
        call_ensures(TtftStore::record, (t, sample), ()),
    ensures
        final(t)@.len() > 0,
        final(t)@.last() == sample,
        old(t)@.len() < 20 ==> final(t)@.drop_last() == old(t)@,
        old(t)@.len() == 20 ==> final(t)@.drop_last() == old(t)@.skip(1),
{
    let before = old(t)@;
    if before.len() < 20 {
        assert(final(t)@.drop_last() =~= before);
    } else {
        assert(final(t)@.drop_last() =~= before.skip(1));
    }
}

/// A percentile of some values is one of them: at least that share of the values is not
/// above it, and where it is not the first one, fewer than that share stand before it.
pub proof fn a_percentile_reaches_its_share(sorted: &[u64], p: u64, r: u64, at: int)
    requires
        0 < sorted@.len(),
        p <= 100,
        call_ensures(percentile_u64, (sorted, p), r),
        0 <= at < sorted@.len(),
        (at + 1) * 100 >= p * sorted@.len(),
        at == 0 || at * 100 < p * sorted@.len(),
    ensures
        r == sorted@[at],
{
    nearest_rank_is_least(sorted@.len(), p as nat);
    let n = sorted@.len() as int;
    let k = nearest_rank(sorted@.len(), p as nat) as int;
    if k - 1 < at {
        assert(k * 100 <= at * 100);
    } else if at < k - 1 {
        assert((at + 1) * 100 <= (k - 1) * 100);
    }
}

/// There is no percentile of no values: zero stands for it.
pub proof fn no_values_have_no_percentile(sorted: &[u64], p: u64, r: u64)
    requires
        sorted@.len() == 0,
        call_ensures(percentile_u64, (sorted, p), r),
    ensures
        r == 0,
{
}

/// A request may ask for as many tokens as the operator allows, and for no more than
/// 1048576 in any case. A refusal tells what was asked for and what is the most.
pub proof fn a_request_stays_below_both_limits(
    requested: u32,
    cap: u32,
    r: Result<(), MaxTokensRefusal>,
)
    requires
        call_ensures(enforce_max_tokens_cap, (requested, cap), r),
    ensures
        r is Ok <==> requested <= cap && requested <= 1_048_576,
        r is Err ==> r->Err_0.requested == requested && r->Err_0.ceiling < requested && (
        r->Err_0.ceiling == cap || r->Err_0.ceiling == 1_048_576) && r->Err_0.ceiling <= cap
            && r->Err_0.ceiling <= 1_048_576,
{
}

/// From a hundred per cent on, the percentile is the largest value.
pub proof fn the_whole_share_reaches_the_last_value(sorted: &[u64], p: u64, r: u64)
    requires
        0 < sorted@.len(),
        p >= 100,
        call_ensures(percentile_u64, (sorted, p), r),
    ensures
        r == sorted@.last(),
{
    let n = sorted@.len();
    assert(p as nat * n >= 100 * n) by (nonlinear_arith)
        requires
            p >= 100,
    ;
}

} // verus!
