//! Keep-alive policies of resident models, and the decode leases that hold a
//! model in memory while a generation runs.

use std::collections::HashMap;
use vstd::prelude::*;

use crate::text::{chars_of, digit_run, is_number, lemma_digits_then, number_of, run_value};

verus! {

broadcast use vstd::std_specs::hash::group_hash_axioms;

/// The idle period of a model when neither a request nor a flag names one:
/// fifteen minutes.
pub const DEFAULT_IDLE_MS: u64 = 900_000;

/// How long a resident model stays loaded without requests.
#[derive(Debug, Clone, Copy, PartialEq, Eq, Structural)]
pub enum KeepAlivePolicy {
    /// Never unload on idleness.
    Pin,
    /// Unload after this many idle milliseconds.
    Idle(u64),
}

impl KeepAlivePolicy {
    pub open spec fn ttl_ms(self) -> Option<u64> {
        match self {
            KeepAlivePolicy::Pin => None,
            KeepAlivePolicy::Idle(ms) => Some(ms),
        }
    }

    pub open spec fn ttl_secs(self) -> u64 {
        match self {
            KeepAlivePolicy::Pin => 0,
            KeepAlivePolicy::Idle(ms) => ms / 1000,
        }
    }

    /// The idle period in milliseconds; `None` when the model is pinned.
    pub fn ttl(self) -> (r: Option<u64>)
        ensures
            r == self.ttl_ms(),
    {
        match self {
            KeepAlivePolicy::Pin => None,
            KeepAlivePolicy::Idle(ms) => Some(ms),
        }
    }

    /// The idle period in whole seconds, zero when the model is pinned.
    pub fn ttl_secs_for_log(self) -> (r: u64)
        ensures
            r == self.ttl_secs(),
    {
        match self {
            KeepAlivePolicy::Pin => 0,
            KeepAlivePolicy::Idle(ms) => ms / 1000,
        }
    }

    /// The policy in force: the request's, else the flag's, else the default.
    pub fn resolve(request: Option<KeepAlivePolicy>, flag: Option<KeepAlivePolicy>) -> (r:
        KeepAlivePolicy)
        ensures
            r == (match (request, flag) {
                (Some(p), _) => p,
                (None, Some(p)) => p,
                (None, None) => KeepAlivePolicy::Idle(DEFAULT_IDLE_MS),
            }),
    {
        match request {
            Some(p) => p,
            None => match flag {
                Some(p) => p,
                None => KeepAlivePolicy::Idle(DEFAULT_IDLE_MS),
            },
        }
    }
}

/// Why a keep-alive duration was not understood.
#[derive(Debug, Clone, Copy, PartialEq, Eq, Structural)]
pub enum DurationSpecError {
    /// There is no number where one is expected.
    NoNumber,
    /// What follows the number is not one of `s`, `m` and `h`.
    BadUnit,
    /// The duration is too long to be counted in milliseconds.
    TooLong,
}

/// The seconds that a duration unit stands for; nothing behind the number
/// means seconds.
pub open spec fn unit_secs(unit: Seq<char>) -> Option<nat> {
    if unit.len() == 0 {
        Some(1)
    } else if unit.len() > 1 {
        None
    } else if unit[0] == 's' {
        Some(1)
    } else if unit[0] == 'm' {
        Some(60)
    } else if unit[0] == 'h' {
        Some(3600)
    } else {
        None
    }
}

/// What a keep-alive text says: an optional minus sign, a whole number and a
/// unit. A negative duration pins the model, zero unloads it at once.
pub open spec fn duration_spec(s: Seq<char>) -> Result<KeepAlivePolicy, DurationSpecError> {
    let negative = s.len() > 0 && s[0] == '-';
    let body = if negative {
        s.skip(1)
    } else {
        s
    };
    let n = digit_run(body, 0);
    let ms = run_value(body, n) * unit_secs(body.skip(n)).unwrap_or(0) * 1000;
    if n == 0 {
        Err(DurationSpecError::NoNumber)
    } else if unit_secs(body.skip(n)) is None {
        Err(DurationSpecError::BadUnit)
    } else if negative && run_value(body, n) > 0 {
        Ok(KeepAlivePolicy::Pin)
    } else if ms > u64::MAX {
        Err(DurationSpecError::TooLong)
    } else {
        Ok(KeepAlivePolicy::Idle(ms as u64))
    }
}

/// Reads a keep-alive duration: seconds (`30`), or a number with a unit
/// (`30s`, `15m`, `2h`). A negative number pins the model.
pub fn parse_duration_spec(s: &str) -> (r: Result<KeepAlivePolicy, DurationSpecError>)
    ensures
        r == duration_spec(s@),
{
    let cs: Vec<char> = chars_of(s);
    let negative: bool = cs.len() > 0 && cs[0] == '-';
    let start: usize = if negative {
        1
    } else {
        0
    };
    let ghost body = if negative {
        s@.skip(1)
    } else {
        s@
    };
    let cap: u128 = 0x1_0000_0000_0000_0000;
    let mut i: usize = start;
    let mut acc: u128 = 0;
    while i < cs.len() && '0' <= cs[i] && cs[i] <= '9'
        invariant
            start <= i <= cs.len(),
            cap == 0x1_0000_0000_0000_0000,
            body.len() == cs.len() - start,
            forall|j: int| 0 <= j < body.len() ==> body[j] == cs@[j + start],
            digit_run(body, 0) == digit_run(body, i - start),
            acc < cap ==> acc == run_value(body, i - start),
            acc >= cap ==> acc == cap && run_value(body, i - start) >= cap,
        decreases cs.len() - i,
    {
        assert(body[i - start] == cs@[i as int]);
        let d: u128 = (cs[i] as u32 - 48) as u128;
        let next: u128 = acc * 10 + d;
        acc = if next < cap {
            next
        } else {
            cap
        };
        i += 1;
    }
    let ghost n = i - start;
    proof {
        if i < cs.len() {
            assert(body[n] == cs@[i as int]);
        }
        assert(digit_run(body, 0) == n);
    }
    if i == start {
        return Err(DurationSpecError::NoNumber);
    }
    let ghost unit = body.skip(n);
    assert(unit.len() == cs.len() - i);
    assert(unit.len() > 0 ==> unit[0] == cs@[i as int]);
    let secs: u128 = if i == cs.len() {
        1
    } else if i + 1 < cs.len() {
        return Err(DurationSpecError::BadUnit);
    } else if cs[i] == 's' {
        1
    } else if cs[i] == 'm' {
        60
    } else if cs[i] == 'h' {
        3600
    } else {
        return Err(DurationSpecError::BadUnit);
    };
    if negative && acc > 0 {
        return Ok(KeepAlivePolicy::Pin);
    }
    let ms: u128 = acc * secs * 1000;
    proof {
        let v = run_value(body, n);
        let u = unit_secs(unit).unwrap_or(0);
        assert(u == secs);
        if acc >= cap {
            assert(v * u * 1000 >= cap) by (nonlinear_arith)
                requires
                    v >= cap,
                    u >= 1,
            ;
        } else {
            assert(v * u * 1000 == ms);
        }
    }
    if ms > 0xffff_ffff_ffff_ffff {
        return Err(DurationSpecError::TooLong);
    }
    Ok(KeepAlivePolicy::Idle(ms as u64))
}

/// The identity of a lease counter. Every reset of a model's keep-alive timer
/// gives the model a lease with a new identity.
#[derive(Debug, Clone, Copy, PartialEq, Eq, Structural)]
pub struct DecodeLease {
    pub id: u64,
}

/// A unit of decode work that is counted by the lease it names until it is
/// handed back.
#[derive(Debug, PartialEq, Eq)]
pub struct DecodeLeaseGuard {
    pub lease: DecodeLease,
}

/// The counters of all leases. A lease that nobody holds has no entry.
pub struct LeaseTable {
    issued: u64,
    active: HashMap<u64, usize>,
}

/// What a [`LeaseTable`] stands for: how many leases were issued, and how
/// often each is held.
pub struct LeaseModel {
    pub issued: nat,
    pub held: Map<u64, usize>,
}

impl LeaseModel {
    /// How many units of work hold the lease.
    pub open spec fn count(self, lease: DecodeLease) -> nat {
        if self.held.contains_key(lease.id) {
            self.held[lease.id] as nat
        } else {
            0
        }
    }

    /// Only issued leases are held, and an entry stands for at least one unit.
    pub open spec fn wf(self) -> bool {
        &&& self.issued <= u64::MAX
        &&& forall|id: u64| #[trigger]
            self.held.contains_key(id) ==> id < self.issued && self.held[id] > 0
    }

    /// The table after one more lease was issued.
    pub open spec fn issue(self) -> LeaseModel {
        LeaseModel { issued: self.issued + 1, ..self }
    }

    /// The table after one more unit of work took the lease.
    pub open spec fn acquire(self, lease: DecodeLease) -> LeaseModel {
        LeaseModel { held: self.held.insert(lease.id, (self.count(lease) + 1) as usize), ..self }
    }

    /// The table after one unit of work gave the lease back.
    pub open spec fn release(self, lease: DecodeLease) -> LeaseModel {
        LeaseModel {
            held: if self.count(lease) <= 1 {
                self.held.remove(lease.id)
            } else {
                self.held.insert(lease.id, (self.count(lease) - 1) as usize)
            },
            ..self
        }
    }
}

impl View for LeaseTable {
    type V = LeaseModel;

    closed spec fn view(&self) -> LeaseModel {
        LeaseModel { issued: self.issued as nat, held: self.active@ }
    }
}

impl LeaseTable {
    /// A table with no lease issued.
    pub fn new() -> (r: LeaseTable)
        ensures
            r@ == (LeaseModel { issued: 0, held: Map::<u64, usize>::empty() }),
            r@.wf(),
    {
        let r = LeaseTable { issued: 0, active: HashMap::new() };
        assert(r@.held =~= Map::<u64, usize>::empty());
        r
    }

    /// Whether one more lease can be issued.
    pub fn can_issue(&self) -> (r: bool)
        ensures
            r == (self@.issued < u64::MAX),
    {
        self.issued < u64::MAX
    }

    /// Issues a lease with an identity that no earlier lease has.
    pub fn fresh(&mut self) -> (r: DecodeLease)
        requires
            old(self)@.wf(),
            old(self)@.issued < u64::MAX,
        ensures
            r.id == old(self)@.issued,
            final(self)@ == old(self)@.issue(),
            final(self)@.wf(),
    {
        let id: u64 = self.issued;
        self.issued = id + 1;
        DecodeLease { id }
    }

    /// How many units of work hold the lease.
    pub fn count(&self, lease: DecodeLease) -> (r: usize)
        ensures
            r as nat == self@.count(lease),
    {
        match self.active.get(&lease.id) {
            Some(n) => *n,
            None => 0,
        }
    }

    /// Counts one more unit of work under the lease.
    pub fn acquire(&mut self, lease: DecodeLease) -> (r: DecodeLeaseGuard)
        requires
            old(self)@.wf(),
            lease.id < old(self)@.issued,
            old(self)@.count(lease) < usize::MAX,
        ensures
            r.lease == lease,
            final(self)@ == old(self)@.acquire(lease),
            final(self)@.wf(),
    {
        let n: usize = self.count(lease);
        self.active.insert(lease.id, n + 1);
        DecodeLeaseGuard { lease }
    }

    /// Hands a unit of work back.
    pub fn release(&mut self, guard: DecodeLeaseGuard)
        requires
            old(self)@.wf(),
            old(self)@.count(guard.lease) > 0,
        ensures
            final(self)@ == old(self)@.release(guard.lease),
            final(self)@.wf(),
    {
        let n: usize = self.count(guard.lease);
        if n <= 1 {
            self.active.remove(&guard.lease.id);
        } else {
            self.active.insert(guard.lease.id, n - 1);
        }
    }
}

/// A lease that was taken and handed back is held as often as before, and no
/// other lease is touched by either step.
pub proof fn acquire_then_release_restores(m: LeaseModel, lease: DecodeLease)
    requires
        m.wf(),
        m.count(lease) < usize::MAX,
    ensures
        m.acquire(lease).release(lease) == m,
        m.acquire(lease).count(lease) == m.count(lease) + 1,
        forall|other: DecodeLease|
            other.id != lease.id ==> #[trigger] m.acquire(lease).count(other) == m.count(other),
{
    assert(m.acquire(lease).release(lease).held =~= m.held);
}

/// The seconds of a unit of time.
pub open spec fn seconds_in(unit: Seq<char>) -> nat {
    if unit == seq!['h'] {
        3600
    } else if unit == seq!['m'] {
        60
    } else {
        1
    }
}

/// Whether a text is one of the units, or no unit at all.
pub open spec fn is_unit(unit: Seq<char>) -> bool {
    unit.len() == 0 || unit == seq!['s'] || unit == seq!['m'] || unit == seq!['h']
}

proof fn lemma_unit(unit: Seq<char>)
    ensures
        is_unit(unit) == (unit_secs(unit) is Some),
        is_unit(unit) ==> unit_secs(unit) == Some(seconds_in(unit)),
{
    if unit.len() == 1 {
        assert(unit =~= seq![unit[0]]);
    }
    if unit.len() == 0 {
        assert(unit != seq!['h'] && unit != seq!['m']);
    }
    assert(seq!['h'][0] == 'h' && seq!['m'][0] == 'm' && seq!['s'][0] == 's');
}

/// A number with a unit is the idle time that it names, in milliseconds: seconds where
/// there is no unit. A negative one pins the model; minus zero is zero.
pub proof fn a_duration_is_its_number_of_units(
    s: &str,
    r: Result<KeepAlivePolicy, DurationSpecError>,
    negative: bool,
    digits: Seq<char>,
    unit: Seq<char>,
)
    requires
        is_number(digits),
        is_unit(unit),
        s@ == (if negative {
            seq!['-'] + (digits + unit)
        } else {
            digits + unit
        }),
        call_ensures(parse_duration_spec, (s,), r),
    ensures
        negative && number_of(digits) > 0 ==> r == Ok::<KeepAlivePolicy, DurationSpecError>(
            KeepAlivePolicy::Pin,
        ),
        (!negative || number_of(digits) == 0) && number_of(digits) * seconds_in(unit) * 1000
            <= u64::MAX ==> r == Ok::<KeepAlivePolicy, DurationSpecError>(
            KeepAlivePolicy::Idle((number_of(digits) * seconds_in(unit) * 1000) as u64),
        ),
        (!negative || number_of(digits) == 0) && number_of(digits) * seconds_in(unit) * 1000
            > u64::MAX ==> r == Err::<KeepAlivePolicy, DurationSpecError>(
            DurationSpecError::TooLong,
        ),
{
    let body = digits + unit;
    lemma_unit(unit);
    assert('0' <= digits[0] <= '9');
    assert(body[0] == digits[0]);
    if negative {
        assert(s@.skip(1) =~= body);
    }
    lemma_digits_then(digits, unit, 0);
    assert(body.skip(digits.len() as int) =~= unit);
}

/// A duration without a number, or with anything but a unit behind it, is refused.
pub proof fn a_duration_needs_a_number_and_a_unit(
    s: &str,
    r: Result<KeepAlivePolicy, DurationSpecError>,
    negative: bool,
    digits: Seq<char>,
    rest: Seq<char>,
)
    requires
        is_number(digits) || digits.len() == 0,
        rest.len() == 0 || !('0' <= rest[0] <= '9'),
        negative || digits.len() > 0 || rest.len() == 0 || rest[0] != '-',
        s@ == (if negative {
            seq!['-'] + (digits + rest)
        } else {
            digits + rest
        }),
        call_ensures(parse_duration_spec, (s,), r),
    ensures
        digits.len() == 0 ==> r == Err::<KeepAlivePolicy, DurationSpecError>(
            DurationSpecError::NoNumber,
        ),
        digits.len() > 0 && !is_unit(rest) ==> r == Err::<KeepAlivePolicy, DurationSpecError>(
            DurationSpecError::BadUnit,
        ),
{
    let body = digits + rest;
    lemma_unit(rest);
    if digits.len() > 0 {
        assert('0' <= digits[0] <= '9');
        assert(body[0] == digits[0]);
    } else if rest.len() > 0 {
        assert(body[0] == rest[0]);
    }
    if negative {
        assert(s@.skip(1) =~= body);
    }
    lemma_digits_then(digits, rest, 0);
    assert(body.skip(digits.len() as int) =~= rest);
}

/// The request's policy wins over the flag's, and the flag's over the default of fifteen
/// minutes.
pub proof fn the_nearest_policy_decides(
    request: Option<KeepAlivePolicy>,
    flag: Option<KeepAlivePolicy>,
    r: KeepAlivePolicy,
)
    requires
        call_ensures(KeepAlivePolicy::resolve, (request, flag), r),
    ensures
        request is Some ==> r == request->0,
        request is None && flag is Some ==> r == flag->0,
        request is None && flag is None ==> r == KeepAlivePolicy::Idle(900_000),
{
}

/// Only a pinned model has no idle time; any other has its own, shown in whole seconds.
pub proof fn only_a_pinned_model_has_no_idle_time(p: KeepAlivePolicy, ttl: Option<u64>, secs: u64)
    requires
        call_ensures(KeepAlivePolicy::ttl, (p,), ttl),
        call_ensures(KeepAlivePolicy::ttl_secs_for_log, (p,), secs),
    ensures
        p is Pin ==> ttl is None && secs == 0,
        p matches KeepAlivePolicy::Idle(ms) ==> ttl == Some(ms) && secs * 1000 <= ms < secs * 1000
            + 1000,
{
}

/// A lease that is issued is none of those before, and nobody holds it.
pub proof fn a_fresh_lease_is_new(t: &mut LeaseTable, r: DecodeLease)
    requires
        old(t)@.wf(),
        call_ensures(LeaseTable::fresh, (t,), r),
    ensures
        r.id == old(t)@.issued,
        final(t)@.issued == old(t)@.issued + 1,
        !old(t)@.held.contains_key(r.id),
        final(t)@.held == old(t)@.held,
{
}

} // verus!
