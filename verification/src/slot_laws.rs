//! What the operations on the slots do, as a caller sees it: which models are resident
//! before and after a call, when they were used, and what their timers were told.

use vstd::prelude::*;

use crate::errors::{Error, ErrorModel};
use crate::keep_alive::{DecodeLease, DecodeLeaseGuard, KeepAlivePolicy};
use crate::load::Ready;
use crate::registry::ModelEntry;
use crate::session_cache::SessionModel;
use crate::state::{
    lru_slot, lru_slot_is_least_recent, slot_of, slot_of_is_first, AppState, FireOutcome, LoadEnd,
    LoadStep, LoadedGenerator, LoadedModel, SmokeVerdict, UnloadReason, Unloaded,
};
use crate::timers::{TimerCommand, UnloadHandle};

verus! {

/// Whether two slots hold the same in every respect.
pub open spec fn alike(a: LoadedModel, b: LoadedModel) -> bool {
    &&& a.id@ == b.id@
    &&& a.model == b.model
    &&& a.loaded_at == b.loaded_at
    &&& a.last_used == b.last_used
    &&& a.effective_max_ctx == b.effective_max_ctx
    &&& a.context_limits == b.context_limits
    &&& a.decode_lease == b.decode_lease
    &&& a.unload_handle == b.unload_handle
    &&& a.keep_alive == b.keep_alive
}

/// Whether some slot holds the model.
pub open spec fn holds(slots: Seq<LoadedModel>, id: Seq<char>) -> bool {
    exists|k: int| 0 <= k < slots.len() && (#[trigger] slots[k]).id@ == id
}

/// Whether the model is one that the server knows.
pub open spec fn knows(s: AppState, id: Seq<char>) -> bool {
    exists|k: int| 0 <= k < s.registry@.len() && (#[trigger] s.registry@[k]).id == id
}

/// Whether no model has two slots, every lease and handle in a slot was given out, and
/// more can be given out.
pub open spec fn sound(s: AppState) -> bool {
    &&& forall|i: int, j: int|
        0 <= i < j < s.slots@.len() ==> (#[trigger] s.slots@[i]).id@ != (#[trigger] s.slots@[j]).id@
    &&& forall|i: int|
        0 <= i < s.slots@.len() ==> (#[trigger] s.slots@[i]).decode_lease.id < s@.leases.issued
            && s.slots@[i].unload_handle.id < s@.timers.handles
    &&& s@.leases.issued < u64::MAX
    &&& s@.timers.handles < u64::MAX
    &&& s@.timers.tokens < u64::MAX
}

/// Whether the slots are the same, one by one.
pub open spec fn same_slots(before: Seq<LoadedModel>, after: Seq<LoadedModel>) -> bool {
    &&& after.len() == before.len()
    &&& forall|j: int| 0 <= j < before.len() ==> alike(#[trigger] after[j], before[j])
}

/// Whether the settings and the registry are the same.
pub open spec fn same_setup(before: AppState, after: AppState) -> bool {
    &&& after.registry@ == before.registry@
    &&& after.max_loaded_models == before.max_loaded_models
    &&& after.idle_policy == before.idle_policy
    &&& after.require_smoke_probe == before.require_smoke_probe
    &&& after@.settings.auth_token == before@.settings.auth_token
}

/// Whether nothing changed at all.
pub open spec fn untouched(before: AppState, after: AppState) -> bool {
    &&& same_slots(before.slots@, after.slots@)
    &&& same_setup(before, after)
    &&& after.session_cache@ == before.session_cache@
    &&& after@.leases == before@.leases
    &&& after@.timers == before@.timers
}

/// Whether the timers of every handle but one are the same.
pub open spec fn other_timers_same(before: AppState, after: AppState, handle: UnloadHandle) -> bool {
    forall|h: u64|
        h != handle.id ==> {
            &&& #[trigger] after@.timers.armed.contains_key(h)
                == before@.timers.armed.contains_key(h)
            &&& before@.timers.armed.contains_key(h) ==> after@.timers.armed[h]
                == before@.timers.armed[h]
        }
}

/// Whether a token is what was armed under a handle.
pub open spec fn was_armed(s: AppState, handle: UnloadHandle, token: Option<u64>) -> bool {
    match token {
        Some(t) => s@.timers.armed.contains_key(handle.id) && s@.timers.armed[handle.id] == t,
        None => !s@.timers.armed.contains_key(handle.id),
    }
}

/// Whether a timer of the policy runs for the handle, in place of the one before: with
/// the policy's time and the lease. A pinned model has none. Without a runtime no timer
/// that is due can run, and none is touched.
pub open spec fn timer_runs(
    before: AppState,
    after: AppState,
    handle: UnloadHandle,
    lease: DecodeLease,
    policy: KeepAlivePolicy,
    runtime: bool,
    timer: TimerCommand,
) -> bool {
    &&& other_timers_same(before, after, handle)
    &&& match policy {
        KeepAlivePolicy::Pin => {
            &&& timer.start is None
            &&& was_armed(before, handle, timer.abort)
            &&& !after@.timers.armed.contains_key(handle.id)
        },
        KeepAlivePolicy::Idle(ms) => if runtime {
            &&& was_armed(before, handle, timer.abort)
            &&& timer.start matches Some(start)
            &&& start.ttl_ms == ms
            &&& start.ttl_secs == ms / 1000
            &&& start.lease == lease
            &&& start.token == before@.timers.tokens
            &&& after@.timers.tokens == before@.timers.tokens + 1
            &&& was_armed(after, handle, Some(start.token))
        } else {
            &&& timer.start is None
            &&& timer.abort is None
            &&& after@.timers.armed == before@.timers.armed
        },
    }
}

/// Whether slot `k` got a lease that no slot had, the given use time and policy, and its
/// timer, and everything else stayed.
pub open spec fn only_renews(
    before: AppState,
    after: AppState,
    k: int,
    last_used: u64,
    policy: KeepAlivePolicy,
    runtime: bool,
    timer: TimerCommand,
) -> bool {
    let old_slot = before.slots@[k];
    let slot = after.slots@[k];
    &&& after.slots@.len() == before.slots@.len()
    &&& forall|j: int|
        0 <= j < before.slots@.len() && j != k ==> alike(#[trigger] after.slots@[j], before.slots@[j])
    &&& slot.last_used == last_used
    &&& slot.keep_alive == policy
    &&& forall|j: int|
        0 <= j < before.slots@.len() ==> slot.decode_lease != (
        #[trigger] before.slots@[j]).decode_lease
    &&& slot.id@ == old_slot.id@
    &&& slot.model == old_slot.model
    &&& slot.loaded_at == old_slot.loaded_at
    &&& slot.effective_max_ctx == old_slot.effective_max_ctx
    &&& slot.context_limits == old_slot.context_limits
    &&& slot.unload_handle == old_slot.unload_handle
    &&& timer_runs(
        before,
        after,
        old_slot.unload_handle,
        slot.decode_lease,
        policy,
        runtime,
        timer,
    )
    &&& same_setup(before, after)
    &&& after.session_cache@ == before.session_cache@
    &&& after@.leases.held == before@.leases.held
    &&& slot.decode_lease.id < after@.leases.issued
    &&& before@.leases.issued <= slot.decode_lease.id
}

/// Whether every slot but `gone` is still there, and no other: in its place, but for the
/// last one, which fills the gap.
pub open spec fn only_leaves(before: Seq<LoadedModel>, gone: int, after: Seq<LoadedModel>) -> bool {
    &&& after.len() == before.len() - 1
    &&& forall|k: int|
        0 <= k < after.len() && k != gone ==> alike(#[trigger] after[k], before[k])
    &&& gone < after.len() ==> alike(after[gone], before.last())
}

/// Whether a session is still there exactly where it belongs to another model.
pub open spec fn sessions_leave(before: AppState, after: AppState, id: Seq<char>) -> bool {
    forall|s: SessionModel| #[trigger]
        after.session_cache@.contains(s) <==> before.session_cache@.contains(s) && s.model_id != id
}

/// Whether slot `v` was emptied, with its timer and its sessions, and nothing else
/// changed.
pub open spec fn only_unloads(
    before: AppState,
    after: AppState,
    v: int,
    reason: UnloadReason,
    u: Unloaded,
) -> bool {
    let slot = before.slots@[v];
    &&& alike(u.loaded, slot)
    &&& u.reason == reason
    &&& was_armed(before, slot.unload_handle, u.abort)
    &&& only_leaves(before.slots@, v, after.slots@)
    &&& !holds(after.slots@, slot.id@)
    &&& !after@.timers.armed.contains_key(slot.unload_handle.id)
    &&& other_timers_same(before, after, slot.unload_handle)
    &&& sessions_leave(before, after, slot.id@)
    &&& same_setup(before, after)
    &&& after@.leases == before@.leases
}

/// Whether slot `v` was used before every slot to its left, and no later than any.
pub open spec fn least_recent(slots: Seq<LoadedModel>, v: int) -> bool {
    &&& 0 <= v < slots.len()
    &&& forall|j: int| 0 <= j < slots.len() ==> slots[v].last_used <= (#[trigger] slots[j]).last_used
    &&& forall|j: int| 0 <= j < v ==> slots[v].last_used < (#[trigger] slots[j]).last_used
}

/// Whether the slots are full.
pub open spec fn full(s: AppState) -> bool {
    s.slots@.len() > 0 && s.slots@.len() >= s.max_loaded_models
}

/// Whether room was made among the slots: the least recently used model left where they
/// were full, and none where they were not.
pub open spec fn room_made(
    before: AppState,
    after: Seq<LoadedModel>,
    evicted: Option<Unloaded>,
) -> bool {
    match evicted {
        None => !full(before) && same_slots(before.slots@, after),
        Some(u) => {
            &&& full(before)
            &&& u.reason == UnloadReason::CooperativeEvict
            &&& exists|v: int| #[trigger]
                least_recent(before.slots@, v) && alike(u.loaded, before.slots@[v]) && only_leaves(
                    before.slots@,
                    v,
                    after,
                )
        },
    }
}

/// Whether a slot is what a model that was loaded just now gets.
pub open spec fn is_new(
    slot: LoadedModel,
    id: Seq<char>,
    now: u64,
    g: LoadedGenerator,
    policy: KeepAlivePolicy,
) -> bool {
    &&& slot.id@ == id
    &&& slot.model == g.model
    &&& slot.loaded_at == now
    &&& slot.last_used == now
    &&& slot.effective_max_ctx == g.effective_max_ctx
    &&& slot.context_limits == g.context_limits
    &&& slot.keep_alive == policy
}

proof fn lemma_at(s: AppState, id: Seq<char>, k: int)
    requires
        sound(s),
        0 <= k < s.slots@.len(),
        s.slots@[k].id@ == id,
    ensures
        slot_of(s@.slots, id) == k,
        s@.resident(id),
{
    slot_of_is_first(s@.slots, id);
    let i = slot_of(s@.slots, id);
    assert(s@.slots[k] == s.slots@[k]@);
    if i < k {
        assert(s@.slots[i] == s.slots@[i]@);
        assert(s.slots@[i].id@ != s.slots@[k].id@);
    }
}

proof fn lemma_absent(s: AppState, id: Seq<char>)
    requires
        !holds(s.slots@, id),
    ensures
        !s@.resident(id),
{
    slot_of_is_first(s@.slots, id);
    let i = slot_of(s@.slots, id);
    if i < s@.slots.len() {
        assert(s@.slots[i] == s.slots@[i]@);
    }
}

proof fn lemma_same(before: AppState, after: AppState)
    requires
        after@ == before@,
    ensures
        untouched(before, after),
{
    assert(after.slots@.len() == after@.slots.len());
    assert(before.slots@.len() == before@.slots.len());
    assert forall|j: int| 0 <= j < before.slots@.len() implies alike(
        #[trigger] after.slots@[j],
        before.slots@[j],
    ) by {
        assert(after@.slots[j] == after.slots@[j]@);
        assert(before@.slots[j] == before.slots@[j]@);
    }
}

proof fn lemma_renewed(
    before: AppState,
    after: AppState,
    k: int,
    last_used: u64,
    policy: KeepAlivePolicy,
    runtime: bool,
)
    requires
        sound(before),
        0 <= k < before.slots@.len(),
        after@ == before@.renew(k, last_used, policy, runtime),
    ensures
        only_renews(
            before,
            after,
            k,
            last_used,
            policy,
            runtime,
            before@.renew_command(k, policy, runtime),
        ),
{
    assert(after@.slots.len() == after.slots@.len());
    assert(before@.slots.len() == before.slots@.len());
    assert forall|j: int| 0 <= j < before.slots@.len() && j != k implies alike(
        #[trigger] after.slots@[j],
        before.slots@[j],
    ) by {
        assert(after@.slots[j] == after.slots@[j]@);
        assert(before@.slots[j] == before.slots@[j]@);
    }
    assert(after@.slots[k] == after.slots@[k]@);
    assert(before@.slots[k] == before.slots@[k]@);
}

proof fn lemma_left(before: Seq<LoadedModel>, v: int, after: Seq<LoadedModel>)
    requires
        0 <= v < before.len(),
        after.len() == before.len() - 1,
        forall|k: int|
            0 <= k < after.len() ==> (#[trigger] after[k])@ == before[if k == v {
                before.len() - 1
            } else {
                k
            }]@,
    ensures
        only_leaves(before, v, after),
{
    assert forall|k: int| 0 <= k < after.len() && k != v implies alike(
        #[trigger] after[k],
        before[k],
    ) by {
        assert(after[k]@ == before[k]@);
    }
    if v < after.len() {
        assert(after[v]@ == before.last()@);
    }
}

proof fn lemma_dropped(before: AppState, after: AppState, v: int, reason: UnloadReason, u: Unloaded)
    requires
        sound(before),
        0 <= v < before.slots@.len(),
        after@ == before@.drop_slot(v),
        u.loaded@ == before@.slots[v],
        u.reason == reason,
        u.abort == before@.timers.token(before@.slots[v].unload_handle),
    ensures
        only_unloads(before, after, v, reason, u),
{
    assert(before@.slots[v] == before.slots@[v]@);
    assert(after@.slots.len() == after.slots@.len());
    assert(before@.slots.len() == before.slots@.len());
    assert forall|k: int| 0 <= k < after.slots@.len() implies (#[trigger] after.slots@[k])@
        == before.slots@[if k == v {
        before.slots@.len() - 1
    } else {
        k
    }]@ by {
        assert(after@.slots[k] == after.slots@[k]@);
    }
    lemma_left(before.slots@, v, after.slots@);
    if holds(after.slots@, before.slots@[v].id@) {
        let k = choose|k: int|
            0 <= k < after.slots@.len() && (#[trigger] after.slots@[k]).id@ == before.slots@[v].id@;
        let j = if k == v {
            before.slots@.len() - 1
        } else {
            k
        };
        assert(after.slots@[k]@ == before.slots@[j]@);
        if j < v {
            assert(before.slots@[j].id@ != before.slots@[v].id@);
        } else {
            assert(before.slots@[v].id@ != before.slots@[j].id@);
        }
    }
    assert forall|s: SessionModel| #[trigger]
        after.session_cache@.contains(s) <==> before.session_cache@.contains(s) && s.model_id
            != before.slots@[v].id@ by {
        crate::lifecycle_laws::unload_clears_the_sessions(before@, v, s);
    }
}

proof fn lemma_room(before: AppState, after: Seq<LoadedModel>, evicted: Option<Unloaded>)
    requires
        before@.eviction(evicted),
        after.len() == before@.make_room().slots.len(),
        forall|k: int| 0 <= k < after.len() ==> (#[trigger] after[k])@ == before@.make_room().slots[k],
    ensures
        room_made(before, after, evicted),
{
    assert(before@.slots.len() == before.slots@.len());
    match evicted {
        None => {
            assert forall|j: int| 0 <= j < before.slots@.len() implies alike(
                #[trigger] after[j],
                before.slots@[j],
            ) by {
                assert(before@.slots[j] == before.slots@[j]@);
            }
        },
        Some(u) => {
            let v = lru_slot(before@.slots);
            lru_slot_is_least_recent(before@.slots);
            assert(before@.slots[v] == before.slots@[v]@);
            assert forall|j: int| 0 <= j < before.slots@.len() implies before.slots@[v].last_used <= (
            #[trigger] before.slots@[j]).last_used by {
                assert(before@.slots[j] == before.slots@[j]@);
            }
            assert forall|j: int| 0 <= j < v implies before.slots@[v].last_used < (
            #[trigger] before.slots@[j]).last_used by {
                assert(before@.slots[j] == before.slots@[j]@);
            }
            assert(least_recent(before.slots@, v));
            assert forall|k: int| 0 <= k < after.len() implies (#[trigger] after[k])@
                == before.slots@[if k == v {
                before.slots@.len() - 1
            } else {
                k
            }]@ by {}
            lemma_left(before.slots@, v, after);
        },
    }
}

proof fn lemma_lru(s: AppState)
    requires
        s.slots@.len() > 0,
    ensures
        least_recent(s.slots@, lru_slot(s@.slots)),
{
    let v = lru_slot(s@.slots);
    assert(s@.slots.len() == s.slots@.len());
    lru_slot_is_least_recent(s@.slots);
    assert(s@.slots[v] == s.slots@[v]@);
    assert forall|j: int| 0 <= j < s.slots@.len() implies s.slots@[v].last_used <= (
    #[trigger] s.slots@[j]).last_used by {
        assert(s@.slots[j] == s.slots@[j]@);
    }
    assert forall|j: int| 0 <= j < v implies s.slots@[v].last_used < (
    #[trigger] s.slots@[j]).last_used by {
        assert(s@.slots[j] == s.slots@[j]@);
    }
}

proof fn lemma_made_room(before: AppState, after: AppState, evicted: Option<Unloaded>)
    requires
        sound(before),
        before@.eviction(evicted),
        after@ == before@.make_room(),
    ensures
        room_made(before, after.slots@, evicted),
        !full(before) ==> evicted is None && untouched(before, after),
        full(before) ==> exists|v: int| #[trigger]
            least_recent(before.slots@, v) && evicted is Some && only_unloads(
                before,
                after,
                v,
                UnloadReason::CooperativeEvict,
                evicted->0,
            ),
{
    assert(before@.slots.len() == before.slots@.len());
    if full(before) {
        lemma_lru(before);
        lemma_dropped(
            before,
            after,
            lru_slot(before@.slots),
            UnloadReason::CooperativeEvict,
            evicted->0,
        );
    } else {
        lemma_same(before, after);
    }
}

/// Where room is made and every other slot was used before one of at least two, that one
/// stays.
proof fn lemma_latest_stays(
    before: AppState,
    after: Seq<LoadedModel>,
    evicted: Option<Unloaded>,
    k: int,
)
    requires
        sound(before),
        room_made(before, after, evicted),
        0 <= k < before.slots@.len(),
        before.slots@.len() >= 2,
        forall|j: int|
            0 <= j < before.slots@.len() && j != k ==> (#[trigger] before.slots@[j]).last_used
                < before.slots@[k].last_used,
    ensures
        evicted matches Some(u) ==> u.loaded.id@ != before.slots@[k].id@,
        holds(after, before.slots@[k].id@),
{
    let mid = before.slots@;
    match evicted {
        None => {
            assert(alike(after[k], mid[k]));
        },
        Some(u) => {
            let v = choose|v: int| #[trigger]
                least_recent(mid, v) && alike(u.loaded, mid[v]) && only_leaves(mid, v, after);
            let w = if k == 0 {
                1int
            } else {
                0int
            };
            assert(mid[w].last_used < mid[k].last_used);
            assert(mid[v].last_used <= mid[w].last_used);
            assert(v != k);
            if v < k {
                assert(mid[v].id@ != mid[k].id@);
            } else {
                assert(mid[k].id@ != mid[v].id@);
            }
            let x = if k == mid.len() - 1 {
                v
            } else {
                k
            };
            assert(alike(after[x], mid[k]));
            assert(after[x].id@ == mid[k].id@);
        },
    }
}

/// A request for a resident model, in whichever slot it stands and whatever its policy:
/// its use time is that of the request, it keeps its policy and gets a new lease and its
/// timer anew, and every other slot stays as it is.
pub proof fn a_request_renews_a_resident_model(
    s: &mut AppState,
    id: &str,
    now: u64,
    runtime: bool,
    r: LoadStep,
    k: int,
)
    requires
        sound(*old(s)),
        knows(*old(s), id@),
        0 <= k < old(s).slots@.len(),
        old(s).slots@[k].id@ == id@,
        call_ensures(AppState::begin_load, (s, id, now, runtime), r),
    ensures
        r is Warm,
        r->Warm_model == old(s).slots@[k].model,
        only_renews(*old(s), *final(s), k, now, old(s).slots@[k].keep_alive, runtime, r->Warm_timer),
{
    lemma_at(*old(s), id@, k);
    assert(old(s)@.slots[k] == old(s).slots@[k]@);
    if r is Warm {
        lemma_renewed(*old(s), *final(s), k, now, old(s).slots@[k].keep_alive, runtime);
    }
}

/// A request for a model that is not resident makes room for it: the least recently used
/// model leaves where the slots are full, and nothing changes where they are not.
pub proof fn a_request_makes_room(
    s: &mut AppState,
    id: &str,
    now: u64,
    runtime: bool,
    r: LoadStep,
)
    requires
        sound(*old(s)),
        knows(*old(s), id@),
        !holds(old(s).slots@, id@),
        call_ensures(AppState::begin_load, (s, id, now, runtime), r),
    ensures
        r is Cold,
        r->entry@.id == id@,
        old(s).registry@.contains(r->entry@),
        r->probe == old(s).require_smoke_probe,
        room_made(*old(s), final(s).slots@, r->evicted),
        !full(*old(s)) ==> r->evicted is None && untouched(*old(s), *final(s)),
        full(*old(s)) ==> exists|v: int| #[trigger]
            least_recent(old(s).slots@, v) && r->evicted is Some && only_unloads(
                *old(s),
                *final(s),
                v,
                UnloadReason::CooperativeEvict,
                r->evicted->0,
            ),
{
    lemma_absent(*old(s), id@);
    if r is Cold {
        let reg = old(s).registry@;
        let w = choose|w: int| 0 <= w < reg.len() && (#[trigger] reg[w]).id == id@;
        assert(reg[w].id == id@);
        let c = choose|i: int| 0 <= i < reg.len() && #[trigger] reg[i].id == id@;
        assert(reg[c] == r->entry@);
        lemma_made_room(*old(s), *final(s), r->evicted);
    }
}

/// A request for a model that the server does not know changes nothing.
pub proof fn an_unknown_model_is_refused(
    s: &mut AppState,
    id: &str,
    now: u64,
    runtime: bool,
    r: LoadStep,
)
    requires
        !knows(*old(s), id@),
        call_ensures(AppState::begin_load, (s, id, now, runtime), r),
    ensures
        r is Missing,
        r->Missing_0@ == ErrorModel::Model("model '"@ + id@ + "' not found in registry"@),
        untouched(*old(s), *final(s)),
{
    if r is Missing {
        lemma_same(*old(s), *final(s));
    }
}

/// What was asked for last is not what leaves: where every other model was used before a
/// request for a resident one, a request for a further model that finds the slots full
/// empties another slot than that one's, whenever there is another.
pub proof fn the_latest_model_stays(
    s: &mut AppState,
    t: &mut AppState,
    id: &str,
    other: &str,
    now: u64,
    later: u64,
    runtime: bool,
    r: LoadStep,
    q: LoadStep,
    k: int,
)
    requires
        sound(*old(s)),
        sound(*old(t)),
        knows(*old(s), id@),
        knows(*old(s), other@),
        0 <= k < old(s).slots@.len(),
        old(s).slots@[k].id@ == id@,
        forall|j: int|
            0 <= j < old(s).slots@.len() && j != k ==> (#[trigger] old(s).slots@[j]).last_used
                < now,
        old(s).slots@.len() >= 2,
        !holds(old(s).slots@, other@),
        call_ensures(AppState::begin_load, (s, id, now, runtime), r),
        *final(s) == *old(t),
        call_ensures(AppState::begin_load, (t, other, later, runtime), q),
    ensures
        q is Cold,
        q->evicted matches Some(u) ==> u.loaded.id@ != id@,
        holds(final(t).slots@, id@),
{
    a_request_renews_a_resident_model(s, id, now, runtime, r, k);
    let mid = old(t).slots@;
    if holds(mid, other@) {
        let x = choose|x: int| 0 <= x < mid.len() && (#[trigger] mid[x]).id@ == other@;
        assert(old(s).slots@[x].id@ == other@);
    }
    assert(knows(*old(t), other@));
    a_request_makes_room(t, other, later, runtime, q);
    assert forall|j: int| 0 <= j < mid.len() && j != k implies (#[trigger] mid[j]).last_used
        < mid[k].last_used by {
        assert(alike(mid[j], old(s).slots@[j]));
    }
    lemma_latest_stays(*old(t), final(t).slots@, q->evicted, k);
}

/// A model that was loaded gets the last slot, as used now, under the server's policy and
/// with its timer. Room is made for it as for a request, and every model that does not
/// leave stays as it is.
pub proof fn a_loaded_model_gets_a_slot(
    s: &mut AppState,
    id: &str,
    now: u64,
    g: LoadedGenerator,
    runtime: bool,
    r: LoadEnd,
    h: u64,
    x: SessionModel,
)
    requires
        sound(*old(s)),
        !holds(old(s).slots@, id@),
        call_ensures(AppState::finish_load, (s, id, now, g, runtime), r),
    ensures
        r is Settled,
        final(s).slots@.len() > 0,
        is_new(final(s).slots@.last(), id@, now, g, old(s).idle_policy),
        room_made(*old(s), final(s).slots@.drop_last(), r->evicted),
        forall|j: int|
            0 <= j < old(s).slots@.len() ==> (#[trigger] old(s).slots@[j]).decode_lease
                != final(s).slots@.last().decode_lease && old(s).slots@[j].unload_handle
                != final(s).slots@.last().unload_handle,
        match old(s).idle_policy {
            KeepAlivePolicy::Pin => r->Settled_timer.start is None,
            KeepAlivePolicy::Idle(ms) => runtime ==> {
                &&& r->Settled_timer.start is Some
                &&& r->Settled_timer.start->0.ttl_ms == ms
                &&& r->Settled_timer.start->0.ttl_secs == ms / 1000
                &&& r->Settled_timer.start->0.lease == final(s).slots@.last().decode_lease
                &&& was_armed(
                    *final(s),
                    final(s).slots@.last().unload_handle,
                    Some(r->Settled_timer.start->0.token),
                )
            },
        },
        !runtime ==> r->Settled_timer.start is None,
        same_setup(*old(s), *final(s)),
        final(s)@.leases.held == old(s)@.leases.held,
        old(s)@.leases.issued <= final(s).slots@.last().decode_lease.id < final(s)@.leases.issued,
        old(s)@.timers.handles <= final(s).slots@.last().unload_handle.id < final(
            s)@.timers.handles,
        r->evicted matches Some(u) ==> was_armed(*old(s), u.loaded.unload_handle, u.abort),
        h != final(s).slots@.last().unload_handle.id && (r->evicted matches Some(u) ==> h
            != u.loaded.unload_handle.id) ==> {
            &&& final(s)@.timers.armed.contains_key(h) == old(s)@.timers.armed.contains_key(h)
            &&& old(s)@.timers.armed.contains_key(h) ==> final(s)@.timers.armed[h] == old(
                s)@.timers.armed[h]
        },
        final(s).session_cache@.contains(x) <==> old(s).session_cache@.contains(x) && (
        r->evicted matches Some(u) ==> x.model_id != u.loaded.id@),
{
    lemma_absent(*old(s), id@);
    if old(s)@.must_evict() {
        lru_slot_is_least_recent(old(s)@.slots);
        crate::lifecycle_laws::unload_clears_the_sessions(
            old(s)@,
            lru_slot(old(s)@.slots),
            x,
        );
    }
    if r is Settled {
        let after = final(s).slots@;
        assert(final(s)@.slots.len() == after.len());
        assert(old(s)@.slots.len() == old(s).slots@.len());
        let last = after.len() - 1;
        assert(final(s)@.slots[last] == after[last]@);
        assert forall|k: int| 0 <= k < after.drop_last().len() implies (
        #[trigger] after.drop_last()[k])@ == old(s)@.make_room().slots[k] by {
            assert(final(s)@.slots[k] == after[k]@);
        }
        lemma_room(*old(s), after.drop_last(), r->evicted);
        assert forall|j: int| 0 <= j < old(s).slots@.len() implies (
        #[trigger] old(s).slots@[j]).decode_lease != after.last().decode_lease && old(s).slots@[j].unload_handle != after.last().unload_handle by {
            assert(old(s)@.slots[j] == old(s).slots@[j]@);
        }
    }
}

/// Where the model has become resident since it was asked for, it is renewed as by a
/// request, and what was loaded is not used.
pub proof fn a_model_is_not_loaded_twice(
    s: &mut AppState,
    id: &str,
    now: u64,
    g: LoadedGenerator,
    runtime: bool,
    r: LoadEnd,
    k: int,
)
    requires
        sound(*old(s)),
        0 <= k < old(s).slots@.len(),
        old(s).slots@[k].id@ == id@,
        call_ensures(AppState::finish_load, (s, id, now, g, runtime), r),
    ensures
        r is AlreadyResident,
        r->AlreadyResident_model == old(s).slots@[k].model,
        only_renews(
            *old(s),
            *final(s),
            k,
            now,
            old(s).slots@[k].keep_alive,
            runtime,
            r->AlreadyResident_timer,
        ),
{
    lemma_at(*old(s), id@, k);
    assert(old(s)@.slots[k] == old(s).slots@[k]@);
    if r is AlreadyResident {
        lemma_renewed(*old(s), *final(s), k, now, old(s).slots@[k].keep_alive, runtime);
    }
}

/// A timer that fires with the lease that its model's slot still has, and that nobody
/// holds, unloads the model, in whichever slot it stands. Every other model stays.
pub proof fn a_timer_unloads_its_model(
    s: &mut AppState,
    id: &str,
    lease: DecodeLease,
    ttl_secs: u64,
    runtime: bool,
    r: FireOutcome,
    k: int,
)
    requires
        sound(*old(s)),
        0 <= k < old(s).slots@.len(),
        old(s).slots@[k].id@ == id@,
        old(s).slots@[k].decode_lease == lease,
        !old(s)@.leases.held.contains_key(lease.id),
        call_ensures(AppState::timer_fired, (s, id, lease, ttl_secs, runtime), r),
    ensures
        r is Unloaded,
        only_unloads(*old(s), *final(s), k, UnloadReason::IdleTtl(ttl_secs), r->Unloaded_0),
{
    lemma_at(*old(s), id@, k);
    assert(old(s)@.slots[k] == old(s).slots@[k]@);
    if r is Unloaded {
        lemma_dropped(*old(s), *final(s), k, UnloadReason::IdleTtl(ttl_secs), r->Unloaded_0);
    }
}

/// A timer whose lease nobody holds changes nothing where its model's slot has another
/// lease by now, or where its model is gone.
pub proof fn a_late_timer_changes_nothing(
    s: &mut AppState,
    id: &str,
    lease: DecodeLease,
    ttl_secs: u64,
    runtime: bool,
    r: FireOutcome,
)
    requires
        !old(s)@.leases.held.contains_key(lease.id),
        forall|k: int|
            0 <= k < old(s).slots@.len() && (#[trigger] old(s).slots@[k]).id@ == id@ ==> old(s).slots@[k].decode_lease != lease,
        call_ensures(AppState::timer_fired, (s, id, lease, ttl_secs, runtime), r),
    ensures
        r is Stale,
        untouched(*old(s), *final(s)),
{
    slot_of_is_first(old(s)@.slots, id@);
    let i = slot_of(old(s)@.slots, id@);
    if i < old(s)@.slots.len() {
        assert(old(s)@.slots[i] == old(s).slots@[i]@);
    }
    lemma_same(*old(s), *final(s));
}

/// A timer whose lease is held unloads nothing. Its model's timer runs anew, under the
/// policy and the lease that the slot has now.
pub proof fn a_held_lease_defers_the_timer(
    s: &mut AppState,
    id: &str,
    lease: DecodeLease,
    ttl_secs: u64,
    runtime: bool,
    r: FireOutcome,
    k: int,
)
    requires
        sound(*old(s)),
        old(s)@.leases.held.contains_key(lease.id),
        old(s)@.leases.held[lease.id] > 0,
        call_ensures(AppState::timer_fired, (s, id, lease, ttl_secs, runtime), r),
    ensures
        same_slots(old(s).slots@, final(s).slots@),
        same_setup(*old(s), *final(s)),
        final(s).session_cache@ == old(s).session_cache@,
        final(s)@.leases == old(s)@.leases,
        !holds(old(s).slots@, id@) ==> r is Gone && untouched(*old(s), *final(s)),
        0 <= k < old(s).slots@.len() && old(s).slots@[k].id@ == id@ ==> {
            &&& r is Deferred
            &&& timer_runs(
                *old(s),
                *final(s),
                old(s).slots@[k].unload_handle,
                old(s).slots@[k].decode_lease,
                old(s).slots@[k].keep_alive,
                runtime,
                r->Deferred_0,
            )
        },
{
    slot_of_is_first(old(s)@.slots, id@);
    if 0 <= k < old(s).slots@.len() && old(s).slots@[k].id@ == id@ {
        lemma_at(*old(s), id@, k);
        assert(old(s)@.slots[k] == old(s).slots@[k]@);
    }
    if !holds(old(s).slots@, id@) {
        lemma_absent(*old(s), id@);
        lemma_same(*old(s), *final(s));
    }
    assert(final(s)@.slots == old(s)@.slots);
    assert(final(s)@.slots.len() == final(s).slots@.len());
    assert forall|j: int| 0 <= j < old(s).slots@.len() implies alike(
        #[trigger] final(s).slots@[j],
        old(s).slots@[j],
    ) by {
        assert(final(s)@.slots[j] == final(s).slots@[j]@);
        assert(old(s)@.slots[j] == old(s).slots@[j]@);
    }
}

/// Of the timers of a model only the latest unloads it: after a request for the model, the
/// timer that the request started unloads it when it fires, and one with a lease that the
/// slot had before does not.
pub proof fn only_the_latest_timer_unloads(
    s: &mut AppState,
    t: &mut AppState,
    id: &str,
    now: u64,
    r: LoadStep,
    lease: DecodeLease,
    ttl_secs: u64,
    q: FireOutcome,
    k: int,
    ms: u64,
)
    requires
        sound(*old(s)),
        sound(*old(t)),
        knows(*old(s), id@),
        0 <= k < old(s).slots@.len(),
        old(s).slots@[k].id@ == id@,
        old(s).slots@[k].keep_alive == KeepAlivePolicy::Idle(ms),
        call_ensures(AppState::begin_load, (s, id, now, true), r),
        *final(s) == *old(t),
        !old(t)@.leases.held.contains_key(lease.id),
        call_ensures(AppState::timer_fired, (t, id, lease, ttl_secs, true), q),
    ensures
        r is Warm && r->Warm_timer.start is Some,
        lease == r->Warm_timer.start->0.lease ==> q is Unloaded && only_unloads(
            *old(t),
            *final(t),
            k,
            UnloadReason::IdleTtl(ttl_secs),
            q->Unloaded_0,
        ),
        lease == old(s).slots@[k].decode_lease ==> q is Stale && untouched(*old(t), *final(t)),
{
    a_request_renews_a_resident_model(s, id, now, true, r, k);
    let mid = old(t).slots@;
    assert(mid[k].id@ == id@);
    if lease == r->Warm_timer.start->0.lease {
        a_timer_unloads_its_model(t, id, lease, ttl_secs, true, q, k);
    }
    if lease == old(s).slots@[k].decode_lease {
        assert forall|x: int| 0 <= x < mid.len() && (#[trigger] mid[x]).id@ == id@ implies mid[x].decode_lease
            != lease by {
            if x < k {
                assert(mid[x].id@ != mid[k].id@);
            } else if k < x {
                assert(mid[k].id@ != mid[x].id@);
            }
        }
        a_late_timer_changes_nothing(t, id, lease, ttl_secs, true, q);
    }
}

/// An unload empties the model's slot, in whichever it stands, and no other.
pub proof fn an_unload_takes_the_model_out(
    s: &mut AppState,
    id: &str,
    reason: UnloadReason,
    r: Option<Unloaded>,
    k: int,
)
    requires
        sound(*old(s)),
        0 <= k < old(s).slots@.len(),
        old(s).slots@[k].id@ == id@,
        call_ensures(AppState::unload_with_reason, (s, id, reason), r) || (reason
            == UnloadReason::Explicit && call_ensures(AppState::unload, (s, id), r)),
    ensures
        r is Some,
        only_unloads(*old(s), *final(s), k, reason, r->0),
{
    lemma_at(*old(s), id@, k);
    assert(old(s)@.slots[k] == old(s).slots@[k]@);
    lemma_dropped(*old(s), *final(s), k, reason, r->0);
}

/// An unload of a model that is not resident finds nothing and changes nothing.
pub proof fn an_unload_of_nothing_changes_nothing(
    s: &mut AppState,
    id: &str,
    reason: UnloadReason,
    r: Option<Unloaded>,
)
    requires
        !holds(old(s).slots@, id@),
        call_ensures(AppState::unload_with_reason, (s, id, reason), r) || call_ensures(
            AppState::unload,
            (s, id),
            r,
        ),
    ensures
        r is None,
        untouched(*old(s), *final(s)),
{
    lemma_absent(*old(s), id@);
    lemma_same(*old(s), *final(s));
}

/// A reset of the keep-alive gives the model the policy that is asked for, or leaves it
/// its own, and its timer anew. It is no use of the model: its use time stays.
pub proof fn a_reset_sets_the_policy(
    s: &mut AppState,
    id: &str,
    policy: Option<KeepAlivePolicy>,
    runtime: bool,
    r: Option<TimerCommand>,
    k: int,
)
    requires
        sound(*old(s)),
        0 <= k < old(s).slots@.len(),
        old(s).slots@[k].id@ == id@,
        call_ensures(AppState::reset_keep_alive, (s, id, policy, runtime), r),
    ensures
        r is Some,
        policy matches Some(p) ==> only_renews(
            *old(s),
            *final(s),
            k,
            old(s).slots@[k].last_used,
            p,
            runtime,
            r->0,
        ),
        policy is None ==> only_renews(
            *old(s),
            *final(s),
            k,
            old(s).slots@[k].last_used,
            old(s).slots@[k].keep_alive,
            runtime,
            r->0,
        ),
{
    lemma_at(*old(s), id@, k);
    assert(old(s)@.slots[k] == old(s).slots@[k]@);
    let p = match policy {
        Some(p) => p,
        None => old(s).slots@[k].keep_alive,
    };
    lemma_renewed(*old(s), *final(s), k, old(s).slots@[k].last_used, p, runtime);
}

/// A reset of a model that is not resident changes nothing.
pub proof fn a_reset_of_nothing_changes_nothing(
    s: &mut AppState,
    id: &str,
    policy: Option<KeepAlivePolicy>,
    runtime: bool,
    r: Option<TimerCommand>,
)
    requires
        !holds(old(s).slots@, id@),
        call_ensures(AppState::reset_keep_alive, (s, id, policy, runtime), r),
    ensures
        r is None,
        untouched(*old(s), *final(s)),
{
    lemma_absent(*old(s), id@);
    lemma_same(*old(s), *final(s));
}

/// Arming a handle starts the timer that the policy asks for and touches nothing else.
pub proof fn arming_starts_the_timer(
    s: &mut AppState,
    policy: KeepAlivePolicy,
    lease: DecodeLease,
    handle: UnloadHandle,
    runtime: bool,
    r: TimerCommand,
)
    requires
        old(s)@.timers.tokens < u64::MAX,
        call_ensures(AppState::arm_or_reset_timer, (s, policy, lease, handle, runtime), r),
    ensures
        timer_runs(*old(s), *final(s), handle, lease, policy, runtime, r),
        same_slots(old(s).slots@, final(s).slots@),
        same_setup(*old(s), *final(s)),
        final(s)@.leases == old(s)@.leases,
        final(s).session_cache@ == old(s).session_cache@,
{
    assert(final(s)@.slots == old(s)@.slots);
    assert(final(s)@.slots.len() == final(s).slots@.len());
    assert forall|j: int| 0 <= j < old(s).slots@.len() implies alike(
        #[trigger] final(s).slots@[j],
        old(s).slots@[j],
    ) by {
        assert(final(s)@.slots[j] == final(s).slots@[j]@);
        assert(old(s)@.slots[j] == old(s).slots@[j]@);
    }
}

/// How often a lease is held.
pub open spec fn times_held(s: AppState, lease: DecodeLease) -> nat {
    if s@.leases.held.contains_key(lease.id) {
        s@.leases.held[lease.id] as nat
    } else {
        0
    }
}

/// A generation holds the lease of its model's slot once more, in whichever slot the model
/// stands, until it ends. No other lease, no slot and no timer is touched.
pub proof fn a_generation_holds_the_lease(
    s: &mut AppState,
    id: &str,
    r: Option<DecodeLeaseGuard>,
    k: int,
    other: DecodeLease,
)
    requires
        sound(*old(s)),
        0 <= k < old(s).slots@.len(),
        old(s).slots@[k].id@ == id@,
        times_held(*old(s), old(s).slots@[k].decode_lease) < usize::MAX,
        call_ensures(AppState::decode_lease_guard, (s, id), r),
    ensures
        r is Some,
        r->0.lease == old(s).slots@[k].decode_lease,
        times_held(*final(s), r->0.lease) == times_held(*old(s), r->0.lease) + 1,
        other != r->0.lease ==> times_held(*final(s), other) == times_held(*old(s), other),
        same_slots(old(s).slots@, final(s).slots@),
        same_setup(*old(s), *final(s)),
        final(s)@.timers == old(s)@.timers,
        final(s).session_cache@ == old(s).session_cache@,
{
    lemma_at(*old(s), id@, k);
    assert(old(s)@.slots[k] == old(s).slots@[k]@);
    assert(final(s)@.slots == old(s)@.slots);
    assert(final(s)@.slots.len() == final(s).slots@.len());
    assert forall|j: int| 0 <= j < old(s).slots@.len() implies alike(
        #[trigger] final(s).slots@[j],
        old(s).slots@[j],
    ) by {
        assert(final(s)@.slots[j] == final(s).slots@[j]@);
        assert(old(s)@.slots[j] == old(s).slots@[j]@);
    }
}

/// A generation that ends holds its lease no more. No other lease, no slot and no timer is
/// touched, and a lease that nobody holds any more is not in the books.
pub proof fn an_ended_generation_gives_the_lease_back(
    s: &mut AppState,
    guard: DecodeLeaseGuard,
    other: DecodeLease,
)
    requires
        times_held(*old(s), guard.lease) > 0,
        call_ensures(AppState::end_decode, (s, guard), ()),
    ensures
        times_held(*final(s), guard.lease) == times_held(*old(s), guard.lease) - 1,
        times_held(*old(s), guard.lease) == 1 ==> !final(s)@.leases.held.contains_key(
            guard.lease.id,
        ),
        other != guard.lease ==> times_held(*final(s), other) == times_held(*old(s), other),
        same_slots(old(s).slots@, final(s).slots@),
        same_setup(*old(s), *final(s)),
        final(s)@.timers == old(s)@.timers,
        final(s).session_cache@ == old(s).session_cache@,
{
    assert(final(s)@.slots == old(s)@.slots);
    assert(final(s)@.slots.len() == final(s).slots@.len());
    assert forall|j: int| 0 <= j < old(s).slots@.len() implies alike(
        #[trigger] final(s).slots@[j],
        old(s).slots@[j],
    ) by {
        assert(final(s)@.slots[j] == final(s).slots@[j]@);
        assert(old(s)@.slots[j] == old(s).slots@[j]@);
    }
}

/// What is read off the slots is that of the model that was asked for, in whichever slot
/// it stands; a model that is not resident has no limits.
pub proof fn limits_are_the_models_own(s: AppState, id: &str, k: int, max: usize)
    requires
        sound(s),
        call_ensures(AppState::effective_max_ctx_for, (&s, id), max),
    ensures
        0 <= k < s.slots@.len() && s.slots@[k].id@ == id@ ==> max == s.slots@[k].effective_max_ctx,
        !holds(s.slots@, id@) ==> max == usize::MAX,
{
    if 0 <= k < s.slots@.len() && s.slots@[k].id@ == id@ {
        lemma_at(s, id@, k);
        assert(s@.slots[k] == s.slots@[k]@);
    }
    if !holds(s.slots@, id@) {
        lemma_absent(s, id@);
    }
}

/// The context limits that are read off are those of the model that was asked for.
pub proof fn context_limits_are_the_models_own(
    s: AppState,
    id: &str,
    k: int,
    limits: Option<crate::state::ContextLimits>,
)
    requires
        sound(s),
        call_ensures(AppState::context_limits_for, (&s, id), limits),
    ensures
        0 <= k < s.slots@.len() && s.slots@[k].id@ == id@ ==> limits == s.slots@[k].context_limits,
        !holds(s.slots@, id@) ==> limits is None,
{
    if 0 <= k < s.slots@.len() && s.slots@[k].id@ == id@ {
        lemma_at(s, id@, k);
        assert(s@.slots[k] == s.slots@[k]@);
    }
    if !holds(s.slots@, id@) {
        lemma_absent(s, id@);
    }
}

/// Whether an entry is one of the registry, with the id.
pub open spec fn entry_of(s: AppState, id: Seq<char>, e: ModelEntry) -> bool {
    e@.id == id && s.registry@.contains(e@)
}

/// Whether the slots are those of before with room made for one more model.
pub open spec fn made_room(before: AppState, after: Seq<LoadedModel>) -> bool {
    exists|evicted: Option<Unloaded>| #[trigger] room_made(before, after, evicted)
}

/// Whether a load ended as its loader did: with the loader's error, or with the model
/// that it gave in the last slot, as used when the clock was read.
pub open spec fn ends_as_loader<C, L>(
    before: AppState,
    after: AppState,
    id: Seq<char>,
    runtime: bool,
    clock: C,
    loader: L,
    r: Result<Ready, Error>,
) -> bool where C: Fn() -> u64, L: FnOnce(&ModelEntry) -> Result<LoadedGenerator, Error> {
    match r {
        Err(error) => {
            &&& made_room(before, after.slots@)
            &&& exists|e: &ModelEntry|
                entry_of(before, id, *e) && #[trigger] call_ensures(loader, (e,), Err(error))
        },
        Ok(ready) => {
            &&& ready.cold
            &&& after.slots@.len() > 0
            &&& match before.idle_policy {
                KeepAlivePolicy::Pin => ready.timer.start is None,
                KeepAlivePolicy::Idle(ms) => {
                    &&& runtime <==> ready.timer.start is Some
                    &&& runtime ==> ready.timer.start->0.ttl_ms == ms
                    &&& runtime ==> ready.timer.start->0.lease
                        == after.slots@.last().decode_lease
                },
            }
            &&& made_room(before, after.slots@.drop_last())
            &&& exists|e: &ModelEntry, g: LoadedGenerator, now: u64|
                {
                    &&& entry_of(before, id, *e)
                    &&& #[trigger] call_ensures(loader, (e,), Ok(g))
                    &&& #[trigger] call_ensures(clock, (), now)
                    &&& ready.model == g.model
                    &&& is_new(after.slots@.last(), id, now, g, before.idle_policy)
                }
        },
    }
}

/// Making ready a model that the server does not know changes nothing.
pub proof fn an_unknown_model_is_not_made_ready<C, E, P, L>(
    s: &mut AppState,
    id: &str,
    runtime: bool,
    clock: C,
    release: E,
    probe: P,
    loader: L,
    r: Result<Ready, Error>,
) where
    C: Fn() -> u64,
    E: FnOnce(Unloaded),
    P: FnOnce(&ModelEntry) -> Result<SmokeVerdict, String>,
    L: FnOnce(&ModelEntry) -> Result<LoadedGenerator, Error>,

    requires
        !knows(*old(s), id@),
        call_ensures(
            AppState::ensure_loaded::<C, E, P, L>,
            (s, id, runtime, clock, release, probe, loader),
            r,
        ),
    ensures
        r is Err,
        r->Err_0@ == ErrorModel::Model("model '"@ + id@ + "' not found in registry"@),
        untouched(*old(s), *final(s)),
{
    lemma_same(*old(s), *final(s));
}

/// Making ready a resident model renews it, at a time that the clock gives: this is its
/// use time then, whatever its policy and in whichever slot it stands, and every other
/// slot stays as it is.
pub proof fn a_resident_model_is_ready<C, E, P, L>(
    s: &mut AppState,
    id: &str,
    runtime: bool,
    clock: C,
    release: E,
    probe: P,
    loader: L,
    r: Result<Ready, Error>,
    k: int,
) where
    C: Fn() -> u64,
    E: FnOnce(Unloaded),
    P: FnOnce(&ModelEntry) -> Result<SmokeVerdict, String>,
    L: FnOnce(&ModelEntry) -> Result<LoadedGenerator, Error>,

    requires
        sound(*old(s)),
        knows(*old(s), id@),
        0 <= k < old(s).slots@.len(),
        old(s).slots@[k].id@ == id@,
        call_ensures(
            AppState::ensure_loaded::<C, E, P, L>,
            (s, id, runtime, clock, release, probe, loader),
            r,
        ),
    ensures
        r is Ok,
        r->Ok_0.model == old(s).slots@[k].model,
        !r->Ok_0.cold,
        call_ensures(clock, (), final(s).slots@[k].last_used),
        only_renews(
            *old(s),
            *final(s),
            k,
            final(s).slots@[k].last_used,
            old(s).slots@[k].keep_alive,
            runtime,
            r->Ok_0.timer,
        ),
{
    lemma_at(*old(s), id@, k);
    assert(old(s)@.slots[k] == old(s).slots@[k]@);
    let policy = old(s).slots@[k].keep_alive;
    let now = choose|now: u64|
        {
            &&& #[trigger] call_ensures(clock, (), now)
            &&& r == Ok::<Ready, Error>(
                Ready {
                    model: old(s)@.slots[k].model,
                    cold: false,
                    timer: old(s)@.renew_command(k, policy, runtime),
                },
            )
            &&& final(s)@ == old(s)@.renew(k, now, policy, runtime)
        };
    lemma_renewed(*old(s), *final(s), k, now, policy, runtime);
}

proof fn lemma_known_entry(s: AppState, id: Seq<char>, e: ModelEntry)
    requires
        knows(s, id),
        e@ == crate::registry::entry_for(s.registry@, id),
    ensures
        entry_of(s, id, e),
{
    let reg = s.registry@;
    let w = choose|w: int| 0 <= w < reg.len() && (#[trigger] reg[w]).id == id;
    assert(reg[w].id == id);
    let c = choose|i: int| 0 <= i < reg.len() && #[trigger] reg[i].id == id;
    assert(reg[c] == e@);
}

proof fn lemma_loader_end<C, L>(
    before: AppState,
    after: AppState,
    id: Seq<char>,
    runtime: bool,
    clock: C,
    loader: L,
    evicted: Option<Unloaded>,
    r: Result<Ready, Error>,
) where C: Fn() -> u64, L: FnOnce(&ModelEntry) -> Result<LoadedGenerator, Error>
    requires
        sound(before),
        knows(before, id),
        before@.eviction(evicted),
        before@.make_room().loader_answer(id, runtime, clock, loader, r, after@),
    ensures
        ends_as_loader(before, after, id, runtime, clock, loader, r),
{
    let room = before@.make_room();
    let (e, loaded, now) = choose|e: &ModelEntry, loaded: Result<LoadedGenerator, Error>, now: u64|
        #![trigger call_ensures(loader, (e,), loaded), call_ensures(clock, (), now)]
        {
            &&& e@ == crate::registry::entry_for(room.registry, id)
            &&& call_ensures(loader, (e,), loaded)
            &&& call_ensures(clock, (), now)
            &&& match loaded {
                Err(error) => r == Err::<Ready, Error>(error) && after@ == room,
                Ok(g) => {
                    &&& r == Ok::<Ready, Error>(
                        Ready { model: g.model, cold: true, timer: room.settle_command(runtime) },
                    )
                    &&& after@ == room.settle(id, now, g, runtime)
                },
            }
        };
    lemma_known_entry(before, id, *e);
    assert(after@.slots.len() == after.slots@.len());
    match loaded {
        Err(error) => {
            lemma_made_room(before, after, evicted);
            assert(call_ensures(loader, (e,), Err(error)));
        },
        Ok(g) => {
            let last = after.slots@.len() - 1;
            assert(after@.slots[last] == after.slots@[last]@);
            assert forall|k: int| 0 <= k < after.slots@.drop_last().len() implies (
            #[trigger] after.slots@.drop_last()[k])@ == room.slots[k] by {
                assert(after@.slots[k] == after.slots@[k]@);
            }
            lemma_room(before, after.slots@.drop_last(), evicted);
            assert(call_ensures(loader, (e,), Ok(g)));
        },
    }
}

/// Making ready a model that is not resident makes room for it and ends as the loader
/// does. Where the server asks for a probe, its outcome decides first: one that failed
/// or did not run ends the load with an error, and what had to leave stays gone.
pub proof fn a_model_is_loaded_on_request<C, E, P, L>(
    s: &mut AppState,
    id: &str,
    runtime: bool,
    clock: C,
    release: E,
    probe: P,
    loader: L,
    r: Result<Ready, Error>,
) where
    C: Fn() -> u64,
    E: FnOnce(Unloaded),
    P: FnOnce(&ModelEntry) -> Result<SmokeVerdict, String>,
    L: FnOnce(&ModelEntry) -> Result<LoadedGenerator, Error>,

    requires
        sound(*old(s)),
        knows(*old(s), id@),
        !holds(old(s).slots@, id@),
        call_ensures(
            AppState::ensure_loaded::<C, E, P, L>,
            (s, id, runtime, clock, release, probe, loader),
            r,
        ),
    ensures
        !old(s).require_smoke_probe ==> ends_as_loader(*old(s), *final(s), id@, runtime, clock, loader, r),
        old(s).require_smoke_probe ==> exists|e: &ModelEntry, v: Result<SmokeVerdict, String>|
            {
                &&& entry_of(*old(s), id@, *e)
                &&& #[trigger] call_ensures(probe, (e,), v)
                &&& if v is Ok && (v->Ok_0 is Passed || v->Ok_0 is Inconclusive) {
                    ends_as_loader(*old(s), *final(s), id@, runtime, clock, loader, r)
                } else {
                    r is Err && r->Err_0 is SmokeProbe && made_room(*old(s), final(s).slots@)
                }
            },
{
    lemma_absent(*old(s), id@);
    assert(old(s)@.needs_load(id@));
    let evicted: Option<Unloaded> = if old(s)@.must_evict() {
        Some(
            choose|u: Unloaded|
                old(s)@.eviction(Some(u)) && #[trigger] call_ensures(release, (u,), ()),
        )
    } else {
        None
    };
    assert(old(s)@.eviction(evicted));
    if old(s).require_smoke_probe {
        let room = old(s)@.make_room();
        let (e, v) = choose|e: &ModelEntry, v: Result<SmokeVerdict, String>|
            {
                &&& e@ == crate::registry::entry_for(old(s)@.registry, id@)
                &&& #[trigger] call_ensures(probe, (e,), v)
                &&& match crate::load::probe_refusal(id@, v) {
                    Some(text) => {
                        &&& r is Err
                        &&& r->Err_0@ == ErrorModel::SmokeProbe(text)
                        &&& final(s)@ == room
                    },
                    None => room.loader_answer(id@, runtime, clock, loader, r, final(s)@),
                }
            };
        lemma_known_entry(*old(s), id@, *e);
        if crate::load::probe_refusal(id@, v) is None {
            lemma_loader_end(*old(s), *final(s), id@, runtime, clock, loader, evicted, r);
        } else {
            lemma_made_room(*old(s), *final(s), evicted);
        }
    } else {
        lemma_loader_end(*old(s), *final(s), id@, runtime, clock, loader, evicted, r);
    }
}

/// Of several models the one that was made ready last is not what leaves for a further
/// one, whatever comes of that load: where the clock does not give a time at which
/// another model was used already, the model stays resident.
pub proof fn the_model_made_ready_last_stays<C, E, P, L, D, G, Q, M>(
    s: &mut AppState,
    t: &mut AppState,
    id: &str,
    other: &str,
    runtime: bool,
    clock: C,
    release: E,
    probe: P,
    loader: L,
    later: D,
    release2: G,
    probe2: Q,
    loader2: M,
    r: Result<Ready, Error>,
    q: Result<Ready, Error>,
    k: int,
) where
    C: Fn() -> u64,
    E: FnOnce(Unloaded),
    P: FnOnce(&ModelEntry) -> Result<SmokeVerdict, String>,
    L: FnOnce(&ModelEntry) -> Result<LoadedGenerator, Error>,
    D: Fn() -> u64,
    G: FnOnce(Unloaded),
    Q: FnOnce(&ModelEntry) -> Result<SmokeVerdict, String>,
    M: FnOnce(&ModelEntry) -> Result<LoadedGenerator, Error>,

    requires
        sound(*old(s)),
        sound(*old(t)),
        knows(*old(s), id@),
        knows(*old(s), other@),
        0 <= k < old(s).slots@.len(),
        old(s).slots@[k].id@ == id@,
        old(s).slots@.len() >= 2,
        !holds(old(s).slots@, other@),
        forall|now: u64, j: int|
            #![trigger call_ensures(clock, (), now), old(s).slots@[j]]
            call_ensures(clock, (), now) && 0 <= j < old(s).slots@.len() && j != k ==> old(s).slots@[j].last_used < now,
        call_ensures(
            AppState::ensure_loaded::<C, E, P, L>,
            (s, id, runtime, clock, release, probe, loader),
            r,
        ),
        *final(s) == *old(t),
        call_ensures(
            AppState::ensure_loaded::<D, G, Q, M>,
            (t, other, runtime, later, release2, probe2, loader2),
            q,
        ),
    ensures
        holds(final(t).slots@, id@),
{
    a_resident_model_is_ready(s, id, runtime, clock, release, probe, loader, r, k);
    let mid = old(t).slots@;
    if holds(mid, other@) {
        let x = choose|x: int| 0 <= x < mid.len() && (#[trigger] mid[x]).id@ == other@;
        assert(old(s).slots@[x].id@ == other@);
    }
    assert forall|j: int| 0 <= j < mid.len() && j != k implies (#[trigger] mid[j]).last_used
        < mid[k].last_used by {
        assert(alike(mid[j], old(s).slots@[j]));
    }
    assert(knows(*old(t), other@));
    a_model_is_loaded_on_request(t, other, runtime, later, release2, probe2, loader2, q);
    let end = final(t).slots@;
    if made_room(*old(t), end) {
        let evicted = choose|evicted: Option<Unloaded>| #[trigger]
            room_made(*old(t), end, evicted);
        lemma_latest_stays(*old(t), end, evicted, k);
    } else {
        let evicted = choose|evicted: Option<Unloaded>| #[trigger]
            room_made(*old(t), end.drop_last(), evicted);
        lemma_latest_stays(*old(t), end.drop_last(), evicted, k);
        let x = choose|x: int|
            0 <= x < end.drop_last().len() && (#[trigger] end.drop_last()[x]).id@ == id@;
        assert(end[x].id@ == id@);
    }
}

/// The paths of the speech model are known where both are set, and only there.
pub proof fn speech_needs_both_paths(s: AppState, r: Option<(String, String)>)
    requires
        call_ensures(AppState::audio_paths, (&s,), r),
    ensures
        r is Some <==> s.whisper_model_path is Some && s.whisper_tokenizer_path is Some,
        r matches Some((m, t)) ==> m@ == s.whisper_model_path->0@ && t@
            == s.whisper_tokenizer_path->0@,
{
}

/// Every reason for an unload is logged under an event of its own.
pub proof fn an_unload_is_logged_by_its_reason(reason: UnloadReason, r: &'static str)
    requires
        call_ensures(UnloadReason::event, (reason,), r),
    ensures
        reason is Explicit ==> r@ == "slots: unloading model"@,
        reason is IdleTtl ==> r@ == "model_unload_idle"@,
        reason is CooperativeEvict ==> r@ == "model_unload_evict"@,
{
}

/// A model is shown by its id and its load time.
pub proof fn a_model_is_shown_by_id_and_load_time(
    m: LoadedModel,
    r: String,
    at: String,
    quoted: &str,
    q: String,
)
    requires
        call_ensures(LoadedModel::debug_text, (&m,), r),
        call_ensures(crate::text::decimal, (m.loaded_at,), at),
        call_ensures(crate::state::loaded_model_text, (quoted, m.loaded_at), q),
    ensures
        q@ == "LoadedModel { id: "@ + quoted@ + ", loaded_at: "@ + at@ + " }"@,
        r@ == "LoadedModel { id: "@ + crate::state::quoted_text(m.id@) + ", loaded_at: "@ + at@
            + " }"@,
{
}

/// Whether more leases, handles and timers can be given out is told truly.
pub proof fn the_ids_that_are_left_are_told(s: AppState, r: bool)
    requires
        call_ensures(AppState::ids_left, (&s,), r),
    ensures
        r <==> s@.leases.issued < u64::MAX && s@.timers.handles < u64::MAX && s@.timers.tokens
            < u64::MAX,
{
}

/// A line for the log tells the server's four numbers, each under its own name.
pub proof fn a_log_line_tells_the_numbers(
    s: AppState,
    ttft: u64,
    itl: u64,
    dropped: u64,
    r: String,
    a: Seq<char>,
    b: String,
    c: String,
    d: String,
)
    requires
        call_ensures(AppState::debug_text, (&s, ttft, itl, dropped), r),
        s.registry@.len() <= u64::MAX,
        crate::text::decimal_text(s.registry@.len()) == a,
        call_ensures(crate::text::decimal, (ttft,), b),
        call_ensures(crate::text::decimal, (itl,), c),
        call_ensures(crate::text::decimal, (dropped,), d),
    ensures
        r@ == "AppState { registry_len: "@ + a + ", ttft_samples: "@ + b@ + ", itl_samples: "@ + c@
            + ", metrics_drainer_dropped: "@ + d@ + " }"@,
{
}

} // verus!
