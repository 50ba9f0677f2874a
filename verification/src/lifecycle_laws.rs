//! What holds of the model lifecycle over several steps.

use vstd::prelude::*;

use crate::keep_alive::{DecodeLease, KeepAlivePolicy};
use crate::session_cache::SessionModel;
use crate::state::{
    distinct_ids, lemma_make_room, lemma_renew_keeps_ids, lemma_settle_keeps_ids,
    lemma_settled_at_end, lemma_take_slot, lru_slot,
    lru_slot_is_least_recent, resident_limit, slot_of, slot_of_is_first, LoadedGenerator,
    ServerModel, SlotModel,
};

verus! {

/// A timer that was armed before a model was renewed does not unload it: the
/// slots stay as the renewal left them.
pub proof fn late_timer_spares_a_renewed_model(
    m: ServerModel,
    id: Seq<char>,
    lease: DecodeLease,
    last_used: u64,
    policy: KeepAlivePolicy,
    runtime: bool,
)
    requires
        m.wf(),
        m.has_ids(),
        m.resident(id),
        lease.id < m.leases.issued,
    ensures
        ({
            let renewed = m.renew(slot_of(m.slots, id), last_used, policy, runtime);
            &&& !renewed.fire_unloads(id, lease)
            &&& renewed.fire(id, lease, runtime).slots == renewed.slots
            &&& renewed.resident(id)
        }),
{
    slot_of_is_first(m.slots, id);
    let renewed = m.renew(slot_of(m.slots, id), last_used, policy, runtime);
    slot_of_is_first(renewed.slots, id);
    let i = slot_of(m.slots, id);
    let k = slot_of(renewed.slots, id);
    assert(renewed.slots[i].id == id);
    if k < i {
        assert(renewed.slots[k] == m.slots[k]);
    }
    assert(k == i);
}

/// A renewal gives the model a lease that no slot had before.
pub proof fn renewal_swaps_the_lease(
    m: ServerModel,
    id: Seq<char>,
    last_used: u64,
    policy: KeepAlivePolicy,
    runtime: bool,
    j: int,
)
    requires
        m.wf(),
        m.has_ids(),
        m.resident(id),
        0 <= j < m.slots.len(),
    ensures
        m.renew(slot_of(m.slots, id), last_used, policy, runtime).slots[slot_of(
            m.slots,
            id,
        )].decode_lease != m.slots[j].decode_lease,
{
    slot_of_is_first(m.slots, id);
}

proof fn lemma_drop_slot_absent(m: ServerModel, id: Seq<char>)
    requires
        distinct_ids(m.slots),
        m.resident(id),
    ensures
        !m.drop_slot(slot_of(m.slots, id)).resident(id),
{
    let i = slot_of(m.slots, id);
    let t = m.drop_slot(i).slots;
    slot_of_is_first(m.slots, id);
    slot_of_is_first(t, id);
    let k = slot_of(t, id);
    if k < t.len() {
        let last = m.slots.len() - 1;
        let from = if k == i {
            last
        } else {
            k
        };
        assert(t[k] == m.slots[from]);
        assert(m.slots[i].id == m.slots[from].id);
    }
}

/// An unloaded model is no longer resident, so unloading it again finds
/// nothing.
pub proof fn unload_is_complete(m: ServerModel, id: Seq<char>)
    requires
        distinct_ids(m.slots),
        m.resident(id),
    ensures
        !m.drop_slot(slot_of(m.slots, id)).resident(id),
        m.drop_slot(slot_of(m.slots, id)).slots.len() == m.slots.len() - 1,
{
    slot_of_is_first(m.slots, id);
    lemma_drop_slot_absent(m, id);
}

/// A timer that was armed before a model was unloaded and loaded again does not
/// unload the new one.
pub proof fn late_timer_spares_a_reloaded_model(
    m: ServerModel,
    id: Seq<char>,
    lease: DecodeLease,
    now: u64,
    g: LoadedGenerator,
    runtime: bool,
)
    requires
        m.wf(),
        m.has_ids(),
        m.resident(id),
        lease.id < m.leases.issued,
    ensures
        ({
            let again = m.drop_slot(slot_of(m.slots, id)).settle(id, now, g, runtime);
            &&& !again.fire_unloads(id, lease)
            &&& again.fire(id, lease, runtime).slots == again.slots
            &&& again.resident(id)
        }),
{
    let dropped = m.drop_slot(slot_of(m.slots, id));
    lemma_drop_slot_absent(m, id);
    lemma_settled_at_end(dropped, id, now, g, runtime);
}

/// A timer that fires while its lease is held changes no slot.
pub proof fn held_lease_suppresses_the_unload(
    m: ServerModel,
    id: Seq<char>,
    lease: DecodeLease,
    runtime: bool,
)
    requires
        m.leases.count(lease) > 0,
    ensures
        m.fire(id, lease, runtime).slots == m.slots,
        m.fire(id, lease, runtime).leases == m.leases,
{
}

/// A model that was loaded under an idle policy and not used since is unloaded
/// when its timer fires.
pub proof fn idle_model_is_unloaded(
    m: ServerModel,
    id: Seq<char>,
    now: u64,
    g: LoadedGenerator,
    ms: u64,
)
    requires
        m.wf(),
        m.has_ids(),
        !m.resident(id),
        m.settings.idle_policy == KeepAlivePolicy::Idle(ms),
    ensures
        ({
            let loaded = m.settle(id, now, g, true);
            let start = m.settle_command(true).start;
            &&& start is Some
            &&& start->0.ttl_ms == ms
            &&& loaded.fire_unloads(id, start->0.lease)
            &&& loaded.fire(id, start->0.lease, true).slots == m.slots
        }),
{
    lemma_settled_at_end(m, id, now, g, true);
    let loaded = m.settle(id, now, g, true);
    assert(loaded.fire(id, m.next_lease(), true).slots =~= m.slots);
}

/// A pinned model has no timer, neither after a load nor after a renewal, and
/// one that was armed before is cancelled.
pub proof fn pinned_model_has_no_timer(
    m: ServerModel,
    i: int,
    last_used: u64,
    id: Seq<char>,
    now: u64,
    g: LoadedGenerator,
    runtime: bool,
)
    requires
        m.wf(),
        m.has_ids(),
        0 <= i < m.slots.len(),
    ensures
        m.renew_command(i, KeepAlivePolicy::Pin, runtime).start is None,
        m.renew_command(i, KeepAlivePolicy::Pin, runtime).abort == m.timers.token(
            m.slots[i].unload_handle,
        ),
        m.renew(i, last_used, KeepAlivePolicy::Pin, runtime).timers.token(m.slots[i].unload_handle)
            is None,
        m.settings.idle_policy == KeepAlivePolicy::Pin ==> {
            &&& m.settle_command(runtime).start is None
            &&& m.settle(id, now, g, runtime).timers.token(m.next_handle()) is None
        },
{
}

/// Every step keeps the number of resident models within the limit, where a limit
/// of zero counts as one. Only a load makes the number grow.
pub proof fn slots_keep_the_bound(
    m: ServerModel,
    id: Seq<char>,
    now: u64,
    g: LoadedGenerator,
    runtime: bool,
    i: int,
    policy: KeepAlivePolicy,
    lease: DecodeLease,
)
    requires
        m.slots.len() <= resident_limit(m.settings.max_loaded_models),
    ensures
        m.make_room().settle(id, now, g, runtime).slots.len() <= resident_limit(
            m.settings.max_loaded_models,
        ),
        m.make_room().slots.len() <= m.slots.len(),
        0 <= i < m.slots.len() ==> m.renew(i, now, policy, runtime).slots.len() == m.slots.len(),
        0 <= i < m.slots.len() ==> m.drop_slot(i).slots.len() == m.slots.len() - 1,
        m.fire(id, lease, runtime).slots.len() <= m.slots.len(),
{
    slot_of_is_first(m.slots, id);
    if m.must_evict() {
        lru_slot_is_least_recent(m.slots);
    }
}

/// No step puts a model into two slots: neither a load of a model that is not
/// resident, nor a renewal, nor an unload, nor a timer that fires.
pub proof fn slots_hold_each_model_once(
    m: ServerModel,
    id: Seq<char>,
    now: u64,
    g: LoadedGenerator,
    runtime: bool,
    i: int,
    policy: KeepAlivePolicy,
    lease: DecodeLease,
)
    requires
        distinct_ids(m.slots),
    ensures
        distinct_ids(m.fire(id, lease, runtime).slots),
        !m.resident(id) ==> distinct_ids(m.make_room().settle(id, now, g, runtime).slots),
        0 <= i < m.slots.len() ==> distinct_ids(m.renew(i, now, policy, runtime).slots),
        0 <= i < m.slots.len() ==> distinct_ids(m.drop_slot(i).slots),
{
    slot_of_is_first(m.slots, id);
    if m.resident(id) {
        lemma_take_slot(m.slots, slot_of(m.slots, id));
    }
    if 0 <= i < m.slots.len() {
        lemma_take_slot(m.slots, i);
        lemma_renew_keeps_ids(m, i, now, policy);
    }
    if !m.resident(id) {
        lemma_make_room(m, id);
        lemma_settle_keeps_ids(m.make_room(), id, now, g, runtime);
    }
}

/// A load keeps the slots in order, whatever comes of it. Where the model was resident
/// it is renewed; where it was not, room is made, and on success the model gets a slot.
/// In each of these states no more models are resident than may be and none occupies
/// two slots, and behind a success exactly one slot holds the model.
pub proof fn a_load_leaves_one_slot_per_model(
    m: ServerModel,
    id: Seq<char>,
    now: u64,
    g: LoadedGenerator,
    runtime: bool,
)
    requires
        m.slots.len() <= resident_limit(m.settings.max_loaded_models),
        distinct_ids(m.slots),
    ensures
        m.resident(id) ==> ({
            let i = slot_of(m.slots, id);
            let warm = m.renew(i, now, m.slots[i].keep_alive, runtime);
            &&& warm.slots.len() == m.slots.len()
            &&& distinct_ids(warm.slots)
            &&& forall|j: int|
                0 <= j < warm.slots.len() ==> ((#[trigger] warm.slots[j]).id == id <==> j == i)
        }),
        !m.resident(id) ==> ({
            let failed = m.make_room();
            let cold = failed.settle(id, now, g, runtime);
            &&& failed.slots.len() <= resident_limit(m.settings.max_loaded_models)
            &&& distinct_ids(failed.slots)
            &&& !failed.resident(id)
            &&& cold.slots.len() <= resident_limit(m.settings.max_loaded_models)
            &&& distinct_ids(cold.slots)
            &&& forall|j: int|
                0 <= j < cold.slots.len() ==> ((#[trigger] cold.slots[j]).id == id <==> j
                    == cold.slots.len() - 1)
        }),
{
    slot_of_is_first(m.slots, id);
    if m.resident(id) {
        let i = slot_of(m.slots, id);
        let warm = m.renew(i, now, m.slots[i].keep_alive, runtime);
        lemma_renew_keeps_ids(m, i, now, m.slots[i].keep_alive);
        assert(warm.slots[i].id == id);
        assert forall|j: int| 0 <= j < warm.slots.len() implies ((#[trigger] warm.slots[j]).id == id
            <==> j == i) by {
            if j < i {
                assert(warm.slots[j].id != warm.slots[i].id);
            } else if i < j {
                assert(warm.slots[i].id != warm.slots[j].id);
            }
        }
    } else {
        let failed = m.make_room();
        let cold = failed.settle(id, now, g, runtime);
        lemma_make_room(m, id);
        lemma_settle_keeps_ids(failed, id, now, g, runtime);
        if m.must_evict() {
            lru_slot_is_least_recent(m.slots);
        }
        let last = cold.slots.len() - 1;
        assert(cold.slots[last].id == id);
        assert forall|j: int| 0 <= j < cold.slots.len() implies ((#[trigger] cold.slots[j]).id == id
            <==> j == last) by {
            if j < last {
                assert(cold.slots[j].id != cold.slots[last].id);
            }
        }
    }
}

/// Making room takes out the least recently used model and no other, and it
/// takes one out only where the slots are full.
pub proof fn only_the_least_recent_leaves(m: ServerModel, s: SlotModel)
    requires
        distinct_ids(m.slots),
    ensures
        m.slots.len() < m.settings.max_loaded_models ==> m.make_room() == m,
        m.must_evict() ==> {
            &&& m.make_room().slots.contains(s) <==> m.slots.contains(s) && s != m.slots[lru_slot(
                m.slots,
            )]
            &&& m.slots.contains(s) ==> m.slots[lru_slot(m.slots)].last_used <= s.last_used
        },
{
    if m.must_evict() {
        lru_slot_is_least_recent(m.slots);
        lemma_take_slot(m.slots, lru_slot(m.slots));
        if m.slots.contains(s) {
            let k = choose|k: int| 0 <= k < m.slots.len() && m.slots[k] == s;
            assert(m.slots[lru_slot(m.slots)].last_used <= m.slots[k].last_used);
        }
    }
}

/// An unload leaves no session of the model, and every session of the others.
pub proof fn unload_clears_the_sessions(m: ServerModel, i: int, s: SessionModel)
    requires
        0 <= i < m.slots.len(),
    ensures
        m.drop_slot(i).sessions.contains(s) <==> m.sessions.contains(s) && s.model_id
            != m.slots[i].id,
{
    let keep = |x: SessionModel| x.model_id != m.slots[i].id;
    let kept = m.sessions.filter(keep);
    if m.sessions.contains(s) && keep(s) {
        let k = m.sessions.index_of(s);
        m.sessions.lemma_filter_contains(keep, k);
    }
    if kept.contains(s) {
        m.sessions.lemma_filter_contains_rev(keep, s);
        m.sessions.lemma_filter_pred(keep, kept.index_of(s));
    }
}

} // verus!
