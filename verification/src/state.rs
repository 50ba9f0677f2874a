//! The models that are resident, and how they come and go.
//!
//! A request for a model that is not resident evicts the least recently used
//! one where the slots are full, loads the model and arms its unload timer. A
//! request for a resident model resets the timer and gives the slot a new
//! lease, by which a timer that fires late is told apart from the armed one.
//!
//! The functions here decide and keep the books. Loading a snapshot, probing it
//! and sleeping for a timer are left to the caller, who is told what to do and
//! reports what came of it.

use vstd::prelude::*;
use vstd::string::*;

use crate::errors::Error;
use crate::keep_alive::{DecodeLease, DecodeLeaseGuard, KeepAlivePolicy, LeaseModel, LeaseTable};
use crate::registry::{sorted_by_id, EntryModel, ModelEntry, ModelRegistry};
use crate::session_cache::{without_model, SessionCache, SessionModel};
use crate::text::{decimal, decimal_text, join3, str_eq};
use crate::timers::{TimerCommand, TimerModel, TimerTable, UnloadHandle};

verus! {

/// The context limits of a checkpoint. A positional maximum of zero means that
/// the checkpoint does not say.
#[derive(Debug, Clone, Copy, PartialEq, Eq, Structural)]
pub struct ContextLimits {
    pub trained_max: usize,
    pub positional_max: usize,
}

impl ContextLimits {
    /// The limits of a checkpoint whose positions are not extended.
    pub fn trained_only(trained_max: usize) -> (r: ContextLimits)
        ensures
            r.trained_max == trained_max,
            r.positional_max == trained_max,
    {
        ContextLimits { trained_max, positional_max: trained_max }
    }
}

/// A generator that was just loaded: the key under which the caller keeps it,
/// and its context bounds.
#[derive(Debug, Clone, Copy, PartialEq, Eq, Structural)]
pub struct LoadedGenerator {
    pub model: u64,
    pub effective_max_ctx: usize,
    pub context_limits: Option<ContextLimits>,
}

/// A model in a slot. Times are nanoseconds of a clock that does not run backwards.
pub struct LoadedModel {
    pub id: String,
    /// The key under which the caller keeps the generator.
    pub model: u64,
    pub loaded_at: u64,
    pub last_used: u64,
    /// The longest prompt that the model takes.
    pub effective_max_ctx: usize,
    pub context_limits: Option<ContextLimits>,
    /// Counts the generations in flight. The unload timer lets a model stay
    /// while its lease is held.
    pub decode_lease: DecodeLease,
    pub unload_handle: UnloadHandle,
    pub keep_alive: KeepAlivePolicy,
}

/// What a [`LoadedModel`] stands for.
pub struct SlotModel {
    pub id: Seq<char>,
    pub model: u64,
    pub loaded_at: u64,
    pub last_used: u64,
    pub effective_max_ctx: usize,
    pub context_limits: Option<ContextLimits>,
    pub decode_lease: DecodeLease,
    pub unload_handle: UnloadHandle,
    pub keep_alive: KeepAlivePolicy,
}

impl View for LoadedModel {
    type V = SlotModel;

    open spec fn view(&self) -> SlotModel {
        SlotModel {
            id: self.id@,
            model: self.model,
            loaded_at: self.loaded_at,
            last_used: self.last_used,
            effective_max_ctx: self.effective_max_ctx,
            context_limits: self.context_limits,
            decode_lease: self.decode_lease,
            unload_handle: self.unload_handle,
            keep_alive: self.keep_alive,
        }
    }
}

/// A text in quotes, as std's `Debug` shows it: with what cannot be printed, and the
/// quotes and backslashes in it, escaped.
pub uninterp spec fn quoted_text(s: Seq<char>) -> Seq<char>;

/// `Debug` of std's `str` puts a text in quotes. What it makes of a text depends on
/// the text alone; which characters it escapes, and how, is left to std.
#[verifier::external_body]
fn quoted(s: &str) -> (r: String)
    ensures
        r@ == quoted_text(s@),
{
    format!("{s:?}")
}

/// The line that names a model in a log: its id in quotes, and when it was loaded.
pub open spec fn model_line(quoted_id: Seq<char>, loaded_at: u64) -> Seq<char> {
    "LoadedModel { id: "@ + quoted_id + ", loaded_at: "@ + decimal_text(loaded_at as nat) + " }"@
}

/// The line that names a model in a log, for an id that stands in quotes already.
pub fn loaded_model_text(quoted_id: &str, loaded_at: u64) -> (r: String)
    ensures
        r@ == model_line(quoted_id@, loaded_at),
{
    let mut out: String = join3("LoadedModel { id: ", quoted_id, ", loaded_at: ");
    out.append(decimal(loaded_at).as_str());
    out.append(" }");
    out
}

impl LoadedModel {
    /// The line that names the model in a log. It shows the id and the load time, the
    /// latter as the clock's number, and nothing else.
    pub fn debug_text(&self) -> (r: String)
        ensures
            r@ == model_line(quoted_text(self@.id), self@.loaded_at),
    {
        loaded_model_text(quoted(self.id.as_str()).as_str(), self.loaded_at)
    }
}

/// Why a model was unloaded.
#[derive(Debug, Clone, Copy, PartialEq, Eq, Structural)]
pub enum UnloadReason {
    /// A caller asked for it.
    Explicit,
    /// The model's timer fired after this many idle seconds.
    IdleTtl(u64),
    /// Another model needed the slot.
    CooperativeEvict,
}

impl UnloadReason {
    pub open spec fn event_text(self) -> Seq<char> {
        match self {
            UnloadReason::Explicit => "slots: unloading model"@,
            UnloadReason::IdleTtl(_) => "model_unload_idle"@,
            UnloadReason::CooperativeEvict => "model_unload_evict"@,
        }
    }

    /// The event under which the unload is logged.
    pub fn event(self) -> (r: &'static str)
        ensures
            r@ == self.event_text(),
    {
        match self {
            UnloadReason::Explicit => "slots: unloading model",
            UnloadReason::IdleTtl(_) => "model_unload_idle",
            UnloadReason::CooperativeEvict => "model_unload_evict",
        }
    }
}

/// A model that left its slot. The caller drops the generator and cancels the
/// timer with the token.
pub struct Unloaded {
    pub loaded: LoadedModel,
    pub reason: UnloadReason,
    pub abort: Option<u64>,
}

/// What the smoke probe of a snapshot found.
#[derive(Debug)]
pub enum SmokeVerdict {
    /// The output looks like language.
    Passed,
    /// The output decides nothing.
    Inconclusive,
    /// The output is one punctuation piece over and over.
    BrokenPunctLoop { dominant_piece: String, distinct_ids: u64 },
    /// The logits are not numbers.
    BrokenNan { at_step: u64 },
}

/// What has to be done for a model that was asked for.
pub enum LoadStep {
    /// The model is not in the registry.
    Missing(Error),
    /// The model is resident.
    Warm { model: u64, timer: TimerCommand },
    /// The model has to be loaded: drop what was evicted, probe the snapshot
    /// if told so, then load it.
    Cold { entry: ModelEntry, evicted: Option<Unloaded>, probe: bool },
}

/// What became of a model that was loaded.
pub enum LoadEnd {
    /// The model got a slot. Where the slots had filled up since room was made,
    /// another model was evicted.
    Settled { evicted: Option<Unloaded>, timer: TimerCommand },
    /// The model had become resident since. The caller drops what it loaded and
    /// uses the resident generator.
    AlreadyResident { model: u64, timer: TimerCommand },
}

/// What a timer that fired led to.
pub enum FireOutcome {
    /// A generation is in flight: the timer was armed again.
    Deferred(TimerCommand),
    /// A generation was in flight, but the model is no longer resident.
    Gone,
    /// The slot was reset or filled anew after the timer was armed.
    Stale,
    /// The model was unloaded.
    Unloaded(Unloaded),
}

/// The settings of the server that the model lifecycle reads.
pub struct SettingsModel {
    pub max_loaded_models: nat,
    pub idle_policy: KeepAlivePolicy,
    pub require_smoke_probe: bool,
    pub auth_token: Option<Seq<char>>,
    pub whisper_model_path: Option<Seq<char>>,
    pub whisper_tokenizer_path: Option<Seq<char>>,
}

/// What an [`AppState`] stands for.
pub struct ServerModel {
    pub registry: Seq<EntryModel>,
    pub slots: Seq<SlotModel>,
    pub leases: LeaseModel,
    pub timers: TimerModel,
    pub sessions: Seq<SessionModel>,
    pub session_capacity: nat,
    pub settings: SettingsModel,
}

/// The index of the first slot at or behind `i` that holds the model; the
/// number of slots if there is none.
pub open spec fn slot_from(slots: Seq<SlotModel>, id: Seq<char>, i: int) -> int
    decreases slots.len() - i,
{
    if i < 0 || i >= slots.len() {
        slots.len() as int
    } else if slots[i].id == id {
        i
    } else {
        slot_from(slots, id, i + 1)
    }
}

/// The index of the first slot that holds the model; the number of slots if
/// there is none.
pub open spec fn slot_of(slots: Seq<SlotModel>, id: Seq<char>) -> int {
    slot_from(slots, id, 0)
}

/// The index of the least recently used slot; the first one of several.
pub open spec fn lru_slot(slots: Seq<SlotModel>) -> int
    decreases slots.len(),
{
    if slots.len() <= 1 {
        0
    } else {
        let m = lru_slot(slots.drop_last());
        if slots.last().last_used < slots[m].last_used {
            slots.len() - 1
        } else {
            m
        }
    }
}

/// The slots after one was emptied. The last one takes its place.
pub open spec fn take_slot(slots: Seq<SlotModel>, i: int) -> Seq<SlotModel> {
    slots.update(i, slots.last()).drop_last()
}

/// How many models may be resident: the configured number, and at least one.
pub open spec fn resident_limit(max_loaded_models: nat) -> nat {
    if max_loaded_models == 0 {
        1
    } else {
        max_loaded_models
    }
}

/// Whether no model occupies two slots.
pub open spec fn distinct_ids(slots: Seq<SlotModel>) -> bool {
    forall|i: int, j: int|
        0 <= i < j < slots.len() ==> (#[trigger] slots[i]).id != (#[trigger] slots[j]).id
}

impl ServerModel {
    /// No more models are resident than may be, and none occupies two slots. Every
    /// slot's lease and handle were given out, and no two slots share a handle.
    pub open spec fn wf(self) -> bool {
        &&& self.slots.len() <= resident_limit(self.settings.max_loaded_models)
        &&& distinct_ids(self.slots)
        &&& sorted_by_id(self.registry)
        &&& self.leases.wf()
        &&& self.timers.wf()
        &&& forall|i: int|
            0 <= i < self.slots.len() ==> (#[trigger] self.slots[i]).decode_lease.id
                < self.leases.issued && self.slots[i].unload_handle.id < self.timers.handles
        &&& forall|i: int, j: int|
            0 <= i < j < self.slots.len() ==> (#[trigger] self.slots[i]).unload_handle != (
            #[trigger] self.slots[j]).unload_handle
    }

    /// A lease, a handle and a timer token can still be given out.
    pub open spec fn has_ids(self) -> bool {
        &&& self.leases.issued < u64::MAX
        &&& self.timers.handles < u64::MAX
        &&& self.timers.tokens < u64::MAX
    }

    /// Whether some slot holds the model.
    pub open spec fn resident(self, id: Seq<char>) -> bool {
        slot_of(self.slots, id) < self.slots.len()
    }

    /// The lease that is given out next.
    pub open spec fn next_lease(self) -> DecodeLease {
        DecodeLease { id: self.leases.issued as u64 }
    }

    /// The handle that is given out next.
    pub open spec fn next_handle(self) -> UnloadHandle {
        UnloadHandle { id: self.timers.handles as u64 }
    }

    /// The server after the handle was armed.
    pub open spec fn arm(
        self,
        policy: KeepAlivePolicy,
        lease: DecodeLease,
        handle: UnloadHandle,
        runtime: bool,
    ) -> ServerModel {
        ServerModel { timers: self.timers.arm(policy, lease, handle, runtime), ..self }
    }

    /// The server after slot `i` got a new lease and the given use time and
    /// policy, before its timer is armed.
    pub open spec fn renew_slot(self, i: int, last_used: u64, keep_alive: KeepAlivePolicy) -> ServerModel {
        ServerModel {
            leases: self.leases.issue(),
            slots: self.slots.update(
                i,
                SlotModel { last_used, keep_alive, decode_lease: self.next_lease(), ..self.slots[i] },
            ),
            ..self
        }
    }

    /// The server after slot `i` was renewed and its timer armed.
    pub open spec fn renew(self, i: int, last_used: u64, keep_alive: KeepAlivePolicy, runtime: bool) -> ServerModel {
        self.renew_slot(i, last_used, keep_alive).arm(
            keep_alive,
            self.next_lease(),
            self.slots[i].unload_handle,
            runtime,
        )
    }

    /// What the runtime is told when slot `i` is renewed.
    pub open spec fn renew_command(self, i: int, keep_alive: KeepAlivePolicy, runtime: bool) -> TimerCommand {
        self.timers.arm_command(keep_alive, self.next_lease(), self.slots[i].unload_handle, runtime)
    }

    /// The server after the model that was in a slot was finished off: its
    /// timer is taken out and its sessions are gone.
    pub open spec fn finish(self, slot: SlotModel) -> ServerModel {
        ServerModel {
            timers: self.timers.disarm(slot.unload_handle),
            sessions: without_model(self.sessions, slot.id),
            ..self
        }
    }

    /// The server after the model in slot `i` was unloaded.
    pub open spec fn drop_slot(self, i: int) -> ServerModel {
        (ServerModel { slots: take_slot(self.slots, i), ..self }).finish(self.slots[i])
    }

    /// Whether a model has to leave before another one is loaded.
    pub open spec fn must_evict(self) -> bool {
        &&& self.slots.len() >= self.settings.max_loaded_models
        &&& self.slots.len() > 0
    }

    /// The server after room was made for one more model.
    pub open spec fn make_room(self) -> ServerModel {
        if self.must_evict() {
            self.drop_slot(lru_slot(self.slots))
        } else {
            self
        }
    }

    /// The slot that a freshly loaded model gets.
    pub open spec fn new_slot(self, id: Seq<char>, now: u64, g: LoadedGenerator) -> SlotModel {
        SlotModel {
            id,
            model: g.model,
            loaded_at: now,
            last_used: now,
            effective_max_ctx: g.effective_max_ctx,
            context_limits: g.context_limits,
            decode_lease: self.next_lease(),
            unload_handle: self.next_handle(),
            keep_alive: self.settings.idle_policy,
        }
    }

    /// The server after a freshly loaded model got its slot and its timer.
    pub open spec fn settle(self, id: Seq<char>, now: u64, g: LoadedGenerator, runtime: bool) -> ServerModel {
        (ServerModel {
            leases: self.leases.issue(),
            timers: self.timers.give_handle(),
            slots: self.slots.push(self.new_slot(id, now, g)),
            ..self
        }).arm(self.settings.idle_policy, self.next_lease(), self.next_handle(), runtime)
    }

    /// What the runtime is told when a freshly loaded model settles.
    pub open spec fn settle_command(self, runtime: bool) -> TimerCommand {
        self.timers.arm_command(
            self.settings.idle_policy,
            self.next_lease(),
            self.next_handle(),
            runtime,
        )
    }

    /// Whether a timer that fired for a model with the given lease may unload
    /// it: nobody holds the lease, and the model's slot still has it.
    pub open spec fn fire_unloads(self, id: Seq<char>, lease: DecodeLease) -> bool {
        &&& self.leases.count(lease) == 0
        &&& self.resident(id)
        &&& self.slots[slot_of(self.slots, id)].decode_lease == lease
    }

    /// The server after a timer fired.
    pub open spec fn fire(self, id: Seq<char>, lease: DecodeLease, runtime: bool) -> ServerModel {
        let i = slot_of(self.slots, id);
        if self.leases.count(lease) > 0 {
            if self.resident(id) {
                self.arm(
                    self.slots[i].keep_alive,
                    self.slots[i].decode_lease,
                    self.slots[i].unload_handle,
                    runtime,
                )
            } else {
                self
            }
        } else if self.fire_unloads(id, lease) {
            self.drop_slot(i)
        } else {
            self
        }
    }
}

/// The text of an optional string.
pub open spec fn opt_text(o: Option<String>) -> Option<Seq<char>> {
    match o {
        Some(s) => Some(s@),
        None => None,
    }
}

/// The server's models and what the lifecycle reads of its settings.
pub struct AppState {
    pub registry: ModelRegistry,
    /// The resident models.
    pub slots: Vec<LoadedModel>,
    pub leases: LeaseTable,
    pub timers: TimerTable,
    pub session_cache: SessionCache,
    /// The most models that are resident at once.
    pub max_loaded_models: usize,
    /// The policy of every freshly loaded model.
    pub idle_policy: KeepAlivePolicy,
    /// Whether a snapshot is probed before it is loaded.
    pub require_smoke_probe: bool,
    /// The token that every request but a health check has to show.
    pub auth_token: Option<String>,
    pub whisper_model_path: Option<String>,
    pub whisper_tokenizer_path: Option<String>,
}

impl View for AppState {
    type V = ServerModel;

    open spec fn view(&self) -> ServerModel {
        ServerModel {
            registry: self.registry@,
            slots: self.slots@.map_values(|s: LoadedModel| s@),
            leases: self.leases@,
            timers: self.timers@,
            sessions: self.session_cache@,
            session_capacity: self.session_cache.capacity(),
            settings: SettingsModel {
                max_loaded_models: self.max_loaded_models as nat,
                idle_policy: self.idle_policy,
                require_smoke_probe: self.require_smoke_probe,
                auth_token: opt_text(self.auth_token),
                whisper_model_path: opt_text(self.whisper_model_path),
                whisper_tokenizer_path: opt_text(self.whisper_tokenizer_path),
            },
        }
    }
}

proof fn lemma_slot_from(slots: Seq<SlotModel>, id: Seq<char>, i: int)
    requires
        0 <= i <= slots.len(),
    ensures
        i <= slot_from(slots, id, i) <= slots.len(),
        slot_from(slots, id, i) < slots.len() ==> slots[slot_from(slots, id, i)].id == id,
        forall|j: int| i <= j < slot_from(slots, id, i) ==> (#[trigger] slots[j]).id != id,
    decreases slots.len() - i,
{
    if i < slots.len() && slots[i].id != id {
        lemma_slot_from(slots, id, i + 1);
    }
}

/// The slot of a model is the first one with its id, if one has it.
pub proof fn slot_of_is_first(slots: Seq<SlotModel>, id: Seq<char>)
    ensures
        0 <= slot_of(slots, id) <= slots.len(),
        slot_of(slots, id) < slots.len() ==> slots[slot_of(slots, id)].id == id,
        forall|j: int| 0 <= j < slot_of(slots, id) ==> (#[trigger] slots[j]).id != id,
{
    lemma_slot_from(slots, id, 0);
}

/// The least recently used slot was used no later than any other, and earlier
/// than every slot before it.
pub proof fn lru_slot_is_least_recent(slots: Seq<SlotModel>)
    requires
        slots.len() > 0,
    ensures
        0 <= lru_slot(slots) < slots.len(),
        forall|j: int|
            0 <= j < slots.len() ==> slots[lru_slot(slots)].last_used <= (
            #[trigger] slots[j]).last_used,
        forall|j: int|
            0 <= j < lru_slot(slots) ==> slots[lru_slot(slots)].last_used < (
            #[trigger] slots[j]).last_used,
    decreases slots.len(),
{
    if slots.len() > 1 {
        let d = slots.drop_last();
        lru_slot_is_least_recent(d);
        assert forall|j: int| 0 <= j < slots.len() implies slots[lru_slot(slots)].last_used <= (
        #[trigger] slots[j]).last_used by {
            if j < d.len() {
                assert(d[j] == slots[j]);
            }
        }
        assert forall|j: int| 0 <= j < lru_slot(slots) implies slots[lru_slot(slots)].last_used < (
        #[trigger] slots[j]).last_used by {
            assert(d[j] == slots[j]);
        }
    }
}

pub(crate) proof fn lemma_renew_keeps_ids(
    m: ServerModel,
    i: int,
    last_used: u64,
    policy: KeepAlivePolicy,
)
    requires
        distinct_ids(m.slots),
        0 <= i < m.slots.len(),
    ensures
        distinct_ids(m.renew_slot(i, last_used, policy).slots),
{
    let t = m.renew_slot(i, last_used, policy).slots;
    assert forall|a: int, b: int| 0 <= a < b < t.len() implies (#[trigger] t[a]).id != (
    #[trigger] t[b]).id by {
        assert(m.slots[a].id != m.slots[b].id);
    }
}

pub(crate) proof fn lemma_take_slot(slots: Seq<SlotModel>, i: int)
    requires
        distinct_ids(slots),
        0 <= i < slots.len(),
    ensures
        distinct_ids(take_slot(slots, i)),
        forall|s: SlotModel| #[trigger]
            take_slot(slots, i).contains(s) <==> slots.contains(s) && s != slots[i],
{
    let t = take_slot(slots, i);
    let last = slots.len() - 1;
    assert forall|a: int, b: int| 0 <= a < b < t.len() implies (#[trigger] t[a]).id != (
    #[trigger] t[b]).id by {
        let x = if a == i {
            last
        } else {
            a
        };
        let y = if b == i {
            last
        } else {
            b
        };
        assert(t[a] == slots[x] && t[b] == slots[y]);
        if x < y {
            assert(slots[x].id != slots[y].id);
        } else {
            assert(slots[y].id != slots[x].id);
        }
    }
    assert forall|s: SlotModel| #[trigger] t.contains(s) <==> slots.contains(s) && s != slots[i] by {
        if t.contains(s) {
            let k = choose|k: int| 0 <= k < t.len() && t[k] == s;
            let x = if k == i {
                last
            } else {
                k
            };
            assert(slots[x] == s);
            if x < i {
                assert(slots[x].id != slots[i].id);
            } else {
                assert(slots[i].id != slots[x].id);
            }
        }
        if slots.contains(s) && s != slots[i] {
            let k = choose|k: int| 0 <= k < slots.len() && slots[k] == s;
            if k == last {
                assert(t[i] == s);
            } else {
                assert(t[k] == s);
            }
        }
    }
}

pub(crate) proof fn lemma_make_room(m: ServerModel, id: Seq<char>)
    requires
        distinct_ids(m.slots),
        !m.resident(id),
    ensures
        distinct_ids(m.make_room().slots),
        !m.make_room().resident(id),
        m.slots.len() <= resident_limit(m.settings.max_loaded_models) ==> !m.make_room().must_evict(),
{
    let t = m.make_room().slots;
    slot_of_is_first(m.slots, id);
    slot_of_is_first(t, id);
    if m.must_evict() {
        lru_slot_is_least_recent(m.slots);
        lemma_take_slot(m.slots, lru_slot(m.slots));
        let k = slot_of(t, id);
        if k < t.len() {
            assert(t.contains(t[k]));
            assert(m.slots.contains(t[k]));
        }
    }
}

pub(crate) proof fn lemma_settle_keeps_ids(
    m: ServerModel,
    id: Seq<char>,
    now: u64,
    g: LoadedGenerator,
    runtime: bool,
)
    requires
        distinct_ids(m.slots),
        !m.resident(id),
    ensures
        distinct_ids(m.settle(id, now, g, runtime).slots),
{
    let t = m.settle(id, now, g, runtime).slots;
    slot_of_is_first(m.slots, id);
    assert forall|a: int, b: int| 0 <= a < b < t.len() implies (#[trigger] t[a]).id != (
    #[trigger] t[b]).id by {
        assert(t[a] == m.slots[a]);
        if b < m.slots.len() {
            assert(t[b] == m.slots[b]);
        }
    }
}

pub(crate) proof fn lemma_settled_at_end(
    m: ServerModel,
    id: Seq<char>,
    now: u64,
    g: LoadedGenerator,
    runtime: bool,
)
    requires
        !m.resident(id),
    ensures
        slot_of(m.settle(id, now, g, runtime).slots, id) == m.slots.len(),
        m.settle(id, now, g, runtime).resident(id),
{
    let t = m.settle(id, now, g, runtime).slots;
    slot_of_is_first(m.slots, id);
    slot_of_is_first(t, id);
    let k = slot_of(t, id);
    assert(t[m.slots.len() as int].id == id);
    if k < m.slots.len() {
        assert(t[k] == m.slots[k]);
    }
}

impl AppState {
    /// A server with no model resident.
    pub fn new(
        registry: ModelRegistry,
        max_loaded_models: usize,
        idle_policy: KeepAlivePolicy,
        require_smoke_probe: bool,
        session_cache: SessionCache,
        auth_token: Option<String>,
        whisper_model_path: Option<String>,
        whisper_tokenizer_path: Option<String>,
    ) -> (r: AppState)
        requires
            sorted_by_id(registry@),
        ensures
            r@.wf(),
            r@.has_ids(),
            r@.registry == registry@,
            r@.slots == Seq::<SlotModel>::empty(),
            r@.leases == (LeaseModel { issued: 0, held: Map::<u64, usize>::empty() }),
            r@.timers == (TimerModel {
                handles: 0,
                tokens: 0,
                armed: Map::<u64, u64>::empty(),
            }),
            r@.sessions == session_cache@,
            r@.session_capacity == session_cache.capacity(),
            r@.settings == (SettingsModel {
                max_loaded_models: max_loaded_models as nat,
                idle_policy,
                require_smoke_probe,
                auth_token: opt_text(auth_token),
                whisper_model_path: opt_text(whisper_model_path),
                whisper_tokenizer_path: opt_text(whisper_tokenizer_path),
            }),
    {
        let r = AppState {
            registry,
            slots: Vec::new(),
            leases: LeaseTable::new(),
            timers: TimerTable::new(),
            session_cache,
            max_loaded_models,
            idle_policy,
            require_smoke_probe,
            auth_token,
            whisper_model_path,
            whisper_tokenizer_path,
        };
        assert(r@.slots =~= Seq::<SlotModel>::empty());
        r
    }

    /// Whether a lease, a handle and a timer token can still be given out.
    pub fn ids_left(&self) -> (r: bool)
        ensures
            r == self@.has_ids(),
    {
        self.leases.can_issue() && self.timers.can_arm()
    }

    /// A line that names the server's size for a log: the models it knows, the
    /// latency samples it keeps, and the metric events that were dropped.
    pub fn debug_text(&self, ttft_samples: u64, itl_samples: u64, dropped: u64) -> (r: String)
        ensures
            r@ == "AppState { registry_len: "@ + decimal_text(self@.registry.len())
                + ", ttft_samples: "@ + decimal_text(ttft_samples as nat) + ", itl_samples: "@
                + decimal_text(itl_samples as nat) + ", metrics_drainer_dropped: "@ + decimal_text(
                dropped as nat,
            ) + " }"@,
    {
        let mut out: String = join3(
            "AppState { registry_len: ",
            decimal(self.registry.len() as u64).as_str(),
            ", ttft_samples: ",
        );
        out.append(decimal(ttft_samples).as_str());
        out.append(", itl_samples: ");
        out.append(decimal(itl_samples).as_str());
        out.append(", metrics_drainer_dropped: ");
        out.append(decimal(dropped).as_str());
        out.append(" }");
        out
    }

    /// The position of the first slot that holds the model.
    pub(crate) fn position(&self, model_id: &str) -> (r: Option<usize>)
        ensures
            match r {
                Some(i) => self@.resident(model_id@) && i == slot_of(self@.slots, model_id@),
                None => !self@.resident(model_id@),
            },
    {
        proof {
            slot_of_is_first(self@.slots, model_id@);
        }
        let mut i: usize = 0;
        while i < self.slots.len()
            invariant
                i <= self.slots.len(),
                self@.slots.len() == self.slots.len(),
                slot_of(self@.slots, model_id@) == slot_from(self@.slots, model_id@, i as int),
            decreases self.slots.len() - i,
        {
            assert(self@.slots[i as int] == self.slots@[i as int]@);
            if str_eq(self.slots[i].id.as_str(), model_id) {
                return Some(i);
            }
            i += 1;
        }
        None
    }

    /// The position of the least recently used slot.
    pub(crate) fn lru_position(&self) -> (r: usize)
        requires
            self.slots.len() > 0,
        ensures
            r == lru_slot(self@.slots),
            r < self.slots.len(),
    {
        let mut m: usize = 0;
        let mut i: usize = 1;
        while i < self.slots.len()
            invariant
                1 <= i <= self.slots.len(),
                self@.slots.len() == self.slots.len(),
                m < i,
                m == lru_slot(self@.slots.take(i as int)),
            decreases self.slots.len() - i,
        {
            proof {
                assert(self@.slots.take(i + 1).drop_last() =~= self@.slots.take(i as int));
                assert(self@.slots[i as int] == self.slots@[i as int]@);
                assert(self@.slots[m as int] == self.slots@[m as int]@);
            }
            if self.slots[i].last_used < self.slots[m].last_used {
                m = i;
            }
            i += 1;
        }
        assert(self@.slots.take(i as int) =~= self@.slots);
        m
    }

    /// The longest prompt that a resident model takes. A model that is not
    /// resident sets no bound.
    pub fn effective_max_ctx_for(&self, model_id: &str) -> (r: usize)
        ensures
            r == (if self@.resident(model_id@) {
                self@.slots[slot_of(self@.slots, model_id@)].effective_max_ctx
            } else {
                usize::MAX
            }),
    {
        match self.position(model_id) {
            Some(i) => {
                proof {
                    slot_of_is_first(self@.slots, model_id@);
                }
                self.slots[i].effective_max_ctx
            },
            None => usize::MAX,
        }
    }

    /// The context limits of a resident model.
    pub fn context_limits_for(&self, model_id: &str) -> (r: Option<ContextLimits>)
        ensures
            r == (if self@.resident(model_id@) {
                self@.slots[slot_of(self@.slots, model_id@)].context_limits
            } else {
                None
            }),
    {
        match self.position(model_id) {
            Some(i) => {
                proof {
                    slot_of_is_first(self@.slots, model_id@);
                }
                self.slots[i].context_limits
            },
            None => None,
        }
    }

    /// Arms the unload timer of a handle under a policy, in place of the one
    /// that was armed. A pinned model gets no timer. Where a timer is due but the
    /// caller has no runtime to sleep in, nothing happens.
    pub fn arm_or_reset_timer(
        &mut self,
        policy: KeepAlivePolicy,
        decode_lease: DecodeLease,
        handle: UnloadHandle,
        runtime: bool,
    ) -> (r: TimerCommand)
        requires
            old(self)@.wf(),
            old(self)@.timers.tokens < u64::MAX,
            handle.id < old(self)@.timers.handles,
        ensures
            r == old(self)@.timers.arm_command(policy, decode_lease, handle, runtime),
            final(self)@ == old(self)@.arm(policy, decode_lease, handle, runtime),
            final(self)@.wf(),
    {
        self.timers.arm(policy, decode_lease, handle, runtime)
    }

    /// Gives slot `i` a new lease and arms its timer.
    pub(crate) fn renew(&mut self, i: usize, last_used: u64, keep_alive: KeepAlivePolicy, runtime: bool) -> (r:
        TimerCommand)
        requires
            old(self)@.wf(),
            old(self)@.has_ids(),
            i < old(self)@.slots.len(),
        ensures
            r == old(self)@.renew_command(i as int, keep_alive, runtime),
            final(self)@ == old(self)@.renew(i as int, last_used, keep_alive, runtime),
            final(self)@.wf(),
    {
        let ghost before = self@;
        let lease: DecodeLease = self.leases.fresh();
        self.slots[i].last_used = last_used;
        self.slots[i].keep_alive = keep_alive;
        self.slots[i].decode_lease = lease;
        let handle: UnloadHandle = self.slots[i].unload_handle;
        proof {
            assert(self@.slots =~= before.renew_slot(i as int, last_used, keep_alive).slots);
            assert(self@ == before.renew_slot(i as int, last_used, keep_alive));
            assert(before.slots[i as int].unload_handle == handle);
            lemma_renew_keeps_ids(before, i as int, last_used, keep_alive);
        }
        self.arm_or_reset_timer(keep_alive, lease, handle, runtime)
    }

    /// Finishes off a model that has left its slot: takes out its timer and
    /// drops its sessions.
    fn finalize_unload(&mut self, loaded: LoadedModel, reason: UnloadReason) -> (r: Unloaded)
        requires
            old(self)@.wf(),
        ensures
            r.loaded@ == loaded@,
            r.reason == reason,
            r.abort == old(self)@.timers.token(loaded@.unload_handle),
            final(self)@ == old(self)@.finish(loaded@),
            final(self)@.wf(),
    {
        let abort: Option<u64> = self.timers.disarm(loaded.unload_handle);
        self.session_cache.remove_model(loaded.id.as_str());
        Unloaded { loaded, reason, abort }
    }

    /// Unloads the model in slot `i`. The model in the last slot takes the
    /// place.
    pub(crate) fn drop_slot(&mut self, i: usize, reason: UnloadReason) -> (r: Unloaded)
        requires
            old(self)@.wf(),
            i < old(self)@.slots.len(),
        ensures
            r.loaded@ == old(self)@.slots[i as int],
            r.reason == reason,
            r.abort == old(self)@.timers.token(old(self)@.slots[i as int].unload_handle),
            final(self)@ == old(self)@.drop_slot(i as int),
            final(self)@.wf(),
    {
        let ghost before = self@;
        let loaded: LoadedModel = self.slots.swap_remove(i);
        proof {
            assert(before.slots[i as int] == loaded@);
            assert(self@.slots =~= take_slot(before.slots, i as int));
            assert(self@ == ServerModel { slots: take_slot(before.slots, i as int), ..before });
            lemma_take_slot(before.slots, i as int);
            assert forall|a: int, b: int| 0 <= a < b < self@.slots.len() implies (
            #[trigger] self@.slots[a]).unload_handle != (#[trigger] self@.slots[b]).unload_handle by {
                let last = before.slots.len() - 1;
                assert(before.slots[if a == i { last } else { a }].unload_handle
                    != before.slots[if b == i { last } else { b }].unload_handle);
            }
        }
        self.finalize_unload(loaded, reason)
    }

    /// Unloads a model on behalf of a caller. See
    /// [`AppState::unload_with_reason`].
    pub fn unload(&mut self, model_id: &str) -> (r: Option<Unloaded>)
        requires
            old(self)@.wf(),
        ensures
            old(self)@.unload_answer(model_id@, UnloadReason::Explicit, r, final(self)@),
    {
        self.unload_with_reason(model_id, UnloadReason::Explicit)
    }

    /// Unloads a model if it is resident, together with its timer and its
    /// sessions.
    pub fn unload_with_reason(&mut self, model_id: &str, reason: UnloadReason) -> (r: Option<
        Unloaded,
    >)
        requires
            old(self)@.wf(),
        ensures
            old(self)@.unload_answer(model_id@, reason, r, final(self)@),
    {
        proof {
            slot_of_is_first(self@.slots, model_id@);
        }
        match self.position(model_id) {
            Some(i) => Some(self.drop_slot(i, reason)),
            None => None,
        }
    }

    /// Resets the timer of a resident model, under a new policy if one is
    /// given.
    pub fn reset_keep_alive(
        &mut self,
        model_id: &str,
        override_policy: Option<KeepAlivePolicy>,
        runtime: bool,
    ) -> (r: Option<TimerCommand>)
        requires
            old(self)@.wf(),
            old(self)@.has_ids(),
        ensures
            final(self)@.wf(),
            !old(self)@.resident(model_id@) ==> r is None && final(self)@ == old(self)@,
            old(self)@.resident(model_id@) ==> ({
                let i = slot_of(old(self)@.slots, model_id@);
                let slot = old(self)@.slots[i];
                let policy = match override_policy {
                    Some(p) => p,
                    None => slot.keep_alive,
                };
                &&& r == Some(old(self)@.renew_command(i, policy, runtime))
                &&& final(self)@ == old(self)@.renew(i, slot.last_used, policy, runtime)
            }),
    {
        proof {
            slot_of_is_first(self@.slots, model_id@);
        }
        match self.position(model_id) {
            Some(i) => {
                let policy: KeepAlivePolicy = match override_policy {
                    Some(p) => p,
                    None => self.slots[i].keep_alive,
                };
                let last_used: u64 = self.slots[i].last_used;
                Some(self.renew(i, last_used, policy, runtime))
            },
            None => None,
        }
    }

    /// Counts one more generation under the lease of a resident model.
    pub fn decode_lease_guard(&mut self, model_id: &str) -> (r: Option<DecodeLeaseGuard>)
        requires
            old(self)@.wf(),
            old(self)@.resident(model_id@) ==> old(self)@.leases.count(
                old(self)@.slots[slot_of(old(self)@.slots, model_id@)].decode_lease,
            ) < usize::MAX,
        ensures
            final(self)@.wf(),
            !old(self)@.resident(model_id@) ==> r is None && final(self)@ == old(self)@,
            old(self)@.resident(model_id@) ==> ({
                let lease = old(self)@.slots[slot_of(old(self)@.slots, model_id@)].decode_lease;
                &&& r is Some && r->0.lease == lease
                &&& final(self)@ == ServerModel {
                    leases: old(self)@.leases.acquire(lease),
                    ..old(self)@
                }
            }),
    {
        proof {
            slot_of_is_first(self@.slots, model_id@);
        }
        match self.position(model_id) {
            Some(i) => {
                let lease: DecodeLease = self.slots[i].decode_lease;
                assert(self@.slots[i as int].decode_lease == lease);
                Some(self.leases.acquire(lease))
            },
            None => None,
        }
    }

    /// Ends a generation that was counted under a lease.
    pub fn end_decode(&mut self, guard: DecodeLeaseGuard)
        requires
            old(self)@.wf(),
            old(self)@.leases.count(guard.lease) > 0,
        ensures
            final(self)@.wf(),
            final(self)@ == (ServerModel {
                leases: old(self)@.leases.release(guard.lease),
                ..old(self)@
            }),
    {
        self.leases.release(guard);
    }

    /// The paths of the speech model and of its tokenizer, if both are set.
    pub fn audio_paths(&self) -> (r: Option<(String, String)>)
        ensures
            match r {
                Some((m, t)) => {
                    &&& self@.settings.whisper_model_path == Some(m@)
                    &&& self@.settings.whisper_tokenizer_path == Some(t@)
                },
                None => self@.settings.whisper_model_path is None
                    || self@.settings.whisper_tokenizer_path is None,
            },
    {
        match (&self.whisper_model_path, &self.whisper_tokenizer_path) {
            (Some(m), Some(t)) => Some((m.clone(), t.clone())),
            _ => None,
        }
    }
}

impl ServerModel {
    /// What unloading a model answers, and what it leaves behind: `None` and no
    /// change where the model is not resident.
    pub open spec fn unload_answer(
        self,
        id: Seq<char>,
        reason: UnloadReason,
        r: Option<Unloaded>,
        after: ServerModel,
    ) -> bool {
        let i = slot_of(self.slots, id);
        &&& after.wf()
        &&& !self.resident(id) ==> r is None && after == self
        &&& self.resident(id) ==> {
            &&& r is Some
            &&& r->0.loaded@ == self.slots[i]
            &&& r->0.reason == reason
            &&& r->0.abort == self.timers.token(self.slots[i].unload_handle)
            &&& after == self.drop_slot(i)
        }
    }

    /// What a timer that fired answers.
    pub open spec fn fire_answer(
        self,
        id: Seq<char>,
        lease: DecodeLease,
        ttl_secs: u64,
        runtime: bool,
        r: FireOutcome,
    ) -> bool {
        let i = slot_of(self.slots, id);
        match r {
            FireOutcome::Deferred(c) => {
                &&& self.leases.count(lease) > 0
                &&& self.resident(id)
                &&& c == self.timers.arm_command(
                    self.slots[i].keep_alive,
                    self.slots[i].decode_lease,
                    self.slots[i].unload_handle,
                    runtime,
                )
            },
            FireOutcome::Gone => self.leases.count(lease) > 0 && !self.resident(id),
            FireOutcome::Stale => self.leases.count(lease) == 0 && !self.fire_unloads(id, lease),
            FireOutcome::Unloaded(u) => {
                &&& self.fire_unloads(id, lease)
                &&& u.loaded@ == self.slots[i]
                &&& u.reason == UnloadReason::IdleTtl(ttl_secs)
                &&& u.abort == self.timers.token(self.slots[i].unload_handle)
            },
        }
    }
}

impl AppState {
    /// Decides what becomes of a model whose timer fired. While a generation
    /// holds the timer's lease the timer is armed again. Otherwise the model is
    /// unloaded, unless its slot was reset or filled anew since.
    pub fn timer_fired(
        &mut self,
        model_id: &str,
        lease: DecodeLease,
        ttl_secs: u64,
        runtime: bool,
    ) -> (r: FireOutcome)
        requires
            old(self)@.wf(),
            old(self)@.timers.tokens < u64::MAX,
        ensures
            final(self)@.wf(),
            old(self)@.fire_answer(model_id@, lease, ttl_secs, runtime, r),
            final(self)@ == old(self)@.fire(model_id@, lease, runtime),
    {
        proof {
            slot_of_is_first(self@.slots, model_id@);
        }
        let at: Option<usize> = self.position(model_id);
        if self.leases.count(lease) > 0 {
            return match at {
                Some(i) => {
                    assert(self@.slots[i as int] == self.slots@[i as int]@);
                    let policy: KeepAlivePolicy = self.slots[i].keep_alive;
                    let current: DecodeLease = self.slots[i].decode_lease;
                    let handle: UnloadHandle = self.slots[i].unload_handle;
                    FireOutcome::Deferred(
                        self.arm_or_reset_timer(policy, current, handle, runtime),
                    )
                },
                None => FireOutcome::Gone,
            };
        }
        match at {
            Some(i) => {
                assert(self@.slots[i as int] == self.slots@[i as int]@);
                if self.slots[i].decode_lease == lease {
                    FireOutcome::Unloaded(self.drop_slot(i, UnloadReason::IdleTtl(ttl_secs)))
                } else {
                    FireOutcome::Stale
                }
            },
            None => FireOutcome::Stale,
        }
    }
}

} // verus!
