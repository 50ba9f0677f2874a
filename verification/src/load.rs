//! Loading a model on request, and the preload at startup.

use vstd::prelude::*;
use vstd::string::*;

use crate::errors::{Error, ErrorModel};
use crate::keep_alive::DecodeLease;
use crate::registry::{entry_for, registers, ModelEntry};
use crate::state::{
    distinct_ids, lemma_make_room, lemma_settle_keeps_ids, lemma_settled_at_end, lru_slot,
    resident_limit, slot_of, slot_of_is_first, AppState, LoadEnd, LoadStep, LoadedGenerator,
    LoadedModel, ServerModel, SmokeVerdict, UnloadReason, Unloaded,
};
use crate::text::{decimal, decimal_text, join3};
use crate::timers::{TimerCommand, UnloadHandle};

verus! {

/// The message for a model that is not in the registry.
pub open spec fn missing_text(id: Seq<char>) -> Seq<char> {
    "model '"@ + id + "' not found in registry"@
}

/// The message with which a snapshot is refused after its probe; `None` where
/// it may be served.
pub open spec fn probe_refusal(id: Seq<char>, outcome: Result<SmokeVerdict, String>) -> Option<
    Seq<char>,
> {
    match outcome {
        Err(e) => Some(id + ": "@ + e@),
        Ok(SmokeVerdict::Passed) => None,
        Ok(SmokeVerdict::Inconclusive) => None,
        Ok(SmokeVerdict::BrokenPunctLoop { dominant_piece, distinct_ids }) => Some(
            "smoke probe failed for '"@ + id + "': broken_punct_loop (dominant='"@
                + dominant_piece@ + "', distinct_ids="@ + decimal_text(distinct_ids as nat) + ")"@,
        ),
        Ok(SmokeVerdict::BrokenNan { at_step }) => Some(
            "smoke probe failed for '"@ + id + "': broken_nan at step "@ + decimal_text(
                at_step as nat,
            ),
        ),
    }
}

/// Refuses a snapshot whose probe failed or did not run. An inconclusive probe
/// lets it pass.
pub fn probe_gate(model_id: &str, outcome: &Result<SmokeVerdict, String>) -> (r: Result<(), Error>)
    ensures
        match probe_refusal(model_id@, *outcome) {
            None => r is Ok,
            Some(text) => r is Err && r->Err_0@ == ErrorModel::SmokeProbe(text),
        },
{
    match outcome {
        Err(e) => {
            let text: String = join3(model_id, ": ", e.as_str());
            Err(Error::SmokeProbe(text))
        },
        Ok(SmokeVerdict::Passed) => Ok(()),
        Ok(SmokeVerdict::Inconclusive) => Ok(()),
        Ok(SmokeVerdict::BrokenPunctLoop { dominant_piece, distinct_ids }) => {
            let mut text: String = join3(
                "smoke probe failed for '",
                model_id,
                "': broken_punct_loop (dominant='",
            );
            text.append(dominant_piece.as_str());
            text.append("', distinct_ids=");
            text.append(decimal(*distinct_ids).as_str());
            text.append(")");
            Err(Error::SmokeProbe(text))
        },
        Ok(SmokeVerdict::BrokenNan { at_step }) => {
            let mut text: String = join3(
                "smoke probe failed for '",
                model_id,
                "': broken_nan at step ",
            );
            text.append(decimal(*at_step).as_str());
            Err(Error::SmokeProbe(text))
        },
    }
}

impl ServerModel {
    /// What the first step of a load answers, and what it leaves behind.
    pub open spec fn begin_answer(
        self,
        id: Seq<char>,
        now: u64,
        runtime: bool,
        r: LoadStep,
        after: ServerModel,
    ) -> bool {
        let i = slot_of(self.slots, id);
        match r {
            LoadStep::Missing(e) => {
                &&& !registers(self.registry, id)
                &&& e@ == ErrorModel::Model(missing_text(id))
                &&& after == self
            },
            LoadStep::Warm { model, timer } => {
                &&& registers(self.registry, id)
                &&& self.resident(id)
                &&& model == self.slots[i].model
                &&& timer == self.renew_command(i, self.slots[i].keep_alive, runtime)
                &&& after == self.renew(i, now, self.slots[i].keep_alive, runtime)
            },
            LoadStep::Cold { entry, evicted, probe } => {
                &&& registers(self.registry, id)
                &&& !self.resident(id)
                &&& entry@ == entry_for(self.registry, id)
                &&& probe == self.settings.require_smoke_probe
                &&& self.eviction(evicted)
                &&& after == self.make_room()
            },
        }
    }

    /// What the last step of a load answers, and what it leaves behind.
    pub open spec fn finish_answer(
        self,
        id: Seq<char>,
        now: u64,
        g: LoadedGenerator,
        runtime: bool,
        r: LoadEnd,
        after: ServerModel,
    ) -> bool {
        let i = slot_of(self.slots, id);
        match r {
            LoadEnd::Settled { evicted, timer } => {
                &&& !self.resident(id)
                &&& self.eviction(evicted)
                &&& timer == self.make_room().settle_command(runtime)
                &&& after == self.make_room().settle(id, now, g, runtime)
            },
            LoadEnd::AlreadyResident { model, timer } => {
                &&& self.resident(id)
                &&& model == self.slots[i].model
                &&& timer == self.renew_command(i, self.slots[i].keep_alive, runtime)
                &&& after == self.renew(i, now, self.slots[i].keep_alive, runtime)
            },
        }
    }

    /// Whether a model is known and has to be loaded.
    pub open spec fn needs_load(self, id: Seq<char>) -> bool {
        registers(self.registry, id) && !self.resident(id)
    }

    /// What is handed over of the model that leaves to make room.
    pub open spec fn eviction(self, evicted: Option<Unloaded>) -> bool {
        match evicted {
            None => !self.must_evict(),
            Some(u) => {
                &&& self.must_evict()
                &&& u.loaded@ == self.slots[lru_slot(self.slots)]
                &&& u.reason == UnloadReason::CooperativeEvict
                &&& u.abort == self.timers.token(u.loaded@.unload_handle)
            },
        }
    }
}

impl AppState {
    /// The first step of a load. A resident model is renewed and nothing else
    /// is left to do. Otherwise room is made for the model: where the slots are
    /// full the least recently used one is emptied, whatever its policy.
    pub fn begin_load(&mut self, model_id: &str, now: u64, runtime: bool) -> (r: LoadStep)
        requires
            old(self)@.wf(),
            old(self)@.has_ids(),
        ensures
            final(self)@.wf(),
            old(self)@.begin_answer(model_id@, now, runtime, r, final(self)@),
    {
        let entry: ModelEntry = match self.registry.get(model_id) {
            Some(e) => e.copy(),
            None => {
                let text: String = join3("model '", model_id, "' not found in registry");
                return LoadStep::Missing(Error::Model(text));
            },
        };
        proof {
            slot_of_is_first(self@.slots, model_id@);
        }
        match self.position(model_id) {
            Some(i) => {
                assert(self@.slots[i as int] == self.slots@[i as int]@);
                let model: u64 = self.slots[i].model;
                let policy = self.slots[i].keep_alive;
                let timer: TimerCommand = self.renew(i, now, policy, runtime);
                LoadStep::Warm { model, timer }
            },
            None => {
                let probe: bool = self.require_smoke_probe;
                let evicted: Option<Unloaded> = self.evict_for_one();
                LoadStep::Cold { entry, evicted, probe }
            },
        }
    }

    /// The last step of a load: gives the freshly loaded model its slot and arms
    /// its timer under the server's policy. What changed since the first step is
    /// looked at anew: a model that has become resident is renewed instead, and
    /// where the slots have filled up the least recently used one is emptied.
    pub fn finish_load(
        &mut self,
        model_id: &str,
        now: u64,
        generator: LoadedGenerator,
        runtime: bool,
    ) -> (r: LoadEnd)
        requires
            old(self)@.wf(),
            old(self)@.has_ids(),
        ensures
            final(self)@.wf(),
            old(self)@.finish_answer(model_id@, now, generator, runtime, r, final(self)@),
    {
        proof {
            slot_of_is_first(self@.slots, model_id@);
        }
        if let Some(i) = self.position(model_id) {
            assert(self@.slots[i as int] == self.slots@[i as int]@);
            let model: u64 = self.slots[i].model;
            let policy = self.slots[i].keep_alive;
            let timer: TimerCommand = self.renew(i, now, policy, runtime);
            return LoadEnd::AlreadyResident { model, timer };
        }
        proof {
            lemma_make_room(self@, model_id@);
        }
        let evicted: Option<Unloaded> = self.evict_for_one();
        let timer: TimerCommand = self.settle(model_id, now, generator, runtime);
        LoadEnd::Settled { evicted, timer }
    }

    /// Empties the least recently used slot where the slots are full.
    fn evict_for_one(&mut self) -> (r: Option<Unloaded>)
        requires
            old(self)@.wf(),
        ensures
            final(self)@.wf(),
            old(self)@.eviction(r),
            final(self)@ == old(self)@.make_room(),
    {
        if self.slots.len() >= self.max_loaded_models && self.slots.len() > 0 {
            let i: usize = self.lru_position();
            Some(self.drop_slot(i, UnloadReason::CooperativeEvict))
        } else {
            None
        }
    }

    /// Gives a model a slot, where there is room for one.
    fn settle(
        &mut self,
        model_id: &str,
        now: u64,
        generator: LoadedGenerator,
        runtime: bool,
    ) -> (r: TimerCommand)
        requires
            old(self)@.wf(),
            old(self)@.has_ids(),
            !old(self)@.resident(model_id@),
            !old(self)@.must_evict(),
        ensures
            final(self)@.wf(),
            r == old(self)@.settle_command(runtime),
            final(self)@ == old(self)@.settle(model_id@, now, generator, runtime),
    {
        let ghost before = self@;
        let lease: DecodeLease = self.leases.fresh();
        let handle: UnloadHandle = self.timers.fresh_handle();
        let policy = self.idle_policy;
        self.slots.push(
            LoadedModel {
                id: model_id.to_owned(),
                model: generator.model,
                loaded_at: now,
                last_used: now,
                effective_max_ctx: generator.effective_max_ctx,
                context_limits: generator.context_limits,
                decode_lease: lease,
                unload_handle: handle,
                keep_alive: policy,
            },
        );
        proof {
            assert(self@.slots =~= before.slots.push(before.new_slot(model_id@, now, generator)));
            lemma_settle_keeps_ids(before, model_id@, now, generator, runtime);
        }
        self.arm_or_reset_timer(policy, lease, handle, runtime)
    }
}

/// A model that is ready for a request: the key of its generator, whether it was
/// just loaded, and what the runtime is told about its timer.
#[derive(Debug, Clone, Copy, PartialEq, Eq, Structural)]
pub struct Ready {
    pub model: u64,
    pub cold: bool,
    pub timer: TimerCommand,
}

impl ServerModel {
    /// What a load answers once the snapshot was accepted, and what it leaves
    /// behind: the loader's error as it is, or the model in its slot.
    pub open spec fn loader_answer<C, L>(
        self,
        id: Seq<char>,
        runtime: bool,
        clock: C,
        loader: L,
        r: Result<Ready, Error>,
        after: ServerModel,
    ) -> bool where C: Fn() -> u64, L: FnOnce(&ModelEntry) -> Result<LoadedGenerator, Error> {
        exists|e: &ModelEntry, loaded: Result<LoadedGenerator, Error>, now: u64|
            #![trigger call_ensures(loader, (e,), loaded), call_ensures(clock, (), now)]
            {
                &&& e@ == entry_for(self.registry, id)
                &&& call_ensures(loader, (e,), loaded)
                &&& call_ensures(clock, (), now)
                &&& match loaded {
                    Err(error) => r == Err::<Ready, Error>(error) && after == self,
                    Ok(g) => {
                        &&& r == Ok::<Ready, Error>(
                            Ready {
                                model: g.model,
                                cold: true,
                                timer: self.settle_command(runtime),
                            },
                        )
                        &&& after == self.settle(id, now, g, runtime)
                    },
                }
            }
    }
}

impl AppState {
    /// Makes a model ready for a request.
    ///
    /// A model that is not in the registry is an error. A resident model is
    /// renewed. Any other is loaded: room is made and what left is handed to
    /// `release`; where the server asks for a probe, `probe` is run and its
    /// outcome decides; then `loader` is run. An error of the loader is handed
    /// on as it is, so that a caller can tell a refusal that only a changed flag
    /// can mend from a passing failure. An evicted model stays evicted even if
    /// the probe or the loader then fails.
    ///
    /// The callbacks run where they are due and nowhere else: none of them for an
    /// unknown or a resident model, and the loader only once what was evicted is
    /// released and the probe has let the snapshot pass.
    pub fn ensure_loaded<C, E, P, L>(
        &mut self,
        model_id: &str,
        runtime: bool,
        clock: C,
        release: E,
        probe: P,
        loader: L,
    ) -> (r: Result<Ready, Error>) where
        C: Fn() -> u64,
        E: FnOnce(Unloaded),
        P: FnOnce(&ModelEntry) -> Result<SmokeVerdict, String>,
        L: FnOnce(&ModelEntry) -> Result<LoadedGenerator, Error>,

        requires
            old(self)@.wf(),
            old(self)@.has_ids(),
            call_requires(clock, ()),
            forall|u: Unloaded|
                old(self)@.needs_load(model_id@) && old(self)@.eviction(Some(u))
                    ==> #[trigger] call_requires(release, (u,)),
            forall|e: &ModelEntry|
                old(self)@.needs_load(model_id@) && old(self)@.settings.require_smoke_probe && e@
                    == entry_for(old(self)@.registry, model_id@) ==> #[trigger] call_requires(
                    probe,
                    (e,),
                ),
            forall|e: &ModelEntry|
                old(self)@.needs_load(model_id@) && e@ == entry_for(old(self)@.registry, model_id@)
                    && (old(self)@.must_evict() ==> exists|u: Unloaded|
                    old(self)@.eviction(Some(u)) && #[trigger] call_ensures(release, (u,), ())) && (
                old(self)@.settings.require_smoke_probe ==> exists|
                    p: &ModelEntry,
                    v: Result<SmokeVerdict, String>,
                | #[trigger]
                    call_ensures(probe, (p,), v) && probe_refusal(model_id@, v) is None)
                    ==> #[trigger] call_requires(loader, (e,)),
        ensures
            final(self)@.wf(),
            final(self)@.slots.len() <= resident_limit(old(self)@.settings.max_loaded_models),
            distinct_ids(final(self)@.slots),
            r is Ok ==> final(self)@.resident(model_id@) && r->Ok_0.cold == !old(self)@.resident(
                model_id@,
            ),
            !registers(old(self)@.registry, model_id@) ==> {
                &&& r is Err
                &&& r->Err_0@ == ErrorModel::Model(missing_text(model_id@))
                &&& final(self)@ == old(self)@
            },
            registers(old(self)@.registry, model_id@) && old(self)@.resident(model_id@) ==> exists|
                now: u64,
            |
                {
                    let i = slot_of(old(self)@.slots, model_id@);
                    let policy = old(self)@.slots[i].keep_alive;
                    &&& #[trigger] call_ensures(clock, (), now)
                    &&& r == Ok::<Ready, Error>(
                        Ready {
                            model: old(self)@.slots[i].model,
                            cold: false,
                            timer: old(self)@.renew_command(i, policy, runtime),
                        },
                    )
                    &&& final(self)@ == old(self)@.renew(i, now, policy, runtime)
                },
            old(self)@.needs_load(model_id@) && old(self)@.must_evict() ==> exists|u: Unloaded|
                old(self)@.eviction(Some(u)) && #[trigger] call_ensures(release, (u,), ()),
            old(self)@.needs_load(model_id@) && !old(self)@.settings.require_smoke_probe ==> old(self)@.make_room().loader_answer(
                model_id@,
                runtime,
                clock,
                loader,
                r,
                final(self)@,
            ),
            old(self)@.needs_load(model_id@) && old(self)@.settings.require_smoke_probe ==> exists|
                e: &ModelEntry,
                v: Result<SmokeVerdict, String>,
            |
                {
                    &&& e@ == entry_for(old(self)@.registry, model_id@)
                    &&& #[trigger] call_ensures(probe, (e,), v)
                    &&& match probe_refusal(model_id@, v) {
                        Some(text) => {
                            &&& r is Err
                            &&& r->Err_0@ == ErrorModel::SmokeProbe(text)
                            &&& final(self)@ == old(self)@.make_room()
                        },
                        None => old(self)@.make_room().loader_answer(
                            model_id@,
                            runtime,
                            clock,
                            loader,
                            r,
                            final(self)@,
                        ),
                    }
                },
    {
        proof {
            slot_of_is_first(self@.slots, model_id@);
        }
        let now: u64 = clock();
        match self.begin_load(model_id, now, runtime) {
            LoadStep::Missing(e) => Err(e),
            LoadStep::Warm { model, timer } => {
                proof {
                    slot_of_is_first(self@.slots, model_id@);
                    assert(self@.slots[slot_of(old(self)@.slots, model_id@)].id == model_id@);
                }
                Ok(Ready { model, cold: false, timer })
            },
            LoadStep::Cold { entry, evicted, probe: wanted } => {
                if let Some(u) = evicted {
                    release(u);
                }
                let ghost roomy = self@;
                if wanted {
                    let verdict: Result<SmokeVerdict, String> = probe(&entry);
                    match probe_gate(model_id, &verdict) {
                        Ok(()) => {},
                        Err(e) => {
                            return Err(e);
                        },
                    }
                }
                match loader(&entry) {
                    Err(e) => Err(e),
                    Ok(g) => {
                        let loaded_at: u64 = clock();
                        proof {
                            lemma_make_room(old(self)@, model_id@);
                            lemma_settled_at_end(roomy, model_id@, loaded_at, g, runtime);
                        }
                        match self.finish_load(model_id, loaded_at, g, runtime) {
                            LoadEnd::Settled { evicted: _, timer } => {
                                assert(self@ == roomy.settle(model_id@, loaded_at, g, runtime));
                                Ok(Ready { model: g.model, cold: true, timer })
                            },
                            LoadEnd::AlreadyResident { model, timer } => Ok(
                                Ready { model, cold: false, timer },
                            ),
                        }
                    },
                }
            },
        }
    }
}

/// Whether a failed load ends the startup: only a context above what the
/// checkpoint can address does, since no later attempt can succeed.
pub open spec fn is_fatal(outcome: Result<(), Error>) -> bool {
    outcome is Err && outcome->Err_0 is ContextCeilingExceeded
}

/// The message with which startup ends.
pub open spec fn fatal_text(id: Seq<char>, shown: Seq<char>) -> Seq<char> {
    "model '"@ + id + "': "@ + shown
}

/// The message with which a load attempt ends the startup, if it does.
pub fn preload_verdict(id: &str, outcome: &Result<(), Error>) -> (r: Option<String>)
    ensures
        match r {
            Some(m) => is_fatal(*outcome) && m@ == fatal_text(id@, outcome->Err_0@.text()),
            None => !is_fatal(*outcome),
        },
{
    match outcome {
        Err(e) => match e {
            Error::ContextCeilingExceeded { .. } => {
                let mut m: String = join3("model '", id, "': ");
                m.append(e.message().as_str());
                Some(m)
            },
            _ => None,
        },
        Ok(()) => None,
    }
}

impl AppState {
    /// The ids of the models to load at startup: all of the registry, in its order.
    pub fn preload_ids(&self) -> (r: Vec<String>)
        ensures
            r@.len() == self@.registry.len(),
            forall|k: int| 0 <= k < r@.len() ==> (#[trigger] r@[k])@ == self@.registry[k].id,
    {
        let mut ids: Vec<String> = Vec::new();
        while ids.len() < self.registry.len()
            invariant
                ids.len() <= self@.registry.len(),
                forall|k: int| 0 <= k < ids@.len() ==> (#[trigger] ids@[k])@ == self@.registry[k].id,
            decreases self@.registry.len() - ids.len(),
        {
            let id: String = self.registry.at(ids.len()).id.clone();
            ids.push(id);
        }
        ids
    }
}

/// Whether `outs` are the outcomes of attempts on the first ids, in turn, none
/// but perhaps the last of which is fatal.
pub open spec fn preload_run<F>(
    ids: Seq<String>,
    attempt: F,
    outs: Seq<Result<(), Error>>,
) -> bool where F: Fn(&String) -> Result<(), Error> {
    &&& outs.len() <= ids.len()
    &&& forall|k: int|
        0 <= k < outs.len() ==> call_ensures(attempt, (&ids[k],), #[trigger] outs[k])
    &&& forall|k: int| 0 <= k < outs.len() - 1 ==> !is_fatal(#[trigger] outs[k])
}

/// Loads models in turn before the server takes requests. A failure that a later
/// request may not meet again is passed over; a fatal one ends the run, with the
/// message to show, and no further attempt is made.
pub fn preload<F>(ids: &Vec<String>, attempt: F) -> (r: Option<String>) where
    F: Fn(&String) -> Result<(), Error>,

    requires
        forall|outs: Seq<Result<(), Error>>| #[trigger]
            preload_run(ids@, attempt, outs) && outs.len() < ids@.len() && (outs.len() > 0
                ==> !is_fatal(outs.last())) ==> call_requires(
                attempt,
                (&ids@[outs.len() as int],),
            ),
    ensures
        exists|outs: Seq<Result<(), Error>>| #[trigger]
            preload_run(ids@, attempt, outs) && match r {
                None => outs.len() == ids@.len() && (outs.len() > 0 ==> !is_fatal(outs.last())),
                Some(m) => {
                    &&& outs.len() > 0
                    &&& is_fatal(outs.last())
                    &&& m@ == fatal_text(ids@[outs.len() - 1]@, outs.last()->Err_0@.text())
                },
            },
{
    let ghost mut outs: Seq<Result<(), Error>> = Seq::empty();
    let mut i: usize = 0;
    while i < ids.len()
        invariant
            i <= ids.len(),
            outs.len() == i,
            preload_run(ids@, attempt, outs),
            outs.len() > 0 ==> !is_fatal(outs.last()),
            forall|outs: Seq<Result<(), Error>>| #[trigger]
                preload_run(ids@, attempt, outs) && outs.len() < ids@.len() && (outs.len() > 0
                    ==> !is_fatal(outs.last())) ==> call_requires(
                    attempt,
                    (&ids@[outs.len() as int],),
                ),
        decreases ids.len() - i,
    {
        let outcome: Result<(), Error> = attempt(&ids[i]);
        let verdict: Option<String> = preload_verdict(ids[i].as_str(), &outcome);
        proof {
            let next = outs.push(outcome);
            assert forall|k: int| 0 <= k < next.len() implies call_ensures(
                attempt,
                (&ids@[k],),
                #[trigger] next[k],
            ) by {
                if k < outs.len() {
                    assert(next[k] == outs[k]);
                }
            }
            assert forall|k: int| 0 <= k < next.len() - 1 implies !is_fatal(#[trigger] next[k]) by {
                assert(next[k] == outs[k]);
            }
            assert(preload_run(ids@, attempt, next));
            assert(next.last() == outcome);
            outs = next;
        }
        if verdict.is_some() {
            return verdict;
        }
        i += 1;
    }
    None
}

/// A snapshot may be served where its probe passed or decided nothing. Where the probe found
/// it broken or did not run, it is refused, with the words of what went wrong.
pub proof fn a_broken_snapshot_is_refused(
    id: &str,
    outcome: Result<SmokeVerdict, String>,
    r: Result<(), Error>,
)
    requires
        call_ensures(probe_gate, (id, &outcome), r),
    ensures
        r is Ok <==> outcome is Ok && (outcome->Ok_0 is Passed || outcome->Ok_0 is Inconclusive),
        r is Err ==> r->Err_0 is SmokeProbe,
        outcome is Err ==> r is Err && r->Err_0@ == ErrorModel::SmokeProbe(
            id@ + ": "@ + outcome->Err_0@,
        ),
{
}

/// Whether a load failed for good: the context is above what the checkpoint can address.
pub open spec fn failed_for_good(outcome: Result<(), Error>) -> bool {
    outcome is Err && outcome->Err_0 is ContextCeilingExceeded
}

/// A failed load ends the startup only where no later one can succeed, and says then which
/// model it was and what is wrong.
pub proof fn only_a_lasting_failure_ends_the_startup(
    id: &str,
    outcome: Result<(), Error>,
    r: Option<String>,
    words: String,
)
    requires
        call_ensures(preload_verdict, (id, &outcome), r),
        outcome is Err ==> call_ensures(Error::message, (&outcome->Err_0,), words),
    ensures
        r is Some <==> failed_for_good(outcome),
        r is Some ==> r->0@ == "model '"@ + id@ + "': "@ + words@,
{
}

/// Every model of the registry is loaded at startup, in the registry's order.
pub proof fn every_model_is_preloaded(s: AppState, r: Vec<String>, k: int)
    requires
        call_ensures(AppState::preload_ids, (&s,), r),
    ensures
        r@.len() == s.registry@.len(),
        0 <= k < r@.len() ==> r@[k]@ == s.registry@[k].id,
{
}

/// A preload tries every model unless one fails for good: it ends there, and without a
/// message only where all were tried and none failed so.
pub proof fn a_preload_ends_at_a_lasting_failure<F>(
    ids: &Vec<String>,
    attempt: F,
    r: Option<String>,
    k: int,
) where F: Fn(&String) -> Result<(), Error>
    requires
        call_ensures(preload::<F>, (ids, attempt), r),
    ensures
        r is None && 0 <= k < ids@.len() ==> exists|out: Result<(), Error>| #[trigger]
            call_ensures(attempt, (&ids@[k],), out) && !failed_for_good(out),
        r is Some ==> exists|n: int, out: Result<(), Error>|
            {
                &&& 0 <= n < ids@.len()
                &&& #[trigger] call_ensures(attempt, (&ids@[n],), out)
                &&& failed_for_good(out)
                &&& 0 <= k < n ==> exists|earlier: Result<(), Error>| #[trigger]
                    call_ensures(attempt, (&ids@[k],), earlier) && !failed_for_good(earlier)
            },
{
    let outs = choose|outs: Seq<Result<(), Error>>| #[trigger]
        preload_run(ids@, attempt, outs) && match r {
            None => outs.len() == ids@.len() && (outs.len() > 0 ==> !is_fatal(outs.last())),
            Some(m) => {
                &&& outs.len() > 0
                &&& is_fatal(outs.last())
                &&& m@ == fatal_text(ids@[outs.len() - 1]@, outs.last()->Err_0@.text())
            },
        };
    if 0 <= k < outs.len() {
        assert(call_ensures(attempt, (&ids@[k],), outs[k]));
        if k < outs.len() - 1 {
            assert(!is_fatal(outs[k]));
        }
    }
    if r is Some {
        let n = outs.len() - 1;
        assert(call_ensures(attempt, (&ids@[n],), outs[n]));
    }
}

/// A new server has no model resident and everything else as it was given.
pub proof fn a_new_server_is_empty(
    registry: crate::registry::ModelRegistry,
    max_loaded_models: usize,
    idle_policy: crate::keep_alive::KeepAlivePolicy,
    require_smoke_probe: bool,
    sessions: crate::session_cache::SessionCache,
    auth_token: Option<String>,
    model_path: Option<String>,
    tokenizer_path: Option<String>,
    r: AppState,
)
    requires
        call_ensures(
            AppState::new,
            (
                registry,
                max_loaded_models,
                idle_policy,
                require_smoke_probe,
                sessions,
                auth_token,
                model_path,
                tokenizer_path,
            ),
            r,
        ),
    ensures
        r.slots@.len() == 0,
        r.registry@ == registry@,
        r.max_loaded_models == max_loaded_models,
        r.idle_policy == idle_policy,
        r.require_smoke_probe == require_smoke_probe,
        r.session_cache@ == sessions@,
        r.auth_token is Some <==> auth_token is Some,
        r.auth_token is Some ==> r.auth_token->0@ == auth_token->0@,
        r@.leases.held == Map::<u64, usize>::empty(),
        r@.timers.armed == Map::<u64, u64>::empty(),
{
    assert(r@.slots.len() == r.slots@.len());
}

} // verus!
