//! The unload timers of resident models.
//!
//! Every slot owns a handle, and a handle has at most one timer armed. A timer
//! has a token by which the runtime that sleeps for it is told to cancel it.

use std::collections::HashMap;
use vstd::prelude::*;

use crate::keep_alive::{DecodeLease, KeepAlivePolicy};

verus! {

broadcast use vstd::std_specs::hash::group_hash_axioms;

/// The identity of a slot's unload handle.
#[derive(Debug, Clone, Copy, PartialEq, Eq, Structural)]
pub struct UnloadHandle {
    pub id: u64,
}

/// A timer to start: sleep for `ttl_ms`, and report that it fired with the
/// lease and the seconds that stand here.
#[derive(Debug, Clone, Copy, PartialEq, Eq, Structural)]
pub struct TimerStart {
    pub token: u64,
    pub ttl_ms: u64,
    pub ttl_secs: u64,
    pub lease: DecodeLease,
}

/// What the runtime is told to do when a handle is armed: cancel the timer
/// with the first token, and start the second.
#[derive(Debug, Clone, Copy, PartialEq, Eq, Structural)]
pub struct TimerCommand {
    pub abort: Option<u64>,
    pub start: Option<TimerStart>,
}

/// The armed timers, by handle.
pub struct TimerTable {
    handles: u64,
    tokens: u64,
    armed: HashMap<u64, u64>,
}

/// What a [`TimerTable`] stands for: how many handles and tokens were given
/// out, and the token armed under each handle.
pub struct TimerModel {
    pub handles: nat,
    pub tokens: nat,
    pub armed: Map<u64, u64>,
}

impl View for TimerTable {
    type V = TimerModel;

    closed spec fn view(&self) -> TimerModel {
        TimerModel {
            handles: self.handles as nat,
            tokens: self.tokens as nat,
            armed: self.armed@,
        }
    }
}

impl TimerModel {
    /// Only handles and tokens that were given out are in use, and no two
    /// handles share a token.
    pub open spec fn wf(self) -> bool {
        &&& self.handles <= u64::MAX
        &&& self.tokens <= u64::MAX
        &&& forall|h: u64| #[trigger]
            self.armed.contains_key(h) ==> h < self.handles && self.armed[h] < self.tokens
        &&& forall|h: u64, k: u64| #[trigger]
            self.armed.contains_key(h) && #[trigger] self.armed.contains_key(k) && self.armed[h]
                == self.armed[k] ==> h == k
    }

    /// The token that is armed under a handle.
    pub open spec fn token(self, handle: UnloadHandle) -> Option<u64> {
        if self.armed.contains_key(handle.id) {
            Some(self.armed[handle.id])
        } else {
            None
        }
    }

    /// The table after one more handle was given out.
    pub open spec fn give_handle(self) -> TimerModel {
        TimerModel { handles: self.handles + 1, ..self }
    }

    /// The table after whatever was armed under the handle was taken out.
    pub open spec fn disarm(self, handle: UnloadHandle) -> TimerModel {
        TimerModel { armed: self.armed.remove(handle.id), ..self }
    }

    /// The timer that arming under a policy starts.
    pub open spec fn start_for(
        self,
        policy: KeepAlivePolicy,
        lease: DecodeLease,
        runtime: bool,
    ) -> Option<TimerStart> {
        if runtime && policy.ttl_ms() is Some {
            Some(
                TimerStart {
                    token: self.tokens as u64,
                    ttl_ms: policy.ttl_ms()->0,
                    ttl_secs: policy.ttl_secs(),
                    lease,
                },
            )
        } else {
            None
        }
    }

    /// Whether arming under a policy does nothing: a timer is due, and there is no
    /// runtime to sleep in.
    pub open spec fn arms_nothing(policy: KeepAlivePolicy, runtime: bool) -> bool {
        policy.ttl_ms() is Some && !runtime
    }

    /// The table after the handle was armed under a policy.
    pub open spec fn arm(
        self,
        policy: KeepAlivePolicy,
        lease: DecodeLease,
        handle: UnloadHandle,
        runtime: bool,
    ) -> TimerModel {
        if TimerModel::arms_nothing(policy, runtime) {
            self
        } else {
            match self.start_for(policy, lease, runtime) {
                Some(start) => TimerModel {
                    tokens: self.tokens + 1,
                    armed: self.armed.insert(handle.id, start.token),
                    ..self
                },
                None => self.disarm(handle),
            }
        }
    }

    /// What the runtime is told when the handle is armed under a policy.
    pub open spec fn arm_command(
        self,
        policy: KeepAlivePolicy,
        lease: DecodeLease,
        handle: UnloadHandle,
        runtime: bool,
    ) -> TimerCommand {
        if TimerModel::arms_nothing(policy, runtime) {
            TimerCommand { abort: None, start: None }
        } else {
            TimerCommand {
                abort: self.token(handle),
                start: self.start_for(policy, lease, runtime),
            }
        }
    }
}

impl TimerTable {
    /// A table with nothing armed.
    pub fn new() -> (r: TimerTable)
        ensures
            r@ == (TimerModel { handles: 0, tokens: 0, armed: Map::<u64, u64>::empty() }),
            r@.wf(),
    {
        let r = TimerTable { handles: 0, tokens: 0, armed: HashMap::new() };
        assert(r@.armed =~= Map::<u64, u64>::empty());
        r
    }

    /// Whether one more handle and one more token can be given out.
    pub fn can_arm(&self) -> (r: bool)
        ensures
            r == (self@.handles < u64::MAX && self@.tokens < u64::MAX),
    {
        self.handles < u64::MAX && self.tokens < u64::MAX
    }

    /// Gives out a handle that no earlier call gave out.
    pub fn fresh_handle(&mut self) -> (r: UnloadHandle)
        requires
            old(self)@.wf(),
            old(self)@.handles < u64::MAX,
        ensures
            r.id == old(self)@.handles,
            final(self)@ == old(self)@.give_handle(),
            final(self)@.wf(),
    {
        let id: u64 = self.handles;
        self.handles = id + 1;
        UnloadHandle { id }
    }

    /// Takes out what is armed under the handle, and returns its token.
    pub fn disarm(&mut self, handle: UnloadHandle) -> (r: Option<u64>)
        requires
            old(self)@.wf(),
        ensures
            r == old(self)@.token(handle),
            final(self)@ == old(self)@.disarm(handle),
            final(self)@.wf(),
    {
        let r: Option<u64> = match self.armed.get(&handle.id) {
            Some(t) => Some(*t),
            None => None,
        };
        self.armed.remove(&handle.id);
        r
    }

    /// Arms the handle under a policy, in place of what was armed before. A
    /// pinned model gets no timer. Where a timer is due but there is no runtime to
    /// sleep in, nothing happens.
    pub fn arm(
        &mut self,
        policy: KeepAlivePolicy,
        lease: DecodeLease,
        handle: UnloadHandle,
        runtime: bool,
    ) -> (r: TimerCommand)
        requires
            old(self)@.wf(),
            old(self)@.tokens < u64::MAX,
            handle.id < old(self)@.handles,
        ensures
            r == old(self)@.arm_command(policy, lease, handle, runtime),
            final(self)@ == old(self)@.arm(policy, lease, handle, runtime),
            final(self)@.wf(),
    {
        match policy.ttl() {
            Some(ttl_ms) => {
                if !runtime {
                    return TimerCommand { abort: None, start: None };
                }
                let abort: Option<u64> = self.disarm(handle);
                let token: u64 = self.tokens;
                self.tokens = token + 1;
                self.armed.insert(handle.id, token);
                assert(self@.armed =~= old(self)@.armed.insert(handle.id, token));
                TimerCommand {
                    abort,
                    start: Some(
                        TimerStart { token, ttl_ms, ttl_secs: policy.ttl_secs_for_log(), lease },
                    ),
                }
            },
            None => {
                let abort: Option<u64> = self.disarm(handle);
                TimerCommand { abort, start: None }
            },
        }
    }
}

} // verus!
