//! The sessions whose prompts are kept for reuse, most recently used last.

use vstd::prelude::*;

use crate::text::str_eq;

verus! {

/// A session of a model and the length of its prompt.
#[derive(Debug)]
pub struct Session {
    pub model_id: String,
    pub session_id: String,
    pub prompt_len: usize,
}

/// What a [`Session`] stands for.
pub struct SessionModel {
    pub model_id: Seq<char>,
    pub session_id: Seq<char>,
    pub prompt_len: usize,
}

impl View for Session {
    type V = SessionModel;

    open spec fn view(&self) -> SessionModel {
        SessionModel {
            model_id: self.model_id@,
            session_id: self.session_id@,
            prompt_len: self.prompt_len,
        }
    }
}

/// A bounded list of sessions. Where one more session does not fit, the least
/// recently used one leaves.
#[derive(Debug)]
pub struct SessionCache {
    max_sessions: usize,
    sessions: Vec<Session>,
}

impl View for SessionCache {
    type V = Seq<SessionModel>;

    closed spec fn view(&self) -> Seq<SessionModel> {
        self.sessions@.map_values(|s: Session| s@)
    }
}

/// The sessions of `s` that belong to other models.
pub open spec fn without_model(s: Seq<SessionModel>, model_id: Seq<char>) -> Seq<SessionModel> {
    s.filter(|x: SessionModel| x.model_id != model_id)
}

/// The sessions of `s` but the named one.
pub open spec fn without_session(
    s: Seq<SessionModel>,
    model_id: Seq<char>,
    session_id: Seq<char>,
) -> Seq<SessionModel> {
    s.filter(|x: SessionModel| !(x.model_id == model_id && x.session_id == session_id))
}

/// Which sessions stay when those of a model are dropped: of the model, none or
/// all but the named one.
spec fn keeps(model_id: Seq<char>, session_id: Option<Seq<char>>) -> spec_fn(SessionModel) -> bool {
    |x: SessionModel|
        !(x.model_id == model_id && (session_id is None || session_id == Some(x.session_id)))
}

spec fn session_text(session_id: Option<&str>) -> Option<Seq<char>> {
    match session_id {
        Some(s) => Some(s@),
        None => None,
    }
}

/// The last `max` sessions of `s`.
pub open spec fn newest(s: Seq<SessionModel>, max: nat) -> Seq<SessionModel> {
    if s.len() <= max {
        s
    } else {
        s.skip(s.len() - max)
    }
}

/// The sessions after one of them was used.
pub open spec fn touched(
    s: Seq<SessionModel>,
    model_id: Seq<char>,
    session_id: Seq<char>,
    prompt_len: usize,
    max: nat,
) -> Seq<SessionModel> {
    newest(
        without_session(s, model_id, session_id).push(
            SessionModel { model_id, session_id, prompt_len },
        ),
        max,
    )
}

impl SessionCache {
    /// The most sessions that the cache holds.
    pub closed spec fn capacity(&self) -> nat {
        self.max_sessions as nat
    }

    /// An empty cache.
    pub fn new(max_sessions: usize) -> (r: SessionCache)
        ensures
            r@ == Seq::<SessionModel>::empty(),
            r.capacity() == max_sessions,
    {
        let r = SessionCache { max_sessions, sessions: Vec::new() };
        assert(r@ =~= Seq::<SessionModel>::empty());
        r
    }

    /// The number of sessions in the cache.
    pub fn active_count(&self) -> (r: usize)
        ensures
            r == self@.len(),
    {
        self.sessions.len()
    }

    /// Notes that a session was used with a prompt of the given length.
    pub fn touch(&mut self, model_id: String, session_id: String, prompt_len: usize)
        ensures
            final(self)@ == touched(
                old(self)@,
                model_id@,
                session_id@,
                prompt_len,
                old(self).capacity(),
            ),
            final(self).capacity() == old(self).capacity(),
    {
        let ghost s0 = Session { model_id, session_id, prompt_len };
        self.drop_matching(model_id.as_str(), Some(session_id.as_str()));
        assert(keeps(model_id@, Some(session_id@)) =~= (|x: SessionModel|
            !(x.model_id == model_id@ && x.session_id == session_id@)));
        let ghost prior = self@;
        self.sessions.push(Session { model_id, session_id, prompt_len });
        assert(self@ =~= prior.push(s0@));
        if self.sessions.len() > self.max_sessions {
            self.drop_front();
        }
    }

    /// Drops the sessions of a model: the named one, or all of them.
    fn drop_matching(&mut self, model_id: &str, session_id: Option<&str>)
        ensures
            final(self)@ == old(self)@.filter(keeps(model_id@, session_text(session_id))),
            final(self).capacity() == old(self).capacity(),
    {
        let ghost before = self@;
        let ghost keep = keeps(model_id@, session_text(session_id));
        assert(before.take(0).filter(keep) =~= Seq::<SessionModel>::empty()) by {
            reveal(Seq::filter);
        }
        let mut i: usize = 0;
        let ghost mut seen: int = 0;
        assert(before.skip(0) =~= before);
        assert(self@ =~= before.take(0).filter(keep) + before.skip(0));
        while i < self.sessions.len()
            invariant
                0 <= seen <= before.len(),
                i == before.take(seen).filter(keep).len(),
                self@ == before.take(seen).filter(keep) + before.skip(seen),
                self.max_sessions == old(self).max_sessions,
                keep == keeps(model_id@, session_text(session_id)),
            decreases self.sessions.len() - i,
        {
            let hit: bool = str_eq(self.sessions[i].model_id.as_str(), model_id) && match session_id {
                Some(id) => str_eq(self.sessions[i].session_id.as_str(), id),
                None => true,
            };
            proof {
                assert(self@[i as int] == before.skip(seen)[0]);
                assert(before.take(seen + 1).drop_last() =~= before.take(seen));
                reveal(Seq::filter);
            }
            if hit {
                let ghost prior = self@;
                self.sessions.remove(i);
                assert(self@ =~= prior.remove(i as int));
                assert(self@ =~= before.take(seen + 1).filter(keep) + before.skip(seen + 1));
            } else {
                assert(self@ =~= before.take(seen + 1).filter(keep) + before.skip(seen + 1));
                i += 1;
            }
            proof {
                seen = seen + 1;
            }
        }
        proof {
            assert(seen == before.len());
            assert(before.take(seen) =~= before);
            assert(self@ =~= before.filter(keep));
        }
    }

    fn drop_front(&mut self)
        requires
            old(self)@.len() > old(self).capacity(),
        ensures
            final(self)@ == newest(old(self)@, old(self).capacity()),
            final(self).capacity() == old(self).capacity(),
    {
        let ghost before = self@;
        assert(before.skip(0) =~= before);
        while self.sessions.len() > self.max_sessions
            invariant
                self.sessions.len() >= self.max_sessions,
                self.sessions.len() <= before.len(),
                self.max_sessions == old(self).max_sessions,
                self@ == before.skip(before.len() - self.sessions.len()),
            decreases self.sessions.len(),
        {
            let ghost prior = self@;
            self.sessions.remove(0);
            assert(self@ =~= prior.remove(0));
            assert(self@ =~= before.skip(before.len() - self.sessions.len()));
        }
    }

    /// Drops every session of a model.
    pub fn remove_model(&mut self, model_id: &str)
        ensures
            final(self)@ == without_model(old(self)@, model_id@),
            final(self).capacity() == old(self).capacity(),
    {
        self.drop_matching(model_id, None);
        assert(keeps(model_id@, None) =~= (|x: SessionModel| x.model_id != model_id@));
    }
}

/// A cache that has room for a session holds no more than fit, and the session
/// that was used last is the newest and occurs once.
pub proof fn touched_session_is_newest(
    s: Seq<SessionModel>,
    model_id: Seq<char>,
    session_id: Seq<char>,
    prompt_len: usize,
    max: nat,
)
    requires
        max > 0,
    ensures
        ({
            let t = touched(s, model_id, session_id, prompt_len, max);
            &&& 0 < t.len() <= max
            &&& t.last() == (SessionModel { model_id, session_id, prompt_len })
            &&& forall|i: int|
                0 <= i < t.len() - 1 ==> !((#[trigger] t[i]).model_id == model_id
                    && t[i].session_id == session_id)
        }),
{
    let keep = |x: SessionModel| !(x.model_id == model_id && x.session_id == session_id);
    let kept = without_session(s, model_id, session_id);
    let t = touched(s, model_id, session_id, prompt_len, max);
    assert forall|i: int| 0 <= i < t.len() - 1 implies !((#[trigger] t[i]).model_id == model_id
        && t[i].session_id == session_id) by {
        let k = i + (kept.len() + 1 - t.len());
        assert(t[i] == kept[k]);
        s.lemma_filter_pred(keep, k);
    }
}

proof fn lemma_filter_all(s: Seq<SessionModel>, keep: spec_fn(SessionModel) -> bool)
    requires
        forall|i: int| 0 <= i < s.len() ==> keep(#[trigger] s[i]),
    ensures
        s.filter(keep) == s,
    decreases s.len(),
{
    reveal(Seq::filter);
    if s.len() > 0 {
        let d = s.drop_last();
        assert forall|i: int| 0 <= i < d.len() implies keep(#[trigger] d[i]) by {
            assert(keep(s[i]));
        }
        lemma_filter_all(d, keep);
        assert(keep(s[s.len() - 1]));
        assert(s =~= d.push(s.last()));
    } else {
        assert(s.filter(keep) =~= s);
    }
}

/// Whether a session is the named one.
pub open spec fn is_session(x: SessionModel, model_id: Seq<char>, session_id: Seq<char>) -> bool {
    x.model_id == model_id && x.session_id == session_id
}

/// A session that is used becomes the latest one, with its new length. Where it was in the
/// cache it leaves its old place; where it was not and the cache is full, the session that
/// was used longest ago leaves. All others stay, in their order. A cache without room
/// stays empty.
pub proof fn a_used_session_becomes_the_latest(
    c: &mut SessionCache,
    model_id: String,
    session_id: String,
    prompt_len: usize,
    k: int,
)
    requires
        old(c)@.len() <= old(c).capacity(),
        call_ensures(SessionCache::touch, (c, model_id, session_id, prompt_len), ()),
    ensures
        final(c).capacity() == old(c).capacity(),
        old(c).capacity() == 0 ==> final(c)@.len() == 0,
        old(c).capacity() > 0 ==> final(c)@.len() > 0 && final(c)@.last() == (SessionModel {
            model_id: model_id@,
            session_id: session_id@,
            prompt_len,
        }),
        0 <= k < old(c)@.len() && is_session(old(c)@[k], model_id@, session_id@) && (forall|i: int|
            0 <= i < old(c)@.len() && i != k ==> !is_session(
                #[trigger] old(c)@[i],
                model_id@,
                session_id@,
            )) ==> final(c)@.drop_last() == old(c)@.remove(k),
        (forall|i: int|
            0 <= i < old(c)@.len() ==> !is_session(
                #[trigger] old(c)@[i],
                model_id@,
                session_id@,
            )) ==> {
            &&& old(c)@.len() < old(c).capacity() ==> final(c)@.drop_last() == old(c)@
            &&& old(c)@.len() == old(c).capacity() && old(c).capacity() > 0
                ==> final(c)@.drop_last() == old(c)@.skip(1)
        },
{
    let s = old(c)@;
    let new = SessionModel { model_id: model_id@, session_id: session_id@, prompt_len };
    let keep = |x: SessionModel| !(x.model_id == model_id@ && x.session_id == session_id@);
    let kept = without_session(s, model_id@, session_id@);
    assert(kept == s.filter(keep));
    if forall|i: int|
        0 <= i < s.len() ==> !is_session(#[trigger] s[i], model_id@, session_id@) {
        lemma_filter_all(s, keep);
        assert(final(c)@.len() > 0 ==> final(c)@.drop_last() =~= newest(s.push(new), old(c).capacity()).drop_last());
        if s.len() < old(c).capacity() {
            assert(final(c)@.drop_last() =~= s);
        } else if old(c).capacity() > 0 {
            assert(final(c)@.drop_last() =~= s.skip(1));
        }
    }
    if 0 <= k < s.len() && is_session(s[k], model_id@, session_id@) && (forall|i: int|
        0 <= i < s.len() && i != k ==> !is_session(#[trigger] s[i], model_id@, session_id@)) {
        let a = s.take(k);
        let b = s.skip(k + 1);
        assert(s =~= a + seq![s[k]] + b);
        Seq::filter_distributes_over_add(a + seq![s[k]], b, keep);
        Seq::filter_distributes_over_add(a, seq![s[k]], keep);
        assert forall|i: int| 0 <= i < a.len() implies keep(#[trigger] a[i]) by {
            assert(!is_session(s[i], model_id@, session_id@));
        }
        assert forall|i: int| 0 <= i < b.len() implies keep(#[trigger] b[i]) by {
            assert(!is_session(s[i + k + 1], model_id@, session_id@));
        }
        lemma_filter_all(a, keep);
        lemma_filter_all(b, keep);
        reveal_with_fuel(Seq::<_>::filter, 2);
        assert(seq![s[k]].drop_last() =~= Seq::<SessionModel>::empty());
        assert(seq![s[k]].filter(keep) =~= Seq::<SessionModel>::empty());
        assert(kept =~= a + b);
        assert(s.remove(k) =~= a + b);
        assert(final(c)@.drop_last() =~= s.remove(k));
    }
}

/// Dropping a model's sessions leaves those of the others, in their order: a session of the
/// model makes no difference, wherever it stands, and one of another model stays.
pub proof fn a_models_sessions_are_dropped(
    c: &mut SessionCache,
    d: &mut SessionCache,
    model_id: &str,
    a: Seq<SessionModel>,
    x: SessionModel,
    b: Seq<SessionModel>,
)
    requires
        x.model_id == model_id@,
        old(c)@ == a + seq![x] + b,
        old(d)@ == a + b,
        call_ensures(SessionCache::remove_model, (c, model_id), ()),
        call_ensures(SessionCache::remove_model, (d, model_id), ()),
    ensures
        final(c)@ == final(d)@,
        final(c).capacity() == old(c).capacity(),
{
    let keep = |y: SessionModel| y.model_id != model_id@;
    Seq::filter_distributes_over_add(a + seq![x], b, keep);
    Seq::filter_distributes_over_add(a, seq![x], keep);
    Seq::filter_distributes_over_add(a, b, keep);
    reveal_with_fuel(Seq::<_>::filter, 2);
    assert(seq![x].drop_last() =~= Seq::<SessionModel>::empty());
    assert(seq![x].filter(keep) =~= Seq::<SessionModel>::empty());
    assert(final(c)@ =~= final(d)@);
}

/// Where no session is one of the model, dropping its sessions changes nothing.
pub proof fn other_models_sessions_stay(c: &mut SessionCache, model_id: &str)
    requires
        forall|i: int| 0 <= i < old(c)@.len() ==> (#[trigger] old(c)@[i]).model_id != model_id@,
        call_ensures(SessionCache::remove_model, (c, model_id), ()),
    ensures
        final(c)@ == old(c)@,
        final(c).capacity() == old(c).capacity(),
{
    lemma_filter_all(old(c)@, |y: SessionModel| y.model_id != model_id@);
}

/// A cache never holds more sessions than it has room for.
pub proof fn a_cache_stays_within_its_room(
    c: &mut SessionCache,
    model_id: String,
    session_id: String,
    prompt_len: usize,
)
    requires
        call_ensures(SessionCache::touch, (c, model_id, session_id, prompt_len), ()),
    ensures
        final(c)@.len() <= final(c).capacity(),
{
}

} // verus!
