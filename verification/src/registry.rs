//! The registry of models that the server knows, ordered by their ids.

use vstd::prelude::*;

use crate::text::{chars_of, str_eq};

verus! {

/// A model that can be loaded: its id, where its snapshot lies, and the name of
/// its architecture.
#[derive(Debug)]
pub struct ModelEntry {
    pub id: String,
    pub abs_path: String,
    pub arch: String,
}

/// What a [`ModelEntry`] stands for.
pub struct EntryModel {
    pub id: Seq<char>,
    pub abs_path: Seq<char>,
    pub arch: Seq<char>,
}

impl View for ModelEntry {
    type V = EntryModel;

    open spec fn view(&self) -> EntryModel {
        EntryModel { id: self.id@, abs_path: self.abs_path@, arch: self.arch@ }
    }
}

impl ModelEntry {
    /// A second entry with the same contents.
    pub fn copy(&self) -> (r: ModelEntry)
        ensures
            r@ == self@,
    {
        ModelEntry {
            id: self.id.clone(),
            abs_path: self.abs_path.clone(),
            arch: self.arch.clone(),
        }
    }
}

/// Whether `a` comes before `b` in the order of their characters.
pub open spec fn text_lt(a: Seq<char>, b: Seq<char>) -> bool
    decreases a.len(),
{
    if b.len() == 0 {
        false
    } else if a.len() == 0 {
        true
    } else if a[0] != b[0] {
        a[0] < b[0]
    } else {
        text_lt(a.skip(1), b.skip(1))
    }
}

proof fn lemma_text_lt_prefix(a: Seq<char>, b: Seq<char>, n: int)
    requires
        0 <= n <= a.len(),
        n <= b.len(),
        a.take(n) == b.take(n),
    ensures
        text_lt(a, b) == text_lt(a.skip(n), b.skip(n)),
        (a == b) == (a.skip(n) == b.skip(n)),
    decreases n,
{
    if n == 0 {
        assert(a.skip(0) =~= a);
        assert(b.skip(0) =~= b);
    } else {
        assert(a[0] == a.take(n)[0]);
        assert(b[0] == b.take(n)[0]);
        assert(a.skip(1).take(n - 1) =~= a.take(n).skip(1));
        assert(b.skip(1).take(n - 1) =~= b.take(n).skip(1));
        lemma_text_lt_prefix(a.skip(1), b.skip(1), n - 1);
        assert(a.skip(1).skip(n - 1) =~= a.skip(n));
        assert(b.skip(1).skip(n - 1) =~= b.skip(n));
        if a.skip(n) == b.skip(n) {
            assert(a =~= a.take(n) + a.skip(n));
            assert(b =~= b.take(n) + b.skip(n));
        }
    }
}

/// The order of two texts: `a` first, both equal, or `b` first.
#[derive(Debug, Clone, Copy, PartialEq, Eq, Structural)]
pub enum TextOrder {
    Before,
    Same,
    After,
}

/// Where `a` stands relative to `b` in the order of their characters.
pub fn text_order(a: &str, b: &str) -> (r: TextOrder)
    ensures
        r == TextOrder::Before <==> text_lt(a@, b@),
        r == TextOrder::Same <==> a@ == b@,
        r == TextOrder::After <==> text_lt(b@, a@),
{
    let x: Vec<char> = chars_of(a);
    let y: Vec<char> = chars_of(b);
    let mut i: usize = 0;
    while i < x.len() && i < y.len() && x[i] == y[i]
        invariant
            i <= x.len(),
            i <= y.len(),
            x@ == a@,
            y@ == b@,
            x@.take(i as int) == y@.take(i as int),
        decreases x.len() - i,
    {
        assert(x@.take(i + 1) =~= x@.take(i as int).push(x@[i as int]));
        assert(y@.take(i + 1) =~= y@.take(i as int).push(y@[i as int]));
        i += 1;
    }
    proof {
        lemma_text_lt_prefix(a@, b@, i as int);
        lemma_text_lt_prefix(b@, a@, i as int);
        if i < x.len() && i < y.len() {
            assert(a@.skip(i as int)[0] != b@.skip(i as int)[0]);
        }
    }
    if i == y.len() {
        if i == x.len() {
            assert(a@.skip(i as int) =~= b@.skip(i as int));
            TextOrder::Same
        } else {
            assert(a@.skip(i as int) != b@.skip(i as int));
            TextOrder::After
        }
    } else if i == x.len() {
        assert(a@.skip(i as int) != b@.skip(i as int));
        TextOrder::Before
    } else if x[i] < y[i] {
        TextOrder::Before
    } else {
        TextOrder::After
    }
}

/// No text comes before itself, and the order is transitive.
pub proof fn text_lt_is_strict(a: Seq<char>, b: Seq<char>, c: Seq<char>)
    ensures
        !text_lt(a, a),
        text_lt(a, b) && text_lt(b, c) ==> text_lt(a, c),
    decreases a.len(),
{
    if a.len() > 0 {
        text_lt_is_strict(a.skip(1), b.skip(1), c.skip(1));
    }
}

/// The models that the server knows.
#[derive(Debug)]
pub struct ModelRegistry {
    entries: Vec<ModelEntry>,
}

/// Whether the entries stand in the order of their ids, with no id twice.
pub open spec fn sorted_by_id(s: Seq<EntryModel>) -> bool {
    forall|i: int, j: int| 0 <= i < j < s.len() ==> text_lt(#[trigger] s[i].id, #[trigger] s[j].id)
}

/// Whether some entry of the list has the id.
pub open spec fn registers(s: Seq<EntryModel>, id: Seq<char>) -> bool {
    exists|i: int| 0 <= i < s.len() && #[trigger] s[i].id == id
}

/// The entry with the id.
pub open spec fn entry_for(s: Seq<EntryModel>, id: Seq<char>) -> EntryModel {
    s[choose|i: int| 0 <= i < s.len() && #[trigger] s[i].id == id]
}

impl View for ModelRegistry {
    type V = Seq<EntryModel>;

    closed spec fn view(&self) -> Seq<EntryModel> {
        self.entries@.map_values(|e: ModelEntry| e@)
    }
}

/// The list after an entry was put at its place; an entry with the same id
/// gives way to it.
pub open spec fn put_entry(s: Seq<EntryModel>, e: EntryModel) -> Seq<EntryModel>
    decreases s.len(),
{
    if s.len() == 0 {
        seq![e]
    } else if s.last().id == e.id {
        s.update(s.len() - 1, e)
    } else if text_lt(s.last().id, e.id) {
        s.push(e)
    } else {
        put_entry(s.drop_last(), e).push(s.last())
    }
}

/// The list that a registry holds after the entries were put in, in turn.
pub open spec fn put_all(entries: Seq<EntryModel>) -> Seq<EntryModel>
    decreases entries.len(),
{
    if entries.len() == 0 {
        Seq::empty()
    } else {
        put_entry(put_all(entries.drop_last()), entries.last())
    }
}

proof fn lemma_text_lt_total(a: Seq<char>, b: Seq<char>)
    ensures
        text_lt(a, b) || a == b || text_lt(b, a),
    decreases a.len(),
{
    if a.len() > 0 && b.len() > 0 && a[0] == b[0] {
        lemma_text_lt_total(a.skip(1), b.skip(1));
        if a.skip(1) == b.skip(1) {
            assert(a =~= seq![a[0]] + a.skip(1));
            assert(b =~= seq![b[0]] + b.skip(1));
        }
    } else if a.len() == 0 && b.len() == 0 {
        assert(a =~= b);
    }
}

/// Putting an entry keeps the list in order, makes the entry the one with its
/// id, and leaves every entry with another id as it is.
pub proof fn put_entry_keeps_order(s: Seq<EntryModel>, e: EntryModel)
    requires
        sorted_by_id(s),
    ensures
        sorted_by_id(put_entry(s, e)),
        forall|x: EntryModel| #[trigger]
            put_entry(s, e).contains(x) <==> x == e || (s.contains(x) && x.id != e.id),
    decreases s.len(),
{
    let t = put_entry(s, e);
    if s.len() == 0 {
        assert(t[0] == e);
    } else if s.last().id == e.id {
        assert forall|x: EntryModel| #[trigger] t.contains(x) <==> x == e || (s.contains(x) && x.id
            != e.id) by {
            assert(t[s.len() - 1] == e);
            if s.contains(x) && x.id != e.id {
                let i = choose|i: int| 0 <= i < s.len() && s[i] == x;
                assert(t[i] == x);
            }
            if t.contains(x) && x != e {
                let i = choose|i: int| 0 <= i < t.len() && t[i] == x;
                assert(s[i] == x);
                text_lt_is_strict(s[i].id, s[i].id, s[i].id);
                assert(text_lt(s[i].id, s[s.len() - 1].id));
            }
        }
    } else if text_lt(s.last().id, e.id) {
        assert forall|i: int, j: int| 0 <= i < j < t.len() implies text_lt(
            #[trigger] t[i].id,
            #[trigger] t[j].id,
        ) by {
            if j == s.len() && i < s.len() - 1 {
                assert(text_lt(s[i].id, s[s.len() - 1].id));
                text_lt_is_strict(s[i].id, s.last().id, e.id);
            }
        }
        assert forall|x: EntryModel| #[trigger] t.contains(x) <==> x == e || (s.contains(x) && x.id
            != e.id) by {
            assert(t[s.len() as int] == e);
            if s.contains(x) {
                let i = choose|i: int| 0 <= i < s.len() && s[i] == x;
                assert(t[i] == x);
            }
            if t.contains(x) && x != e {
                let i = choose|i: int| 0 <= i < t.len() && t[i] == x;
                assert(s[i] == x);
                assert(t[i].id == s[i].id);
                assert(text_lt(t[i].id, t[s.len() as int].id));
                text_lt_is_strict(e.id, e.id, e.id);
            }
        }
    } else {
        let d = s.drop_last();
        assert forall|i: int, j: int| 0 <= i < j < d.len() implies text_lt(
            #[trigger] d[i].id,
            #[trigger] d[j].id,
        ) by {
            assert(text_lt(s[i].id, s[j].id));
        }
        put_entry_keeps_order(d, e);
        lemma_text_lt_total(s.last().id, e.id);
        let u = put_entry(d, e);
        assert forall|i: int, j: int| 0 <= i < j < t.len() implies text_lt(
            #[trigger] t[i].id,
            #[trigger] t[j].id,
        ) by {
            if j == u.len() {
                assert(u.contains(u[i]));
                if u[i] != e {
                    let k = choose|k: int| 0 <= k < d.len() && d[k] == u[i];
                    assert(text_lt(s[k].id, s[s.len() - 1].id));
                }
            } else {
                assert(text_lt(u[i].id, u[j].id));
            }
        }
        assert forall|x: EntryModel| #[trigger] t.contains(x) <==> x == e || (s.contains(x) && x.id
            != e.id) by {
            assert(t[u.len() as int] == s.last());
            if u.contains(x) {
                let i = choose|i: int| 0 <= i < u.len() && u[i] == x;
                assert(t[i] == x);
            }
            if d.contains(x) {
                let i = choose|i: int| 0 <= i < d.len() && d[i] == x;
                assert(s[i] == x);
            }
            if s.contains(x) && x != s.last() {
                let i = choose|i: int| 0 <= i < s.len() && s[i] == x;
                assert(d[i] == x);
            }
            if t.contains(x) {
                let i = choose|i: int| 0 <= i < t.len() && t[i] == x;
                if i < u.len() {
                    assert(u[i] == x);
                }
            }
        }
    }
}

proof fn lemma_put_entry_at(s: Seq<EntryModel>, e: EntryModel, i: int)
    requires
        0 <= i <= s.len(),
        forall|j: int| i <= j < s.len() ==> s[j].id != e.id && !text_lt(#[trigger] s[j].id, e.id),
        i == 0 || s[i - 1].id == e.id || text_lt(s[i - 1].id, e.id),
    ensures
        put_entry(s, e) == (if i > 0 && s[i - 1].id == e.id {
            s.update(i - 1, e)
        } else {
            s.insert(i, e)
        }),
    decreases s.len(),
{
    if s.len() == 0 {
        assert(s.insert(0, e) =~= seq![e]);
    } else if i == s.len() {
        if s.last().id != e.id {
            assert(s.insert(i, e) =~= s.push(e));
        }
    } else {
        let d = s.drop_last();
        assert(forall|j: int| i <= j < d.len() ==> d[j] == s[j]);
        lemma_put_entry_at(d, e, i);
        if i > 0 && s[i - 1].id == e.id {
            assert(s.update(i - 1, e) =~= d.update(i - 1, e).push(s.last()));
        } else {
            assert(s.insert(i, e) =~= d.insert(i, e).push(s.last()));
        }
    }
}

impl ModelRegistry {
    /// A registry without models.
    pub fn empty() -> (r: ModelRegistry)
        ensures
            r@ == Seq::<EntryModel>::empty(),
    {
        let r = ModelRegistry { entries: Vec::new() };
        assert(r@ =~= Seq::<EntryModel>::empty());
        r
    }

    /// Puts an entry at its place in the order of the ids. An entry with the
    /// same id gives way to it.
    pub fn put(&mut self, entry: ModelEntry)
        ensures
            final(self)@ == put_entry(old(self)@, entry@),
    {
        let ghost before = self@;
        let mut i: usize = self.entries.len();
        while i > 0
            invariant_except_break
                i <= self.entries.len(),
                self@ == before,
                before.len() == self.entries.len(),
                forall|j: int|
                    i <= j < before.len() ==> before[j].id != entry.id@ && !text_lt(
                        #[trigger] before[j].id,
                        entry.id@,
                    ),
            ensures
                self@ == before,
                i <= self.entries.len(),
                before.len() == self.entries.len(),
                forall|j: int|
                    i <= j < before.len() ==> before[j].id != entry.id@ && !text_lt(
                        #[trigger] before[j].id,
                        entry.id@,
                    ),
                i == 0 || before[i - 1].id == entry.id@ || text_lt(before[i - 1].id, entry.id@),
            decreases i,
        {
            let o: TextOrder = text_order(self.entries[i - 1].id.as_str(), entry.id.as_str());
            assert(before[i - 1].id == self.entries@[i - 1].id@);
            if o != TextOrder::After {
                break;
            }
            proof {
                text_lt_is_strict(entry.id@, before[i - 1].id, entry.id@);
            }
            i -= 1;
        }
        proof {
            lemma_put_entry_at(before, entry@, i as int);
        }
        if i > 0 && str_eq(self.entries[i - 1].id.as_str(), entry.id.as_str()) {
            self.entries.set(i - 1, entry);
            assert(self@ =~= before.update(i - 1, entry@));
        } else {
            self.entries.insert(i, entry);
            assert(self@ =~= before.insert(i as int, entry@));
        }
    }

    /// The registry of the given entries. Of two entries with the same id the
    /// later one stays.
    pub fn from_entries(entries: Vec<ModelEntry>) -> (r: ModelRegistry)
        ensures
            r@ == put_all(entries@.map_values(|e: ModelEntry| e@)),
            sorted_by_id(r@),
    {
        let ghost all = entries@.map_values(|e: ModelEntry| e@);
        let mut r: ModelRegistry = ModelRegistry::empty();
        assert(all.take(0) =~= Seq::<EntryModel>::empty());
        let mut i: usize = 0;
        while i < entries.len()
            invariant
                i <= entries.len(),
                all == entries@.map_values(|e: ModelEntry| e@),
                r@ == put_all(all.take(i as int)),
                sorted_by_id(r@),
            decreases entries.len() - i,
        {
            proof {
                assert(all.take(i + 1).drop_last() =~= all.take(i as int));
                put_entry_keeps_order(r@, all[i as int]);
            }
            r.put(entries[i].copy());
            i += 1;
        }
        assert(all.take(i as int) =~= all);
        r
    }

    /// The number of entries.
    pub fn len(&self) -> (r: usize)
        ensures
            r == self@.len(),
    {
        self.entries.len()
    }

    /// The entry at position `i` in the order of the ids.
    pub fn at(&self, i: usize) -> (r: &ModelEntry)
        requires
            i < self@.len(),
        ensures
            r@ == self@[i as int],
    {
        &self.entries[i]
    }

    /// The architecture of the first entry; empty where there is none.
    pub fn first_architecture(&self) -> (r: String)
        ensures
            r@ == (if self@.len() > 0 {
                self@[0].arch
            } else {
                Seq::<char>::empty()
            }),
    {
        if self.entries.len() > 0 {
            self.entries[0].arch.clone()
        } else {
            String::new()
        }
    }

    /// The entry with the id.
    pub fn get(&self, id: &str) -> (r: Option<&ModelEntry>)
        ensures
            r is Some <==> registers(self@, id@),
            sorted_by_id(self@) && r is Some ==> r->0@ == entry_for(self@, id@),
    {
        let mut i: usize = 0;
        while i < self.entries.len()
            invariant
                i <= self.entries.len(),
                self@.len() == self.entries.len(),
                forall|j: int| 0 <= j < i ==> (#[trigger] self@[j]).id != id@,
            decreases self.entries.len() - i,
        {
            let e: &ModelEntry = &self.entries[i];
            assert(self@[i as int] == e@);
            if str_eq(e.id.as_str(), id) {
                proof {
                    let k = choose|k: int| 0 <= k < self@.len() && #[trigger] self@[k].id == id@;
                    if sorted_by_id(self@) && k != i {
                        text_lt_is_strict(id@, id@, id@);
                        assert(text_lt(self@[if k < i { k } else { i as int }].id, self@[if k < i {
                            i as int
                        } else {
                            k
                        }].id));
                    }
                }
                return Some(e);
            }
            i += 1;
        }
        None
    }
}

/// Whether `a` comes before `b` as in a dictionary: they agree up to some place, where `a`
/// has the smaller character or ends while `b` goes on.
pub open spec fn comes_before(a: Seq<char>, b: Seq<char>) -> bool {
    exists|n: int| #[trigger] parts_at(a, b, n)
}

/// Whether `a` and `b` agree before place `n`, and there `a` has the smaller character or
/// ends while `b` goes on.
pub open spec fn parts_at(a: Seq<char>, b: Seq<char>, n: int) -> bool {
    &&& 0 <= n <= a.len()
    &&& n < b.len()
    &&& forall|i: int| 0 <= i < n ==> #[trigger] a[i] == b[i]
    &&& n < a.len() ==> a[n] < b[n]
}

proof fn lemma_comes_before(a: Seq<char>, b: Seq<char>)
    ensures
        text_lt(a, b) == comes_before(a, b),
    decreases a.len(),
{
    if b.len() > 0 && a.len() == 0 {
        assert(parts_at(a, b, 0));
    } else if b.len() > 0 && a[0] != b[0] {
        if a[0] < b[0] {
            assert(parts_at(a, b, 0));
        }
        if comes_before(a, b) {
            let n = choose|n: int| #[trigger] parts_at(a, b, n);
            if n > 0 {
                assert(a[0] == b[0]);
            }
        }
    } else if b.len() > 0 {
        let x = a.skip(1);
        let y = b.skip(1);
        lemma_comes_before(x, y);
        if comes_before(a, b) {
            let n = choose|n: int| #[trigger] parts_at(a, b, n);
            assert forall|i: int| 0 <= i < n - 1 implies #[trigger] x[i] == y[i] by {
                assert(a[i + 1] == b[i + 1]);
            }
            assert(parts_at(x, y, n - 1));
        }
        if comes_before(x, y) {
            let n = choose|n: int| #[trigger] parts_at(x, y, n);
            assert forall|i: int| 0 <= i < n + 1 implies #[trigger] a[i] == b[i] by {
                if i > 0 {
                    assert(x[i - 1] == y[i - 1]);
                }
            }
            assert(parts_at(a, b, n + 1));
        }
    }
}

/// Texts are ordered as in a dictionary.
pub proof fn texts_are_ordered_as_in_a_dictionary(a: &str, b: &str, r: TextOrder)
    requires
        call_ensures(text_order, (a, b), r),
    ensures
        r == TextOrder::Before <==> comes_before(a@, b@),
        r == TextOrder::Same <==> a@ == b@,
        r == TextOrder::After <==> comes_before(b@, a@),
{
    lemma_comes_before(a@, b@);
    lemma_comes_before(b@, a@);
}

/// The last entry of a list with the id, if any.
spec fn last_with(entries: Seq<EntryModel>, x: EntryModel) -> bool {
    exists|i: int| #[trigger] is_last_at(entries, x, i)
}

/// Whether an entry stands at a place, and none with its id behind it.
pub open spec fn is_last_at(entries: Seq<EntryModel>, x: EntryModel, i: int) -> bool {
    &&& 0 <= i < entries.len()
    &&& entries[i] == x
    &&& forall|j: int| i < j < entries.len() ==> (#[trigger] entries[j]).id != x.id
}

proof fn lemma_put_all(entries: Seq<EntryModel>)
    ensures
        sorted_by_id(put_all(entries)),
        forall|x: EntryModel| #[trigger]
            put_all(entries).contains(x) <==> last_with(entries, x),
    decreases entries.len(),
{
    if entries.len() > 0 {
        let d = entries.drop_last();
        let e = entries.last();
        lemma_put_all(d);
        put_entry_keeps_order(put_all(d), e);
        assert forall|x: EntryModel| #[trigger]
            put_all(entries).contains(x) <==> last_with(entries, x) by {
            if x == e {
                assert(is_last_at(entries, x, entries.len() - 1));
            }
            if last_with(d, x) && x.id != e.id {
                let i = choose|i: int| #[trigger] is_last_at(d, x, i);
                assert forall|j: int| i < j < entries.len() implies (#[trigger] entries[j]).id
                    != x.id by {
                    if j < d.len() {
                        assert(d[j].id != x.id);
                    }
                }
                assert(is_last_at(entries, x, i));
            }
            if last_with(entries, x) && x != e {
                let i = choose|i: int| #[trigger] is_last_at(entries, x, i);
                assert(entries[entries.len() - 1].id != x.id);
                assert forall|j: int| i < j < d.len() implies (#[trigger] d[j]).id != x.id by {
                    assert(entries[j].id != x.id);
                }
                assert(is_last_at(d, x, i));
            }
        }
    }
}

/// A registry holds its entries in the order of their ids, as in a dictionary: of the
/// entries that it was made of, the last one with each id, and no other.
pub proof fn a_registry_holds_the_last_entry_of_each_id(
    entries: Vec<ModelEntry>,
    all: Seq<EntryModel>,
    r: ModelRegistry,
    i: int,
    j: int,
    x: EntryModel,
)
    requires
        all.len() == entries@.len(),
        forall|k: int| 0 <= k < all.len() ==> #[trigger] all[k] == entries@[k]@,
        call_ensures(ModelRegistry::from_entries, (entries,), r),
    ensures
        0 <= i < j < r@.len() ==> comes_before(r@[i].id, r@[j].id),
        r@.contains(x) <==> exists|k: int| #[trigger] is_last_at(all, x, k),
{
    assert(all =~= entries@.map_values(|e: ModelEntry| e@));
    lemma_put_all(all);
    if 0 <= i < j < r@.len() {
        assert(text_lt(r@[i].id, r@[j].id));
        lemma_comes_before(r@[i].id, r@[j].id);
    }
    assert(r@.contains(x) <==> last_with(all, x));
}

/// Putting an entry into a registry makes it the one with its id and leaves all others.
pub proof fn putting_an_entry_replaces_its_id(
    registry: &mut ModelRegistry,
    entry: ModelEntry,
    x: EntryModel,
)
    requires
        sorted_by_id(old(registry)@),
        call_ensures(ModelRegistry::put, (registry, entry), ()),
    ensures
        final(registry)@.contains(x) <==> x == entry@ || (old(registry)@.contains(x) && x.id
            != entry.id@),
        sorted_by_id(final(registry)@),
{
    put_entry_keeps_order(old(registry)@, entry@);
}

/// A model is found by its id where the registry has it, and only there.
pub proof fn an_entry_is_found_by_its_id(
    registry: ModelRegistry,
    id: &str,
    r: Option<&ModelEntry>,
    k: int,
)
    requires
        sorted_by_id(registry@),
        call_ensures(ModelRegistry::get, (&registry, id), r),
    ensures
        0 <= k < registry@.len() && registry@[k].id == id@ ==> r is Some && r->0@ == registry@[k],
        r is Some ==> r->0@.id == id@ && registry@.contains(r->0@),
{
    if r is Some {
        let c = choose|i: int| 0 <= i < registry@.len() && #[trigger] registry@[i].id == id@;
        assert(registry@[c] == r->0@);
        if 0 <= k < registry@.len() && registry@[k].id == id@ {
            text_lt_is_strict(id@, id@, id@);
            if k < c {
                assert(text_lt(registry@[k].id, registry@[c].id));
            } else if c < k {
                assert(text_lt(registry@[c].id, registry@[k].id));
            }
        }
    } else if 0 <= k < registry@.len() && registry@[k].id == id@ {
        assert(registers(registry@, id@));
    }
}

/// The architecture of the first entry is shown, and none where there is no entry.
pub proof fn the_first_entry_shows_its_architecture(registry: ModelRegistry, r: String)
    requires
        call_ensures(ModelRegistry::first_architecture, (&registry,), r),
    ensures
        registry@.len() > 0 ==> r@ == registry@[0].arch,
        registry@.len() == 0 ==> r@.len() == 0,
{
}

} // verus!
