//! Items tracked by the console, each under a sequential ID that the console
//! gives to the span ID of the observed program.
use vstd::prelude::*;
use std::collections::HashMap;
use std::marker::PhantomData;
use vstd::std_specs::iter::IteratorSpec;

verus! {

broadcast use vstd::std_specs::hash::group_hash_axioms;

/// The span ID of an item in the observed program.
pub type SpanId = u64;

/// A rewritten sequential ID.
///
/// This is distinct from the remote server's span ID, which may be reused and
/// is not sequential.
pub struct Id<T> {
    id: u64,
    _ty: PhantomData<T>,
}

/// Whether new items are shown at once (their list is the current view) or
/// kept aside.
pub enum Visibility {
    Show,
    Hide,
}

impl<T> Id<T> {
    /// The number of this ID.
    pub closed spec fn value(self) -> u64 {
        self.id
    }

    /// The ID with number `id`.
    pub closed spec fn spec_new(id: u64) -> Self {
        Id { id, _ty: PhantomData }
    }

    /// The number of the ID made from `id` is `id`.
    pub proof fn lemma_value_new(id: u64)
        ensures
            Self::spec_new(id).value() == id,
    {
    }

    /// The ID made from the number of `i` is `i`.
    pub proof fn lemma_new_value(i: Self)
        ensures
            Self::spec_new(i.value()) == i,
    {
    }

    /// The ID with number `id`.
    pub fn new(id: u64) -> (r: Self)
        ensures
            r == Self::spec_new(id),
            r.value() == id,
    {
        Id { id, _ty: PhantomData }
    }

    /// The number of this ID (what its display shows).
    pub fn as_u64(&self) -> (r: u64)
        ensures
            r == self.value(),
    {
        self.id
    }
}

impl<T> Clone for Id<T> {
    fn clone(&self) -> (r: Self)
        ensures
            r == *self,
    {
        Id { id: self.id, _ty: PhantomData }
    }
}

impl<T> Copy for Id<T> {

}

impl<T> PartialEq for Id<T> {
    fn eq(&self, other: &Self) -> (r: bool) {
        self.id == other.id
    }
}

impl<T> vstd::std_specs::cmp::PartialEqSpecImpl for Id<T> {
    open spec fn obeys_eq_spec() -> bool {
        true
    }

    open spec fn eq_spec(&self, other: &Self) -> bool {
        self.value() == other.value()
    }
}

impl<T> Eq for Id<T> {

}

/// Stores the rewritten sequential IDs of items in a [`Store`].
pub struct Ids<T> {
    next: u64,
    map: HashMap<u64, u64>,
    issued: Ghost<nat>,
    _ty: PhantomData<T>,
}

impl<T> Ids<T> {
    /// The number the next new span ID gets.
    pub closed spec fn next_id(self) -> u64 {
        self.next
    }

    /// The numbers given so far, by span ID.
    pub closed spec fn assigned(self) -> Map<u64, u64> {
        self.map@
    }

    /// How many span IDs have been given a new number so far.
    pub closed spec fn issued(self) -> nat {
        self.issued@
    }

    /// Every number given so far is below the next one, and no two span IDs share
    /// one: this holds until the numbers run out.
    pub open spec fn distinct(self) -> bool {
        &&& forall|s: u64| #[trigger]
            self.assigned().contains_key(s) ==> self.assigned()[s] < self.next_id()
        &&& forall|s1: u64, s2: u64|
            #[trigger] self.assigned().contains_key(s1) && #[trigger] self.assigned().contains_key(
                s2,
            ) && s1 != s2 ==> self.assigned()[s1] != self.assigned()[s2]
    }

    /// Until `u64::MAX` numbers have been given, the numbers count up from 1
    /// and no two span IDs share one.
    pub open spec fn sequential(self) -> bool {
        self.issued() < u64::MAX ==> (self.next_id() == self.issued() + 1 && self.distinct())
    }

    #[verifier::type_invariant]
    spec fn ids_invariant(self) -> bool {
        self.sequential()
    }

    /// No span ID has a number yet, and the first one will get 1.
    pub fn new() -> (r: Self)
        ensures
            r.next_id() == 1,
            r.assigned() == Map::<u64, u64>::empty(),
            r.issued() == 0,
            r.distinct(),
    {
        Ids { next: 1, map: HashMap::new(), issued: Ghost(0), _ty: PhantomData }
    }

    /// The sequential ID for `span_id`: the one it was given before, or else
    /// the next number, which then counts up (wrapping around).
    pub fn id_for(&mut self, span_id: SpanId) -> (r: Id<T>)
        ensures
            old(self).assigned().contains_key(span_id) ==> {
                &&& r.value() == old(self).assigned()[span_id]
                &&& final(self).assigned() == old(self).assigned()
                &&& final(self).next_id() == old(self).next_id()
                &&& final(self).issued() == old(self).issued()
            },
            !old(self).assigned().contains_key(span_id) ==> {
                &&& r.value() == old(self).next_id()
                &&& final(self).assigned() == old(self).assigned().insert(
                    span_id,
                    old(self).next_id(),
                )
                &&& final(self).next_id() == (if old(self).next_id() == u64::MAX {
                    0
                } else {
                    (old(self).next_id() + 1) as u64
                })
                &&& final(self).issued() == old(self).issued() + 1
            },
            final(self).assigned().contains_key(span_id),
            final(self).assigned()[span_id] == r.value(),
            old(self).sequential(),
            final(self).sequential(),
            // A new span ID gets the next number in sequence, which no other
            // span ID has.
            !old(self).assigned().contains_key(span_id) && old(self).issued() < u64::MAX ==> {
                &&& r.value() == old(self).issued() + 1
                &&& forall|s: u64| #[trigger]
                    old(self).assigned().contains_key(s) ==> old(self).assigned()[s] != r.value()
            },
            // While the numbers do not run out, distinct span IDs keep distinct IDs.
            old(self).distinct() && old(self).next_id() < u64::MAX ==> final(self).distinct(),
    {
        proof {
            use_type_invariant(&*self);
        }
        match self.map.get(&span_id) {
            Some(id) => Id::new(*id),
            None => {
                let id = self.next;
                let mut map: HashMap<u64, u64> = HashMap::new();
                std::mem::swap(&mut map, &mut self.map);
                map.insert(span_id, id);
                let ghost issued = self.issued@ + 1;
                let ghost before = *old(self);
                let next = self.next.wrapping_add(1);
                proof {
                    let after = Ids::<T> { next, map, issued: Ghost(issued), _ty: PhantomData };
                    assert(after.assigned() == before.assigned().insert(span_id, id));
                    if (before.distinct() && before.next_id() < u64::MAX) || issued < u64::MAX {
                        assert(before.distinct());
                        assert(next == id + 1);
                        assert forall|s: u64| #[trigger] after.assigned().contains_key(s) implies
                            after.assigned()[s] < after.next_id() by {
                            if s != span_id {
                                assert(before.assigned().contains_key(s));
                            }
                        }
                        assert forall|s1: u64, s2: u64|
                            #[trigger] after.assigned().contains_key(s1)
                                && #[trigger] after.assigned().contains_key(s2) && s1 != s2
                            implies after.assigned()[s1] != after.assigned()[s2] by {
                            if s1 != span_id && s2 != span_id {
                                assert(before.assigned().contains_key(s1));
                                assert(before.assigned().contains_key(s2));
                            } else if s1 == span_id {
                                assert(before.assigned().contains_key(s2));
                            } else {
                                assert(before.assigned().contains_key(s1));
                            }
                        }
                    }
                }
                *self = Ids { next, map, issued: Ghost(issued), _ty: PhantomData };
                Id::new(id)
            },
        }
    }

    /// The sequential ID already given to `span_id`, if any.
    pub fn get(&self, span_id: SpanId) -> (r: Option<Id<T>>)
        ensures
            match r {
                Some(id) => self.assigned().contains_key(span_id) && id.value()
                    == self.assigned()[span_id],
                None => !self.assigned().contains_key(span_id),
            },
    {
        match self.map.get(&span_id) {
            Some(id) => Some(Id::new(*id)),
            None => None,
        }
    }
}


/// Stores a set of items which are associated with a [`SpanId`] and a rewritten
/// sequential [`Id`].
pub struct Store<T> {
    ids: Ids<T>,
    store: HashMap<u64, T>,
    new_items: Vec<u64>,
}

/// `m` with each pair of `items` inserted in turn (a later pair wins).
pub open spec fn insert_all<T>(m: Map<u64, T>, items: Seq<(u64, T)>) -> Map<u64, T>
    decreases items.len(),
{
    if items.len() == 0 {
        m
    } else {
        insert_all(m, items.drop_last()).insert(items.last().0, items.last().1)
    }
}

impl<T> Store<T> {
    /// The items, by the number of their sequential ID.
    pub closed spec fn items(self) -> Map<u64, T> {
        self.store@
    }

    /// The sequential IDs given so far.
    pub closed spec fn spec_ids(self) -> Ids<T> {
        self.ids
    }

    /// The items added since the new items were last taken, oldest first.
    pub closed spec fn new_ids(self) -> Seq<u64> {
        self.new_items@
    }

    /// Every new item is still stored.
    pub open spec fn wf(self) -> bool {
        forall|i: int| 0 <= i < self.new_ids().len() ==> self.items().contains_key(
            #[trigger] self.new_ids()[i],
        )
    }

    /// An empty store, whose first sequential ID will be 1.
    pub fn new() -> (r: Self)
        ensures
            r.items() == Map::<u64, T>::empty(),
            r.new_ids() == Seq::<u64>::empty(),
            r.spec_ids().next_id() == 1,
            r.spec_ids().assigned() == Map::<u64, u64>::empty(),
            r.wf(),
    {
        Store { ids: Ids::new(), store: HashMap::new(), new_items: Vec::new() }
    }

    /// The item with sequential ID `id`.
    pub fn get(&self, id: Id<T>) -> (r: Option<&T>)
        ensures
            match r {
                Some(item) => self.items().contains_key(id.value()) && *item == self.items()[id.value()],
                None => !self.items().contains_key(id.value()),
            },
    {
        self.store.get(&id.as_u64())
    }

    /// The item whose span ID is `span_id`.
    pub fn get_by_span(&self, span_id: SpanId) -> (r: Option<&T>)
        ensures
            match r {
                Some(item) => {
                    &&& self.spec_ids().assigned().contains_key(span_id)
                    &&& self.items().contains_key(self.spec_ids().assigned()[span_id])
                    &&& *item == self.items()[self.spec_ids().assigned()[span_id]]
                },
                None => !self.spec_ids().assigned().contains_key(span_id) || !self.items().contains_key(
                    self.spec_ids().assigned()[span_id],
                ),
            },
    {
        let id = self.ids.get(span_id)?;
        self.get(id)
    }

    /// The sequential IDs of the store.
    pub fn ids(&self) -> (r: &Ids<T>)
        ensures
            *r == self.spec_ids(),
    {
        &self.ids
    }

    /// The sequential IDs of the store, to give IDs to new items.
    pub fn ids_mut(&mut self) -> (r: &mut Ids<T>)
        ensures
            *r == old(self).spec_ids(),
            final(self).spec_ids() == *final(r),
            final(self).items() == old(self).items(),
            final(self).new_ids() == old(self).new_ids(),
    {
        &mut self.ids
    }

    /// Inserts `items` with their IDs (an item under an ID already stored
    /// replaces it). When they are shown at once, the new items noted before
    /// are forgotten; the IDs of `items` are noted as new.
    pub fn insert_with(&mut self, visibility: Visibility, items: Vec<(Id<T>, T)>)
        requires
            old(self).wf(),
        ensures
            final(self).wf(),
            final(self).spec_ids() == old(self).spec_ids(),
            final(self).items() == insert_all(
                old(self).items(),
                items@.map_values(|p: (Id<T>, T)| (p.0.value(), p.1)),
            ),
            final(self).new_ids() == (match visibility {
                Visibility::Show => Seq::<u64>::empty(),
                Visibility::Hide => old(self).new_ids(),
            }) + items@.map_values(|p: (Id<T>, T)| p.0.value()),
    {
        self.set_visibility(visibility);
        let ghost start_items = self.store@;
        let ghost start_new = self.new_items@;
        let ghost pairs = items@.map_values(|p: (Id<T>, T)| (p.0.value(), p.1));
        let ghost keys = items@.map_values(|p: (Id<T>, T)| p.0.value());
        let ghost orig = items@;
        let mut items = items;
        let mut rest: Vec<(Id<T>, T)> = Vec::new();
        // Reverse the items so that they can be popped in order.
        while items.len() > 0
            invariant
                rest@ + items@.reverse() == orig.reverse(),
            decreases items.len(),
        {
            let it = items.pop().unwrap();
            rest.push(it);
            assert(rest@ + items@.reverse() =~= orig.reverse());
        }
        assert(rest@ =~= orig.reverse());
        let ghost total = rest@.len();
        while rest.len() > 0
            invariant
                total == rest@.len() + (total - rest@.len()),
                rest@.len() <= total,
                total == pairs.len(),
                rest@ == orig.reverse().take(rest@.len() as int),
                pairs == orig.map_values(|p: (Id<T>, T)| (p.0.value(), p.1)),
                keys == orig.map_values(|p: (Id<T>, T)| p.0.value()),
                self.store@ == insert_all(start_items, pairs.take(total - rest@.len())),
                self.new_items@ == start_new + keys.take(total - rest@.len()),
                self.ids == old(self).ids,
                forall|i: int| 0 <= i < start_new.len() ==> start_items.contains_key(#[trigger] start_new[i]),
            decreases rest.len(),
        {
            let ghost done = total - rest@.len();
            let (id, item) = rest.pop().unwrap();
            assert(orig[done] == (id, item)) by {
                assert(orig.reverse()[rest@.len() as int] == orig[total - 1 - rest@.len()]);
            }
            self.store.insert(id.as_u64(), item);
            self.new_items.push(id.as_u64());
            assert(pairs.take(done + 1).drop_last() =~= pairs.take(done));
            assert(keys.take(done + 1) =~= keys.take(done).push(id.value()));
            assert(rest@ =~= orig.reverse().take(rest@.len() as int));
        }
        assert(pairs.take(total as int) =~= pairs);
        assert(keys.take(total as int) =~= keys);
        proof {
            lemma_insert_all_keys(start_items, pairs);
            assert forall|i: int| 0 <= i < self.new_items@.len() implies self.store@.contains_key(
                #[trigger] self.new_items@[i],
            ) by {
                if i < start_new.len() {
                    assert(start_items.contains_key(start_new[i]));
                } else {
                    assert(self.new_items@[i] == keys[i - start_new.len()]);
                    assert(pairs[i - start_new.len()].0 == keys[i - start_new.len()]);
                }
            }
        }
    }

    /// Forgets the noted new items when new items are shown at once.
    fn set_visibility(&mut self, visibility: Visibility)
        requires
            old(self).wf(),
        ensures
            final(self).wf(),
            final(self).items() == old(self).items(),
            final(self).spec_ids() == old(self).spec_ids(),
            final(self).new_ids() == (match visibility {
                Visibility::Show => Seq::<u64>::empty(),
                Visibility::Hide => old(self).new_ids(),
            }),
    {
        if let Visibility::Show = visibility {
            self.new_items = Vec::new();
        }
    }
}


/// The updates of `ups` whose span ID has a sequential ID under which an item
/// is stored, in order, each with that ID.
pub open spec fn found_updates<T, U>(
    assigned: Map<u64, u64>,
    items: Map<u64, T>,
    ups: Seq<(u64, U)>,
) -> Seq<(U, u64)>
    decreases ups.len(),
{
    if ups.len() == 0 {
        Seq::empty()
    } else {
        let prev = found_updates(assigned, items, ups.drop_last());
        let (span, u) = ups.last();
        if assigned.contains_key(span) && items.contains_key(assigned[span]) {
            prev.push((u, assigned[span]))
        } else {
            prev
        }
    }
}

/// The elements of `v` in reverse order.
pub fn reversed<A>(v: Vec<A>) -> (r: Vec<A>)
    ensures
        r@ == v@.reverse(),
{
    let ghost orig = v@;
    let mut v = v;
    let mut r: Vec<A> = Vec::new();
    while v.len() > 0
        invariant
            r@ + v@.reverse() == orig.reverse(),
        decreases v.len(),
    {
        let x = v.pop().unwrap();
        r.push(x);
        assert(r@ + v@.reverse() =~= orig.reverse());
    }
    assert(r@ =~= orig.reverse());
    r
}

impl<T> Store<T> {
    /// The updates whose span ID belongs to a stored item, each with the
    /// sequential ID of that item, so that the item can be updated.
    pub fn updated<U>(&self, update: Vec<(SpanId, U)>) -> (r: Vec<(U, Id<T>)>)
        ensures
            r@.map_values(|p: (U, Id<T>)| (p.0, p.1.value())) == found_updates(
                self.spec_ids().assigned(),
                self.items(),
                update@,
            ),
            forall|i: int| 0 <= i < r@.len() ==> self.items().contains_key(#[trigger] r@[i].1.value()),
    {
        let ghost orig = update@;
        let mut rest = reversed(update);
        let mut r: Vec<(U, Id<T>)> = Vec::new();
        let ghost total = orig.len();
        while rest.len() > 0
            invariant
                rest@.len() <= total,
                total == orig.len(),
                rest@ == orig.reverse().take(rest@.len() as int),
                r@.map_values(|p: (U, Id<T>)| (p.0, p.1.value())) == found_updates(
                    self.spec_ids().assigned(),
                    self.items(),
                    orig.take(total - rest@.len()),
                ),
                forall|i: int| 0 <= i < r@.len() ==> self.items().contains_key(#[trigger] r@[i].1.value()),
            decreases rest.len(),
        {
            let ghost done = total - rest@.len();
            let (span_id, u) = rest.pop().unwrap();
            assert(orig[done] == (span_id, u)) by {
                assert(orig.reverse()[rest@.len() as int] == orig[total - 1 - rest@.len()]);
            }
            assert(orig.take(done + 1).drop_last() =~= orig.take(done));
            let ghost prev = r@;
            match self.ids.get(span_id) {
                Some(id) => {
                    if self.store.contains_key(&id.as_u64()) {
                        r.push((u, id));
                        assert(r@.map_values(|p: (U, Id<T>)| (p.0, p.1.value())) =~= prev.map_values(
                            |p: (U, Id<T>)| (p.0, p.1.value()),
                        ).push((u, id.value())));
                    }
                },
                None => {},
            }
            assert(rest@ =~= orig.reverse().take(rest@.len() as int));
        }
        assert(orig.take(total as int) =~= orig);
        r
    }

    /// Puts `item` in place of the item stored under `id`.
    pub fn set(&mut self, id: Id<T>, item: T)
        requires
            old(self).wf(),
        ensures
            final(self).wf(),
            final(self).items() == old(self).items().insert(id.value(), item),
            final(self).spec_ids() == old(self).spec_ids(),
            final(self).new_ids() == old(self).new_ids(),
    {
        self.store.insert(id.as_u64(), item);
        assert forall|i: int| 0 <= i < self.new_items@.len() implies self.store@.contains_key(
            #[trigger] self.new_items@[i],
        ) by {
            assert(old(self).items().contains_key(old(self).new_ids()[i]));
        }
    }

    /// The IDs of the items added since this was last called (oldest first);
    /// afterwards there are none.
    pub fn take_new_items(&mut self) -> (r: Vec<Id<T>>)
        requires
            old(self).wf(),
        ensures
            final(self).wf(),
            r@.map_values(|id: Id<T>| id.value()) == old(self).new_ids(),
            forall|i: int| 0 <= i < r@.len() ==> old(self).items().contains_key(#[trigger] r@[i].value()),
            final(self).new_ids() == Seq::<u64>::empty(),
            final(self).items() == old(self).items(),
            final(self).spec_ids() == old(self).spec_ids(),
    {
        let mut r: Vec<Id<T>> = Vec::new();
        let n = self.new_items.len();
        for i in 0..n
            invariant
                n == self.new_items@.len(),
                self == old(self),
                self.wf(),
                r@.map_values(|id: Id<T>| id.value()) == self.new_items@.take(i as int),
                forall|j: int| 0 <= j < r@.len() ==> self.store@.contains_key(#[trigger] r@[j].value()),
        {
            let id: Id<T> = Id::new(self.new_items[i]);
            let ghost prev = r@;
            r.push(id);
            assert(r@.map_values(|id: Id<T>| id.value()) =~= prev.map_values(|id: Id<T>| id.value()).push(
                id.value(),
            ));
            assert(self.new_items@.take(i + 1) =~= self.new_items@.take(i as int).push(self.new_items@[i as int]));
            assert(self.items().contains_key(self.new_ids()[i as int]));
        }
        assert(self.new_items@.take(n as int) =~= self.new_items@);
        self.new_items = Vec::new();
        r
    }

    /// Every stored item with its sequential ID, in no particular order.
    pub fn iter(&self) -> (r: Vec<(Id<T>, &T)>)
        ensures
            r@.len() == self.items().dom().len(),
            forall|i: int|
                0 <= i < r@.len() ==> self.items().contains_key(#[trigger] r@[i].0.value()) && *r@[i].1
                    == self.items()[r@[i].0.value()],
            forall|k: u64| #[trigger]
                self.items().contains_key(k) ==> exists|i: int|
                    0 <= i < r@.len() && #[trigger] r@[i].0.value() == k,
    {
        let mut r: Vec<(Id<T>, &T)> = Vec::new();
        let ghost v = vstd::std_specs::hash::spec_hash_map_iter(&self.store).remaining();
        for pair in it: self.store.iter()
            invariant
                it.seq() == v,
                r@.len() == it.index(),
                forall|i: int| 0 <= i < r@.len() ==> #[trigger] r@[i].0.value() == *v[i].0,
                forall|i: int| 0 <= i < r@.len() ==> #[trigger] r@[i].1 == v[i].1,
        {
            let (k, x) = pair;
            r.push((Id::new(*k), x));
        }
        proof {
            assert(r@.len() == v.len());
            assert forall|k: u64| #[trigger] self.items().contains_key(k) implies exists|i: int|
                0 <= i < r@.len() && #[trigger] r@[i].0.value() == k by {
                assert(v.contains((&k, &self.store@[k])));
                let i = choose|i: int| 0 <= i < v.len() && v[i] == (&k, &self.store@[k]);
                assert(r@[i].0.value() == k);
            }
        }
        r
    }
}


/// The IDs of `ids` that `m` still holds, in order.
pub open spec fn still_held<T>(ids: Seq<u64>, m: Map<u64, T>) -> Seq<u64>
    decreases ids.len(),
{
    if ids.len() == 0 {
        Seq::empty()
    } else if m.contains_key(ids.last()) {
        still_held(ids.drop_last(), m).push(ids.last())
    } else {
        still_held(ids.drop_last(), m)
    }
}

proof fn lemma_still_held<T>(ids: Seq<u64>, m: Map<u64, T>)
    ensures
        forall|i: int| 0 <= i < still_held(ids, m).len() ==> m.contains_key(#[trigger] still_held(ids, m)[i]),
    decreases ids.len(),
{
    if ids.len() > 0 {
        lemma_still_held(ids.drop_last(), m);
        let prev = still_held(ids.drop_last(), m);
        assert forall|i: int| 0 <= i < still_held(ids, m).len() implies m.contains_key(
            #[trigger] still_held(ids, m)[i],
        ) by {
            if i < prev.len() {
                assert(still_held(ids, m)[i] == prev[i]);
            }
        }
    }
}

impl<T> Store<T> {
    /// Removes every item for which `keep` answers `false`, and forgets it as
    /// a new item.
    pub fn retain<F: Fn(&Id<T>, &T) -> bool>(&mut self, keep: F)
        requires
            old(self).wf(),
            forall|id: Id<T>, t: &T| #[trigger] call_requires(keep, (&id, t)),
        ensures
            final(self).wf(),
            final(self).spec_ids() == old(self).spec_ids(),
            forall|k: u64| #[trigger]
                final(self).items().contains_key(k) ==> {
                    &&& old(self).items().contains_key(k)
                    &&& final(self).items()[k] == old(self).items()[k]
                    &&& call_ensures(keep, (&Id::<T>::spec_new(k), &old(self).items()[k]), true)
                },
            forall|k: u64|
                old(self).items().contains_key(k) && !#[trigger] final(self).items().contains_key(k)
                    ==> call_ensures(keep, (&Id::<T>::spec_new(k), &old(self).items()[k]), false),
            final(self).new_ids() == still_held(old(self).new_ids(), final(self).items()),
    {
        let mut keys: Vec<u64> = Vec::new();
        let ghost ks = vstd::std_specs::hash::spec_keys_iter(&self.store).remaining();
        for k in it: self.store.keys()
            invariant
                it.seq() == ks,
                keys@.len() == it.index(),
                forall|i: int| 0 <= i < keys@.len() ==> #[trigger] keys@[i] == *ks[i],
        {
            keys.push(*k);
        }
        proof {
            assert(keys@ =~= ks.unref());
        }
        let n = keys.len();
        let ghost start = self.store@;
        for j in 0..n
            invariant
                n == keys@.len(),
                keys@.to_set() == start.dom(),
                keys@.no_duplicates(),
                start == old(self).store@,
                self.ids == old(self).ids,
                self.new_items == old(self).new_items,
                forall|k: u64| #[trigger]
                    self.store@.contains_key(k) ==> start.contains_key(k) && self.store@[k]
                        == start[k],
                forall|i: int| j <= i < n ==> self.store@.contains_key(#[trigger] keys@[i]),
                forall|i: int|
                    0 <= i < j && #[trigger] self.store@.contains_key(keys@[i]) ==> call_ensures(
                        keep,
                        (&Id::<T>::spec_new(keys@[i]), &start[keys@[i]]),
                        true,
                    ),
                forall|i: int|
                    0 <= i < j && !#[trigger] self.store@.contains_key(keys@[i]) ==> call_ensures(
                        keep,
                        (&Id::<T>::spec_new(keys@[i]), &start[keys@[i]]),
                        false,
                    ),
                forall|id: Id<T>, t: &T| #[trigger] call_requires(keep, (&id, t)),
        {
            let k = keys[j];
            let ghost before = self.store@;
            let id = Id::new(k);
            let remove = match self.store.get(&k) {
                Some(item) => !keep(&id, item),
                None => false,
            };
            if remove {
                self.store.remove(&k);
            }
            proof {
                assert forall|i: int| j + 1 <= i < n implies self.store@.contains_key(#[trigger] keys@[i]) by {
                    assert(before.contains_key(keys@[i]));
                    if keys@[i] == k {
                        assert(keys@[i] == keys@[j as int]);
                    }
                }
                assert forall|i: int| 0 <= i < j && #[trigger] self.store@.contains_key(keys@[i]) implies call_ensures(
                    keep,
                    (&Id::<T>::spec_new(keys@[i]), &start[keys@[i]]),
                    true,
                ) by {
                    assert(before.contains_key(keys@[i]));
                }
                assert forall|i: int| 0 <= i < j && !#[trigger] self.store@.contains_key(keys@[i]) implies call_ensures(
                    keep,
                    (&Id::<T>::spec_new(keys@[i]), &start[keys@[i]]),
                    false,
                ) by {
                    if before.contains_key(keys@[i]) {
                        assert(keys@[i] == k);
                        assert(i == j);
                    }
                }
            }
        }
        proof {
            assert forall|k: u64| #[trigger] self.store@.contains_key(k) implies call_ensures(
                keep,
                (&Id::<T>::spec_new(k), &start[k]),
                true,
            ) by {
                assert(keys@.to_set().contains(k));
                let i = choose|i: int| 0 <= i < n && keys@[i] == k;
            }
            assert forall|k: u64| start.contains_key(k) && !#[trigger] self.store@.contains_key(k) implies call_ensures(
                keep,
                (&Id::<T>::spec_new(k), &start[k]),
                false,
            ) by {
                assert(keys@.to_set().contains(k));
                let i = choose|i: int| 0 <= i < n && keys@[i] == k;
            }
        }
        let mut kept: Vec<u64> = Vec::new();
        let m = self.new_items.len();
        for i in 0..m
            invariant
                m == self.new_items@.len(),
                kept@ == still_held(self.new_items@.take(i as int), self.store@),
        {
            let k = self.new_items[i];
            if self.store.contains_key(&k) {
                kept.push(k);
            }
            assert(self.new_items@.take(i + 1).drop_last() =~= self.new_items@.take(i as int));
        }
        assert(self.new_items@.take(m as int) =~= self.new_items@);
        self.new_items = kept;
        proof {
            lemma_still_held(old(self).new_items@, self.store@);
        }
    }
}


impl<T> Store<T> {
    /// Every stored item, in no particular order.
    pub fn values(&self) -> (r: Vec<&T>)
        ensures
            r@.len() == self.items().dom().len(),
            forall|i: int| 0 <= i < r@.len() ==> self.items().values().contains(*#[trigger] r@[i]),
            forall|k: u64| #[trigger]
                self.items().contains_key(k) ==> exists|i: int|
                    0 <= i < r@.len() && *#[trigger] r@[i] == self.items()[k],
    {
        let pairs = self.iter();
        let mut r: Vec<&T> = Vec::new();
        let n = pairs.len();
        for i in 0..n
            invariant
                n == pairs@.len(),
                r@.len() == i,
                forall|j: int| 0 <= j < i ==> #[trigger] r@[j] == pairs@[j].1,
        {
            r.push(pairs[i].1);
        }
        proof {
            assert forall|i: int| 0 <= i < r@.len() implies self.items().values().contains(*#[trigger] r@[i]) by {
                assert(self.items().contains_key(pairs@[i].0.value()));
            }
            assert forall|k: u64| #[trigger] self.items().contains_key(k) implies exists|i: int|
                0 <= i < r@.len() && *#[trigger] r@[i] == self.items()[k] by {
                let i = choose|i: int| 0 <= i < pairs@.len() && #[trigger] pairs@[i].0.value() == k;
                assert(*r@[i] == self.items()[k]);
            }
        }
        r
    }
}

impl<T> Default for Store<T> {
    fn default() -> (r: Self)
        ensures
            r.items() == Map::<u64, T>::empty(),
            r.new_ids() == Seq::<u64>::empty(),
            r.spec_ids().next_id() == 1,
            r.spec_ids().assigned() == Map::<u64, u64>::empty(),
            r.wf(),
    {
        Self::new()
    }
}

impl<T> Default for Ids<T> {
    fn default() -> (r: Self)
        ensures
            r.next_id() == 1,
            r.assigned() == Map::<u64, u64>::empty(),
            r.issued() == 0,
            r.distinct(),
    {
        Self::new()
    }
}


impl<T> Store<T> {
    /// Takes the item stored under `id` out of the store, to be put back with
    /// [`Store::put`] once it is updated.
    pub fn take(&mut self, id: Id<T>) -> (r: Option<T>)
        ensures
            match r {
                Some(item) => old(self).items().contains_key(id.value()) && item == old(
                    self,
                ).items()[id.value()],
                None => !old(self).items().contains_key(id.value()),
            },
            final(self).items() == old(self).items().remove(id.value()),
            final(self).spec_ids() == old(self).spec_ids(),
            final(self).new_ids() == old(self).new_ids(),
    {
        self.store.remove(&id.as_u64())
    }

    /// Stores `item` under `id`, where the new items are all stored or have
    /// that ID.
    pub fn put(&mut self, id: Id<T>, item: T)
        requires
            forall|i: int|
                0 <= i < old(self).new_ids().len() ==> #[trigger] old(self).new_ids()[i] == id.value()
                    || old(self).items().contains_key(old(self).new_ids()[i]),
        ensures
            final(self).wf(),
            final(self).items() == old(self).items().insert(id.value(), item),
            final(self).spec_ids() == old(self).spec_ids(),
            final(self).new_ids() == old(self).new_ids(),
    {
        self.store.insert(id.as_u64(), item);
        assert forall|i: int| 0 <= i < self.new_items@.len() implies self.store@.contains_key(
            #[trigger] self.new_items@[i],
        ) by {
            assert(old(self).new_ids()[i] == id.value() || old(self).items().contains_key(
                old(self).new_ids()[i],
            ));
        }
    }
}


/// The index of the last of the first `upto` pairs of `items` with key `k`.
pub open spec fn last_with_key<T>(items: Seq<(u64, T)>, k: u64, upto: int) -> Option<int>
    decreases upto,
{
    if upto <= 0 {
        None
    } else if items[upto - 1].0 == k {
        Some(upto - 1)
    } else {
        last_with_key(items, k, upto - 1)
    }
}

/// After inserting `items` into `m`, a key holds the value of its last pair,
/// or its value in `m` if no pair has it.
pub proof fn lemma_insert_all_lookup<T>(m: Map<u64, T>, items: Seq<(u64, T)>, k: u64)
    ensures
        insert_all(m, items).contains_key(k) <==> (m.contains_key(k) || last_with_key(
            items,
            k,
            items.len() as int,
        ) is Some),
        last_with_key(items, k, items.len() as int) matches Some(i) ==> 0 <= i < items.len()
            && items[i].0 == k && insert_all(m, items)[k] == items[i].1,
        last_with_key(items, k, items.len() as int) is None && m.contains_key(k) ==> insert_all(
            m,
            items,
        )[k] == m[k],
    decreases items.len(),
{
    if items.len() > 0 {
        let prev = items.drop_last();
        lemma_insert_all_lookup(m, prev, k);
        lemma_last_with_key_prefix(items, k, items.len() - 1);
    }
}

pub proof fn lemma_last_with_key_prefix<T>(items: Seq<(u64, T)>, k: u64, upto: int)
    requires
        0 <= upto <= items.len(),
    ensures
        last_with_key(items, k, upto) == last_with_key(items.take(upto), k, upto),
        last_with_key(items, k, upto) matches Some(i) ==> 0 <= i < upto && items[i].0 == k,
    decreases upto,
{
    if upto > 0 {
        lemma_last_with_key_prefix(items, k, upto - 1);
        assert(items.take(upto)[upto - 1] == items[upto - 1]);
        lemma_last_with_key_take(items.take(upto), k, upto - 1);
        assert(items.take(upto).take(upto - 1) =~= items.take(upto - 1));
    }
}

pub proof fn lemma_last_with_key_take<T>(items: Seq<(u64, T)>, k: u64, upto: int)
    requires
        0 <= upto <= items.len(),
    ensures
        last_with_key(items, k, upto) == last_with_key(items.take(upto), k, upto),
    decreases upto,
{
    if upto > 0 {
        lemma_last_with_key_take(items, k, upto - 1);
        lemma_last_with_key_take(items.take(upto), k, upto - 1);
        assert(items.take(upto).take(upto - 1) =~= items.take(upto - 1));
    }
}

/// Every key of `m` stays, and every key of `items` is added.
pub proof fn lemma_insert_all_keys<T>(m: Map<u64, T>, items: Seq<(u64, T)>)
    ensures
        forall|k: u64| m.contains_key(k) ==> #[trigger] insert_all(m, items).contains_key(k),
        forall|i: int| 0 <= i < items.len() ==> insert_all(m, items).contains_key(#[trigger] items[i].0),
    decreases items.len(),
{
    if items.len() > 0 {
        lemma_insert_all_keys(m, items.drop_last());
        assert forall|k: u64| m.contains_key(k) implies #[trigger] insert_all(m, items).contains_key(k) by {
            assert(insert_all(m, items.drop_last()).contains_key(k));
        }
        assert forall|i: int| 0 <= i < items.len() implies insert_all(m, items).contains_key(
            #[trigger] items[i].0,
        ) by {
            if i < items.len() - 1 {
                assert(items[i] == items.drop_last()[i]);
            }
        }
    }
}

} // verus!
