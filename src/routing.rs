//! Classification-based routing: a table from lower-cased labels to targets,
//! and the choice of a target for a classifier's answer.

use vstd::prelude::*;
use crate::text::{contains, contains_seq, lower_of, to_lowercase};

verus! {

/// One entry of a route table: a lower-cased label and what it leads to.
#[derive(Clone)]
pub struct Route<A> {
    pub label: String,
    pub target: A,
}

/// Labels mapped to targets, in the order in which the labels were first added.
#[derive(Clone)]
pub struct RouteTable<A> {
    routes: Vec<Route<A>>,
}

/// The position of the first label that occurs in `text`, if any.
pub open spec fn first_match(labels: Seq<Seq<char>>, text: Seq<char>) -> Option<int>
    decreases labels.len(),
{
    if labels.len() == 0 {
        None
    } else {
        match first_match(labels.drop_last(), text) {
            Some(i) => Some(i),
            None => if contains_seq(text, labels.last()) {
                Some(labels.len() - 1)
            } else {
                None
            },
        }
    }
}

pub proof fn lemma_first_match_spec(labels: Seq<Seq<char>>, text: Seq<char>)
    ensures
        match first_match(labels, text) {
            Some(i) => 0 <= i < labels.len() && contains_seq(text, labels[i])
                && forall|j: int| 0 <= j < i ==> !contains_seq(text, #[trigger] labels[j]),
            None => forall|j: int| 0 <= j < labels.len() ==> !contains_seq(text, #[trigger] labels[j]),
        },
    decreases labels.len(),
{
    if labels.len() > 0 {
        lemma_first_match_spec(labels.drop_last(), text);
        assert forall|j: int| 0 <= j < labels.len() - 1 implies #[trigger] labels[j] == labels.drop_last()[j] by {}
    }
}

/// `after` is `before` with `key` mapped to `target`: a key already present
/// keeps its place and gets the new target; a new key goes last.
pub open spec fn inserted<A>(before: RouteTable<A>, key: Seq<char>, target: A, after: RouteTable<A>) -> bool {
    match before.labels().index_of_first(key) {
        Some(i) => after.labels() == before.labels() && after.targets() == before.targets().update(i, target),
        None => after.labels() == before.labels().push(key) && after.targets() == before.targets().push(target),
    }
}

/// After an insertion the key is present, exactly once, and leads to the
/// inserted target.
pub proof fn lemma_inserted_target<A>(before: RouteTable<A>, key: Seq<char>, target: A, after: RouteTable<A>)
    requires
        before.wf(),
        after.wf(),
        inserted(before, key, target, after),
    ensures
        after.labels().index_of_first(key) matches Some(i) && after.targets()[i] == target,
{
    before.labels().index_of_first_ensures(key);
    after.labels().index_of_first_ensures(key);
    match before.labels().index_of_first(key) {
        Some(i) => {},
        None => {
            let n = before.labels().len() as int;
            assert(after.labels()[n] == key);
            assert(after.labels().contains(key));
            let j = after.labels().index_of_first(key).unwrap();
            if j != n {
                assert(after.labels()[j] == before.labels()[j]);
                assert(before.labels().contains(key));
            }
        },
    }
}

impl<A> RouteTable<A> {
    /// The labels, in table order.
    pub closed spec fn labels(&self) -> Seq<Seq<char>> {
        self.routes@.map_values(|r: Route<A>| r.label@)
    }

    /// The targets, in table order.
    pub closed spec fn targets(&self) -> Seq<A> {
        self.routes@.map_values(|r: Route<A>| r.target)
    }

    /// One target for each label, and no label occurs twice.
    pub open spec fn wf(&self) -> bool {
        &&& self.targets().len() == self.labels().len()
        &&& forall|i: int, j: int|
            0 <= i < j < self.labels().len() ==> self.labels()[i] != self.labels()[j]
    }

    pub fn new() -> (r: RouteTable<A>)
        ensures
            r.wf(),
            r.labels() == Seq::<Seq<char>>::empty(),
            r.targets() == Seq::<A>::empty(),
    {
        let r = RouteTable { routes: Vec::new() };
        assert(r.labels() =~= Seq::<Seq<char>>::empty());
        assert(r.targets() =~= Seq::<A>::empty());
        r
    }

    pub fn len(&self) -> (r: usize)
        ensures
            r == self.labels().len(),
    {
        self.routes.len()
    }

    pub fn is_empty(&self) -> (r: bool)
        ensures
            r == (self.labels().len() == 0),
    {
        self.routes.len() == 0
    }

    /// The label at position `i`.
    pub fn label(&self, i: usize) -> (r: &String)
        requires
            i < self.labels().len(),
        ensures
            r@ == self.labels()[i as int],
    {
        &self.routes[i].label
    }

    /// The target at position `i`.
    pub fn target(&self, i: usize) -> (r: &A)
        requires
            i < self.labels().len(),
        ensures
            *r == self.targets()[i as int],
    {
        &self.routes[i].target
    }

    /// Maps `label`, lower-cased, to `target`. A label already present keeps its
    /// place and gets the new target; a new one goes last.
    pub fn insert(&mut self, label: &str, target: A)
        requires
            old(self).wf(),
        ensures
            final(self).wf(),
            inserted(*old(self), lower_of(label@), target, *final(self)),
    {
        let key = to_lowercase(label);
        let ghost kv = key@;
        let ghost labels = self.labels();
        let mut i: usize = 0;
        while i < self.routes.len()
            invariant
                i <= self.routes.len(),
                self.routes@ == old(self).routes@,
                old(self).wf(),
                labels == old(self).labels(),
                forall|j: int| 0 <= j < i ==> labels[j] != kv,
                key@ == kv,
                kv == lower_of(label@),
            decreases self.routes.len() - i,
        {
            if self.routes[i].label == key {
                assert(labels[i as int] == kv);
                proof {
                    labels.index_of_first_ensures(kv);
                }
                let ghost before = self.routes@;
                self.routes.set(i, Route { label: key, target });
                assert(self.labels() =~= labels);
                assert(old(self).labels().index_of_first(kv) == Some(i as int));
                assert(self.targets() =~= before.map_values(|r: Route<A>| r.target).update(i as int, target));
                return;
            }
            i = i + 1;
        }
        proof {
            labels.index_of_first_ensures(kv);
        }
        let ghost before = self.routes@;
        self.routes.push(Route { label: key, target });
        assert(forall|j: int| 0 <= j < labels.len() ==> labels[j] != kv);
        assert(self.labels() =~= labels.push(kv));
        assert(self.targets() =~= before.map_values(|r: Route<A>| r.target).push(target));
    }

    /// The position of the first label, in table order, that occurs in `text`.
    pub fn find(&self, text: &str) -> (r: Option<usize>)
        ensures
            match first_match(self.labels(), text@) {
                Some(i) => r == Some(i as usize),
                None => r is None,
            },
    {
        let mut i: usize = 0;
        while i < self.routes.len()
            invariant
                i <= self.routes.len(),
                first_match(self.labels().take(i as int), text@) is None,
            decreases self.routes.len() - i,
        {
            assert(self.labels().take(i as int + 1).drop_last() =~= self.labels().take(i as int));
            if contains(text, self.routes[i].label.as_str()) {
                proof {
                    lemma_first_match_prefix(self.labels(), text@, i as int);
                }
                return Some(i);
            }
            i = i + 1;
        }
        assert(self.labels().take(i as int) =~= self.labels());
        None
    }
}

/// A match within a prefix is the match of the whole sequence.
proof fn lemma_first_match_prefix(labels: Seq<Seq<char>>, text: Seq<char>, i: int)
    requires
        0 <= i < labels.len(),
        first_match(labels.take(i), text) is None,
        contains_seq(text, labels[i]),
    ensures
        first_match(labels, text) == Some(i),
    decreases labels.len(),
{
    if labels.len() == i + 1 {
        assert(labels.drop_last() =~= labels.take(i));
    } else {
        assert(labels.drop_last().take(i) =~= labels.take(i));
        lemma_first_match_prefix(labels.drop_last(), text, i);
    }
}

} // verus!
