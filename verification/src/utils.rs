//! The stable-identifier registry: values are registered under monotonically
//! minted identifiers, identifiers of removed values become holes that later
//! registrations reuse (smallest hole first), and enumeration always yields
//! live values in ascending identifier order.

use vstd::prelude::*;
use std::collections::HashMap;
use avl::AvlTreeSet;

verus! {

broadcast use vstd::std_specs::hash::group_hash_axioms;

#[verifier::external_type_specification]
#[verifier::external_body]
#[verifier::reject_recursive_types(T)]
pub struct ExAvlTreeSet<T>(AvlTreeSet<T>);

/// The set of identifiers an `avl::AvlTreeSet` holds.
pub uninterp spec fn holes_of(s: AvlTreeSet<usize>) -> Set<usize>;

/// Relies on `avl::AvlTreeSet::new`: creates an empty set.
#[verifier::external_body]
fn avl_new() -> (s: AvlTreeSet<usize>)
    ensures
        holes_of(s) == Set::<usize>::empty(),
{
    AvlTreeSet::new()
}

/// Relies on `avl::AvlTreeSet::insert`: adds the value to the set and reports
/// whether it was newly inserted.
#[verifier::external_body]
fn avl_insert(s: &mut AvlTreeSet<usize>, v: usize) -> (newly: bool)
    ensures
        holes_of(*final(s)) == holes_of(*old(s)).insert(v),
        newly == !holes_of(*old(s)).contains(v),
{
    s.insert(v)
}

/// Relies on `avl::AvlTreeSet::remove`: takes the value out of the set and
/// reports whether it was present.
#[verifier::external_body]
fn avl_remove(s: &mut AvlTreeSet<usize>, v: usize) -> (was: bool)
    ensures
        holes_of(*final(s)) == holes_of(*old(s)).remove(v),
        was == holes_of(*old(s)).contains(v),
{
    s.remove(&v)
}

/// Relies on `avl::AvlTreeSet::iter`: values come out in ascending order, so
/// the first one is the minimum; `None` only when the set is empty.
#[verifier::external_body]
fn avl_min(s: &AvlTreeSet<usize>) -> (r: Option<usize>)
    ensures
        match r {
            Some(m) => holes_of(*s).contains(m) && forall|x: usize|
                holes_of(*s).contains(x) ==> m <= x,
            None => forall|x: usize| !holes_of(*s).contains(x),
        },
{
    s.iter().next().copied()
}

/// Relies on `avl::AvlTreeSet::clone`: the copy holds the same values.
#[verifier::external_body]
fn avl_clone(s: &AvlTreeSet<usize>) -> (r: AvlTreeSet<usize>)
    ensures
        holes_of(r) == holes_of(*s),
{
    s.clone()
}

/// A registry of values keyed by stable identifiers.
///
/// Identifiers of removed entries are kept as holes in an ordered set; a new
/// registration reuses the smallest hole, or mints `len` when no hole exists,
/// so the identifier space never grows beyond the high-water mark of live
/// entries.
pub struct IdMap<V> {
    v: HashMap<usize, V>,
    holes: AvlTreeSet<usize>,
    len: usize,
}

impl<V> IdMap<V> {
    /// The map from live identifiers to their values.
    pub closed spec fn entries(self) -> Map<usize, V> {
        self.v@
    }

    /// The identifiers available for reuse.
    pub closed spec fn holes(self) -> Set<usize> {
        holes_of(self.holes)
    }

    /// One past the largest identifier ever minted.
    pub closed spec fn bound(self) -> nat {
        self.len as nat
    }

    /// The registry's abstract state, for stating laws over whole runs.
    pub open spec fn model(self) -> RegistryModel<V> {
        RegistryModel { entries: self.entries(), holes: self.holes(), bound: self.bound() }
    }

    /// The registry invariant: every identifier below `bound` is either live
    /// or a hole, never both, and nothing at or above `bound` is known.
    pub open spec fn wf(self) -> bool {
        &&& forall|k: usize| self.entries().dom().contains(k) ==> (k as nat) < self.bound()
        &&& forall|k: usize| self.holes().contains(k) ==> (k as nat) < self.bound()
        &&& forall|k: usize|
            !(self.entries().dom().contains(k) && #[trigger] self.holes().contains(k))
        &&& forall|k: usize|
            (k as nat) < self.bound() ==> (#[trigger] self.entries().dom().contains(k)
                || self.holes().contains(k))
    }

    /// The live identifiers below `n`, in ascending order.
    pub open spec fn live_ids_below(self, n: int) -> Seq<usize>
        decreases n,
    {
        if n <= 0 {
            Seq::empty()
        } else {
            let prev = self.live_ids_below(n - 1);
            if self.entries().dom().contains((n - 1) as usize) {
                prev.push((n - 1) as usize)
            } else {
                prev
            }
        }
    }

    /// All live identifiers, in ascending order.
    pub open spec fn live_ids(self) -> Seq<usize>
        recommends
            self.wf(),
    {
        self.live_ids_below(self.bound() as int)
    }

    /// The live values, ascending by identifier: what enumeration yields.
    pub open spec fn values_in_order(self) -> Seq<V>
        recommends
            self.wf(),
    {
        Seq::new(self.live_ids().len(), |j: int| self.entries()[self.live_ids()[j]])
    }

    /// The identifier the next registration will return: the smallest hole,
    /// or `bound` when no hole exists.
    pub open spec fn is_next_id(self, id: usize) -> bool {
        &&& forall|h: usize| #[trigger] self.holes().contains(h) ==> id <= h
        &&& self.holes().contains(id) || ((id as nat) == self.bound() && forall|h: usize|
            !(#[trigger] self.holes().contains(h)))
    }

    /// Creates an empty registry.
    pub fn new() -> (r: IdMap<V>)
        ensures
            r.wf(),
            r.entries() == Map::<usize, V>::empty(),
            r.holes() == Set::<usize>::empty(),
            r.bound() == 0,
            r.model() == empty_registry::<V>(),
    {
        IdMap { v: HashMap::new(), holes: avl_new(), len: 0 }
    }

    /// Registers a value, returning its identifier: the smallest hole if one
    /// exists, else a freshly minted one. The identifier returned is never
    /// one currently occupied.
    pub fn add(&mut self, val: V) -> (id: usize)
        requires
            old(self).wf(),
            old(self).bound() < usize::MAX,
        ensures
            final(self).wf(),
            old(self).is_next_id(id),
            !old(self).entries().dom().contains(id),
            final(self).entries() == old(self).entries().insert(id, val),
            final(self).holes() =~= old(self).holes().remove(id),
            final(self).bound() == if old(self).holes().contains(id) {
                old(self).bound()
            } else {
                old(self).bound() + 1
            },
            final(self).entries().dom().len() == old(self).entries().dom().len() + 1,
            step_ok(old(self).model(), RegOp::Add(id, val), final(self).model()),
    {
        let id: usize;
        match avl_min(&self.holes) {
            None => {
                id = self.len;
                self.v.insert(id, val);
                self.len = self.len + 1;
            },
            Some(h) => {
                id = h;
                avl_remove(&mut self.holes, h);
                self.v.insert(h, val);
            },
        }
        proof {
            let pre = *old(self);
            let post = *self;
            assert(pre.holes().contains(id) || (id as nat) == pre.bound());
            assert(post.entries() == pre.entries().insert(id, val));
            assert(post.entries().dom() =~= pre.entries().dom().insert(id));
            assert(pre.entries().dom().finite());
            assert(!pre.entries().dom().contains(id));
            assert(pre.entries().dom().insert(id).len() == pre.entries().dom().len() + 1);
            assert forall|k: usize| #[trigger] post.entries().dom().contains(k) implies (k as nat)
                < post.bound() by {
                if k != id {
                    assert(pre.entries().dom().contains(k));
                }
            }
            assert forall|k: usize| (k as nat) < post.bound() implies (
            #[trigger] post.entries().dom().contains(k) || post.holes().contains(k)) by {
                if k != id && (k as nat) < pre.bound() {
                    assert(pre.entries().dom().contains(k) || pre.holes().contains(k));
                    if pre.entries().dom().contains(k) {
                        assert(post.entries().dom().contains(k));
                    }
                }
            }
        }
        id
    }

    /// Unregisters an identifier, returning its value if it was live and
    /// marking it a hole; returns nothing for a stale or never-minted
    /// identifier, leaving the registry unchanged.
    pub fn remove(&mut self, id: usize) -> (r: Option<V>)
        requires
            old(self).wf(),
        ensures
            final(self).wf(),
            final(self).bound() == old(self).bound(),
            match r {
                Some(val) => {
                    &&& old(self).entries().dom().contains(id)
                    &&& val == old(self).entries()[id]
                    &&& final(self).entries() == old(self).entries().remove(id)
                    &&& final(self).holes() == old(self).holes().insert(id)
                    &&& final(self).entries().dom().len() == old(self).entries().dom().len() - 1
                },
                None => {
                    &&& !old(self).entries().dom().contains(id)
                    &&& final(self).entries() =~= old(self).entries()
                    &&& final(self).holes() == old(self).holes()
                },
            },
            step_ok(old(self).model(), RegOp::Remove(id), final(self).model()),
    {
        let r = match self.v.remove(&id) {
            Some(val) => {
                avl_insert(&mut self.holes, id);
                Some(val)
            },
            None => None,
        };
        proof {
            let pre = *old(self);
            let post = *self;
            if r is Some {
                assert(post.entries() == pre.entries().remove(id));
                assert(post.entries().dom() =~= pre.entries().dom().remove(id));
                assert(pre.entries().dom().finite());
                assert(pre.entries().dom().contains(id));
                assert(pre.entries().dom().remove(id).len() == pre.entries().dom().len() - 1);
                assert forall|k: usize| (k as nat) < post.bound() implies (
                #[trigger] post.entries().dom().contains(k) || post.holes().contains(k)) by {
                    if k != id {
                        assert(pre.entries().dom().contains(k) || pre.holes().contains(k));
                        if pre.entries().dom().contains(k) {
                            assert(post.entries().dom().contains(k));
                        }
                    }
                }
                assert((id as nat) < pre.bound());
                assert forall|k: usize| #[trigger] post.holes().contains(k) implies (k as nat)
                    < post.bound() by {
                    if k != id {
                        assert(pre.holes().contains(k));
                    }
                }
                assert forall|k: usize| !(post.entries().dom().contains(k)
                    && #[trigger] post.holes().contains(k)) by {
                    if k != id {
                        assert(!(pre.entries().dom().contains(k) && pre.holes().contains(k)));
                    }
                }
            } else {
                assert(post.entries() =~= pre.entries());
                assert(post.entries() == pre.entries());
                assert(post.holes() == pre.holes());
                assert forall|k: usize| #[trigger] post.holes().contains(k) implies (k as nat)
                    < post.bound() by {
                    assert(pre.holes().contains(k));
                }
            }
        }
        r
    }

    /// Looks an identifier up, yielding its value only if it is live.
    pub fn get(&self, k: &usize) -> (r: Option<&V>)
        ensures
            match r {
                Some(v) => self.entries().dom().contains(*k) && *v == self.entries()[*k],
                None => !self.entries().dom().contains(*k),
            },
    {
        self.v.get(k)
    }

    /// Yields the value of a live identifier; indexing a hole or an
    /// identifier beyond the registry is a caller error, ruled out here.
    pub fn index(&self, id: usize) -> (r: &V)
        requires
            self.entries().dom().contains(id),
        ensures
            *r == self.entries()[id],
    {
        self.v.get(&id).unwrap()
    }

    /// The live identifiers, in ascending order.
    pub fn ids(&self) -> (r: Vec<usize>)
        requires
            self.wf(),
        ensures
            r@ == self.live_ids(),
    {
        let mut out: Vec<usize> = Vec::new();
        let mut i: usize = 0;
        while i < self.len
            invariant
                i <= self.len,
                self.wf(),
                out@ == self.live_ids_below(i as int),
            decreases self.len - i,
        {
            if self.v.contains_key(&i) {
                out.push(i);
            }
            i = i + 1;
        }
        out
    }

    /// The live values, ascending by identifier.
    pub fn iter(&self) -> (r: Vec<V>) where V: Copy
        requires
            self.wf(),
        ensures
            r@ == self.values_in_order(),
    {
        let mut out: Vec<V> = Vec::new();
        let mut i: usize = 0;
        while i < self.len
            invariant
                i <= self.len,
                self.wf(),
                out@.len() == self.live_ids_below(i as int).len(),
                forall|j: int| 0 <= j < out@.len() ==> out@[j] == self.entries()[
                    self.live_ids_below(i as int)[j]
                ],
            decreases self.len - i,
        {
            match self.v.get(&i) {
                Some(x) => {
                    out.push(*x);
                },
                None => {},
            }
            i = i + 1;
        }
        proof {
            self.lemma_live_ids_ascending();
            assert(out@ =~= self.values_in_order());
        }
        out
    }

    /// Enumeration order law: the identifier sequence behind `ids` and `iter`
    /// is strictly ascending, covers exactly the live identifiers, and its
    /// length is the number of live entries.
    proof fn lemma_live_ids_below_props(self, n: int)
        requires
            n <= usize::MAX,
        ensures
            forall|i: int, j: int|
                0 <= i < j < self.live_ids_below(n).len() ==> self.live_ids_below(n)[i]
                    < self.live_ids_below(n)[j],
            forall|j: int| #![trigger self.live_ids_below(n)[j]]
                0 <= j < self.live_ids_below(n).len() ==> ((self.live_ids_below(n)[j] as int) < n
                    && self.entries().dom().contains(self.live_ids_below(n)[j])),
            forall|k: usize| 0 <= (k as int) < n && #[trigger] self.entries().dom().contains(k)
                ==> self.live_ids_below(n).contains(k),
        decreases n,
    {
        if n > 0 {
            self.lemma_live_ids_below_props(n - 1);
            let prev = self.live_ids_below(n - 1);
            let cur = self.live_ids_below(n);
            let last = (n - 1) as usize;
            assert forall|i: int, j: int| 0 <= i < j < cur.len() implies cur[i] < cur[j] by {
                if self.entries().dom().contains(last) {
                    assert(cur == prev.push(last));
                    if j < prev.len() {
                        assert(cur[i] == prev[i] && cur[j] == prev[j]);
                    } else {
                        assert(cur[j] == last);
                        assert(cur[i] == prev[i]);
                        assert((prev[i] as int) < n - 1);
                    }
                } else {
                    assert(cur == prev);
                }
            }
            assert forall|k: usize| 0 <= (k as int) < n
                && #[trigger] self.entries().dom().contains(k) implies cur.contains(k) by {
                if (k as int) < n - 1 {
                    assert(prev.contains(k));
                    let w = choose|w: int| 0 <= w < prev.len() && prev[w] == k;
                    assert(cur[w] == k);
                } else {
                    assert(cur[cur.len() - 1] == k);
                }
            }
        }
    }

    /// The enumeration law: for a well-formed registry, enumeration yields
    /// exactly the live entries, in strictly ascending identifier order, one
    /// for each live identifier.
    pub proof fn lemma_live_ids_ascending(self)
        requires
            self.wf(),
        ensures
            forall|i: int, j: int|
                0 <= i < j < self.live_ids().len() ==> self.live_ids()[i] < self.live_ids()[j],
            forall|j: int| 0 <= j < self.live_ids().len() ==> self.entries().dom().contains(
                #[trigger] self.live_ids()[j]
            ),
            forall|k: usize| #[trigger] self.entries().dom().contains(k)
                ==> self.live_ids().contains(k),
            self.values_in_order().len() == self.live_ids().len(),
    {
        self.lemma_live_ids_below_props(self.bound() as int);
    }

    /// The reuse law: whatever identifier the next registration returns, it
    /// is no larger than any current hole, and is never an identifier
    /// currently occupied.
    pub proof fn lemma_hole_reuse(self, k: usize, id: usize)
        requires
            self.wf(),
            self.holes().contains(k),
            self.is_next_id(id),
        ensures
            id <= k,
            !self.entries().dom().contains(id),
    {
    }
}

/// The registry's abstract state: its live entries, its reusable holes and
/// its identifier high-water mark.
pub struct RegistryModel<V> {
    /// The map from live identifiers to values.
    pub entries: Map<usize, V>,
    /// The identifiers available for reuse.
    pub holes: Set<usize>,
    /// One past the largest identifier ever minted.
    pub bound: nat,
}

/// The state of a registry with nothing in it.
pub open spec fn empty_registry<V>() -> RegistryModel<V> {
    RegistryModel { entries: Map::empty(), holes: Set::empty(), bound: 0 }
}

/// One operation against a registry: a registration, recorded with the
/// identifier it returned, or a removal by identifier.
pub enum RegOp<V> {
    /// A value was registered and came back under this identifier.
    Add(usize, V),
    /// This identifier was asked to be removed.
    Remove(usize),
}

/// What one operation does to the abstract state, as the contracts of `add`
/// and `remove` promise: a registration occupies a free identifier, a
/// removal deletes the entry exactly when the identifier was live.
pub open spec fn step_ok<V>(pre: RegistryModel<V>, op: RegOp<V>, post: RegistryModel<V>) -> bool {
    match op {
        RegOp::Add(id, v) => !pre.entries.dom().contains(id) && post.entries == pre.entries.insert(
            id,
            v,
        ),
        RegOp::Remove(id) => post.entries == if pre.entries.dom().contains(id) {
            pre.entries.remove(id)
        } else {
            pre.entries
        },
    }
}

/// A run of the registry: `states` records the abstract state before and
/// after each operation of `ops`, starting from `init`.
pub open spec fn trace_ok<V>(
    init: RegistryModel<V>,
    ops: Seq<RegOp<V>>,
    states: Seq<RegistryModel<V>>,
) -> bool {
    &&& states.len() == ops.len() + 1
    &&& states.first() == init
    &&& forall|i: int| 0 <= i < ops.len() ==> step_ok(states[i], #[trigger] ops[i], states[i + 1])
}

/// How many operations of the run were registrations.
pub open spec fn spec_adds<V>(ops: Seq<RegOp<V>>) -> int
    decreases ops.len(),
{
    if ops.len() == 0 {
        0
    } else {
        spec_adds(ops.drop_last()) + (match ops.last() {
            RegOp::Add(id, v) => 1int,
            RegOp::Remove(id) => 0int,
        })
    }
}

/// How many removals of the run found their identifier live.
pub open spec fn spec_hits<V>(ops: Seq<RegOp<V>>, states: Seq<RegistryModel<V>>) -> int
    decreases ops.len(),
{
    if ops.len() == 0 {
        0
    } else {
        spec_hits(ops.drop_last(), states.drop_last()) + (match ops.last() {
            RegOp::Remove(id) => if states[ops.len() - 1].entries.dom().contains(id) {
                1int
            } else {
                0int
            },
            RegOp::Add(id, v) => 0int,
        })
    }
}

/// The churn law: over any sequence of registrations and removals from the
/// empty registry, the number of live identifiers equals the number of
/// registrations minus the number of removals that found their identifier,
/// and so never exceeds the number of registrations. Every prefix of a run
/// is itself a run, so this holds at any time, not only at the end.
pub proof fn lemma_registry_count<V>(ops: Seq<RegOp<V>>, states: Seq<RegistryModel<V>>)
    requires
        trace_ok(empty_registry::<V>(), ops, states),
    ensures
        states.last().entries.dom().finite(),
        states.last().entries.dom().len() == spec_adds(ops) - spec_hits(ops, states),
        0 <= spec_hits(ops, states),
        states.last().entries.dom().len() <= spec_adds(ops),
    decreases ops.len(),
{
    if ops.len() == 0 {
        assert(states.last() == empty_registry::<V>());
        assert(empty_registry::<V>().entries.dom() =~= Set::<usize>::empty());
    } else {
        let shorter_ops = ops.drop_last();
        let shorter_states = states.drop_last();
        assert(trace_ok(empty_registry::<V>(), shorter_ops, shorter_states)) by {
            assert(shorter_states.first() == states.first());
            assert forall|i: int| 0 <= i < shorter_ops.len() implies step_ok(
                shorter_states[i],
                #[trigger] shorter_ops[i],
                shorter_states[i + 1],
            ) by {
                assert(shorter_ops[i] == ops[i]);
                assert(shorter_states[i] == states[i]);
                assert(shorter_states[i + 1] == states[i + 1]);
            }
        }
        lemma_registry_count(shorter_ops, shorter_states);
        let n = ops.len() as int;
        let pre = states[n - 1];
        let post = states[n];
        assert(step_ok(pre, ops[n - 1], post));
        assert(shorter_states.last() == pre);
        assert(ops.last() == ops[n - 1]);
        match ops[n - 1] {
            RegOp::Add(id, v) => {
                assert(post.entries.dom() =~= pre.entries.dom().insert(id));
                assert(pre.entries.dom().insert(id).len() == pre.entries.dom().len() + 1);
            },
            RegOp::Remove(id) => {
                if pre.entries.dom().contains(id) {
                    assert(post.entries.dom() =~= pre.entries.dom().remove(id));
                    assert(pre.entries.dom().remove(id).len() == pre.entries.dom().len() - 1);
                } else {
                    assert(post.entries.dom() =~= pre.entries.dom());
                }
            },
        }
    }
}

impl<V: Clone> Clone for IdMap<V> {
    /// Duplicates the registry: the copy holds the same entries, holes and
    /// high-water mark, so both halves enumerate identically.
    fn clone(&self) -> (r: Self)
        ensures
            r.entries() == self.entries(),
            r.holes() == self.holes(),
            r.bound() == self.bound(),
            self.wf() ==> r.wf(),
    {
        IdMap { v: self.v.clone(), holes: avl_clone(&self.holes), len: self.len }
    }
}

} // verus!
