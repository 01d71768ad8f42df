//! Effects stored in a slot array; for 20 to 50 effects this beats a hash map.
use vstd::prelude::*;
use core::marker::PhantomData;
use vstd::std_specs::cmp::PartialEqSpec;
use crate::base_lib::cores::slots::{
    compact_slots, holes_of, lemma_live_in_slots, lemma_live_index_lt, lemma_live_index_value, lemma_live_len,
    lemma_push, lemma_unique_push, lemma_unique_remove, lemma_update, live_index, live_of, slot_mut,
    unique_by,
};
use crate::base_lib::eff_attr_prop::upsert_container::lemma_same_shape;

verus! {

/// A value with an identity of type `T`.
pub trait WithId<T: Eq + core::hash::Hash + Clone + core::fmt::Debug> {
    /// The identity.
    spec fn id_of(&self) -> T;

    fn get_id(&self) -> (r: &T)
        ensures
            *r == self.id_of(),
    ;
}

/// No two effects share an identity.
pub open spec fn ids_distinct<T: Eq + core::hash::Hash + Clone + core::fmt::Debug, E: WithId<T>>(
    s: Seq<E>,
) -> bool {
    unique_by(s, |e: E| e.id_of())
}

/// `==` on identities is identity equality.
pub open spec fn id_eq_is_equality<T: Eq + core::hash::Hash + Clone + core::fmt::Debug>() -> bool {
    &&& T::obeys_eq_spec()
    &&& forall|x: T, y: T| #[trigger] x.eq_spec(&y) <==> x == y
}

/// Merging with `f` keeps the identity of the earlier effect.
pub open spec fn merge_keeps_identity<
    T: Eq + core::hash::Hash + Clone + core::fmt::Debug,
    E: WithId<T>,
    F: Fn(E, E) -> E,
>(f: F) -> bool {
    forall|a: E, b: E, c: E| #[trigger] call_ensures(f, (a, b), c) ==> c.id_of() == a.id_of()
}

/// Slot `i` is the first occupied slot whose element's identity equals `id`.
pub open spec fn first_id_match<T: Eq + core::hash::Hash + Clone + core::fmt::Debug, E: WithId<T>>(
    s: Seq<Option<E>>,
    id: T,
    i: int,
) -> bool {
    &&& 0 <= i < s.len()
    &&& s[i] is Some
    &&& s[i].unwrap().id_of().eq_spec(&id)
    &&& forall|j: int|
        0 <= j < i && (#[trigger] s[j]) is Some ==> !s[j].unwrap().id_of().eq_spec(&id)
}

/// No occupied slot holds an element whose identity equals `id`.
pub open spec fn no_id_match<T: Eq + core::hash::Hash + Clone + core::fmt::Debug, E: WithId<T>>(
    s: Seq<Option<E>>,
    id: T,
) -> bool {
    forall|j: int| 0 <= j < s.len() && (#[trigger] s[j]) is Some ==> !s[j].unwrap().id_of().eq_spec(&id)
}

/// Container of lasting effects, kept in order: what was inserted or merged last
/// comes last.
pub struct EffectContainer<T: Eq + core::hash::Hash + Clone + core::fmt::Debug, E: WithId<T>> {
    /// The slots.
    effects: Vec<Option<E>>,
    /// The number of holes.
    hole_count: usize,
    phantom: PhantomData<T>,
}

impl<T: Eq + core::hash::Hash + Clone + core::fmt::Debug, E: WithId<T>> Default for EffectContainer<
    T,
    E,
> {
    fn default() -> (r: Self)
        ensures
            r.wf(),
            r.slots() == Seq::<Option<E>>::empty(),
    {
        EffectContainer { effects: Vec::new(), hole_count: 0, phantom: PhantomData }
    }
}

impl<T: Eq + core::hash::Hash + Clone + core::fmt::Debug, E: WithId<T>> EffectContainer<T, E> {
    /// The slots, holes included.
    pub closed spec fn slots(&self) -> Seq<Option<E>> {
        self.effects@
    }

    /// The effects, in order.
    pub open spec fn live(&self) -> Seq<E> {
        live_of(self.slots())
    }

    /// The number of holes.
    pub open spec fn holes(&self) -> nat {
        holes_of(self.slots())
    }

    /// The hole counter agrees with the slots.
    pub closed spec fn wf(&self) -> bool {
        self.hole_count == holes_of(self.effects@)
    }

    /// The effects, in order.
    pub fn iter_eff(&self) -> (r: Vec<&E>)
        ensures
            r@.len() == self.live().len(),
            forall|k: int| 0 <= k < r@.len() ==> *r@[k] == self.live()[k],
    {
        let mut out: Vec<&E> = Vec::new();
        let mut i: usize = 0;
        proof {
            assert(self.effects@.take(0) =~= Seq::<Option<E>>::empty());
        }
        while i < self.effects.len()
            invariant
                i <= self.effects@.len(),
                out@.len() == live_of(self.effects@.take(i as int)).len(),
                forall|k: int|
                    0 <= k < out@.len() ==> *out@[k] == live_of(self.effects@.take(i as int))[k],
            decreases self.effects@.len() - i,
        {
            proof {
                assert(self.effects@.take(i + 1) =~= self.effects@.take(i as int).push(
                    self.effects@[i as int],
                ));
                lemma_push(self.effects@.take(i as int), self.effects@[i as int]);
            }
            match &self.effects[i] {
                Some(e) => {
                    out.push(e);
                },
                None => {},
            }
            i = i + 1;
        }
        proof {
            assert(self.effects@.take(self.effects@.len() as int) =~= self.effects@);
        }
        out
    }

    /// Applies `f` to every effect in place.
    pub fn iter_eff_mut<F: Fn(E) -> E>(&mut self, f: F)
        requires
            old(self).wf(),
            forall|e: E| #[trigger] call_requires(f, (e,)),
        ensures
            final(self).wf(),
            final(self).slots().len() == old(self).slots().len(),
            forall|i: int|
                0 <= i < old(self).slots().len() ==> ((#[trigger] final(self).slots()[i]) is Some
                    <==> old(self).slots()[i] is Some),
            forall|i: int|
                0 <= i < old(self).slots().len() && (#[trigger] old(self).slots()[i]) is Some
                    ==> call_ensures(
                    f,
                    (old(self).slots()[i].unwrap(),),
                    final(self).slots()[i].unwrap(),
                ),
            final(self).live().len() == old(self).live().len(),
    {
        let ghost orig = self.effects@;
        let n = self.effects.len();
        let mut i: usize = 0;
        while i < n
            invariant
                i <= n,
                self.effects@.len() == n,
                orig.len() == n,
                self.hole_count == holes_of(orig),
                forall|e: E| #[trigger] call_requires(f, (e,)),
                forall|j: int| i <= j < n ==> self.effects@[j] == orig[j],
                forall|j: int|
                    0 <= j < n ==> ((#[trigger] self.effects@[j]) is Some <==> orig[j] is Some),
                forall|j: int|
                    0 <= j < i && (#[trigger] orig[j]) is Some ==> call_ensures(
                        f,
                        (orig[j].unwrap(),),
                        self.effects@[j].unwrap(),
                    ),
            decreases n - i,
        {
            let item = self.effects[i].take();
            match item {
                Some(e) => {
                    let e2 = f(e);
                    self.effects.set(i, Some(e2));
                },
                None => {},
            }
            i = i + 1;
        }
        proof {
            lemma_same_shape(orig, self.effects@);
        }
    }

    /// The index of the first occupied slot whose effect has identity `id`.
    fn locate_eff_slot(&self, id: &T) -> (r: Option<usize>)
        ensures
            T::obeys_eq_spec() ==> match r {
                Some(i) => first_id_match(self.effects@, *id, i as int),
                None => no_id_match(self.effects@, *id),
            },
            r matches Some(i) ==> i < self.effects@.len() && self.effects@[i as int] is Some,
    {
        let mut i: usize = 0;
        while i < self.effects.len()
            invariant
                i <= self.effects@.len(),
                T::obeys_eq_spec() ==> forall|j: int|
                    0 <= j < i && (#[trigger] self.effects@[j]) is Some
                        ==> !self.effects@[j].unwrap().id_of().eq_spec(id),
            decreases self.effects@.len() - i,
        {
            match &self.effects[i] {
                Some(e) => {
                    if e.get_id().eq(id) {
                        return Some(i);
                    }
                },
                None => {},
            }
            i = i + 1;
        }
        None
    }

    /// The first effect with identity `id`.
    pub fn find_eff(&self, id: &T) -> (r: Option<&E>)
        ensures
            T::obeys_eq_spec() ==> match r {
                Some(e) => exists|i: int|
                    #![trigger first_id_match(self.slots(), *id, i)]
                    first_id_match(self.slots(), *id, i) && *e == self.slots()[i].unwrap(),
                None => no_id_match(self.slots(), *id),
            },
    {
        match self.locate_eff_slot(id) {
            Some(i) => {
                let r = self.effects[i].as_ref();
                proof {
                    if T::obeys_eq_spec() {
                        assert(first_id_match(self.slots(), *id, i as int));
                    }
                }
                r
            },
            None => None,
        }
    }

    /// The first effect with identity `id`, for update in place.
    pub fn find_eff_mut(&mut self, id: &T) -> (r: Option<&mut E>)
        requires
            old(self).wf(),
        ensures
            match r {
                Some(e) => exists|i: int|
                    #![trigger old(self).slots()[i]]
                    {
                        &&& 0 <= i < old(self).slots().len()
                        &&& old(self).slots()[i] is Some
                        &&& T::obeys_eq_spec() ==> first_id_match(old(self).slots(), *id, i)
                        &&& *e == old(self).slots()[i].unwrap()
                        &&& final(self).slots() == old(self).slots().update(i, Some(*final(e)))
                        &&& final(self).wf()
                    },
                None => {
                    &&& T::obeys_eq_spec() ==> no_id_match(old(self).slots(), *id)
                    &&& *final(self) == *old(self)
                },
            },
    {
        match self.locate_eff_slot(id) {
            Some(i) => {
                let ghost s = self.effects@;
                let r = slot_mut(&mut self.effects, i);
                proof {
                    lemma_update(s, i as int, Some(*final(r)));
                    assert(old(self).slots()[i as int] is Some);
                }
                Some(r)
            },
            None => None,
        }
    }

    /// Adds `new_eff`; where an effect of the same identity is present, the first
    /// such effect is replaced by `f(old, new_eff)`, moved to the end.
    pub fn upsert_eff<F: Fn(E, E) -> E>(&mut self, new_eff: E, f: F)
        requires
            old(self).wf(),
            forall|a: E, b: E| #[trigger] call_requires(f, (a, b)),
        ensures
            final(self).wf(),
            ({
                let s = old(self).slots();
                ||| exists|i: int|
                    #![trigger s[i]]
                    {
                        &&& 0 <= i < s.len()
                        &&& s[i] is Some
                        &&& T::obeys_eq_spec() ==> first_id_match(s, new_eff.id_of(), i)
                        &&& final(self).slots().len() == s.len() + 1
                        &&& final(self).slots().last() is Some
                        &&& call_ensures(
                            f,
                            (s[i].unwrap(), new_eff),
                            final(self).slots().last().unwrap(),
                        )
                        &&& final(self).slots() == s.update(i, None).push(
                            final(self).slots().last(),
                        )
                        &&& 0 <= live_index(s, i) < old(self).live().len()
                        &&& old(self).live()[live_index(s, i)] == s[i].unwrap()
                        &&& final(self).live() == old(self).live().remove(live_index(s, i)).push(
                            final(self).slots().last().unwrap(),
                        )
                        &&& final(self).holes() == old(self).holes() + 1
                    }
                ||| {
                    &&& T::obeys_eq_spec() ==> no_id_match(s, new_eff.id_of())
                    &&& final(self).slots() == s.push(Some(new_eff))
                    &&& final(self).live() == old(self).live().push(new_eff)
                    &&& final(self).holes() == old(self).holes()
                }
            }),
            id_eq_is_equality::<T>() && merge_keeps_identity::<T, E, F>(f) && ids_distinct(
                old(self).live(),
            ) ==> ids_distinct(final(self).live()),
    {
        let located = self.locate_eff_slot(new_eff.get_id());
        let ghost s = self.effects@;
        match located {
            Some(i) => {
                let len = self.effects.len();
                proof {
                    lemma_update(s, i as int, None);
                    lemma_live_len(s);
                    assert(self.hole_count < len);
                }
                let old_eff = self.effects[i].take();
                match old_eff {
                    Some(o) => {
                        let merged = f(o, new_eff);
                        let ghost mid = self.effects@;
                        self.effects.push(Some(merged));
                        self.hole_count = self.hole_count + 1;
                        proof {
                            assert(mid =~= s.update(i as int, None));
                            lemma_push(mid, Some(merged));
                            assert(old(self).slots()[i as int] is Some);
                            if merge_keeps_identity::<T, E, F>(f) {
                                assert(call_ensures(f, (o, new_eff), merged));
                            }
                            lemma_move_keeps_ids_distinct(s, i as int, merged);
                        }
                    },
                    None => {},
                }
            },
            None => {
                self.effects.push(Some(new_eff));
                proof {
                    lemma_push(s, Some(new_eff));
                    lemma_put_keeps_ids_distinct(s, new_eff);
                }
            },
        }
    }

    /// Empties the first slot holding an effect with identity `id`, if any.
    /// Deleting again what is gone changes nothing.
    pub fn del_eff_by(&mut self, id: &T)
        requires
            old(self).wf(),
        ensures
            final(self).wf(),
            ({
                ||| exists|i: int|
                    #![trigger old(self).slots()[i]]
                    {
                        &&& 0 <= i < old(self).slots().len()
                        &&& old(self).slots()[i] is Some
                        &&& T::obeys_eq_spec() ==> first_id_match(old(self).slots(), *id, i)
                        &&& final(self).slots() == old(self).slots().update(i, None)
                        &&& 0 <= live_index(old(self).slots(), i) < old(self).live().len()
                        &&& old(self).live()[live_index(old(self).slots(), i)] == old(self).slots()[i].unwrap()
                        &&& final(self).live() == old(self).live().remove(
                            live_index(old(self).slots(), i),
                        )
                        &&& final(self).holes() == old(self).holes() + 1
                    }
                ||| {
                    &&& T::obeys_eq_spec() ==> no_id_match(old(self).slots(), *id)
                    &&& final(self).slots() == old(self).slots()
                }
            }),
            ids_distinct(old(self).live()) ==> ids_distinct(final(self).live()),
    {
        match self.locate_eff_slot(id) {
            Some(i) => {
                let ghost s = self.effects@;
                let len = self.effects.len();
                proof {
                    lemma_update(s, i as int, None);
                    lemma_live_len(s);
                    assert(self.hole_count < len);
                }
                self.effects.set(i, None);
                self.hole_count = self.hole_count + 1;
                proof {
                    assert(old(self).slots()[i as int] is Some);
                    lemma_live_index_value(s, i as int);
                    if ids_distinct(live_of(s)) {
                        lemma_unique_remove(live_of(s), live_index(s, i as int), |e: E| e.id_of());
                    }
                }
            },
            None => {},
        }
    }

    /// Compacts the holes away when they are many: at least three and at least a
    /// quarter of the slots, or more than fifty whatever the ratio. The effects,
    /// their order and the allocation are kept. To be run periodically.
    pub fn try_clean(&mut self)
        requires
            old(self).wf(),
        ensures
            final(self).wf(),
            final(self).live() == old(self).live(),
            Self::should_compact(old(self).holes(), old(self).slots().len()) ==> final(self).holes()
                == 0,
            !Self::should_compact(old(self).holes(), old(self).slots().len())
                ==> final(self).slots() == old(self).slots(),
    {
        if self.hole_count < 3 {
            return ;
        } else if self.hole_count > 50 {
            self.do_clean();
            return ;
        }
        if self.hole_count as u128 * 4 >= self.effects.len() as u128 {
            self.do_clean();
        }
    }

    /// Whether `holes` holes among `len` slots call for compaction.
    pub open spec fn should_compact(holes: nat, len: nat) -> bool {
        holes >= 3 && (holes > 50 || holes * 4 >= len)
    }

    /// Keeps the occupied slots, in order, and the allocation.
    fn do_clean(&mut self)
        requires
            old(self).wf(),
        ensures
            final(self).wf(),
            final(self).live() == old(self).live(),
            final(self).holes() == 0,
    {
        compact_slots(&mut self.effects);
        self.hole_count = 0;
    }
}

/// Moving the effect in slot `i`, merged into one of the same identity, to the end
/// keeps identities distinct.
proof fn lemma_move_keeps_ids_distinct<
    T: Eq + core::hash::Hash + Clone + core::fmt::Debug,
    E: WithId<T>,
>(s: Seq<Option<E>>, i: int, merged: E)
    requires
        0 <= i < s.len(),
        s[i] is Some,
    ensures
        merged.id_of() == s[i].unwrap().id_of() && ids_distinct(live_of(s)) ==> ids_distinct(
            live_of(s).remove(live_index(s, i)).push(merged),
        ),
{
    if merged.id_of() == s[i].unwrap().id_of() && ids_distinct(live_of(s)) {
        let a = live_of(s);
        let li = live_index(s, i);
        lemma_live_index_value(s, i);
        lemma_unique_remove(a, li, |e: E| e.id_of());
        let rest = a.remove(li);
        assert forall|k: int| 0 <= k < rest.len() implies (|e: E| e.id_of())(#[trigger] rest[k])
            != (|e: E| e.id_of())(merged) by {
            let kk = if k < li {
                k
            } else {
                k + 1
            };
            assert(rest[k] == a[kk]);
            assert(kk != li);
        }
        lemma_unique_push(rest, merged, |e: E| e.id_of());
    }
}

/// Putting `eff`, whose identity no effect has, keeps identities distinct.
proof fn lemma_put_keeps_ids_distinct<
    T: Eq + core::hash::Hash + Clone + core::fmt::Debug,
    E: WithId<T>,
>(s: Seq<Option<E>>, eff: E)
    ensures
        id_eq_is_equality::<T>() && no_id_match(s, eff.id_of()) && ids_distinct(live_of(s))
            ==> ids_distinct(live_of(s).push(eff)),
{
    if id_eq_is_equality::<T>() && no_id_match(s, eff.id_of()) && ids_distinct(live_of(s)) {
        let a = live_of(s);
        assert forall|k: int| 0 <= k < a.len() implies (|e: E| e.id_of())(#[trigger] a[k]) != (|
            e: E,
        | e.id_of())(eff) by {
            lemma_live_in_slots(s, k);
            let j = choose|j: int| 0 <= j < s.len() && #[trigger] s[j] == Some(live_of(s)[k]);
            assert(s[j] is Some);
        }
        lemma_unique_push(a, eff, |e: E| e.id_of());
    }
}

/// Deleting by identity is idempotent: where identities are distinct and `==` on
/// them is identity equality, once the first effect with identity `id` is deleted
/// no effect with that identity is left, so that a second `del_eff_by(id)` finds
/// nothing and leaves the container as it is.
pub proof fn law_del_eff_by_twice_is_once<
    T: Eq + core::hash::Hash + Clone + core::fmt::Debug,
    E: WithId<T>,
>(s: Seq<Option<E>>, id: T, i: int)
    requires
        id_eq_is_equality::<T>(),
        ids_distinct(live_of(s)),
        first_id_match(s, id, i),
    ensures
        no_id_match(s.update(i, None), id),
{
    let t = s.update(i, None);
    lemma_live_index_value(s, i);
    assert(s[i].unwrap().id_of().eq_spec(&id));
    assert(s[i].unwrap().id_of() == id);
    assert forall|j: int| 0 <= j < t.len() && (#[trigger] t[j]) is Some implies !t[j].unwrap().id_of().eq_spec(&id) by {
        assert(j != i);
        assert(t[j] == s[j]);
        if j > i {
            lemma_live_index_value(s, j);
            lemma_live_index_lt(s, i, j);
            let a = live_index(s, i);
            let b = live_index(s, j);
            assert((|e: E| e.id_of())(live_of(s)[a]) != (|e: E| e.id_of())(live_of(s)[b]));
            assert(s[j].unwrap().id_of() != id);
            assert(!s[j].unwrap().id_of().eq_spec(&id));
        }
    }
}

} // verus!
