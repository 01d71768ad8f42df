//! Container of lasting effects, found by effect name.
use vstd::prelude::*;
use core::marker::PhantomData;
use crate::base_lib::cores::slots::{
    all_occupied, lemma_occupied_live,
    lemma_live_in_slots, lemma_live_index_value, lemma_push, lemma_unique_push, lemma_unique_remove,
    lemma_update, live_index, live_of, slot_mut, unique_by, vec_capacity,
};
use crate::base_lib::cores::unify_types::FixedName;

verus! {

/// A lasting effect, known by its effect name, that absorbs a later effect of the
/// same name (taking over its source, value and stacks).
pub trait ProxyDurationEffect<S: FixedName>: Sized {
    /// The effect name.
    spec fn name_of(&self) -> S;

    /// The effect after absorbing `other`.
    spec fn refreshed(&self, other: &Self) -> Self;

    fn get_effect_name(&self) -> (r: &S)
        ensures
            *r == self.name_of(),
    ;

    fn refresh_with_name_value_stack(&mut self, other: &Self)
        ensures
            *final(self) == old(self).refreshed(other),
    ;
}

/// Slot `i` is the first occupied slot whose effect's name equals `name`.
pub open spec fn first_named<S: FixedName, E: ProxyDurationEffect<S>>(
    s: Seq<Option<E>>,
    name: S,
    i: int,
) -> bool {
    &&& 0 <= i < s.len()
    &&& s[i] is Some
    &&& s[i].unwrap().name_of().same_name(&name)
    &&& forall|j: int|
        0 <= j < i && (#[trigger] s[j]) is Some ==> !s[j].unwrap().name_of().same_name(&name)
}

/// No occupied slot holds an effect whose name equals `name`.
pub open spec fn none_named<S: FixedName, E: ProxyDurationEffect<S>>(
    s: Seq<Option<E>>,
    name: S,
) -> bool {
    forall|j: int| 0 <= j < s.len() && (#[trigger] s[j]) is Some ==> !s[j].unwrap().name_of().same_name(&name)
}

/// No two effects share a name.
pub open spec fn names_unique<S: FixedName, E: ProxyDurationEffect<S>>(s: Seq<E>) -> bool {
    unique_by(s, |e: E| e.name_of())
}

/// Every name is the same name as itself.
pub open spec fn same_name_reflexive<S: FixedName>() -> bool {
    forall|x: S| #[trigger] x.same_name(&x)
}

/// Absorbing another effect keeps an effect's name.
pub open spec fn refresh_keeps_name<S: FixedName, E: ProxyDurationEffect<S>>() -> bool {
    forall|a: E, b: E| #[trigger] a.refreshed(&b).name_of() == a.name_of()
}

/// Container of lasting effects, in order: an effect put or stacked last comes last.
pub struct EffectContainer<S: FixedName, E: ProxyDurationEffect<S>> {
    effects: Vec<Option<E>>,
    _marker: PhantomData<S>,
}

impl<S: FixedName, E: ProxyDurationEffect<S>> Default for EffectContainer<S, E> {
    fn default() -> (r: Self)
        ensures
            r.slots() == Seq::<Option<E>>::empty(),
    {
        EffectContainer { effects: Vec::new(), _marker: PhantomData }
    }
}

impl<S: FixedName, E: ProxyDurationEffect<S>> EffectContainer<S, E> {
    /// The slots, holes included.
    pub closed spec fn slots(&self) -> Seq<Option<E>> {
        self.effects@
    }

    /// The effects, in order.
    pub open spec fn live(&self) -> Seq<E> {
        live_of(self.slots())
    }

    /// An empty container.
    pub fn new() -> (r: Self)
        ensures
            r.slots() == Seq::<Option<E>>::empty(),
    {
        EffectContainer { effects: Vec::new(), _marker: PhantomData }
    }

    /// Drops the holes, keeping the effects in order, into an allocation sized to
    /// the next power of two of their number. Needed from time to time to reclaim
    /// memory; skipping it is never wrong.
    pub fn refresh_capacity(&mut self)
        ensures
            final(self).slots().len() == old(self).live().len(),
            final(self).live() == old(self).live(),
            forall|i: int| 0 <= i < final(self).slots().len() ==> (#[trigger] final(self).slots()[i]) is Some,
    {
        let mut min_cap: usize = 0;
        let mut i: usize = 0;
        proof {
            assert(self.effects@.take(0) =~= Seq::<Option<E>>::empty());
        }
        while i < self.effects.len()
            invariant
                i <= self.effects@.len(),
                min_cap == live_of(self.effects@.take(i as int)).len(),
            decreases self.effects@.len() - i,
        {
            proof {
                assert(self.effects@.take(i + 1) =~= self.effects@.take(i as int).push(
                    self.effects@[i as int],
                ));
                lemma_push(self.effects@.take(i as int), self.effects@[i as int]);
                crate::base_lib::cores::slots::lemma_live_len(self.effects@.take(i + 1));
            }
            if self.effects[i].is_some() {
                min_cap = min_cap + 1;
            }
            i = i + 1;
        }
        let mut cap: usize = 1;
        while cap < min_cap && cap <= usize::MAX / 2
            invariant
                cap >= 1,
            decreases usize::MAX - cap,
        {
            cap = cap * 2;
        }
        let mut new_effects: Vec<Option<E>> = Vec::with_capacity(cap);
        core::mem::swap(&mut new_effects, &mut self.effects);
        let mut old_effects = new_effects;
        let ghost orig = old_effects@;
        let n = old_effects.len();
        let mut k: usize = 0;
        proof {
            assert(orig.take(0) =~= Seq::<Option<E>>::empty());
        }
        while k < n
            invariant
                k <= n,
                old_effects@.len() == n,
                orig.len() == n,
                forall|j: int| k <= j < n ==> old_effects@[j] == orig[j],
                self.effects@ == all_occupied(live_of(orig.take(k as int))),
            decreases n - k,
        {
            proof {
                assert(orig.take(k + 1) =~= orig.take(k as int).push(orig[k as int]));
                lemma_push(orig.take(k as int), orig[k as int]);
            }
            let item = old_effects[k].take();
            if item.is_some() {
                proof {
                    let e = item.unwrap();
                    assert(all_occupied(live_of(orig.take(k as int)).push(e)) =~= all_occupied(
                        live_of(orig.take(k as int)),
                    ).push(Some(e)));
                }
                self.effects.push(item);
            }
            k = k + 1;
        }
        proof {
            assert(orig.take(n as int) =~= orig);
            lemma_occupied_live(live_of(orig));
        }
    }

    /// The number of slots the allocation holds without growing.
    pub fn capacity(&self) -> (r: usize)
        ensures
            r >= self.slots().len(),
    {
        vec_capacity(&self.effects)
    }

    /// The names of the effects, in order; most recently put or stacked last.
    pub fn keys(&self) -> (r: Vec<S>)
        ensures
            r@.len() == self.live().len(),
            forall|k: int| 0 <= k < r@.len() ==> cloned(self.live()[k].name_of(), #[trigger] r@[k]),
    {
        let mut out: Vec<S> = Vec::new();
        let mut i: usize = 0;
        proof {
            assert(self.effects@.take(0) =~= Seq::<Option<E>>::empty());
        }
        while i < self.effects.len()
            invariant
                i <= self.effects@.len(),
                out@.len() == live_of(self.effects@.take(i as int)).len(),
                forall|k: int|
                    0 <= k < out@.len() ==> cloned(
                        live_of(self.effects@.take(i as int))[k].name_of(),
                        #[trigger] out@[k],
                    ),
            decreases self.effects@.len() - i,
        {
            proof {
                assert(self.effects@.take(i + 1) =~= self.effects@.take(i as int).push(
                    self.effects@[i as int],
                ));
                lemma_push(self.effects@.take(i as int), self.effects@[i as int]);
            }
            match &self.effects[i] {
                Some(e) => {
                    let name = e.get_effect_name().clone();
                    out.push(name);
                },
                None => {},
            }
            i = i + 1;
        }
        proof {
            assert(self.effects@.take(self.effects@.len() as int) =~= self.effects@);
        }
        out
    }

    /// The index of the first occupied slot whose effect is named `s`.
    fn get_effect_mut_inner(&self, s: &S) -> (r: Option<usize>)
        ensures
            match r {
                Some(i) => first_named(self.effects@, *s, i as int),
                None => none_named(self.effects@, *s),
            },
            r matches Some(i) ==> i < self.effects@.len() && self.effects@[i as int] is Some,
    {
        let mut i: usize = 0;
        while i < self.effects.len()
            invariant
                i <= self.effects@.len(),
                forall|j: int|
                    0 <= j < i && (#[trigger] self.effects@[j]) is Some
                        ==> !self.effects@[j].unwrap().name_of().same_name(s),
            decreases self.effects@.len() - i,
        {
            match &self.effects[i] {
                Some(e) => {
                    if e.get_effect_name().is_same_name(s) {
                        return Some(i);
                    }
                },
                None => {},
            }
            i = i + 1;
        }
        None
    }

    /// The first effect named `s`.
    pub fn get_effect(&self, s: &S) -> (r: Option<&E>)
        ensures
            match r {
                Some(e) => exists|i: int|
                    #![trigger first_named(self.slots(), *s, i)]
                    first_named(self.slots(), *s, i) && *e == self.slots()[i].unwrap(),
                None => none_named(self.slots(), *s),
            },
    {
        match self.get_effect_mut_inner(s) {
            Some(i) => {
                let r = self.effects[i].as_ref();
                proof {
                    assert(first_named(self.slots(), *s, i as int));
                }
                r
            },
            None => None,
        }
    }

    /// The first effect named `s`, for update in place.
    pub fn get_effect_mut(&mut self, s: &S) -> (r: Option<&mut E>)
        ensures
            match r {
                Some(e) => exists|i: int|
                    #![trigger old(self).slots()[i]]
                    {
                        &&& 0 <= i < old(self).slots().len()
                        &&& old(self).slots()[i] is Some
                        &&& first_named(old(self).slots(), *s, i)
                        &&& *e == old(self).slots()[i].unwrap()
                        &&& final(self).slots() == old(self).slots().update(i, Some(*final(e)))
                    },
                None => {
                    &&& none_named(old(self).slots(), *s)
                    &&& *final(self) == *old(self)
                },
            },
    {
        match self.get_effect_mut_inner(s) {
            Some(i) => {
                let r = slot_mut(&mut self.effects, i);
                proof {
                    assert(old(self).slots()[i as int] is Some);
                }
                Some(r)
            },
            None => None,
        }
    }

    /// Removes the first effect named `s`, if any, leaving a hole.
    pub fn del_effect(&mut self, s: &S)
        ensures
            ({
                ||| exists|i: int|
                    #![trigger old(self).slots()[i]]
                    {
                        &&& 0 <= i < old(self).slots().len()
                        &&& old(self).slots()[i] is Some
                        &&& first_named(old(self).slots(), *s, i)
                        &&& final(self).slots() == old(self).slots().update(i, None)
                        &&& 0 <= live_index(old(self).slots(), i) < old(self).live().len()
                        &&& old(self).live()[live_index(old(self).slots(), i)] == old(self).slots()[i].unwrap()
                        &&& final(self).live() == old(self).live().remove(
                            live_index(old(self).slots(), i),
                        )
                    }
                ||| {
                    &&& none_named(old(self).slots(), *s)
                    &&& final(self).slots() == old(self).slots()
                }
            }),
            names_unique(old(self).live()) ==> names_unique(final(self).live()),
    {
        match self.get_effect_mut_inner(s) {
            Some(i) => {
                let ghost old_slots = self.effects@;
                self.effects.set(i, None);
                proof {
                    lemma_update(old_slots, i as int, None);
                    assert(old(self).slots()[i as int] is Some);
                    lemma_live_index_value(old_slots, i as int);
                    crate::base_lib::cores::slots::lemma_single(None::<E>);
                    assert(live_of(self.effects@) =~= live_of(old_slots).remove(
                        live_index(old_slots, i as int),
                    ));
                    if names_unique(live_of(old_slots)) {
                        lemma_unique_remove(
                            live_of(old_slots),
                            live_index(old_slots, i as int),
                            |e: E| e.name_of(),
                        );
                    }
                }
            },
            None => {},
        }
    }

    /// Puts `eff`; where an effect of the same name is present, the first such
    /// effect absorbs `eff` and moves to the end.
    pub fn put_or_stack_effect(&mut self, eff: E)
        ensures
            ({
                let s = old(self).slots();
                ||| exists|i: int|
                    #![trigger s[i]]
                    {
                        &&& 0 <= i < s.len()
                        &&& s[i] is Some
                        &&& first_named(s, eff.name_of(), i)
                        &&& final(self).slots() == s.update(i, None).push(
                            Some(s[i].unwrap().refreshed(&eff)),
                        )
                        &&& 0 <= live_index(s, i) < old(self).live().len()
                        &&& old(self).live()[live_index(s, i)] == s[i].unwrap()
                        &&& final(self).live() == old(self).live().remove(live_index(s, i)).push(
                            s[i].unwrap().refreshed(&eff),
                        )
                    }
                ||| {
                    &&& none_named(s, eff.name_of())
                    &&& final(self).slots() == s.push(Some(eff))
                    &&& final(self).live() == old(self).live().push(eff)
                }
            }),
            same_name_reflexive::<S>() && refresh_keeps_name::<S, E>() && names_unique(
                old(self).live(),
            ) ==> names_unique(final(self).live()),
    {
        let located = self.get_effect_mut_inner(eff.get_effect_name());
        let ghost s = self.effects@;
        match located {
            Some(i) => {
                let found = self.effects[i].take();
                match found {
                    Some(mut the_eff) => {
                        the_eff.refresh_with_name_value_stack(&eff);
                        let ghost mid = self.effects@;
                        self.effects.push(Some(the_eff));
                        proof {
                            assert(mid =~= s.update(i as int, None));
                            lemma_update(s, i as int, None);
                            lemma_push(mid, Some(the_eff));
                            assert(old(self).slots()[i as int] is Some);
                            lemma_stack_keeps_names_unique(s, i as int, &eff);
                        }
                    },
                    None => {},
                }
            },
            None => {
                self.effects.push(Some(eff));
                proof {
                    lemma_push(s, Some(eff));
                    lemma_put_keeps_names_unique(s, eff);
                }
            },
        }
    }
}

/// Stacking `eff` onto the effect in slot `i`, which then moves to the end, keeps
/// names unique when absorbing keeps the name.
proof fn lemma_stack_keeps_names_unique<S: FixedName, E: ProxyDurationEffect<S>>(
    s: Seq<Option<E>>,
    i: int,
    eff: &E,
)
    requires
        0 <= i < s.len(),
        s[i] is Some,
    ensures
        refresh_keeps_name::<S, E>() && names_unique(live_of(s)) ==> names_unique(
            live_of(s).remove(live_index(s, i)).push(s[i].unwrap().refreshed(eff)),
        ),
{
    if refresh_keeps_name::<S, E>() && names_unique(live_of(s)) {
        let a = live_of(s);
        let li = live_index(s, i);
        lemma_live_index_value(s, i);
        lemma_unique_remove(a, li, |e: E| e.name_of());
        let rest = a.remove(li);
        let merged = s[i].unwrap().refreshed(eff);
        assert(merged.name_of() == a[li].name_of());
        assert forall|k: int| 0 <= k < rest.len() implies (|e: E| e.name_of())(
            #[trigger] rest[k],
        ) != (|e: E| e.name_of())(merged) by {
            let kk = if k < li {
                k
            } else {
                k + 1
            };
            assert(rest[k] == a[kk]);
            assert(kk != li);
        }
        lemma_unique_push(rest, merged, |e: E| e.name_of());
    }
}

/// Putting `eff`, whose name no effect has, keeps names unique.
proof fn lemma_put_keeps_names_unique<S: FixedName, E: ProxyDurationEffect<S>>(
    s: Seq<Option<E>>,
    eff: E,
)
    ensures
        same_name_reflexive::<S>() && none_named(s, eff.name_of()) && names_unique(live_of(s))
            ==> names_unique(live_of(s).push(eff)),
{
    if same_name_reflexive::<S>() && none_named(s, eff.name_of()) && names_unique(live_of(s)) {
        let a = live_of(s);
        assert forall|k: int| 0 <= k < a.len() implies (|e: E| e.name_of())(#[trigger] a[k]) != (|
            e: E,
        | e.name_of())(eff) by {
            lemma_live_in_slots(s, k);
            let j = choose|j: int| 0 <= j < s.len() && #[trigger] s[j] == Some(live_of(s)[k]);
            assert(s[j] is Some);
            assert(!s[j].unwrap().name_of().same_name(&eff.name_of()));
            assert(eff.name_of().same_name(&eff.name_of()));
        }
        lemma_unique_push(a, eff, |e: E| e.name_of());
    }
}

} // verus!
