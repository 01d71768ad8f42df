//! Effects stored in a slot array; for 20 to 50 effects this beats a hash map.
use vstd::prelude::*;
use crate::base_lib::cores::slots::{
    all_occupied, compact_slots, holes_of, holes_where, lemma_no_holes_occupied, lemma_holes_where, lemma_live_in_slots, slot_mut, vec_capacity, lemma_live_len, lemma_push, lemma_update, live_index, live_of,
};
use crate::base_lib::cores::unify_types::time_type;

verus! {

/// A type whose values can be merged with a later value of the same identity.
pub trait Upsert: Sized {
    type Id: Eq + core::hash::Hash + Clone + core::fmt::Debug;

    /// The identity of a value.
    spec fn upsert_id(&self) -> Self::Id;

    /// The identity, as an owned value.
    fn gen_id(&self) -> (r: Self::Id)
        ensures
            r == self.upsert_id(),
    ;

    /// Whether this value has identity `id`.
    fn matched_id(&self, id: &Self::Id) -> (r: bool)
        ensures
            r == (self.upsert_id() == *id),
    ;

    /// Whether two values share an identity.
    fn has_same_id(&self, other: &Self) -> (r: bool)
        ensures
            r == (self.upsert_id() == other.upsert_id()),
    ;

    /// Puts `new` in place of `dest`. By default a plain replacement; an
    /// implementation may merge instead (stacking and the like), so nothing more is
    /// promised of what `dest` becomes.
    fn replace(dest: &mut Self, new: Self) {
        *dest = new;
    }
}

/// `f` answers `true` on slot `i`, and `false` on every occupied slot before it.
pub open spec fn first_true<E, F: Fn(&E) -> bool>(s: Seq<Option<E>>, f: F, i: int) -> bool {
    &&& 0 <= i < s.len()
    &&& s[i] is Some
    &&& call_ensures(f, (&s[i].unwrap(),), true)
    &&& forall|j: int|
        0 <= j < i && (#[trigger] s[j]) is Some ==> call_ensures(f, (&s[j].unwrap(),), false)
}

/// `f` answers `false` on every occupied slot.
pub open spec fn all_false<E, F: Fn(&E) -> bool>(s: Seq<Option<E>>, f: F) -> bool {
    forall|j: int| 0 <= j < s.len() && (#[trigger] s[j]) is Some ==> call_ensures(
        f,
        (&s[j].unwrap(),),
        false,
    )
}

/// `f` may be called on any element.
pub open spec fn callable_on_all<E, F: Fn(&E) -> bool>(f: F) -> bool {
    forall|e: &E| #[trigger] call_requires(f, (e,))
}

/// Slot `i` is the first occupied slot whose element has identity `id`.
pub open spec fn first_with_id<E: Upsert>(s: Seq<Option<E>>, id: E::Id, i: int) -> bool {
    &&& 0 <= i < s.len()
    &&& s[i] is Some
    &&& s[i].unwrap().upsert_id() == id
    &&& forall|j: int|
        0 <= j < i && (#[trigger] s[j]) is Some ==> s[j].unwrap().upsert_id() != id
}

/// No occupied slot holds an element with identity `id`.
pub open spec fn no_id<E: Upsert>(s: Seq<Option<E>>, id: E::Id) -> bool {
    forall|j: int| 0 <= j < s.len() && (#[trigger] s[j]) is Some ==> s[j].unwrap().upsert_id() != id
}

/// No two elements share an identity.
pub open spec fn ids_unique<E: Upsert>(s: Seq<E>) -> bool {
    forall|a: int, b: int|
        0 <= a < s.len() && 0 <= b < s.len() && a != b ==> (#[trigger] s[a]).upsert_id()
            != (#[trigger] s[b]).upsert_id()
}

/// Merging with `f` keeps the identity of the merged values.
pub open spec fn merge_keeps_id<E: Upsert, F: Fn(E, E) -> E>(f: F) -> bool {
    forall|a: E, b: E, c: E| #[trigger] call_ensures(f, (a, b), c) ==> c.upsert_id() == b.upsert_id()
}

/// The identities of the elements of `s`.
pub open spec fn id_set<E: Upsert>(s: Seq<E>) -> Set<E::Id> {
    Set::new(|id: E::Id| exists|k: int| 0 <= k < s.len() && (#[trigger] s[k]).upsert_id() == id)
}

/// `f` answers whether an element has identity `id`.
pub open spec fn decides_id<E: Upsert, F: Fn(&E) -> bool>(f: F, id: E::Id) -> bool {
    forall|e: &E, b: bool| #[trigger] call_ensures(f, (e,), b) ==> b == (e.upsert_id() == id)
}

/// Container of lasting effects.
/// - Elements stay in insertion order; an update keeps the element in place.
/// - Deletion leaves a hole; `try_clean_hole` compacts the holes away.
/// - Expiry of elements is the caller's business.
pub struct UpsertContainer<E: Upsert> {
    /// The slots.
    ll: Vec<Option<E>>,
    /// The number of holes.
    hole_count: usize,
    /// Set by every change of the contents.
    changed_flag: bool,
}

impl<E: Upsert> Default for UpsertContainer<E> {
    fn default() -> (r: Self)
        ensures
            r.wf(),
            r.slots() == Seq::<Option<E>>::empty(),
            !r.changed(),
    {
        UpsertContainer { ll: Vec::new(), hole_count: 0, changed_flag: false }
    }
}

impl<E: Upsert> UpsertContainer<E> {
    /// The slots, holes included.
    pub closed spec fn slots(&self) -> Seq<Option<E>> {
        self.ll@
    }

    /// The elements, in slot order.
    pub open spec fn live(&self) -> Seq<E> {
        live_of(self.slots())
    }

    /// The number of holes.
    pub open spec fn holes(&self) -> nat {
        holes_of(self.slots())
    }

    /// Whether the contents changed since the flag was last reset.
    pub closed spec fn changed(&self) -> bool {
        self.changed_flag
    }

    /// The hole counter agrees with the slots.
    pub closed spec fn wf(&self) -> bool {
        self.hole_count == holes_of(self.ll@)
    }

    /// The elements, in slot order.
    pub fn iter_ele(&self) -> (r: Vec<&E>)
        ensures
            r@.len() == self.live().len(),
            forall|k: int| 0 <= k < r@.len() ==> *r@[k] == self.live()[k],
    {
        let mut out: Vec<&E> = Vec::new();
        let mut i: usize = 0;
        proof {
            assert(self.ll@.take(0) =~= Seq::<Option<E>>::empty());
        }
        while i < self.ll.len()
            invariant
                i <= self.ll@.len(),
                out@.len() == live_of(self.ll@.take(i as int)).len(),
                forall|k: int|
                    0 <= k < out@.len() ==> *out@[k] == live_of(self.ll@.take(i as int))[k],
            decreases self.ll@.len() - i,
        {
            proof {
                assert(self.ll@.take(i + 1) =~= self.ll@.take(i as int).push(self.ll@[i as int]));
                lemma_push(self.ll@.take(i as int), self.ll@[i as int]);
            }
            match &self.ll[i] {
                Some(e) => {
                    out.push(e);
                },
                None => {},
            }
            i = i + 1;
        }
        proof {
            assert(self.ll@.take(self.ll@.len() as int) =~= self.ll@);
        }
        out
    }

    /// Applies `f` to every element in place. The change flag is not touched.
    pub fn iter_mut<F: Fn(E) -> E>(&mut self, f: F)
        requires
            old(self).wf(),
            forall|e: E| #[trigger] call_requires(f, (e,)),
        ensures
            final(self).wf(),
            final(self).slots().len() == old(self).slots().len(),
            forall|i: int|
                0 <= i < old(self).slots().len() ==> ((#[trigger] final(self).slots()[i]) is Some
                    <==> old(self).slots()[i] is Some),
            forall|i: int|
                0 <= i < old(self).slots().len() && (#[trigger] old(self).slots()[i]) is Some
                    ==> call_ensures(
                    f,
                    (old(self).slots()[i].unwrap(),),
                    final(self).slots()[i].unwrap(),
                ),
            final(self).live().len() == old(self).live().len(),
            final(self).holes() == old(self).holes(),
            final(self).changed() == old(self).changed(),
    {
        let ghost orig = self.ll@;
        let ghost ch = self.changed_flag;
        let n = self.ll.len();
        let mut i: usize = 0;
        while i < n
            invariant
                i <= n,
                self.changed_flag == ch,
                self.ll@.len() == n,
                orig.len() == n,
                self.hole_count == holes_of(orig),
                forall|e: E| #[trigger] call_requires(f, (e,)),
                forall|j: int| i <= j < n ==> self.ll@[j] == orig[j],
                forall|j: int| 0 <= j < n ==> ((#[trigger] self.ll@[j]) is Some <==> orig[j] is Some),
                forall|j: int|
                    0 <= j < i && (#[trigger] orig[j]) is Some ==> call_ensures(
                        f,
                        (orig[j].unwrap(),),
                        self.ll@[j].unwrap(),
                    ),
            decreases n - i,
        {
            let item = self.ll[i].take();
            match item {
                Some(e) => {
                    let e2 = f(e);
                    self.ll.set(i, Some(e2));
                },
                None => {},
            }
            i = i + 1;
        }
        proof {
            lemma_same_shape(orig, self.ll@);
        }
    }

    /// The index of the first occupied slot on which `find_logic` answers `true`.
    fn locate_slot<F: Fn(&E) -> bool>(ll: &Vec<Option<E>>, find_logic: &F) -> (r: Option<usize>)
        requires
            callable_on_all(*find_logic),
        ensures
            match r {
                Some(i) => first_true(ll@, *find_logic, i as int),
                None => all_false(ll@, *find_logic),
            },
    {
        let mut i: usize = 0;
        while i < ll.len()
            invariant
                i <= ll@.len(),
                callable_on_all(*find_logic),
                forall|j: int|
                    0 <= j < i && (#[trigger] ll@[j]) is Some ==> call_ensures(
                        *find_logic,
                        (&ll@[j].unwrap(),),
                        false,
                    ),
            decreases ll@.len() - i,
        {
            match &ll[i] {
                Some(e) => {
                    if find_logic(e) {
                        return Some(i);
                    }
                },
                None => {},
            }
            i = i + 1;
        }
        None
    }

    /// The index of the first occupied slot holding an element with the identity of `new_ele`.
    fn locate_same_id(ll: &Vec<Option<E>>, new_ele: &E) -> (r: Option<usize>)
        ensures
            match r {
                Some(i) => first_with_id(ll@, new_ele.upsert_id(), i as int),
                None => no_id(ll@, new_ele.upsert_id()),
            },
    {
        let mut i: usize = 0;
        while i < ll.len()
            invariant
                i <= ll@.len(),
                forall|j: int|
                    0 <= j < i && (#[trigger] ll@[j]) is Some ==> ll@[j].unwrap().upsert_id()
                        != new_ele.upsert_id(),
            decreases ll@.len() - i,
        {
            match &ll[i] {
                Some(e) => {
                    if e.has_same_id(new_ele) {
                        return Some(i);
                    }
                },
                None => {},
            }
            i = i + 1;
        }
        None
    }

    /// Adds `new_ele`, or, where an element of the same identity is present, replaces
    /// the first such element, in its place, by `update_logic(old, new_ele)`.
    /// Marks the container changed.
    pub fn upsert_ele<F: Fn(E, E) -> E>(&mut self, new_ele: E, update_logic: F)
        requires
            old(self).wf(),
            forall|a: E, b: E| #[trigger] call_requires(update_logic, (a, b)),
        ensures
            final(self).wf(),
            final(self).changed(),
            ({
                let s = old(self).slots();
                let id = new_ele.upsert_id();
                ||| exists|i: int|
                    #![trigger first_with_id(s, id, i)]
                    {
                        &&& first_with_id(s, id, i)
                        &&& final(self).slots()[i] is Some
                        &&& call_ensures(
                            update_logic,
                            (s[i].unwrap(), new_ele),
                            final(self).slots()[i].unwrap(),
                        )
                        &&& final(self).slots() == s.update(i, final(self).slots()[i])
                        &&& 0 <= live_index(s, i) < old(self).live().len()
                        &&& old(self).live()[live_index(s, i)] == s[i].unwrap()
                        &&& final(self).live() == old(self).live().update(
                            live_index(s, i),
                            final(self).slots()[i].unwrap(),
                        )
                    }
                ||| {
                    &&& no_id(s, id)
                    &&& final(self).slots() == s.push(Some(new_ele))
                    &&& final(self).live() == old(self).live().push(new_ele)
                }
            }),
            final(self).holes() == old(self).holes(),
            final(self).live().len() == old(self).live().len() + if no_id(
                old(self).slots(),
                new_ele.upsert_id(),
            ) {
                1int
            } else {
                0int
            },
            ids_unique(old(self).live()) && merge_keeps_id(update_logic) ==> ids_unique(
                final(self).live(),
            ),
            merge_keeps_id(update_logic) ==> id_set(final(self).live()) == id_set(
                old(self).live(),
            ).insert(new_ele.upsert_id()),
    {
        let located = Self::locate_same_id(&self.ll, &new_ele);
        let ghost s = self.ll@;
        match located {
            Some(i) => {
                let old_ele = self.ll[i].take();
                match old_ele {
                    Some(o) => {
                        let merged = update_logic(o, new_ele);
                        self.ll.set(i, Some(merged));
                        proof {
                            assert(self.ll@ =~= s.update(i as int, self.ll@[i as int]));
                            lemma_update(s, i as int, self.ll@[i as int]);
                            assert(first_with_id(s, new_ele.upsert_id(), i as int));
                            if merge_keeps_id(update_logic) {
                                assert(call_ensures(update_logic, (o, new_ele), merged));
                                lemma_update_keeps_unique(s, i as int, merged);
                                lemma_id_set_update(live_of(s), live_index(s, i as int), merged);
                                assert(id_set(live_of(s)).insert(new_ele.upsert_id()) =~= id_set(
                                    live_of(s),
                                ));
                            }
                        }
                    },
                    None => {},
                }
            },
            None => {
                self.ll.push(Some(new_ele));
                proof {
                    lemma_push(s, Some(new_ele));
                    lemma_push_keeps_unique(s, new_ele);
                    lemma_id_set_push(live_of(s), new_ele);
                }
            },
        }
        self.changed_flag = true;
    }

    /// Empties the first occupied slot on which `find_logic` answers `true`, and
    /// tells whether there was one. Deleting again what is gone changes nothing.
    pub fn delete_ele<F: Fn(&E) -> bool>(&mut self, find_logic: F) -> (r: bool)
        requires
            old(self).wf(),
            callable_on_all(find_logic),
        ensures
            final(self).wf(),
            r ==> exists|i: int|
                #![trigger first_true(old(self).slots(), find_logic, i)]
                {
                    &&& first_true(old(self).slots(), find_logic, i)
                    &&& final(self).slots() == old(self).slots().update(i, None)
                    &&& 0 <= live_index(old(self).slots(), i) < old(self).live().len()
                    &&& old(self).live()[live_index(old(self).slots(), i)] == old(self).slots()[i].unwrap()
                    &&& final(self).live() == old(self).live().remove(
                        live_index(old(self).slots(), i),
                    )
                    &&& final(self).holes() == old(self).holes() + 1
                },
            r ==> final(self).changed(),
            !r ==> all_false(old(self).slots(), find_logic),
            !r ==> *final(self) == *old(self),
            ids_unique(old(self).live()) ==> ids_unique(final(self).live()),
            forall|id: E::Id|
                #[trigger] decides_id(find_logic, id) && ids_unique(old(self).live()) ==> id_set(
                    final(self).live(),
                ) == id_set(old(self).live()).remove(id),
    {
        let located = Self::locate_slot(&self.ll, &find_logic);
        match located {
            Some(i) => {
                let ghost s = self.ll@;
                let len = self.ll.len();
                proof {
                    lemma_update(s, i as int, None);
                    lemma_live_len(s);
                    assert(first_true(s, find_logic, i as int));
                    assert(self.hole_count < len);
                }
                self.ll.set(i, None);
                self.hole_count = self.hole_count + 1;
                self.changed_flag = true;
                proof {
                    assert(self.ll@ == s.update(i as int, None));
                    assert(live_of(self.ll@) == live_of(s).remove(live_index(s, i as int)));
                    assert(holes_of(self.ll@) == holes_of(s) + 1);
                    assert(self.live() == live_of(s).remove(live_index(s, i as int)));
                    assert(self.holes() == holes_of(s) + 1);
                    assert(self.slots() == s.update(i as int, None));
                    assert(first_true(old(self).slots(), find_logic, i as int));
                    lemma_remove_keeps_unique(live_of(s), live_index(s, i as int));
                    assert forall|id: E::Id|
                        #[trigger] decides_id(find_logic, id) && ids_unique(live_of(s)) implies id_set(
                            live_of(s).remove(live_index(s, i as int)),
                        ) == id_set(live_of(s)).remove(id) by {
                        lemma_delete_id_set(s, find_logic, i as int, id);
                    }
                }
                true
            },
            None => {
                proof {
                    assert forall|id: E::Id| #[trigger] decides_id(find_logic, id) implies id_set(
                        live_of(self.ll@),
                    ) == id_set(live_of(self.ll@)).remove(id) by {
                        lemma_absent_id_set(self.ll@, find_logic, id);
                        assert(id_set(live_of(self.ll@)).remove(id) =~= id_set(live_of(self.ll@)));
                    }
                }
                false
            },
        }
    }

    /// Empties, in one pass, every occupied slot whose element `find_logic` marks
    /// (`find_logic` answers as `marked` does), and tells whether there was any.
    /// Marks the container changed when there was.
    pub(crate) fn delete_all_ele<F: Fn(&E) -> bool>(
        &mut self,
        find_logic: F,
        Ghost(marked): Ghost<spec_fn(E) -> bool>,
    ) -> (r: bool)
        requires
            old(self).wf(),
            callable_on_all(find_logic),
            forall|e: &E, b: bool| #[trigger] call_ensures(find_logic, (e,), b) ==> b == marked(*e),
        ensures
            final(self).wf(),
            final(self).slots() == holes_where(old(self).slots(), marked),
            final(self).live() == old(self).live().filter(|e: E| !marked(e)),
            r == exists|j: int|
                0 <= j < old(self).slots().len() && (#[trigger] old(self).slots()[j]) is Some
                    && marked(old(self).slots()[j].unwrap()),
            final(self).changed() == (old(self).changed() || r),
    {
        let ghost orig = self.ll@;
        let n = self.ll.len();
        let mut any = false;
        let mut i: usize = 0;
        while i < n
            invariant
                i <= n,
                self.ll@.len() == n,
                orig.len() == n,
                orig == old(self).slots(),
                self.hole_count == holes_of(self.ll@),
                self.changed_flag == (old(self).changed() || any),
                callable_on_all(find_logic),
                forall|e: &E, b: bool| #[trigger] call_ensures(find_logic, (e,), b) ==> b == marked(*e),
                forall|j: int| i <= j < n ==> self.ll@[j] == orig[j],
                forall|j: int| 0 <= j < i ==> #[trigger] self.ll@[j] == holes_where(orig, marked)[j],
                any == exists|j: int|
                    0 <= j < i && (#[trigger] orig[j]) is Some && marked(orig[j].unwrap()),
            decreases n - i,
        {
            let hit = match &self.ll[i] {
                Some(e) => find_logic(e),
                None => false,
            };
            proof {
                if orig[i as int] is Some {
                    assert(hit == marked(orig[i as int].unwrap()));
                }
            }
            if hit {
                let ghost pre = self.ll@;
                proof {
                    lemma_update(pre, i as int, None);
                    lemma_live_len(pre);
                }
                self.ll.set(i, None);
                self.hole_count = self.hole_count + 1;
                self.changed_flag = true;
                any = true;
            }
            i = i + 1;
        }
        proof {
            assert(self.ll@ =~= holes_where(orig, marked));
            lemma_holes_where(orig, marked);
        }
        any
    }

    /// The first element on which `find_logic` answers `true`, for update in place.
    /// Marks the container changed when there is one.
    pub fn select_mut_ele<F: Fn(&E) -> bool>(&mut self, find_logic: F) -> (r: Option<&mut E>)
        requires
            old(self).wf(),
            callable_on_all(find_logic),
        ensures
            match r {
                Some(e) => exists|i: int|
                    #![trigger first_true(old(self).slots(), find_logic, i)]
                    {
                        &&& first_true(old(self).slots(), find_logic, i)
                        &&& *e == old(self).slots()[i].unwrap()
                        &&& final(self).slots() == old(self).slots().update(i, Some(*final(e)))
                        &&& final(self).wf()
                        &&& final(self).changed()
                    },
                None => {
                    &&& all_false(old(self).slots(), find_logic)
                    &&& *final(self) == *old(self)
                },
            },
    {
        let located = Self::locate_slot(&self.ll, &find_logic);
        match located {
            Some(i) => {
                self.changed_flag = true;
                let ghost s = self.ll@;
                let ghost hc = self.hole_count;
                proof {
                    assert(first_true(s, find_logic, i as int));
                }
                let r = slot_mut(&mut self.ll, i);
                proof {
                    lemma_update(s, i as int, Some(*final(r)));
                    assert(first_true(old(self).slots(), find_logic, i as int));
                }
                Some(r)
            },
            None => None,
        }
    }

    /// The number of elements.
    pub fn ele_len(&self) -> (r: usize)
        requires
            self.wf(),
        ensures
            r == self.live().len(),
    {
        proof {
            lemma_live_len(self.ll@);
        }
        self.ll.len() - self.hole_count
    }

    /// Whether there is no element.
    pub fn ele_empty(&self) -> (r: bool)
        requires
            self.wf(),
        ensures
            r == (self.live().len() == 0),
    {
        self.ele_len() == 0
    }

    /// The number of holes.
    pub fn hole_count(&self) -> (r: usize)
        requires
            self.wf(),
        ensures
            r == self.holes(),
    {
        self.hole_count
    }

    /// The number of slots, holes included.
    pub fn slot_len(&self) -> (r: usize)
        ensures
            r == self.slots().len(),
    {
        self.ll.len()
    }

    /// The number of slots the allocation holds without growing.
    pub fn slot_capacity(&self) -> (r: usize)
        ensures
            r >= self.slots().len(),
    {
        vec_capacity(&self.ll)
    }

    /// Compacts the holes away when they are many: at least three and at least a
    /// quarter of the slots, or more than fifty whatever the ratio. The elements,
    /// their order and the allocation are kept. To be run periodically.
    pub fn try_clean_hole(&mut self)
        requires
            old(self).wf(),
        ensures
            final(self).wf(),
            final(self).slots() == Self::compacted(old(self).slots()),
            final(self).live() == old(self).live(),
            final(self).changed() == old(self).changed(),
    {
        if self.hole_count < 3 {
            return ;
        } else if self.hole_count > 50 {
            self.do_clean_hole();
            return ;
        }
        if self.hole_count as u128 * 4 >= self.ll.len() as u128 {
            self.do_clean_hole();
        }
    }

    /// Whether `holes` holes among `len` slots call for compaction.
    pub open spec fn should_compact(holes: nat, len: nat) -> bool {
        holes >= 3 && (holes > 50 || holes * 4 >= len)
    }

    /// The slots after compaction: the elements, in order, without holes, when the
    /// holes call for it; otherwise the slots as they are.
    pub open spec fn compacted(s: Seq<Option<E>>) -> Seq<Option<E>> {
        if Self::should_compact(holes_of(s), s.len()) {
            all_occupied(live_of(s))
        } else {
            s
        }
    }

    /// Keeps the occupied slots, in order, and the allocation.
    fn do_clean_hole(&mut self)
        requires
            old(self).wf(),
        ensures
            final(self).wf(),
            final(self).slots() == all_occupied(old(self).live()),
            final(self).live() == old(self).live(),
            final(self).changed() == old(self).changed(),
    {
        compact_slots(&mut self.ll);
        self.hole_count = 0;
        proof {
            lemma_no_holes_occupied(self.ll@);
        }
    }

    /// Clears the change flag.
    pub fn reset_changed_flag(&mut self)
        ensures
            final(self).slots() == old(self).slots(),
            final(self).wf() == old(self).wf(),
            !final(self).changed(),
    {
        self.changed_flag = false;
    }

    /// Whether the contents changed since the flag was last cleared.
    pub fn is_changed(&self) -> (r: bool)
        ensures
            r == self.changed(),
    {
        self.changed_flag
    }
}

/// Two slot sequences of the same shape have the same number of holes and live elements.
pub proof fn lemma_same_shape<A, B>(a: Seq<Option<A>>, b: Seq<Option<B>>)
    requires
        a.len() == b.len(),
        forall|j: int| 0 <= j < a.len() ==> ((#[trigger] b[j]) is Some <==> a[j] is Some),
    ensures
        holes_of(a) == holes_of(b),
        live_of(a).len() == live_of(b).len(),
    decreases a.len(),
{
    if a.len() > 0 {
        assert(b[b.len() - 1] is Some <==> a[a.len() - 1] is Some);
        lemma_same_shape(a.drop_last(), b.drop_last());
    }
}

/// Periodic trigger for hole compaction.
pub struct UpsertContainerCleaner {
    do_clean_time: time_type::T,
}

impl Default for UpsertContainerCleaner {
    fn default() -> (r: Self)
        ensures
            r.accumulated() == 0,
    {
        UpsertContainerCleaner { do_clean_time: 0 }
    }
}

impl UpsertContainerCleaner {
    /// The time accumulated since the last trigger.
    pub closed spec fn accumulated(&self) -> time_type::T {
        self.do_clean_time
    }

    /// Adds `delta` to the accumulated time (saturating); once it exceeds `period`,
    /// resets it and answers `true`.
    pub fn should_clean_hole(&mut self, delta: time_type::T, period: time_type::T) -> (r: bool)
        ensures
            r == (time_type::sat_add(old(self).accumulated(), delta) > period),
            r ==> final(self).accumulated() == 0,
            !r ==> final(self).accumulated() == time_type::sat_add(old(self).accumulated(), delta),
    {
        self.do_clean_time = time_type::plus(self.do_clean_time, delta);
        if self.do_clean_time > period {
            self.do_clean_time = time_type::ZERO;
            true
        } else {
            false
        }
    }

    /// Compacts `container` if it has many holes, exactly as
    /// `UpsertContainer::try_clean_hole` does; the cleaner itself is unchanged.
    pub fn do_clean_hole<E: Upsert>(&mut self, container: &mut UpsertContainer<E>)
        requires
            old(container).wf(),
        ensures
            *final(self) == *old(self),
            final(container).wf(),
            final(container).slots() == UpsertContainer::<E>::compacted(old(container).slots()),
            final(container).live() == old(container).live(),
            final(container).changed() == old(container).changed(),
    {
        container.try_clean_hole();
    }
}

/// The counts of a container agree: every slot holds an element or is a hole, so
/// that `ele_len() + hole_count() == slot_len()` after any run of calls, each of
/// which keeps `wf`.
pub proof fn law_counts_agree<E: Upsert>(c: UpsertContainer<E>)
    requires
        c.wf(),
    ensures
        c.live().len() + c.holes() == c.slots().len(),
{
    lemma_live_len(c.slots());
}

/// One call on a container, as a run of calls sees it.
pub enum ContainerCall<Id> {
    /// `upsert_ele` of an element with this identity, with a merge that keeps it.
    Upsert(Id),
    /// `delete_ele` by this identity, and whether it found an element.
    Delete(Id, bool),
    /// `select_mut_ele` that found an element, whose identity the caller kept.
    SelectFound,
    /// `reset_changed_flag`.
    Reset,
    /// Any other call: a `select_mut_ele` that found nothing, `iter_ele`, an
    /// `iter_mut` that keeps identities, `try_clean_hole`, `ele_len`.
    Keep,
}

/// Whether `call` sets the change flag.
pub open spec fn sets_flag<Id>(call: ContainerCall<Id>) -> bool {
    match call {
        ContainerCall::Upsert(_) => true,
        ContainerCall::Delete(_, found) => found,
        ContainerCall::SelectFound => true,
        _ => false,
    }
}

/// Whether `call` deletes by identity `id`.
pub open spec fn deletes_id<Id>(call: ContainerCall<Id>, id: Id) -> bool {
    call matches ContainerCall::Delete(x, _) && x == id
}

/// `after` is what `call` leaves of `before`, as far as the change flag and the
/// set of identities go: what the contracts of the calls state of them.
pub open spec fn call_step<E: Upsert>(
    before: UpsertContainer<E>,
    call: ContainerCall<E::Id>,
    after: UpsertContainer<E>,
) -> bool {
    match call {
        ContainerCall::Upsert(id) => after.changed() && id_set(after.live()) == id_set(
            before.live(),
        ).insert(id),
        ContainerCall::Delete(id, found) => after.changed() == (before.changed() || found)
            && id_set(after.live()) == id_set(before.live()).remove(id),
        ContainerCall::SelectFound => after.changed() && id_set(after.live()) == id_set(
            before.live(),
        ),
        ContainerCall::Reset => !after.changed() && id_set(after.live()) == id_set(before.live()),
        ContainerCall::Keep => after.changed() == before.changed() && id_set(after.live())
            == id_set(before.live()),
    }
}

/// Over any run of calls from a fresh container (`default()`), where each step is
/// what its call leaves:
/// - the change flag is set exactly when some call set it (an upsert, a delete or
///   select that found something) and no later call cleared it;
/// - the identities held are exactly those upserted and not deleted since.
pub proof fn law_container_run<E: Upsert>(
    cs: Seq<UpsertContainer<E>>,
    calls: Seq<ContainerCall<E::Id>>,
)
    requires
        cs.len() == calls.len() + 1,
        cs[0].live().len() == 0,
        !cs[0].changed(),
        forall|k: int| 0 <= k < calls.len() ==> call_step(cs[k], #[trigger] calls[k], cs[k + 1]),
    ensures
        cs.last().changed() <==> exists|i: int|
            0 <= i < calls.len() && sets_flag(#[trigger] calls[i]) && forall|j: int|
                i < j < calls.len() ==> !((#[trigger] calls[j]) is Reset),
        forall|id: E::Id|
            #[trigger] id_set(cs.last().live()).contains(id) <==> exists|i: int|
                0 <= i < calls.len() && calls[i] == ContainerCall::<E::Id>::Upsert(id) && forall|
                    j: int,
                | i < j < calls.len() ==> !deletes_id(#[trigger] calls[j], id),
    decreases calls.len(),
{
    let n = calls.len();
    if n == 0 {
        assert forall|id: E::Id| !id_set(cs.last().live()).contains(id) by {}
    } else {
        let dc = cs.drop_last();
        let dcalls = calls.drop_last();
        assert forall|k: int| 0 <= k < dcalls.len() implies call_step(dc[k], #[trigger] dcalls[k], dc[k + 1]) by {
            assert(call_step(cs[k], calls[k], cs[k + 1]));
        }
        law_container_run(dc, dcalls);
        let prev = cs[n - 1];
        let last = cs[n as int];
        assert(dc.last() == prev);
        assert(cs.last() == last);
        let c = calls[n - 1];
        assert(call_step(prev, c, last));
        // The change flag.
        if sets_flag(c) {
            assert(last.changed());
        } else if c is Reset {
            assert forall|i: int| 0 <= i < n && sets_flag(#[trigger] calls[i]) implies exists|j: int|
                i < j < n && (#[trigger] calls[j]) is Reset by {
                assert(calls[n - 1] is Reset);
            }
        } else {
            assert(last.changed() == prev.changed());
            if prev.changed() {
                let i = choose|i: int|
                    0 <= i < dcalls.len() && sets_flag(#[trigger] dcalls[i]) && forall|j: int|
                        i < j < dcalls.len() ==> !((#[trigger] dcalls[j]) is Reset);
                assert(calls[i] == dcalls[i]);
                assert forall|j: int| i < j < n implies !((#[trigger] calls[j]) is Reset) by {
                    if j < n - 1 {
                        assert(calls[j] == dcalls[j]);
                    }
                }
            } else {
                assert forall|i: int| 0 <= i < n && sets_flag(#[trigger] calls[i]) implies exists|j: int|
                    i < j < n && (#[trigger] calls[j]) is Reset by {
                    assert(i != n - 1);
                    assert(calls[i] == dcalls[i]);
                    let j = choose|j: int| i < j < dcalls.len() && (#[trigger] dcalls[j]) is Reset;
                    assert(calls[j] == dcalls[j]);
                }
            }
        }
        // The identities.
        assert forall|id: E::Id|
            #[trigger] id_set(last.live()).contains(id) <==> exists|i: int|
                0 <= i < n && calls[i] == ContainerCall::<E::Id>::Upsert(id) && forall|j: int|
                    i < j < n ==> !deletes_id(#[trigger] calls[j], id) by {
            let before = id_set(prev.live()).contains(id);
            assert(before <==> exists|i: int|
                0 <= i < dcalls.len() && dcalls[i] == ContainerCall::<E::Id>::Upsert(id) && forall|
                    j: int,
                | i < j < dcalls.len() ==> !deletes_id(#[trigger] dcalls[j], id));
            let upserts_now = c == ContainerCall::<E::Id>::Upsert(id);
            let deletes_now = deletes_id(c, id);
            if upserts_now {
                assert(id_set(last.live()).contains(id));
            } else if deletes_now {
                assert(!id_set(last.live()).contains(id));
                assert forall|i: int| 0 <= i < n && calls[i] == ContainerCall::<E::Id>::Upsert(id) implies exists|j: int|
                    i < j < n && deletes_id(#[trigger] calls[j], id) by {
                    assert(i != n - 1);
                    assert(deletes_id(calls[n - 1], id));
                }
            } else {
                assert(id_set(last.live()).contains(id) == before);
                if before {
                    let i = choose|i: int|
                        0 <= i < dcalls.len() && dcalls[i] == ContainerCall::<E::Id>::Upsert(id)
                            && forall|j: int| i < j < dcalls.len() ==> !deletes_id(#[trigger] dcalls[j], id);
                    assert(calls[i] == dcalls[i]);
                    assert forall|j: int| i < j < n implies !deletes_id(#[trigger] calls[j], id) by {
                        if j < n - 1 {
                            assert(calls[j] == dcalls[j]);
                        }
                    }
                } else {
                    assert forall|i: int| 0 <= i < n && calls[i] == ContainerCall::<E::Id>::Upsert(id) implies exists|j: int|
                        i < j < n && deletes_id(#[trigger] calls[j], id) by {
                        assert(i != n - 1);
                        assert(calls[i] == dcalls[i]);
                        if !(exists|j: int| i < j < dcalls.len() && deletes_id(#[trigger] dcalls[j], id)) {
                            assert(false);
                        }
                        let j = choose|j: int| i < j < dcalls.len() && deletes_id(#[trigger] dcalls[j], id);
                        assert(calls[j] == dcalls[j]);
                    }
                }
            }
        }
    }
}

/// Deleting is idempotent by identity: where identities are unique, once the element
/// with identity `id` is deleted no element with that identity is left, so that a
/// second delete by `id` finds nothing and changes nothing.
pub proof fn law_delete_leaves_no_such_id<E: Upsert>(live: Seq<E>, k: int, id: E::Id)
    requires
        ids_unique(live),
        0 <= k < live.len(),
        live[k].upsert_id() == id,
    ensures
        forall|j: int|
            0 <= j < live.remove(k).len() ==> (#[trigger] live.remove(k)[j]).upsert_id() != id,
{
    let b = live.remove(k);
    assert forall|j: int| 0 <= j < b.len() implies (#[trigger] b[j]).upsert_id() != id by {
        let jj = if j < k {
            j
        } else {
            j + 1
        };
        assert(b[j] == live[jj]);
        assert(jj != k);
    }
}

/// Putting, in place of the element in slot `i`, one of the same identity keeps
/// identities unique.
proof fn lemma_update_keeps_unique<E: Upsert>(s: Seq<Option<E>>, i: int, x: E)
    requires
        0 <= i < s.len(),
        s[i] is Some,
        x.upsert_id() == s[i].unwrap().upsert_id(),
    ensures
        live_index(s, i) < live_of(s).len(),
        live_of(s)[live_index(s, i)] == s[i].unwrap(),
        live_of(s.update(i, Some(x))) == live_of(s).update(live_index(s, i), x),
        ids_unique(live_of(s)) ==> ids_unique(live_of(s.update(i, Some(x)))),
{
    lemma_update(s, i, Some(x));
    crate::base_lib::cores::slots::lemma_split(s, i);
    crate::base_lib::cores::slots::lemma_single(s[i]);
    crate::base_lib::cores::slots::lemma_single(Some(x));
    let pre = live_of(s.take(i));
    let post = live_of(s.skip(i + 1));
    assert(live_of(s) == pre + seq![s[i].unwrap()] + post);
    assert(live_of(s.update(i, Some(x))) =~= live_of(s).update(live_index(s, i), x));
    let a = live_of(s);
    let b = live_of(s.update(i, Some(x)));
    let li = live_index(s, i);
    if ids_unique(a) {
        assert forall|p: int, q: int|
            0 <= p < b.len() && 0 <= q < b.len() && p != q implies (#[trigger] b[p]).upsert_id()
            != (#[trigger] b[q]).upsert_id() by {
            assert(a[p].upsert_id() == b[p].upsert_id());
            assert(a[q].upsert_id() == b[q].upsert_id());
        }
    }
}

/// Adding an element whose identity no occupied slot holds keeps identities unique.
proof fn lemma_push_keeps_unique<E: Upsert>(s: Seq<Option<E>>, x: E)
    requires
        no_id(s, x.upsert_id()),
    ensures
        ids_unique(live_of(s)) ==> ids_unique(live_of(s).push(x)),
{
    let a = live_of(s);
    let b = a.push(x);
    assert forall|k: int| 0 <= k < a.len() implies (#[trigger] a[k]).upsert_id() != x.upsert_id() by {
        lemma_live_in_slots(s, k);
        let j = choose|j: int| 0 <= j < s.len() && #[trigger] s[j] == Some(live_of(s)[k]);
        assert(s[j] is Some);
    }
    if ids_unique(a) {
        assert forall|p: int, q: int|
            0 <= p < b.len() && 0 <= q < b.len() && p != q implies (#[trigger] b[p]).upsert_id()
            != (#[trigger] b[q]).upsert_id() by {
            if p < a.len() && q < a.len() {
                assert(b[p] == a[p]);
                assert(b[q] == a[q]);
            } else if p < a.len() {
                assert(b[p] == a[p]);
                assert(b[q] == x);
            } else {
                assert(b[q] == a[q]);
                assert(b[p] == x);
            }
        }
    }
}

/// Removing an element keeps identities unique.
proof fn lemma_remove_keeps_unique<E: Upsert>(a: Seq<E>, k: int)
    requires
        0 <= k < a.len(),
    ensures
        ids_unique(a) ==> ids_unique(a.remove(k)),
{
    let b = a.remove(k);
    if ids_unique(a) {
        assert forall|p: int, q: int|
            0 <= p < b.len() && 0 <= q < b.len() && p != q implies (#[trigger] b[p]).upsert_id()
            != (#[trigger] b[q]).upsert_id() by {
            let pp = if p < k { p } else { p + 1 };
            let qq = if q < k { q } else { q + 1 };
            assert(b[p] == a[pp]);
            assert(b[q] == a[qq]);
        }
    }
}

/// Replacing an element by one of the same identity keeps the identities, among
/// which is that identity.
proof fn lemma_id_set_update<E: Upsert>(live: Seq<E>, k: int, x: E)
    requires
        0 <= k < live.len(),
        x.upsert_id() == live[k].upsert_id(),
    ensures
        id_set(live.update(k, x)) == id_set(live),
        id_set(live).contains(x.upsert_id()),
{
    let t = live.update(k, x);
    assert forall|id: E::Id| id_set(t).contains(id) <==> id_set(live).contains(id) by {
        if id_set(t).contains(id) {
            let j = choose|j: int| 0 <= j < t.len() && (#[trigger] t[j]).upsert_id() == id;
            assert(live[j].upsert_id() == id);
        }
        if id_set(live).contains(id) {
            let j = choose|j: int| 0 <= j < live.len() && (#[trigger] live[j]).upsert_id() == id;
            assert(t[j].upsert_id() == id);
        }
    }
    assert(id_set(t) =~= id_set(live));
    assert(live[k].upsert_id() == x.upsert_id());
}

/// Appending an element adds its identity.
proof fn lemma_id_set_push<E: Upsert>(live: Seq<E>, x: E)
    ensures
        id_set(live.push(x)) == id_set(live).insert(x.upsert_id()),
{
    let t = live.push(x);
    assert forall|id: E::Id| id_set(t).contains(id) <==> id_set(live).insert(x.upsert_id()).contains(id) by {
        if id_set(t).contains(id) {
            let j = choose|j: int| 0 <= j < t.len() && (#[trigger] t[j]).upsert_id() == id;
            if j < live.len() {
                assert(live[j] == t[j]);
            }
        }
        if id_set(live).contains(id) {
            let j = choose|j: int| 0 <= j < live.len() && (#[trigger] live[j]).upsert_id() == id;
            assert(t[j] == live[j]);
        }
        assert(t[live.len() as int] == x);
    }
    assert(id_set(t) =~= id_set(live).insert(x.upsert_id()));
}

/// Deleting the first element that `f` marks, when `f` marks identity `id` and
/// identities are unique, removes that identity.
proof fn lemma_delete_id_set<E: Upsert, F: Fn(&E) -> bool>(
    s: Seq<Option<E>>,
    f: F,
    i: int,
    id: E::Id,
)
    requires
        first_true(s, f, i),
        decides_id(f, id),
        ids_unique(live_of(s)),
    ensures
        id_set(live_of(s).remove(live_index(s, i))) == id_set(live_of(s)).remove(id),
{
    let live = live_of(s);
    let li = live_index(s, i);
    lemma_update(s, i, None);
    assert(call_ensures(f, (&s[i].unwrap(),), true));
    assert(s[i].unwrap().upsert_id() == id);
    assert(live[li].upsert_id() == id);
    let t = live.remove(li);
    assert forall|y: E::Id| id_set(t).contains(y) <==> id_set(live).remove(id).contains(y) by {
        if id_set(t).contains(y) {
            let j = choose|j: int| 0 <= j < t.len() && (#[trigger] t[j]).upsert_id() == y;
            let jj = if j < li { j } else { j + 1 };
            assert(t[j] == live[jj]);
            assert(jj != li);
            assert(live[jj].upsert_id() != live[li].upsert_id());
        }
        if id_set(live).remove(id).contains(y) {
            let j = choose|j: int| 0 <= j < live.len() && (#[trigger] live[j]).upsert_id() == y;
            assert(j != li);
            if j < li {
                assert(t[j] == live[j]);
            } else {
                assert(t[j - 1] == live[j]);
            }
        }
    }
    assert(id_set(t) =~= id_set(live).remove(id));
}

/// When `f` marks identity `id` and marks no element, no element has that identity.
proof fn lemma_absent_id_set<E: Upsert, F: Fn(&E) -> bool>(s: Seq<Option<E>>, f: F, id: E::Id)
    requires
        all_false(s, f),
        decides_id(f, id),
    ensures
        !id_set(live_of(s)).contains(id),
{
    let live = live_of(s);
    if id_set(live).contains(id) {
        let k = choose|k: int| 0 <= k < live.len() && (#[trigger] live[k]).upsert_id() == id;
        lemma_live_in_slots(s, k);
        let j = choose|j: int| 0 <= j < s.len() && #[trigger] s[j] == Some(live_of(s)[k]);
        assert(s[j] is Some);
        assert(call_ensures(f, (&s[j].unwrap(),), false));
    }
}

} // verus!
