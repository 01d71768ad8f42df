//! Sequences of optional slots, the storage shape of the effect containers.
//!
//! A slot is either occupied (`Some`) or a hole (`None`). The live elements of a
//! slot sequence are its occupied slots, in slot order.
use vstd::prelude::*;

verus! {

/// The occupied slots of `s`, in order.
pub open spec fn live_of<E>(s: Seq<Option<E>>) -> Seq<E>
    decreases s.len(),
{
    if s.len() == 0 {
        Seq::empty()
    } else {
        let rest = live_of(s.drop_last());
        match s.last() {
            Some(e) => rest.push(e),
            None => rest,
        }
    }
}

/// The number of holes in `s`.
pub open spec fn holes_of<E>(s: Seq<Option<E>>) -> nat
    decreases s.len(),
{
    if s.len() == 0 {
        0
    } else {
        holes_of(s.drop_last()) + if s.last() is None {
            1nat
        } else {
            0nat
        }
    }
}

/// The position among the live elements of the element held in slot `i`.
pub open spec fn live_index<E>(s: Seq<Option<E>>, i: int) -> int {
    live_of(s.take(i)).len() as int
}

/// Every live element sits in some occupied slot.
pub proof fn lemma_live_in_slots<E>(s: Seq<Option<E>>, k: int)
    requires
        0 <= k < live_of(s).len(),
    ensures
        exists|j: int| 0 <= j < s.len() && #[trigger] s[j] == Some(live_of(s)[k]),
    decreases s.len(),
{
    let rest = s.drop_last();
    if k < live_of(rest).len() {
        lemma_live_in_slots(rest, k);
        let j = choose|j: int| 0 <= j < rest.len() && #[trigger] rest[j] == Some(live_of(rest)[k]);
        assert(s[j] == rest[j]);
    } else {
        assert(s[s.len() - 1] == Some(live_of(s)[k]));
    }
}

/// An occupied slot's element is the live element at its live index.
pub proof fn lemma_live_index_value<E>(s: Seq<Option<E>>, i: int)
    requires
        0 <= i < s.len(),
        s[i] is Some,
    ensures
        0 <= live_index(s, i) < live_of(s).len(),
        live_of(s)[live_index(s, i)] == s[i].unwrap(),
{
    lemma_split(s, i);
    lemma_single(s[i]);
}

/// An occupied slot before slot `i` holds a live element before the one of slot `i`.
pub proof fn lemma_live_index_lt<E>(s: Seq<Option<E>>, j: int, i: int)
    requires
        0 <= j < i <= s.len(),
        s[j] is Some,
    ensures
        live_index(s, j) < live_index(s, i),
{
    let t = s.take(i);
    lemma_split(t, j);
    assert(t.take(j) =~= s.take(j));
    assert(t[j] == s[j]);
    lemma_single(s[j]);
}

/// No two elements of `s` share a key.
pub open spec fn unique_by<E, K>(s: Seq<E>, key: spec_fn(E) -> K) -> bool {
    forall|a: int, b: int|
        0 <= a < s.len() && 0 <= b < s.len() && a != b ==> key(#[trigger] s[a]) != key(
            #[trigger] s[b],
        )
}

/// Removing an element keeps keys unique.
pub proof fn lemma_unique_remove<E, K>(s: Seq<E>, k: int, key: spec_fn(E) -> K)
    requires
        0 <= k < s.len(),
        unique_by(s, key),
    ensures
        unique_by(s.remove(k), key),
{
    let b = s.remove(k);
    assert forall|p: int, q: int|
        0 <= p < b.len() && 0 <= q < b.len() && p != q implies key(#[trigger] b[p]) != key(
            #[trigger] b[q],
        ) by {
        let pp = if p < k {
            p
        } else {
            p + 1
        };
        let qq = if q < k {
            q
        } else {
            q + 1
        };
        assert(b[p] == s[pp]);
        assert(b[q] == s[qq]);
    }
}

/// Adding an element whose key no element has keeps keys unique.
pub proof fn lemma_unique_push<E, K>(s: Seq<E>, x: E, key: spec_fn(E) -> K)
    requires
        unique_by(s, key),
        forall|k: int| 0 <= k < s.len() ==> key(#[trigger] s[k]) != key(x),
    ensures
        unique_by(s.push(x), key),
{
    let b = s.push(x);
    assert forall|p: int, q: int|
        0 <= p < b.len() && 0 <= q < b.len() && p != q implies key(#[trigger] b[p]) != key(
            #[trigger] b[q],
        ) by {
        if p < s.len() {
            assert(b[p] == s[p]);
        }
        if q < s.len() {
            assert(b[q] == s[q]);
        }
    }
}

/// Live elements of a concatenation are the concatenation of the live elements.
pub proof fn lemma_live_concat<E>(a: Seq<Option<E>>, b: Seq<Option<E>>)
    ensures
        live_of(a + b) == live_of(a) + live_of(b),
        holes_of(a + b) == holes_of(a) + holes_of(b),
    decreases b.len(),
{
    if b.len() == 0 {
        assert(a + b =~= a);
        assert(live_of(a) + live_of(b) =~= live_of(a));
    } else {
        lemma_live_concat(a, b.drop_last());
        assert((a + b).drop_last() =~= a + b.drop_last());
        assert((a + b).last() == b.last());
        match b.last() {
            Some(e) => {
                assert(live_of(a) + live_of(b) =~= (live_of(a) + live_of(b.drop_last())).push(e));
            },
            None => {},
        }
    }
}

/// Every slot is live or a hole.
pub proof fn lemma_live_len<E>(s: Seq<Option<E>>)
    ensures
        live_of(s).len() + holes_of(s) == s.len(),
    decreases s.len(),
{
    if s.len() > 0 {
        lemma_live_len(s.drop_last());
    }
}

/// A sequence without holes is the sequence of its elements.
pub proof fn lemma_no_holes<E>(s: Seq<Option<E>>)
    requires
        holes_of(s) == 0,
    ensures
        live_of(s).len() == s.len(),
        forall|i: int| 0 <= i < s.len() ==> s[i] == Some(#[trigger] live_of(s)[i]),
    decreases s.len(),
{
    if s.len() > 0 {
        lemma_no_holes(s.drop_last());
        lemma_live_len(s);
    }
}

/// `s` as a slot sequence without holes.
pub open spec fn all_occupied<E>(s: Seq<E>) -> Seq<Option<E>> {
    Seq::new(s.len(), |i: int| Some(s[i]))
}

/// Wrapping in `Some` and taking the live elements undo each other.
pub proof fn lemma_occupied_live<E>(s: Seq<E>)
    ensures
        live_of(all_occupied(s)) == s,
    decreases s.len(),
{
    if s.len() > 0 {
        lemma_occupied_live(s.drop_last());
        assert(all_occupied(s).drop_last() =~= all_occupied(s.drop_last()));
        assert(s.drop_last().push(s.last()) =~= s);
    } else {
        assert(all_occupied(s) =~= Seq::<Option<E>>::empty());
        assert(s =~= Seq::<E>::empty());
    }
}

/// A sequence without holes is its elements, all occupied.
pub proof fn lemma_no_holes_occupied<E>(s: Seq<Option<E>>)
    requires
        holes_of(s) == 0,
    ensures
        s == all_occupied(live_of(s)),
{
    lemma_no_holes(s);
    assert(s =~= all_occupied(live_of(s)));
}

/// A sequence whose slots are all holes has no live elements.
pub proof fn lemma_all_holes<E>(s: Seq<Option<E>>)
    requires
        forall|i: int| 0 <= i < s.len() ==> s[i] is None,
    ensures
        live_of(s) == Seq::<E>::empty(),
        holes_of(s) == s.len(),
    decreases s.len(),
{
    if s.len() > 0 {
        lemma_all_holes(s.drop_last());
    }
}

/// Splits `s` around slot `i`.
pub proof fn lemma_split<E>(s: Seq<Option<E>>, i: int)
    requires
        0 <= i < s.len(),
    ensures
        live_of(s) == live_of(s.take(i)) + live_of(seq![s[i]]) + live_of(s.skip(i + 1)),
        holes_of(s) == holes_of(s.take(i)) + holes_of(seq![s[i]]) + holes_of(s.skip(i + 1)),
{
    assert(s =~= s.take(i) + seq![s[i]] + s.skip(i + 1));
    lemma_live_concat(s.take(i) + seq![s[i]], s.skip(i + 1));
    lemma_live_concat(s.take(i), seq![s[i]]);
}

/// The live elements of a single slot.
pub proof fn lemma_single<E>(x: Option<E>)
    ensures
        live_of(seq![x]) == match x {
            Some(e) => seq![e],
            None => Seq::<E>::empty(),
        },
        holes_of(seq![x]) == if x is None {
            1nat
        } else {
            0nat
        },
{
    assert(seq![x].drop_last() =~= Seq::<Option<E>>::empty());
    assert(live_of(Seq::<Option<E>>::empty()) =~= Seq::<E>::empty());
    assert(holes_of(Seq::<Option<E>>::empty()) == 0);
    match x {
        Some(e) => {
            assert(Seq::<E>::empty().push(e) =~= seq![e]);
        },
        None => {},
    }
}

/// Overwriting slot `i` replaces the live element it held by what is written.
pub proof fn lemma_update<E>(s: Seq<Option<E>>, i: int, x: Option<E>)
    requires
        0 <= i < s.len(),
    ensures
        live_index(s.update(i, x), i) == live_index(s, i),
        live_of(s.update(i, x)) == live_of(s.take(i)) + live_of(seq![x]) + live_of(s.skip(i + 1)),
        holes_of(s.update(i, x)) == holes_of(s.take(i)) + holes_of(seq![x]) + holes_of(
            s.skip(i + 1),
        ),
        s[i] is Some && x is Some ==> live_of(s.update(i, x)) == live_of(s).update(
            live_index(s, i),
            x.unwrap(),
        ),
        s[i] is Some && x is None ==> live_of(s.update(i, x)) == live_of(s).remove(
            live_index(s, i),
        ),
        s[i] is Some && x is None ==> holes_of(s.update(i, x)) == holes_of(s) + 1,
        s[i] is Some && x is Some ==> holes_of(s.update(i, x)) == holes_of(s),
        s[i] is Some ==> live_of(s)[live_index(s, i)] == s[i].unwrap(),
        s[i] is Some ==> live_index(s, i) < live_of(s).len(),
{
    let t = s.update(i, x);
    assert(t.take(i) =~= s.take(i));
    assert(t.skip(i + 1) =~= s.skip(i + 1));
    assert(t[i] == x);
    lemma_split(s, i);
    lemma_split(t, i);
    lemma_single(x);
    lemma_single(s[i]);
    let a = live_of(s.take(i));
    let c = live_of(s.skip(i + 1));
    if s[i] is Some && x is Some {
        assert(a + seq![x.unwrap()] + c =~= (a + seq![s[i].unwrap()] + c).update(
            a.len() as int,
            x.unwrap(),
        ));
    }
    if s[i] is Some && x is None {
        assert(a + Seq::<E>::empty() + c =~= (a + seq![s[i].unwrap()] + c).remove(a.len() as int));
    }
    if s[i] is Some {
        assert((a + seq![s[i].unwrap()] + c)[a.len() as int] == s[i].unwrap());
    }
}

/// Appending a slot appends its element, if any.
pub proof fn lemma_push<E>(s: Seq<Option<E>>, x: Option<E>)
    ensures
        live_of(s.push(x)) == match x {
            Some(e) => live_of(s).push(e),
            None => live_of(s),
        },
        holes_of(s.push(x)) == holes_of(s) + if x is None {
            1nat
        } else {
            0nat
        },
{
    assert(s.push(x).drop_last() =~= s);
}

/// `s` with every occupied slot whose element `p` marks turned into a hole.
pub open spec fn holes_where<E>(s: Seq<Option<E>>, p: spec_fn(E) -> bool) -> Seq<Option<E>> {
    Seq::new(s.len(), |j: int| if s[j] is Some && p(s[j].unwrap()) { None } else { s[j] })
}

/// Turning the marked slots into holes drops the marked elements and keeps the
/// others in order; each dropped element becomes one more hole.
pub proof fn lemma_holes_where<E>(s: Seq<Option<E>>, p: spec_fn(E) -> bool)
    ensures
        live_of(holes_where(s, p)) == live_of(s).filter(|e: E| !p(e)),
        holes_of(holes_where(s, p)) + live_of(holes_where(s, p)).len() == s.len(),
    decreases s.len(),
{
    lemma_live_len(holes_where(s, p));
    if s.len() == 0 {
        reveal(Seq::filter);
        assert(holes_where(s, p) =~= Seq::<Option<E>>::empty());
    } else {
        let d = s.drop_last();
        lemma_holes_where(d, p);
        assert(holes_where(s, p).drop_last() =~= holes_where(d, p));
        assert(s =~= d.push(s.last()));
        lemma_push(d, s.last());
        match s.last() {
            Some(e) => {
                live_of(d).lemma_filter_push(e, |e: E| !p(e));
            },
            None => {},
        }
    }
}

/// A mutable borrow of the element in occupied slot `i`.
pub fn slot_mut<E>(v: &mut Vec<Option<E>>, i: usize) -> (r: &mut E)
    requires
        i < old(v)@.len(),
        old(v)@[i as int] is Some,
    ensures
        *r == old(v)@[i as int].unwrap(),
        final(v)@ == old(v)@.update(i as int, Some(*final(r))),
{
    let slot = &mut v[i];
    slot.as_mut().unwrap()
}

/// Moves the occupied slots of `v` to its front, in order, and drops the holes.
/// The allocation of `v` is kept.
pub fn compact_slots<E>(v: &mut Vec<Option<E>>)
    ensures
        live_of(final(v)@) == live_of(old(v)@),
        holes_of(final(v)@) == 0,
        final(v)@.len() == live_of(old(v)@).len(),
{
    let n = v.len();
    let ghost orig = v@;
    let mut w: usize = 0;
    let mut i: usize = 0;
    proof {
        assert(v@.take(0) =~= Seq::<Option<E>>::empty());
        assert(orig.take(0) =~= Seq::<Option<E>>::empty());
    }
    while i < n
        invariant
            w <= i <= n,
            v@.len() == n,
            orig.len() == n,
            live_of(v@.take(w as int)) == live_of(orig.take(i as int)),
            holes_of(v@.take(w as int)) == 0,
            forall|j: int| i <= j < n ==> v@[j] == orig[j],
        decreases n - i,
    {
        let ghost pre = v@;
        let item = v[i].take();
        proof {
            assert(orig.take(i + 1) =~= orig.take(i as int).push(orig[i as int]));
            lemma_push(orig.take(i as int), orig[i as int]);
            assert(v@.take(w as int) =~= pre.take(w as int));
            assert(item == orig[i as int]);
        }
        if item.is_some() {
            let ghost mid = v@;
            v.set(w, item);
            proof {
                assert(v@.take(w + 1) =~= mid.take(w as int).push(item));
                lemma_push(mid.take(w as int), item);
            }
            w = w + 1;
        }
        i = i + 1;
    }
    proof {
        assert(orig.take(n as int) =~= orig);
    }
    v.truncate(w);
    proof {
        assert(v@ =~= v@.take(w as int));
        lemma_live_len(v@);
    }
}

/// `Vec::capacity`: how many elements the vector holds without reallocating,
/// never fewer than its length. Which capacity the allocator gave is not stated.
#[verifier::external_body]
pub(crate) fn vec_capacity<T>(v: &Vec<T>) -> (r: usize)
    ensures
        r >= v@.len(),
{
    v.capacity()
}

} // verus!
