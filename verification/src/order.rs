//! Stable sorting.

use vstd::prelude::*;

verus! {

/// `s` with `x` put behind the last element that may stand before it.
pub open spec fn placed<T>(s: Seq<T>, x: T, le: spec_fn(T, T) -> bool) -> Seq<T>
    decreases s.len(),
{
    if s.len() == 0 || le(s.last(), x) {
        s.push(x)
    } else {
        placed(s.drop_last(), x, le).push(s.last())
    }
}

/// `s` in the order of `le`; elements that may stand either way keep the order
/// they came in.
pub open spec fn stable_sorted<T>(s: Seq<T>, le: spec_fn(T, T) -> bool) -> Seq<T>
    decreases s.len(),
{
    if s.len() == 0 {
        s
    } else {
        placed(stable_sorted(s.drop_last(), le), s.last(), le)
    }
}

/// Whether `le` compares any two elements, and consistently.
pub open spec fn is_order<T>(le: spec_fn(T, T) -> bool) -> bool {
    &&& forall|a: T, b: T| #![trigger le(a, b)] le(a, b) || le(b, a)
    &&& forall|a: T, b: T, c: T|
        #![trigger le(a, b), le(b, c)]
        le(a, b) && le(b, c) ==> le(a, c)
}

/// Whether every element may stand before those behind it.
pub open spec fn in_order<T>(s: Seq<T>, le: spec_fn(T, T) -> bool) -> bool {
    forall|i: int, j: int| 0 <= i < j < s.len() ==> le(#[trigger] s[i], #[trigger] s[j])
}

proof fn lemma_placed_elements<T>(s: Seq<T>, x: T, le: spec_fn(T, T) -> bool)
    ensures
        placed(s, x, le).len() == s.len() + 1,
        forall|i: int|
            0 <= i < placed(s, x, le).len() ==> #[trigger] placed(s, x, le)[i] == x || s.contains(
                placed(s, x, le)[i],
            ),
    decreases s.len(),
{
    if s.len() == 0 || le(s.last(), x) {
        assert forall|i: int| 0 <= i < s.push(x).len() implies #[trigger] s.push(x)[i] == x
            || s.contains(s.push(x)[i]) by {
            if i < s.len() {
                assert(s[i] == s.push(x)[i]);
            }
        }
    } else {
        let front = s.drop_last();
        lemma_placed_elements(front, x, le);
        let all = placed(s, x, le);
        assert forall|i: int| 0 <= i < all.len() implies #[trigger] all[i] == x || s.contains(
            all[i],
        ) by {
            if i < all.len() - 1 {
                let y = placed(front, x, le)[i];
                assert(all[i] == y);
                if y != x {
                    let k = choose|k: int| 0 <= k < front.len() && front[k] == y;
                    assert(s[k] == y);
                }
            } else {
                assert(s[s.len() - 1] == all[i]);
            }
        }
    }
}

proof fn lemma_placed_in_order<T>(s: Seq<T>, x: T, le: spec_fn(T, T) -> bool)
    requires
        is_order(le),
        in_order(s, le),
    ensures
        in_order(placed(s, x, le), le),
    decreases s.len(),
{
    let all = placed(s, x, le);
    if s.len() == 0 || le(s.last(), x) {
        assert forall|i: int, j: int| 0 <= i < j < all.len() implies le(
            #[trigger] all[i],
            #[trigger] all[j],
        ) by {
            if j == s.len() {
                if i < s.len() - 1 {
                    assert(le(s[i], s[s.len() - 1]));
                }
            } else {
                assert(le(s[i], s[j]));
            }
        }
    } else {
        let front = s.drop_last();
        assert forall|i: int, j: int| 0 <= i < j < front.len() implies le(
            #[trigger] front[i],
            #[trigger] front[j],
        ) by {
            assert(le(s[i], s[j]));
        }
        lemma_placed_in_order(front, x, le);
        lemma_placed_elements(front, x, le);
        let inner = placed(front, x, le);
        assert forall|i: int, j: int| 0 <= i < j < all.len() implies le(
            #[trigger] all[i],
            #[trigger] all[j],
        ) by {
            if j == all.len() - 1 {
                let y = inner[i];
                if y == x {
                    assert(le(s.last(), x) || le(x, s.last()));
                } else {
                    let k = choose|k: int| 0 <= k < front.len() && front[k] == y;
                    assert(le(s[k], s[s.len() - 1]));
                }
            } else {
                assert(le(inner[i], inner[j]));
            }
        }
    }
}

/// Sorting puts the elements in order.
pub proof fn law_sorting_puts_in_order<T>(s: Seq<T>, le: spec_fn(T, T) -> bool)
    requires
        is_order(le),
    ensures
        in_order(stable_sorted(s, le), le),
    decreases s.len(),
{
    if s.len() > 0 {
        law_sorting_puts_in_order(s.drop_last(), le);
        lemma_placed_in_order(stable_sorted(s.drop_last(), le), s.last(), le);
    }
}

proof fn lemma_placed_multiset<T>(s: Seq<T>, x: T, le: spec_fn(T, T) -> bool)
    ensures
        placed(s, x, le).to_multiset() == s.to_multiset().insert(x),
    decreases s.len(),
{
    broadcast use vstd::seq_lib::group_to_multiset_ensures;

    if s.len() == 0 || le(s.last(), x) {
    } else {
        let front = s.drop_last();
        lemma_placed_multiset(front, x, le);
        assert(s =~= front.push(s.last()));
        assert(placed(s, x, le).to_multiset() =~= s.to_multiset().insert(x));
    }
}

/// Sorting neither adds nor drops an element.
pub proof fn law_sorting_keeps_every_element<T>(s: Seq<T>, le: spec_fn(T, T) -> bool)
    ensures
        stable_sorted(s, le).to_multiset() == s.to_multiset(),
        stable_sorted(s, le).len() == s.len(),
    decreases s.len(),
{
    broadcast use vstd::seq_lib::group_to_multiset_ensures;

    if s.len() > 0 {
        let front = s.drop_last();
        law_sorting_keeps_every_element(front, le);
        lemma_placed_multiset(stable_sorted(front, le), s.last(), le);
        lemma_placed_elements(stable_sorted(front, le), s.last(), le);
        assert(s =~= front.push(s.last()));
    }
}

/// The elements of `s` that rank with `x`, in their order.
pub open spec fn peers<T>(s: Seq<T>, x: T, le: spec_fn(T, T) -> bool) -> Seq<T>
    decreases s.len(),
{
    if s.len() == 0 {
        s
    } else if le(s.last(), x) && le(x, s.last()) {
        peers(s.drop_last(), x, le).push(s.last())
    } else {
        peers(s.drop_last(), x, le)
    }
}

proof fn lemma_placed_peers<T>(s: Seq<T>, y: T, x: T, le: spec_fn(T, T) -> bool)
    requires
        is_order(le),
    ensures
        peers(placed(s, y, le), x, le) == peers(s.push(y), x, le),
    decreases s.len(),
{
    if !(s.len() == 0 || le(s.last(), y)) {
        let front = s.drop_last();
        let last = s.last();
        lemma_placed_peers(front, y, x, le);
        lemma_peers_push(front, last, x, le);
        lemma_peers_push(s, y, x, le);
        lemma_peers_push(front, y, x, le);
        lemma_peers_push(placed(front, y, le), last, x, le);
        assert(front.push(last) =~= s);
        if le(last, x) && le(x, y) {
            assert(false);
        }
    }
}

proof fn lemma_peers_push<T>(s: Seq<T>, y: T, x: T, le: spec_fn(T, T) -> bool)
    ensures
        peers(s.push(y), x, le) == (if le(y, x) && le(x, y) {
            peers(s, x, le).push(y)
        } else {
            peers(s, x, le)
        }),
{
    assert(s.push(y).drop_last() =~= s);
    assert(s.push(y).last() == y);
}

/// Elements that rank alike keep the order they came in.
pub proof fn law_sorting_is_stable<T>(s: Seq<T>, x: T, le: spec_fn(T, T) -> bool)
    requires
        is_order(le),
    ensures
        peers(stable_sorted(s, le), x, le) == peers(s, x, le),
    decreases s.len(),
{
    if s.len() > 0 {
        let front = s.drop_last();
        law_sorting_is_stable(front, x, le);
        let sorted = stable_sorted(front, le);
        lemma_placed_peers(sorted, s.last(), x, le);
        assert(sorted.push(s.last()).drop_last() =~= sorted);
    }
}

/// The elements of `s` that rank with `x` are those of its two parts.
pub proof fn lemma_peers_join<T>(s: Seq<T>, t: Seq<T>, x: T, le: spec_fn(T, T) -> bool)
    ensures
        peers(s + t, x, le) == peers(s, x, le) + peers(t, x, le),
    decreases t.len(),
{
    if t.len() == 0 {
        assert(s + t =~= s);
        assert(peers(s, x, le) + peers(t, x, le) =~= peers(s, x, le));
    } else {
        lemma_peers_join(s, t.drop_last(), x, le);
        assert((s + t).drop_last() =~= s + t.drop_last());
        assert((s + t).last() == t.last());
        assert(peers(s + t, x, le) =~= peers(s, x, le) + peers(t, x, le));
    }
}

/// `base` with each element of `s` put in its place in turn.
spec fn placed_all<T>(base: Seq<T>, s: Seq<T>, le: spec_fn(T, T) -> bool) -> Seq<T>
    decreases s.len(),
{
    if s.len() == 0 {
        base
    } else {
        placed(placed_all(base, s.drop_last(), le), s.last(), le)
    }
}

/// Sorting goes on where it stood.
proof fn lemma_sorting_goes_on<T>(s: Seq<T>, t: Seq<T>, le: spec_fn(T, T) -> bool)
    ensures
        stable_sorted(s + t, le) == placed_all(stable_sorted(s, le), t, le),
    decreases t.len(),
{
    if t.len() == 0 {
        assert(s + t =~= s);
    } else {
        lemma_sorting_goes_on(s, t.drop_last(), le);
        assert((s + t).drop_last() =~= s + t.drop_last());
        assert((s + t).last() == t.last());
    }
}

/// Two elements of which one must stand before the other can be placed either
/// way round.
proof fn lemma_placing_commutes<T>(s: Seq<T>, first: T, second: T, le: spec_fn(T, T) -> bool)
    requires
        is_order(le),
        !le(second, first),
    ensures
        placed(placed(s, first, le), second, le) == placed(placed(s, second, le), first, le),
    decreases s.len(),
{
    assert(le(first, second));
    if s.len() == 0 {
        assert(s.push(second).drop_last() =~= s);
    } else {
        let front = s.drop_last();
        let last = s.last();
        assert(s.push(second).drop_last() =~= s);
        if le(last, first) {
            assert(le(last, second));
        } else if !le(last, second) {
            lemma_placing_commutes(front, first, second, le);
            assert(placed(front, first, le).push(last).drop_last() =~= placed(front, first, le));
            assert(placed(front, second, le).push(last).drop_last() =~= placed(front, second, le));
        }
    }
}

/// Placing a list with one more element placed in it is placing the list, and
/// then that element.
proof fn lemma_placed_all_of_placed<T>(base: Seq<T>, s: Seq<T>, x: T, le: spec_fn(T, T) -> bool)
    requires
        is_order(le),
    ensures
        placed_all(base, placed(s, x, le), le) == placed(placed_all(base, s, le), x, le),
    decreases s.len(),
{
    if s.len() == 0 || le(s.last(), x) {
        assert(s.push(x).drop_last() =~= s);
    } else {
        let front = s.drop_last();
        lemma_placed_all_of_placed(base, front, x, le);
        assert(placed(front, x, le).push(s.last()).drop_last() =~= placed(front, x, le));
        lemma_placing_commutes(placed_all(base, front, le), x, s.last(), le);
    }
}

/// Placing a list, or what it is sorted to, comes to the same.
proof fn lemma_placed_all_of_sorted<T>(base: Seq<T>, s: Seq<T>, le: spec_fn(T, T) -> bool)
    requires
        is_order(le),
    ensures
        placed_all(base, stable_sorted(s, le), le) == placed_all(base, s, le),
    decreases s.len(),
{
    if s.len() > 0 {
        lemma_placed_all_of_sorted(base, s.drop_last(), le);
        lemma_placed_all_of_placed(base, stable_sorted(s.drop_last(), le), s.last(), le);
    }
}

/// A list that is in order is left as it is.
pub proof fn law_sorting_keeps_what_is_in_order<T>(s: Seq<T>, le: spec_fn(T, T) -> bool)
    requires
        in_order(s, le),
    ensures
        stable_sorted(s, le) == s,
    decreases s.len(),
{
    if s.len() > 0 {
        let front = s.drop_last();
        assert forall|i: int, j: int| 0 <= i < j < front.len() implies le(
            #[trigger] front[i],
            #[trigger] front[j],
        ) by {
            assert(le(s[i], s[j]));
        }
        law_sorting_keeps_what_is_in_order(front, le);
        if front.len() > 0 {
            assert(le(s[s.len() - 2], s[s.len() - 1]));
        }
        assert(front.push(s.last()) =~= s);
    }
}

/// Two lists can be sorted each for itself, and then together: the result is the
/// same as that of sorting the one behind the other.
pub proof fn law_sorting_by_parts<T>(s: Seq<T>, t: Seq<T>, le: spec_fn(T, T) -> bool)
    requires
        is_order(le),
    ensures
        stable_sorted(s + t, le) == stable_sorted(stable_sorted(s, le) + stable_sorted(t, le), le),
{
    let sorted = stable_sorted(s, le);
    lemma_sorting_goes_on(s, t, le);
    lemma_sorting_goes_on(sorted, stable_sorted(t, le), le);
    law_sorting_puts_in_order(s, le);
    law_sorting_keeps_what_is_in_order(sorted, le);
    lemma_placed_all_of_sorted(sorted, t, le);
}

/// Placing what stands for an element gives what stands for the placed one.
pub proof fn lemma_placed_map<T, U>(
    s: Seq<T>,
    x: T,
    f: spec_fn(T) -> U,
    le: spec_fn(T, T) -> bool,
    under: spec_fn(U, U) -> bool,
)
    requires
        forall|a: T, b: T| #![trigger le(a, b)] le(a, b) == under(f(a), f(b)),
    ensures
        placed(s, x, le).map_values(f) == placed(s.map_values(f), f(x), under),
    decreases s.len(),
{
    if s.len() == 0 {
        assert(placed(s, x, le).map_values(f) =~= placed(s.map_values(f), f(x), under));
    } else {
        assert(s.map_values(f).last() == f(s.last()));
        assert(le(s.last(), x) == under(f(s.last()), f(x)));
        if le(s.last(), x) {
            assert(s.push(x).map_values(f) =~= s.map_values(f).push(f(x)));
        } else {
            let front = s.drop_last();
            lemma_placed_map(front, x, f, le, under);
            assert(s.map_values(f).drop_last() =~= front.map_values(f));
            assert(placed(front, x, le).push(s.last()).map_values(f) =~= placed(
                front,
                x,
                le,
            ).map_values(f).push(f(s.last())));
        }
    }
}

/// Where `placed` puts `x`: `k` is behind an element that may stand before it,
/// and everything from `k` on may not.
pub proof fn lemma_placed_at<T>(s: Seq<T>, x: T, le: spec_fn(T, T) -> bool, k: int)
    requires
        0 <= k <= s.len(),
        k > 0 ==> le(s[k - 1], x),
        forall|i: int| k <= i < s.len() ==> !le(#[trigger] s[i], x),
    ensures
        placed(s, x, le) == s.insert(k, x),
    decreases s.len(),
{
    if k == s.len() {
        assert(s.insert(k, x) =~= s.push(x));
    } else {
        let front = s.drop_last();
        assert(s.last() == s[s.len() - 1]);
        assert forall|i: int| k <= i < front.len() implies !le(#[trigger] front[i], x) by {
            assert(front[i] == s[i]);
        }
        lemma_placed_at(front, x, le, k);
        assert(front.insert(k, x).push(s.last()) =~= s.insert(k, x));
    }
}

/// Put `x` in its place in a list that is being sorted.
pub(crate) fn insert_sorted<T, F: Fn(&T, &T) -> bool>(
    list: &mut Vec<T>,
    x: T,
    before: F,
    Ghost(le): Ghost<spec_fn(T, T) -> bool>,
)
    requires
        forall|a: &T, b: &T| call_requires(before, (a, b)),
        forall|a: &T, b: &T, r: bool| call_ensures(before, (a, b), r) ==> r == le(*a, *b),
    ensures
        final(list)@ == placed(old(list)@, x, le),
{
    let mut k: usize = list.len();
    while k > 0 && !before(&list[k - 1], &x)
        invariant
            k <= list@.len(),
            list@ == old(list)@,
            forall|a: &T, b: &T| call_requires(before, (a, b)),
            forall|a: &T, b: &T, r: bool| call_ensures(before, (a, b), r) ==> r == le(*a, *b),
            forall|i: int| k <= i < list@.len() ==> !le(#[trigger] list@[i], x),
        ensures
            k > 0 ==> le(list@[k - 1], x),
        decreases k,
    {
        k -= 1;
    }
    proof {
        lemma_placed_at(list@, x, le, k as int);
    }
    list.insert(k, x);
}

} // verus!
