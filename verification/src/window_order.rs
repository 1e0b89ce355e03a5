//! The order in which the windows of one application are cycled through.
//!
//! When the switch-windows hotkey is held and pressed again, the windows that
//! were already in the cycle keep their order, and windows that appeared since
//! are put after them. The set of current windows is kept in an
//! `indexmap::IndexSet`, whose `swap_remove` decides the order of the tail.
use vstd::prelude::*;
use indexmap::IndexSet;

verus! {

#[verifier::external_type_specification]
#[verifier::external_body]
#[verifier::reject_recursive_types(T)]
#[verifier::reject_recursive_types(S)]
pub struct ExIndexSet<T, S>(IndexSet<T, S>);

/// The items of an `IndexSet<isize>`, in the set's order.
pub uninterp spec fn index_set_items(set: IndexSet<isize>) -> Seq<isize>;

/// The first occurrence of each value of `s`, in the order of `s`: what an
/// `IndexSet` holds after its items were inserted one by one (inserting a
/// value that is already present leaves the set and its order unchanged).
pub open spec fn first_occurrences(s: Seq<isize>) -> Seq<isize>
    decreases s.len(),
{
    if s.len() == 0 {
        Seq::empty()
    } else {
        let d = first_occurrences(s.drop_last());
        if d.contains(s.last()) {
            d
        } else {
            d.push(s.last())
        }
    }
}

/// `s` with the item at `i` replaced by the last item, and the last position
/// dropped: what `swap_remove` does to the order of an `IndexSet`.
pub open spec fn swap_remove_at(s: Seq<isize>, i: int) -> Seq<isize> {
    s.update(i, s.last()).drop_last()
}

/// Walks `cache` in order; each entry still in `rest` is moved from `rest`
/// (by `swap_remove`) to the end of `taken`. Returns `(taken, rest)`.
pub open spec fn merge_fold(cache: Seq<isize>, set: Seq<isize>) -> (Seq<isize>, Seq<isize>)
    decreases cache.len(),
{
    if cache.len() == 0 {
        (Seq::empty(), set)
    } else {
        let (taken, rest) = merge_fold(cache.drop_last(), set);
        let id = cache.last();
        if rest.contains(id) {
            (taken.push(id), swap_remove_at(rest, rest.index_of(id)))
        } else {
            (taken, rest)
        }
    }
}

/// The cycle order of the windows `current` when the previous cycle order was
/// `cache`: the cached windows that still exist, in cached order, then the
/// remaining current windows in the order that the set leaves them in.
pub open spec fn merge_order(cache: Seq<isize>, current: Seq<isize>) -> Seq<isize> {
    let (taken, rest) = merge_fold(cache, first_occurrences(current));
    taken + rest
}

/// The entries of `cache` that occur in `current`, each once, in cache order.
pub open spec fn kept_from_cache(cache: Seq<isize>, current: Seq<isize>) -> Seq<isize> {
    first_occurrences(cache.filter(|x: isize| current.contains(x)))
}

/// Wraps `IndexSet::from_iter` (through `collect`): the set holds the first
/// occurrence of each value, in the order of the input.
#[verifier::external_body]
fn index_set_collect(values: &Vec<isize>) -> (set: IndexSet<isize>)
    ensures
        index_set_items(set) == first_occurrences(values@),
{
    values.iter().copied().collect()
}

/// Wraps `IndexSet::contains`: whether the value is one of the set's items.
#[verifier::external_body]
fn index_set_contains(set: &IndexSet<isize>, value: isize) -> (res: bool)
    ensures
        res == index_set_items(*set).contains(value),
{
    set.contains(&value)
}

/// Wraps `IndexSet::swap_remove`: it returns whether the value was present;
/// if so, the value's position now holds what was the last item, and the last
/// position is gone; otherwise the set is unchanged.
#[verifier::external_body]
fn index_set_swap_remove(set: &mut IndexSet<isize>, value: isize) -> (res: bool)
    ensures
        res == index_set_items(*old(set)).contains(value),
        res ==> exists|i: int|
            0 <= i < index_set_items(*old(set)).len() && index_set_items(*old(set))[i] == value
                && index_set_items(*final(set)) == swap_remove_at(index_set_items(*old(set)), i),
        !res ==> index_set_items(*final(set)) == index_set_items(*old(set)),
{
    set.swap_remove(&value)
}

/// Wraps `IndexSet::into_iter` (through `collect`): the items in set order.
#[verifier::external_body]
fn index_set_into_vec(set: IndexSet<isize>) -> (values: Vec<isize>)
    ensures
        values@ == index_set_items(set),
{
    set.into_iter().collect()
}

/// The first occurrences hold each value of `s` once, and nothing else.
pub proof fn lemma_first_occurrences(s: Seq<isize>)
    ensures
        first_occurrences(s).no_duplicates(),
        forall|x: isize| #[trigger] first_occurrences(s).contains(x) <==> s.contains(x),
        first_occurrences(s).len() <= s.len(),
    decreases s.len(),
{
    if s.len() > 0 {
        lemma_first_occurrences(s.drop_last());
        let d = first_occurrences(s.drop_last());
        assert forall|x: isize| #[trigger] first_occurrences(s).contains(x) <==> s.contains(x) by {
            if s.contains(x) {
                let k = choose|k: int| 0 <= k < s.len() && s[k] == x;
                if k < s.len() - 1 {
                    assert(s.drop_last()[k] == x);
                }
            }
            if d.contains(x) {
                assert(s.drop_last().contains(x));
                let k = choose|k: int| 0 <= k < s.drop_last().len() && s.drop_last()[k] == x;
                assert(s[k] == x);
            }
            if !d.contains(s.last()) {
                assert(d.push(s.last())[d.len() as int] == s.last());
                if d.push(s.last()).contains(x) {
                    let k = choose|k: int| 0 <= k < d.len() + 1 && d.push(s.last())[k] == x;
                    if k < d.len() {
                        assert(d[k] == x);
                    }
                }
                if d.contains(x) {
                    let k = choose|k: int| 0 <= k < d.len() && d[k] == x;
                    assert(d.push(s.last())[k] == x);
                }
            }
        }
    }
}

/// Removing the item at `i` from a sequence without duplicates leaves a
/// sequence without duplicates that holds every other item and not that one.
pub proof fn lemma_swap_remove_at(s: Seq<isize>, i: int)
    requires
        s.no_duplicates(),
        0 <= i < s.len(),
    ensures
        swap_remove_at(s, i).no_duplicates(),
        swap_remove_at(s, i).len() == s.len() - 1,
        forall|x: isize| #[trigger] swap_remove_at(s, i).contains(x) <==> (s.contains(x) && x != s[i]),
{
    let r = swap_remove_at(s, i);
    let last = s.len() - 1;
    assert forall|x: isize| #[trigger] r.contains(x) <==> (s.contains(x) && x != s[i]) by {
        if r.contains(x) {
            let k = choose|k: int| 0 <= k < r.len() && r[k] == x;
            if k == i {
                assert(x == s[last]);
            } else {
                assert(x == s[k]);
            }
        }
        if s.contains(x) && x != s[i] {
            let k = choose|k: int| 0 <= k < s.len() && s[k] == x;
            if k == last {
                assert(r[i] == x);
            } else {
                assert(r[k] == x);
            }
        }
    }
}

/// What the fold keeps apart: taken and rest are disjoint, without
/// duplicates, together hold the values of the set, and taken is the cached
/// entries found in the set, in cache order.
pub proof fn lemma_merge_fold(cache: Seq<isize>, set: Seq<isize>)
    requires
        set.no_duplicates(),
    ensures
        ({
            let (taken, rest) = merge_fold(cache, set);
            &&& taken.no_duplicates()
            &&& rest.no_duplicates()
            &&& taken.disjoint(rest)
            &&& forall|x: isize| #[trigger] (taken + rest).contains(x) <==> set.contains(x)
            &&& forall|x: isize| #[trigger] rest.contains(x) <==> (set.contains(x) && !taken.contains(x))
            &&& taken.len() + rest.len() == set.len()
            &&& taken == first_occurrences(cache.filter(|x: isize| set.contains(x)))
        }),
    decreases cache.len(),
{
    reveal(Seq::filter);
    let pred = |x: isize| set.contains(x);
    if cache.len() == 0 {
        let (taken, rest) = merge_fold(cache, set);
        assert(cache.filter(pred) =~= Seq::<isize>::empty());
        assert forall|x: isize| #[trigger] (taken + rest).contains(x) <==> set.contains(x) by {
            assert(taken + rest =~= set);
        }
    } else {
        lemma_merge_fold(cache.drop_last(), set);
        let (t0, r0) = merge_fold(cache.drop_last(), set);
        let id = cache.last();
        let (taken, rest) = merge_fold(cache, set);
        lemma_first_occurrences(cache.drop_last().filter(pred));
        if r0.contains(id) {
            let i = r0.index_of(id);
            lemma_swap_remove_at(r0, i);
            assert(taken == t0.push(id));
            assert(rest == swap_remove_at(r0, i));
            assert(!t0.contains(id));
            assert(taken.no_duplicates()) by {
                assert forall|a: int, b: int| 0 <= a < taken.len() && 0 <= b < taken.len() && a != b
                    implies taken[a] != taken[b] by {
                    if a == t0.len() {
                        assert(t0.contains(taken[b]) || b == t0.len());
                    } else if b == t0.len() {
                        assert(t0.contains(taken[a]));
                    }
                }
            }
            assert(taken.disjoint(rest)) by {
                assert forall|a: int, b: int| 0 <= a < taken.len() && 0 <= b < rest.len()
                    implies taken[a] != rest[b] by {
                    assert(rest.contains(rest[b]));
                    if a < t0.len() {
                        assert(t0.contains(taken[a]));
                        assert(r0.contains(rest[b]));
                        let k = choose|k: int| 0 <= k < r0.len() && r0[k] == rest[b];
                    }
                }
            }
            assert forall|x: isize| #[trigger] rest.contains(x) <==> (set.contains(x) && !taken.contains(x)) by {
                if taken.contains(x) {
                    let k = choose|k: int| 0 <= k < taken.len() && taken[k] == x;
                    if k < t0.len() {
                        assert(t0.contains(x));
                    }
                }
                if t0.contains(x) {
                    let k = choose|k: int| 0 <= k < t0.len() && t0[k] == x;
                    assert(taken[k] == x);
                }
                assert(taken[t0.len() as int] == id);
            }
            assert forall|x: isize| #[trigger] (taken + rest).contains(x) <==> set.contains(x) by {
                let tr = taken + rest;
                if tr.contains(x) {
                    let k = choose|k: int| 0 <= k < tr.len() && tr[k] == x;
                    if k < taken.len() {
                        assert(taken.contains(x));
                        if k < t0.len() {
                            assert(t0.contains(x));
                            assert((t0 + r0)[k] == x);
                        } else {
                            assert(r0.contains(id));
                            let m = choose|m: int| 0 <= m < r0.len() && r0[m] == id;
                            assert((t0 + r0)[t0.len() + m] == id);
                        }
                    } else {
                        assert(rest[k - taken.len()] == x);
                        assert(rest.contains(x));
                    }
                }
                if set.contains(x) {
                    if taken.contains(x) {
                        let k = choose|k: int| 0 <= k < taken.len() && taken[k] == x;
                        assert(tr[k] == x);
                    } else {
                        assert(rest.contains(x));
                        let k = choose|k: int| 0 <= k < rest.len() && rest[k] == x;
                        assert(tr[taken.len() + k] == x);
                    }
                }
            }
            assert(set.contains(id)) by {
                let m = choose|m: int| 0 <= m < r0.len() && r0[m] == id;
                assert((t0 + r0)[t0.len() + m] == id);
            }
            assert(cache.filter(pred) == cache.drop_last().filter(pred).push(id));
            assert(!first_occurrences(cache.drop_last().filter(pred)).contains(id));
            assert(cache.filter(pred).drop_last() =~= cache.drop_last().filter(pred));
        } else {
            assert(taken == t0);
            assert(rest == r0);
            assert forall|x: isize| #[trigger] (taken + rest).contains(x) <==> set.contains(x) by {
                assert(taken + rest == t0 + r0);
            }
            if set.contains(id) {
                assert(t0.contains(id));
                assert(cache.filter(pred) == cache.drop_last().filter(pred).push(id));
                assert(cache.filter(pred).drop_last() =~= cache.drop_last().filter(pred));
            } else {
                assert(cache.filter(pred) == cache.drop_last().filter(pred));
            }
        }
    }
}

/// The merged order holds each current window exactly once; the cached
/// windows that still exist come first, in their cached order.
pub proof fn lemma_merge_order(cache: Seq<isize>, current: Seq<isize>)
    ensures
        merge_order(cache, current).no_duplicates(),
        forall|x: isize| #[trigger] merge_order(cache, current).contains(x) <==> current.contains(x),
        merge_order(cache, current).len() == first_occurrences(current).len(),
        merge_order(cache, current).len() <= current.len(),
        kept_from_cache(cache, current).is_prefix_of(merge_order(cache, current)),
{
    let set = first_occurrences(current);
    lemma_first_occurrences(current);
    lemma_merge_fold(cache, set);
    let (taken, rest) = merge_fold(cache, set);
    let m = taken + rest;
    assert(m.no_duplicates()) by {
        assert forall|a: int, b: int| 0 <= a < m.len() && 0 <= b < m.len() && a != b
            implies m[a] != m[b] by {
            if a < taken.len() && b >= taken.len() {
                assert(rest[b - taken.len()] == m[b]);
            } else if b < taken.len() && a >= taken.len() {
                assert(rest[a - taken.len()] == m[a]);
            } else if a >= taken.len() && b >= taken.len() {
                assert(rest[a - taken.len()] == m[a]);
                assert(rest[b - taken.len()] == m[b]);
            }
        }
    }
    assert(cache.filter(|x: isize| set.contains(x)) =~= cache.filter(|x: isize| current.contains(x))) by {
        assert(forall|x: isize| set.contains(x) == current.contains(x));
        assert((|x: isize| set.contains(x)) =~= (|x: isize| current.contains(x)));
    }
    assert(kept_from_cache(cache, current) == taken);
    assert(taken.is_prefix_of(m)) by {
        assert(m.subrange(0, taken.len() as int) =~= taken);
    }
}

/// Gives the cycle order of the windows `current` when the previous cycle
/// order was `cache`: the cached windows that still exist, in cached order,
/// then the other current windows.
pub fn merge_window_order(cache: &Vec<isize>, current: &Vec<isize>) -> (res: Vec<isize>)
    ensures
        res@ == merge_order(cache@, current@),
{
    let mut state_windows: Vec<isize> = Vec::new();
    let mut windows_set = index_set_collect(current);
    proof {
        lemma_first_occurrences(current@);
    }
    let n = cache.len();
    for i in 0..n
        invariant
            n == cache@.len(),
            (state_windows@, index_set_items(windows_set)) == merge_fold(
                cache@.take(i as int),
                first_occurrences(current@),
            ),
            index_set_items(windows_set).no_duplicates(),
    {
        let id = cache[i];
        proof {
            assert(cache@.take(i + 1).drop_last() =~= cache@.take(i as int));
            assert(cache@.take(i + 1).last() == id);
        }
        let ghost before = index_set_items(windows_set);
        if index_set_contains(&windows_set, id) {
            state_windows.push(id);
            let removed = index_set_swap_remove(&mut windows_set, id);
            proof {
                let k = choose|k: int|
                    0 <= k < before.len() && before[k] == id && index_set_items(windows_set)
                        == swap_remove_at(before, k);
                let j = before.index_of(id);
                assert(before[j] == id);
                assert(k == j);
                lemma_swap_remove_at(before, k);
            }
        }
    }
    proof {
        assert(cache@.take(n as int) =~= cache@);
    }
    let mut rest = index_set_into_vec(windows_set);
    state_windows.append(&mut rest);
    state_windows
}

/// The next position in a cycle of `len` items: one back, or one on, wrapping
/// round at either end.
pub open spec fn step_index(index: int, len: int, reverse: bool) -> int {
    if reverse {
        if index == 0 {
            len - 1
        } else {
            index - 1
        }
    } else if index >= len - 1 {
        0
    } else {
        index + 1
    }
}

/// Gives the next position in a cycle of `len` windows, from the cached
/// position `index`.
pub fn next_window_index(index: usize, len: usize, reverse: bool) -> (res: usize)
    requires
        len >= 1,
    ensures
        res == step_index(index as int, len as int, reverse),
{
    if reverse {
        if index == 0 {
            len - 1
        } else {
            index - 1
        }
    } else if index >= len - 1 {
        0
    } else {
        index + 1
    }
}

/// Stepping on and then back, or back and then on, returns to the same
/// position of the cycle; each step stays inside the cycle.
pub proof fn lemma_step_index_undo(index: int, len: int)
    requires
        0 <= index < len,
    ensures
        0 <= step_index(index, len, false) < len,
        0 <= step_index(index, len, true) < len,
        step_index(step_index(index, len, false), len, true) == index,
        step_index(step_index(index, len, true), len, false) == index,
{
}


/// A sequence without duplicates is its own first occurrences.
proof fn lemma_first_occurrences_no_duplicates(s: Seq<isize>)
    requires
        s.no_duplicates(),
    ensures
        first_occurrences(s) == s,
    decreases s.len(),
{
    if s.len() > 0 {
        lemma_first_occurrences_no_duplicates(s.drop_last());
        lemma_first_occurrences(s.drop_last());
        if s.drop_last().contains(s.last()) {
            let k = choose|k: int| 0 <= k < s.len() - 1 && s.drop_last()[k] == s.last();
            assert(s[k] == s[s.len() - 1]);
        }
        assert(s.drop_last().push(s.last()) =~= s);
    }
}

/// A cycle order that already holds exactly the current windows, each once,
/// is kept as it is.
pub proof fn lemma_merge_order_stable(cache: Seq<isize>, current: Seq<isize>)
    requires
        cache.no_duplicates(),
        current.no_duplicates(),
        cache.len() == current.len(),
        forall|x: isize| #[trigger] cache.contains(x) <==> current.contains(x),
    ensures
        merge_order(cache, current) == cache,
{
    reveal(Seq::filter);
    let set = first_occurrences(current);
    lemma_first_occurrences_no_duplicates(current);
    lemma_merge_fold(cache, set);
    let (taken, rest) = merge_fold(cache, set);
    let pred = |x: isize| set.contains(x);
    assert(cache.filter(pred) == cache) by {
        lemma_first_occurrences(current);
        assert forall|i: int| 0 <= i < cache.len() implies pred(#[trigger] cache[i]) by {
            assert(cache.contains(cache[i]));
            assert(current.contains(cache[i]));
            assert(set.contains(cache[i]));
        }
        lemma_filter_all(cache, pred);
    }
    lemma_first_occurrences_no_duplicates(cache);
    assert(taken == cache);
    assert(rest.len() == 0);
    assert(taken + rest =~= cache);
}

proof fn lemma_filter_all(s: Seq<isize>, pred: spec_fn(isize) -> bool)
    requires
        forall|i: int| 0 <= i < s.len() ==> pred(#[trigger] s[i]),
    ensures
        s.filter(pred) == s,
    decreases s.len(),
{
    reveal(Seq::filter);
    if s.len() > 0 {
        lemma_filter_all(s.drop_last(), pred);
        assert(pred(s[s.len() - 1]));
        assert(s.drop_last().push(s.last()) =~= s);
    }
}

} // verus!
