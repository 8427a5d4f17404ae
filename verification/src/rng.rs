//! The vocabulary of ranges: what it is to remove from an end, to scan, to
//! fold and to sift a sequence with a function that is given each element and
//! its index.
//!
//! An executable function may answer differently each time it is called, so
//! what a traversal gives is said through the answers that the function did
//! give: `call_ensures` relates what it was handed to what it returned.

use vstd::prelude::*;

verus! {

/// What removing the first element of `s` leaves, and the element removed;
/// an empty sequence stays as it is and gives nothing.
pub open spec fn popped_left<T>(s: Seq<T>) -> (Seq<T>, Option<T>) {
    if s.len() == 0 {
        (s, None)
    } else {
        (s.subrange(1, s.len() as int), Some(s[0]))
    }
}

/// What removing the last element of `s` leaves, and the element removed; an
/// empty sequence stays as it is and gives nothing.
pub open spec fn popped_right<T>(s: Seq<T>) -> (Seq<T>, Option<T>) {
    if s.len() == 0 {
        (s, None)
    } else {
        (s.subrange(0, s.len() - 1), Some(s[s.len() - 1]))
    }
}

/// What appending the elements of `items` to `s`, one after the other, leaves.
pub open spec fn pushed_all<T>(s: Seq<T>, items: Seq<T>) -> Seq<T>
    decreases items.len(),
{
    if items.len() == 0 {
        s
    } else {
        pushed_all(s, items.drop_last()).push(items.last())
    }
}

/// What `n` removals from the left of `s` leave, and what they give, in the
/// order in which it comes out.
pub open spec fn drained_left<T>(s: Seq<T>, n: nat) -> (Seq<T>, Seq<Option<T>>)
    decreases n,
{
    if n == 0 {
        (s, Seq::empty())
    } else {
        let (rest, item) = popped_left(s);
        let (remains, given) = drained_left(rest, (n - 1) as nat);
        (remains, seq![item] + given)
    }
}

/// What `n` removals from the right of `s` leave, and what they give, in the
/// order in which it comes out.
pub open spec fn drained_right<T>(s: Seq<T>, n: nat) -> (Seq<T>, Seq<Option<T>>)
    decreases n,
{
    if n == 0 {
        (s, Seq::empty())
    } else {
        let (rest, item) = popped_right(s);
        let (remains, given) = drained_right(rest, (n - 1) as nat);
        (remains, seq![item] + given)
    }
}

/// Appending elements one after the other appends them all, in their order.
pub proof fn lemma_pushed_all<T>(s: Seq<T>, items: Seq<T>)
    ensures
        pushed_all(s, items) == s + items,
    decreases items.len(),
{
    if items.len() == 0 {
        assert(s + items == s);
    } else {
        lemma_pushed_all(s, items.drop_last());
        assert((s + items.drop_last()).push(items.last()) == s + items);
    }
}

/// Removing every element from the left gives the elements first to last,
/// and leaves nothing.
pub proof fn lemma_drained_left<T>(s: Seq<T>)
    ensures
        drained_left(s, s.len()).0 == Seq::<T>::empty(),
        drained_left(s, s.len()).1.len() == s.len(),
        forall|k: int| 0 <= k < s.len() ==> drained_left(s, s.len()).1[k] == Some(s[k]),
    decreases s.len(),
{
    if s.len() == 0 {
        assert(s == Seq::<T>::empty());
    } else {
        let rest = s.subrange(1, s.len() as int);
        lemma_drained_left(rest);
        let given = drained_left(rest, rest.len()).1;
        let all = seq![Some(s[0])] + given;
        assert(drained_left(s, s.len()).1 == all);
        assert forall|k: int| 0 <= k < s.len() implies all[k] == Some(s[k]) by {
            if k > 0 {
                assert(all[k] == given[k - 1]);
                assert(rest[k - 1] == s[k]);
            }
        }
    }
}

/// Removing every element from the right gives the elements last to first,
/// and leaves nothing.
pub proof fn lemma_drained_right<T>(s: Seq<T>)
    ensures
        drained_right(s, s.len()).0 == Seq::<T>::empty(),
        drained_right(s, s.len()).1.len() == s.len(),
        forall|k: int|
            0 <= k < s.len() ==> drained_right(s, s.len()).1[k] == Some(s[s.len() - 1 - k]),
    decreases s.len(),
{
    if s.len() == 0 {
        assert(s == Seq::<T>::empty());
    } else {
        let rest = s.subrange(0, s.len() - 1);
        lemma_drained_right(rest);
        let given = drained_right(rest, rest.len()).1;
        let all = seq![Some(s[s.len() - 1])] + given;
        assert(drained_right(s, s.len()).1 == all);
        assert forall|k: int| 0 <= k < s.len() implies all[k] == Some(s[s.len() - 1 - k]) by {
            if k > 0 {
                assert(all[k] == given[k - 1]);
                assert(rest[rest.len() - 1 - (k - 1)] == s[s.len() - 1 - k]);
            }
        }
    }
}

/// Appending `n` elements to an empty array and then removing `n` elements
/// from one end gives the elements back and leaves the array empty: from the
/// right they come out last to first, from the left first to last.
///
/// A removal leaves the buffer as it is, so the capacity that the appends
/// ended with is still the capacity after the last removal.
pub proof fn lemma_push_then_pop<T>(items: Seq<T>)
    ensures
        ({
            let n = items.len();
            let pushed = pushed_all(Seq::<T>::empty(), items);
            let (after_right, from_right) = drained_right(pushed, n);
            let (after_left, from_left) = drained_left(pushed, n);
            &&& pushed.len() == n
            &&& after_right.len() == 0
            &&& from_right.len() == n
            &&& forall|k: int| 0 <= k < n ==> from_right[k] == Some(items[n - 1 - k])
            &&& after_left.len() == 0
            &&& from_left.len() == n
            &&& forall|k: int| 0 <= k < n ==> from_left[k] == Some(items[k])
        }),
{
    lemma_pushed_all(Seq::<T>::empty(), items);
    assert(Seq::<T>::empty() + items == items);
    lemma_drained_left(items);
    lemma_drained_right(items);
}

/// `f` can be called on every element of `s`, each with its index.
pub open spec fn accepts<T, R, F: Fn(&T, usize) -> R>(f: F, s: Seq<T>) -> bool {
    forall|i: int| 0 <= i < s.len() ==> call_requires(f, (&#[trigger] s[i], i as usize))
}

/// `out` is an answer of `f` to the element at `i` of `s`.
pub open spec fn answers<T, R, F: Fn(&T, usize) -> R>(f: F, s: Seq<T>, i: int, out: R) -> bool {
    call_ensures(f, (&s[i], i as usize), out)
}

/// `f` answers `b` to every element of `s` before the one at `end`.
pub open spec fn answers_all<T, F: Fn(&T, usize) -> bool>(f: F, s: Seq<T>, end: int, b: bool)
    -> bool {
    forall|i: int| 0 <= i < end ==> #[trigger] answers(f, s, i, b)
}

/// `f` can be called on every element that a scan of `s` from the left
/// comes to, if the scan goes on for as long as `f` answers `b`: on the first
/// element, and on each element before which `f` has answered `b` throughout.
pub open spec fn accepts_scan<T, F: Fn(&T, usize) -> bool>(f: F, s: Seq<T>, b: bool) -> bool {
    forall|i: int|
        0 <= i < s.len() && #[trigger] answers_all(f, s, i, b) ==> call_requires(
            f,
            (&s[i], i as usize),
        )
}

/// A scan of `s` from the left stops at `i`: there `f` answers `b` for the
/// first time, having answered `!b` to every element before.
pub open spec fn first_at<T, F: Fn(&T, usize) -> bool>(f: F, s: Seq<T>, i: int, b: bool) -> bool {
    &&& 0 <= i < s.len()
    &&& answers(f, s, i, b)
    &&& answers_all(f, s, i, !b)
}

/// `b` is an answer of `==` to whether the element at `i` of `s` equals
/// `item`.
pub open spec fn equals_at<T: PartialEq>(s: Seq<T>, i: int, item: &T, b: bool) -> bool {
    call_ensures(T::eq, (&s[i], item), b)
}

/// A search of `s` for `item` from the left stops at `i`: there `==` answers
/// `true` for the first time, having answered `false` for every element
/// before.
pub open spec fn found_at<T: PartialEq>(s: Seq<T>, i: int, item: &T) -> bool {
    &&& 0 <= i < s.len()
    &&& equals_at(s, i, item, true)
    &&& forall|j: int| 0 <= j < i ==> #[trigger] equals_at(s, j, item, false)
}

/// At step `i` of the fold that `chain` records, `f` is given the value
/// reached so far, the element at `i` of `s` and `i`, and answers the value
/// that comes next.
pub open spec fn fold_step<T, R, F: Fn(R, &T, usize) -> R>(
    f: F,
    s: Seq<T>,
    chain: Seq<R>,
    i: int,
) -> bool {
    call_ensures(f, (chain[i], &s[i], i as usize), chain[i + 1])
}

/// `chain` records the first `n` steps of a fold of `s` with `f`, from `init`
/// and from the left: the value it starts from, then the value after each
/// element.
pub open spec fn fold_reaches<T, R, F: Fn(R, &T, usize) -> R>(
    f: F,
    s: Seq<T>,
    init: R,
    chain: Seq<R>,
    n: int,
) -> bool {
    &&& 0 <= n <= s.len()
    &&& chain.len() == n + 1
    &&& chain[0] == init
    &&& forall|i: int| 0 <= i < n ==> #[trigger] fold_step(f, s, chain, i)
}

/// `f` can be called at every step that a fold of `s` from `init` comes to:
/// on each element, with any value that the steps before can have left.
pub open spec fn accepts_fold<T, R, F: Fn(R, &T, usize) -> R>(f: F, s: Seq<T>, init: R) -> bool {
    forall|chain: Seq<R>, i: int|
        #[trigger] fold_reaches(f, s, init, chain, i) && i < s.len() ==> call_requires(
            f,
            (chain[i], &s[i], i as usize),
        )
}

/// `out` is what folding `s` with `f` gives, from `init` and from the left.
pub open spec fn folds_to<T, R, F: Fn(R, &T, usize) -> R>(
    f: F,
    s: Seq<T>,
    init: R,
    out: R,
) -> bool {
    exists|chain: Seq<R>| #[trigger]
        fold_reaches(f, s, init, chain, s.len() as int) && chain[s.len() as int] == out
}

/// At step `i` of the reduction that `chain` records, `f` is given the value
/// reached so far, the element at `i` of `s` and `i`, and answers the value
/// that comes next.
pub open spec fn reduce_step<T, F: Fn(T, T, usize) -> T>(f: F, s: Seq<T>, chain: Seq<T>, i: int)
    -> bool {
    call_ensures(f, (chain[i - 1], s[i], i as usize), chain[i])
}

/// `chain` records the reduction of the first `n` elements of `s` with `f`,
/// from the left: the first element, then the value after each further
/// element.
pub open spec fn reduce_reaches<T, F: Fn(T, T, usize) -> T>(
    f: F,
    s: Seq<T>,
    chain: Seq<T>,
    n: int,
) -> bool {
    &&& 1 <= n <= s.len()
    &&& chain.len() == n
    &&& chain[0] == s[0]
    &&& forall|i: int| 1 <= i < n ==> #[trigger] reduce_step(f, s, chain, i)
}

/// `f` can be called at every step that a reduction of `s` comes to: on each
/// element but the first, with any value that the steps before can have
/// left.
pub open spec fn accepts_reduce<T, F: Fn(T, T, usize) -> T>(f: F, s: Seq<T>) -> bool {
    forall|chain: Seq<T>, i: int|
        #[trigger] reduce_reaches(f, s, chain, i) && i < s.len() ==> call_requires(
            f,
            (chain[i - 1], s[i], i as usize),
        )
}

/// `out` is what reducing `s` with `f` gives: the first element, joined by
/// `f` with each further element in turn.
pub open spec fn reduces_to<T, F: Fn(T, T, usize) -> T>(f: F, s: Seq<T>, out: T) -> bool {
    exists|chain: Seq<T>| #[trigger]
        reduce_reaches(f, s, chain, s.len() as int) && chain[s.len() - 1] == out
}

/// The elements of `s` whose place in `keep` holds `true`, in their order.
pub open spec fn kept<T>(s: Seq<T>, keep: Seq<bool>) -> Seq<T>
    decreases s.len(),
{
    if s.len() == 0 || keep.len() == 0 {
        Seq::empty()
    } else if keep.last() {
        kept(s.drop_last(), keep.drop_last()).push(s.last())
    } else {
        kept(s.drop_last(), keep.drop_last())
    }
}

/// `keep` holds, for each element of `s`, an answer of `f` to it.
pub open spec fn sifts<T, F: Fn(&T, usize) -> bool>(f: F, s: Seq<T>, keep: Seq<bool>) -> bool {
    &&& keep.len() == s.len()
    &&& forall|i: int| 0 <= i < s.len() ==> #[trigger] answers(f, s, i, keep[i])
}

} // verus!
