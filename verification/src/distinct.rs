//! Sequences without repeats: the first occurrence of each value, in order.

use vstd::prelude::*;

verus! {

/// `seen` with `x` behind it, unless `x` is in it already.
pub open spec fn with_new<T>(seen: Seq<T>, x: T) -> Seq<T> {
    if seen.contains(x) {
        seen
    } else {
        seen.push(x)
    }
}

/// `seen` with each of `xs` behind it, in order, but for those that are in
/// it already by then.
pub open spec fn with_all_new<T>(seen: Seq<T>, xs: Seq<T>) -> Seq<T>
    decreases xs.len(),
{
    if xs.len() == 0 {
        seen
    } else {
        with_new(with_all_new(seen, xs.drop_last()), xs.last())
    }
}

/// The values of `xs`, each once, in the order in which they first occur.
pub open spec fn first_occurrences<T>(xs: Seq<T>) -> Seq<T> {
    with_all_new(Seq::empty(), xs)
}

/// Where `x` first occurs in `xs`, if it does.
pub open spec fn first_index<T>(xs: Seq<T>, x: T) -> int
    decreases xs.len(),
{
    if xs.len() == 0 {
        0
    } else if xs.drop_last().contains(x) {
        first_index(xs.drop_last(), x)
    } else {
        xs.len() - 1
    }
}

/// The first index of a value that occurs is an index of it, and none
/// before it is.
pub proof fn lemma_first_index<T>(xs: Seq<T>, x: T)
    requires
        xs.contains(x),
    ensures
        0 <= first_index(xs, x) < xs.len(),
        xs[first_index(xs, x)] == x,
        forall|t: int| 0 <= t < first_index(xs, x) ==> xs[t] != x,
    decreases xs.len(),
{
    let front = xs.drop_last();
    if front.contains(x) {
        lemma_first_index(front, x);
        assert forall|t: int| 0 <= t < first_index(xs, x) implies xs[t] != x by {
            assert(xs[t] == front[t]);
        }
        assert(xs[first_index(xs, x)] == front[first_index(front, x)]);
    } else {
        let at = xs.index_of(x);
        if at < xs.len() - 1 {
            assert(front[at] == x);
        }
        assert forall|t: int| 0 <= t < xs.len() - 1 implies xs[t] != x by {
            assert(front[t] == xs[t]);
        }
    }
}

/// A value is in a sequence exactly if it is in its front or is its last.
pub proof fn lemma_contains_last<T>(xs: Seq<T>, x: T)
    requires
        xs.len() > 0,
    ensures
        xs.contains(x) <==> xs.drop_last().contains(x) || xs.last() == x,
{
    let front = xs.drop_last();
    if xs.contains(x) {
        let at = xs.index_of(x);
        if at < xs.len() - 1 {
            assert(front[at] == x);
        }
    }
    if front.contains(x) {
        let at = front.index_of(x);
        assert(xs[at] == x);
    }
    assert(xs[xs.len() - 1] == xs.last());
}

/// Putting a value behind a sequence without repeats, unless it is there,
/// leaves no repeat, and holds what was there and the value.
pub proof fn lemma_with_new<T>(seen: Seq<T>, x: T)
    requires
        seen.no_duplicates(),
    ensures
        with_new(seen, x).no_duplicates(),
        forall|a: T| #[trigger] with_new(seen, x).contains(a) <==> seen.contains(a) || a == x,
{
    let after = with_new(seen, x);
    if !seen.contains(x) {
        assert(after.drop_last() =~= seen);
        assert forall|a: T| #[trigger] after.contains(a) <==> seen.contains(a) || a == x by {
            lemma_contains_last(after, a);
        }
    }
}

/// Putting the values of `xs` behind a sequence without repeats leaves no
/// repeat, keeps what was there in front, and holds what was there and the
/// values of `xs`.
pub proof fn lemma_with_all_new<T>(seen: Seq<T>, xs: Seq<T>)
    requires
        seen.no_duplicates(),
    ensures
        with_all_new(seen, xs).no_duplicates(),
        with_all_new(seen, xs).len() >= seen.len(),
        with_all_new(seen, xs).subrange(0, seen.len() as int) == seen,
        forall|a: T| #[trigger]
            with_all_new(seen, xs).contains(a) <==> seen.contains(a) || xs.contains(a),
    decreases xs.len(),
{
    let after = with_all_new(seen, xs);
    if xs.len() > 0 {
        let front = xs.drop_last();
        let mid = with_all_new(seen, front);
        lemma_with_all_new(seen, front);
        lemma_with_new(mid, xs.last());
        assert(after.subrange(0, seen.len() as int) =~= mid.subrange(0, seen.len() as int));
        assert forall|a: T| #[trigger] after.contains(a) <==> seen.contains(a) || xs.contains(
            a,
        ) by {
            lemma_contains_last(xs, a);
        }
    } else {
        assert(after.subrange(0, seen.len() as int) =~= seen);
    }
}

/// Putting the values of one sequence and then those of another behind
/// `seen` is putting those of the two in a row behind it.
pub proof fn lemma_with_all_new_in_turn<T>(seen: Seq<T>, first: Seq<T>, second: Seq<T>)
    ensures
        with_all_new(with_all_new(seen, first), second) == with_all_new(seen, first + second),
    decreases second.len(),
{
    if second.len() > 0 {
        lemma_with_all_new_in_turn(seen, first, second.drop_last());
        assert((first + second).drop_last() =~= first + second.drop_last());
        assert((first + second).last() == second.last());
    } else {
        assert(first + second =~= first);
    }
}

/// The first occurrences of `xs` hold every value of `xs` once, in the
/// order in which the values first occur in `xs`; a sequence without
/// repeats is its own first occurrences.
pub proof fn lemma_first_occurrences<T>(xs: Seq<T>)
    ensures
        first_occurrences(xs).no_duplicates(),
        forall|a: T| #[trigger] first_occurrences(xs).contains(a) <==> xs.contains(a),
        forall|i: int, j: int|
            0 <= i < j < first_occurrences(xs).len() ==> first_index(
                xs,
                #[trigger] first_occurrences(xs)[i],
            ) < first_index(xs, #[trigger] first_occurrences(xs)[j]),
        xs.no_duplicates() ==> first_occurrences(xs) == xs,
    decreases xs.len(),
{
    let once = first_occurrences(xs);
    lemma_with_all_new(Seq::<T>::empty(), xs);
    if xs.len() > 0 {
        let front = xs.drop_last();
        let before = first_occurrences(front);
        lemma_first_occurrences(front);
        assert forall|i: int, j: int| 0 <= i < j < once.len() implies first_index(
            xs,
            #[trigger] once[i],
        ) < first_index(xs, #[trigger] once[j]) by {
            assert(before[i] == once[i]);
            assert(before.contains(once[i]));
            assert(front.contains(once[i]));
            lemma_first_index(front, once[i]);
            if j < before.len() {
                assert(before[j] == once[j]);
                assert(before.contains(once[j]));
            } else {
                assert(once[j] == xs.last());
                assert(!before.contains(xs.last()));
            }
        }
        if xs.no_duplicates() {
            assert(front.no_duplicates()) by {
                assert forall|i: int, j: int|
                    0 <= i < front.len() && 0 <= j < front.len() && i != j implies front[i]
                    != front[j] by {
                    assert(front[i] == xs[i] && front[j] == xs[j]);
                }
            }
            if front.contains(xs.last()) {
                let at = front.index_of(xs.last());
                assert(xs[at] == xs[xs.len() - 1]);
            }
            assert(once =~= xs);
        }
    }
}

} // verus!
