//! Searching, counting and filtering sequences by a predicate: the
//! vocabulary in which the relations of the store are specified.

use vstd::prelude::*;

verus! {

/// The index of the first element at or after `start` that satisfies `hit`,
/// or the length of the sequence if there is none.
pub open spec fn first_from<T>(s: Seq<T>, hit: spec_fn(T) -> bool, start: int) -> int
    decreases s.len() - start,
{
    if start < 0 || start >= s.len() {
        s.len() as int
    } else if hit(s[start]) {
        start
    } else {
        first_from(s, hit, start + 1)
    }
}

/// The index of the first element that satisfies `hit`, or the length.
pub open spec fn first_index<T>(s: Seq<T>, hit: spec_fn(T) -> bool) -> int {
    first_from(s, hit, 0)
}

/// Some element of the sequence satisfies `hit`.
pub open spec fn any_hit<T>(s: Seq<T>, hit: spec_fn(T) -> bool) -> bool {
    first_index(s, hit) < s.len()
}

/// The number of elements that satisfy `hit`.
pub open spec fn count_where<T>(s: Seq<T>, hit: spec_fn(T) -> bool) -> nat
    decreases s.len(),
{
    if s.len() == 0 {
        0
    } else {
        count_where(s.drop_last(), hit) + if hit(s.last()) {
            1nat
        } else {
            0nat
        }
    }
}

/// The sequence without the elements that satisfy `hit`, in the same order.
pub open spec fn without<T>(s: Seq<T>, hit: spec_fn(T) -> bool) -> Seq<T>
    decreases s.len(),
{
    if s.len() == 0 {
        s
    } else if hit(s.last()) {
        without(s.drop_last(), hit)
    } else {
        without(s.drop_last(), hit).push(s.last())
    }
}

/// `first_from` lands on a hit, skips only misses, and reaches the end only
/// if nothing from `start` on is a hit.
pub proof fn lemma_first_from<T>(s: Seq<T>, hit: spec_fn(T) -> bool, start: int)
    requires
        0 <= start <= s.len(),
    ensures
        start <= first_from(s, hit, start) <= s.len(),
        first_from(s, hit, start) < s.len() ==> hit(s[first_from(s, hit, start)]),
        forall|j: int| start <= j < first_from(s, hit, start) ==> !hit(#[trigger] s[j]),
    decreases s.len() - start,
{
    if start < s.len() && !hit(s[start]) {
        lemma_first_from(s, hit, start + 1);
    }
}

/// What `first_index` returns: the least index of a hit, if there is one.
pub proof fn lemma_first_index<T>(s: Seq<T>, hit: spec_fn(T) -> bool)
    ensures
        0 <= first_index(s, hit) <= s.len(),
        any_hit(s, hit) ==> hit(s[first_index(s, hit)]),
        forall|j: int| 0 <= j < first_index(s, hit) ==> !hit(#[trigger] s[j]),
        any_hit(s, hit) <==> exists|j: int| 0 <= j < s.len() && hit(#[trigger] s[j]),
{
    lemma_first_from(s, hit, 0);
}

/// An index whose element is a hit and before which there is none is the
/// first index.
pub proof fn lemma_first_index_is<T>(s: Seq<T>, hit: spec_fn(T) -> bool, i: int)
    requires
        0 <= i < s.len(),
        hit(s[i]),
        forall|j: int| 0 <= j < i ==> !hit(#[trigger] s[j]),
    ensures
        first_index(s, hit) == i,
{
    lemma_first_from(s, hit, 0);
}

/// Counting after `push`.
pub proof fn lemma_count_push<T>(s: Seq<T>, hit: spec_fn(T) -> bool, x: T)
    ensures
        count_where(s.push(x), hit) == count_where(s, hit) + if hit(x) {
            1nat
        } else {
            0nat
        },
{
    assert(s.push(x).drop_last() =~= s);
}

/// Counting after one element was replaced.
pub proof fn lemma_count_update<T>(s: Seq<T>, hit: spec_fn(T) -> bool, i: int, x: T)
    requires
        0 <= i < s.len(),
    ensures
        count_where(s.update(i, x), hit) + (if hit(s[i]) {
            1nat
        } else {
            0nat
        }) == count_where(s, hit) + if hit(x) {
            1nat
        } else {
            0nat
        },
    decreases s.len(),
{
    if i == s.len() - 1 {
        assert(s.update(i, x).drop_last() =~= s.drop_last());
    } else {
        assert(s.update(i, x).drop_last() =~= s.drop_last().update(i, x));
        lemma_count_update(s.drop_last(), hit, i, x);
    }
}

/// Counting after one element was taken out.
pub proof fn lemma_count_remove<T>(s: Seq<T>, hit: spec_fn(T) -> bool, i: int)
    requires
        0 <= i < s.len(),
    ensures
        count_where(s.remove(i), hit) + (if hit(s[i]) {
            1nat
        } else {
            0nat
        }) == count_where(s, hit),
    decreases s.len(),
{
    if i == s.len() - 1 {
        assert(s.remove(i) =~= s.drop_last());
    } else {
        assert(s.remove(i).drop_last() =~= s.drop_last().remove(i));
        assert(s.remove(i).last() == s.last());
        lemma_count_remove(s.drop_last(), hit, i);
    }
}

/// A sequence that counts none holds no hit.
pub proof fn lemma_count_none<T>(s: Seq<T>, hit: spec_fn(T) -> bool)
    requires
        count_where(s, hit) == 0,
    ensures
        !any_hit(s, hit),
{
    lemma_first_from(s, hit, 0);
    if any_hit(s, hit) {
        lemma_count_positive(s, hit, first_index(s, hit));
    }
}

/// A sequence that holds a hit counts at least one.
pub proof fn lemma_count_positive<T>(s: Seq<T>, hit: spec_fn(T) -> bool, i: int)
    requires
        0 <= i < s.len(),
        hit(s[i]),
    ensures
        count_where(s, hit) >= 1,
    decreases s.len(),
{
    if i < s.len() - 1 {
        lemma_count_positive(s.drop_last(), hit, i);
    }
}

/// A sequence without a hit counts none.
pub proof fn lemma_count_zero<T>(s: Seq<T>, hit: spec_fn(T) -> bool)
    requires
        forall|j: int| 0 <= j < s.len() ==> !hit(#[trigger] s[j]),
    ensures
        count_where(s, hit) == 0,
    decreases s.len(),
{
    if s.len() > 0 {
        lemma_count_zero(s.drop_last(), hit);
    }
}

/// Counting over a prefix that grows by one element.
pub proof fn lemma_count_take<T>(s: Seq<T>, hit: spec_fn(T) -> bool, i: int)
    requires
        0 <= i < s.len(),
    ensures
        count_where(s.take(i + 1), hit) == count_where(s.take(i), hit) + if hit(s[i]) {
            1nat
        } else {
            0nat
        },
        count_where(s.take(i + 1), hit) <= i + 1,
        count_where(s.take(i), hit) <= i,
    decreases i,
{
    assert(s.take(i + 1).drop_last() =~= s.take(i));
    if i > 0 {
        lemma_count_take(s, hit, i - 1);
    }
}

/// Filtering a prefix that grows by one element.
pub proof fn lemma_without_take<T>(s: Seq<T>, hit: spec_fn(T) -> bool, i: int)
    requires
        0 <= i < s.len(),
    ensures
        without(s.take(i + 1), hit) == if hit(s[i]) {
            without(s.take(i), hit)
        } else {
            without(s.take(i), hit).push(s[i])
        },
{
    assert(s.take(i + 1).drop_last() =~= s.take(i));
}

/// What is left after filtering: no hit, only elements of the sequence, and
/// of each other predicate at most as many as before, exactly as many where
/// that predicate holds of no removed element.
pub proof fn lemma_without<T>(s: Seq<T>, hit: spec_fn(T) -> bool, other: spec_fn(T) -> bool)
    ensures
        without(s, hit).len() <= s.len(),
        forall|k: int| 0 <= k < without(s, hit).len() ==> !hit(#[trigger] without(s, hit)[k]),
        forall|k: int|
            0 <= k < without(s, hit).len() ==> s.contains(#[trigger] without(s, hit)[k]),
        count_where(without(s, hit), other) <= count_where(s, other),
        (forall|j: int| 0 <= j < s.len() && hit(#[trigger] s[j]) ==> !other(s[j]))
            ==> count_where(without(s, hit), other) == count_where(s, other),
        (forall|j: int| 0 <= j < s.len() ==> !hit(#[trigger] s[j])) ==> without(s, hit) == s,
    decreases s.len(),
{
    if s.len() > 0 {
        let t = s.drop_last();
        lemma_without(t, hit, other);
        let w = without(t, hit);
        assert forall|k: int| 0 <= k < without(s, hit).len() implies s.contains(
            #[trigger] without(s, hit)[k],
        ) by {
            if k < w.len() {
                assert(t.contains(w[k]));
                let j = choose|j: int| 0 <= j < t.len() && t[j] == w[k];
                assert(s[j] == w[k]);
            } else {
                assert(s[s.len() - 1] == s.last());
            }
        }
        if !hit(s.last()) {
            lemma_count_push(w, other, s.last());
        }
        if forall|j: int| 0 <= j < s.len() && hit(#[trigger] s[j]) ==> !other(s[j]) {
            assert forall|j: int| 0 <= j < t.len() && hit(#[trigger] t[j]) implies !other(
                t[j],
            ) by {
                assert(t[j] == s[j]);
            }
            assert(hit(s.last()) ==> !other(s.last())) by {
                assert(s[s.len() - 1] == s.last());
            }
        }
        if forall|j: int| 0 <= j < s.len() ==> !hit(#[trigger] s[j]) {
            assert forall|j: int| 0 <= j < t.len() implies !hit(#[trigger] t[j]) by {
                assert(t[j] == s[j]);
            }
            assert(!hit(s[s.len() - 1]));
            assert(w.push(s.last()) =~= s);
        }
    }
}

/// Filtering keeps the elements apart: where no two elements of a sequence
/// share a key, no two of those that are left do.
pub proof fn lemma_without_distinct<T>(s: Seq<T>, hit: spec_fn(T) -> bool, key: spec_fn(T) -> int)
    requires
        forall|a: int, b: int|
            #![trigger s[a], s[b]]
            0 <= a < b < s.len() ==> key(s[a]) != key(s[b]),
    ensures
        forall|a: int, b: int|
            #![trigger without(s, hit)[a], without(s, hit)[b]]
            0 <= a < b < without(s, hit).len() ==> key(without(s, hit)[a]) != key(
                without(s, hit)[b],
            ),
    decreases s.len(),
{
    if s.len() > 0 {
        let t = s.drop_last();
        assert forall|a: int, b: int|
            #![trigger t[a], t[b]]
            0 <= a < b < t.len() implies key(t[a]) != key(t[b]) by {
            assert(t[a] == s[a] && t[b] == s[b]);
        }
        lemma_without_distinct(t, hit, key);
        lemma_without(t, hit, hit);
        let w = without(t, hit);
        if !hit(s.last()) {
            assert forall|a: int, b: int|
                #![trigger without(s, hit)[a], without(s, hit)[b]]
                0 <= a < b < without(s, hit).len() implies key(without(s, hit)[a]) != key(
                without(s, hit)[b],
            ) by {
                if b == w.len() {
                    assert(t.contains(w[a]));
                    let j = choose|j: int| 0 <= j < t.len() && t[j] == w[a];
                    assert(s[j] == w[a] && s[s.len() - 1] == s.last());
                } else {
                    assert(without(s, hit)[a] == w[a] && without(s, hit)[b] == w[b]);
                }
            }
        }
    }
}

} // verus!
