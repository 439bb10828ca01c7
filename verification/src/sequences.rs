//! Facts about the sequences that model the two views.

use vstd::prelude::*;
use vstd::seq_lib::*;

verus! {

/// `s` after the entry at `i` was replaced by the last one and the last one
/// dropped: what `Vec::swap_remove` leaves.
pub open spec fn swap_removed<T>(s: Seq<T>, i: int) -> Seq<T> {
    s.update(i, s.last()).drop_last()
}

/// `s` with the entries at `i` and `j` exchanged.
pub open spec fn swapped<T>(s: Seq<T>, i: int, j: int) -> Seq<T> {
    s.update(i, s[j]).update(j, s[i])
}

/// `a` holds the entries of `b`, each as often as `b` does, in any order.
pub open spec fn is_permutation<T>(a: Seq<T>, b: Seq<T>) -> bool {
    a.to_multiset() == b.to_multiset()
}

/// In `order` no entry that is among `excludes` stands before one that is
/// not.
pub open spec fn excluded_last<T>(order: Seq<T>, excludes: Seq<T>) -> bool {
    forall|i: int, j: int|
        0 <= i < j < order.len() && #[trigger] excludes.contains(order[i])
            ==> #[trigger] excludes.contains(order[j])
}

/// `s` after its first entry equal to `x`, if there is one, was swap-removed.
pub open spec fn without<T>(s: Seq<T>, x: T) -> Seq<T> {
    match s.index_of_first(x) {
        Some(i) => swap_removed(s, i),
        None => s,
    }
}

/// The first `n` entries of `s`, or all of `s` where it has fewer.
pub open spec fn first_n<T>(s: Seq<T>, n: nat) -> Seq<T> {
    if n <= s.len() {
        s.take(n as int)
    } else {
        s
    }
}

/// Swap-removing from a sequence without duplicates takes out the entry at
/// `i` and nothing else.
pub proof fn lemma_swap_removed<T>(s: Seq<T>, i: int)
    requires
        0 <= i < s.len(),
        s.no_duplicates(),
    ensures
        swap_removed(s, i).len() == s.len() - 1,
        swap_removed(s, i).no_duplicates(),
        !swap_removed(s, i).contains(s[i]),
        forall|x: T|
            #![trigger swap_removed(s, i).contains(x)]
            #![trigger s.contains(x)]
            swap_removed(s, i).contains(x) <==> s.contains(x) && x != s[i],
{
    let r = swap_removed(s, i);
    assert forall|x: T| r.contains(x) <==> s.contains(x) && x != s[i] by {
        if r.contains(x) {
            let k = choose|k: int| 0 <= k < r.len() && r[k] == x;
            if k == i {
                assert(s[s.len() - 1] == x);
            } else {
                assert(s[k] == x);
            }
        }
        if s.contains(x) && x != s[i] {
            let k = choose|k: int| 0 <= k < s.len() && s[k] == x;
            if k == s.len() - 1 {
                assert(r[i] == x);
            } else {
                assert(r[k] == x);
            }
        }
    }
}

/// Appending an entry that a sequence without duplicates does not hold
/// leaves it without duplicates.
pub proof fn lemma_push_fresh<T>(s: Seq<T>, x: T)
    requires
        s.no_duplicates(),
        !s.contains(x),
    ensures
        s.push(x).no_duplicates(),
        forall|y: T|
            #![trigger s.push(x).contains(y)]
            #![trigger s.contains(y)]
            s.push(x).contains(y) <==> s.contains(y) || y == x,
{
    let r = s.push(x);
    assert forall|y: T| r.contains(y) <==> s.contains(y) || y == x by {
        if r.contains(y) {
            let k = choose|k: int| 0 <= k < r.len() && r[k] == y;
            if k < s.len() {
                assert(s[k] == y);
            }
        }
        if s.contains(y) {
            let k = choose|k: int| 0 <= k < s.len() && s[k] == y;
            assert(r[k] == y);
        }
        if y == x {
            assert(r[s.len() as int] == y);
        }
    }
    assert forall|a: int, b: int| 0 <= a < r.len() && 0 <= b < r.len() && a != b implies r[a]
        != r[b] by {
        if a == s.len() {
            assert(s[b] == r[b]);
        } else if b == s.len() {
            assert(s[a] == r[a]);
        }
    }
}

/// A permutation has the length and the entries of the sequence it
/// permutes, and duplicates only where that one has them.
pub proof fn lemma_permutation<T>(a: Seq<T>, b: Seq<T>)
    requires
        is_permutation(a, b),
    ensures
        a.len() == b.len(),
        forall|x: T|
            #![trigger a.contains(x)]
            #![trigger b.contains(x)]
            a.contains(x) <==> b.contains(x),
        a.no_duplicates() <==> b.no_duplicates(),
{
    a.to_multiset_ensures();
    b.to_multiset_ensures();
    assert forall|x: T| a.contains(x) <==> b.contains(x) by {
        assert(a.contains(x) <==> a.to_multiset().count(x) > 0);
        assert(b.contains(x) <==> b.to_multiset().count(x) > 0);
    }
    if a.no_duplicates() {
        a.lemma_multiset_has_no_duplicates();
        b.lemma_multiset_has_no_duplicates_conv();
    }
    if b.no_duplicates() {
        b.lemma_multiset_has_no_duplicates();
        a.lemma_multiset_has_no_duplicates_conv();
    }
}

/// A sequence without duplicates whose entries all equal `x` has at most
/// one entry, and so has each of its permutations, which is then the
/// sequence itself.
pub proof fn lemma_permutation_single<T>(a: Seq<T>, b: Seq<T>, x: T)
    requires
        is_permutation(a, b),
        b.no_duplicates(),
        forall|j: int| 0 <= j < b.len() ==> b[j] == x,
    ensures
        a == b,
{
    lemma_permutation(a, b);
    if b.len() >= 2 {
        assert(b[0] == x && b[1] == x);
    }
    if b.len() == 1 {
        assert(a.contains(a[0]));
        assert(b.contains(a[0]));
    }
    assert(a =~= b);
}

/// Exchanging two entries permutes a sequence.
pub proof fn lemma_swapped<T>(s: Seq<T>, i: int, j: int)
    requires
        0 <= i < s.len(),
        0 <= j < s.len(),
    ensures
        is_permutation(swapped(s, i, j), s),
{
    broadcast use vstd::multiset::group_multiset_axioms;

    let t = s.update(i, s[j]);
    to_multiset_update(s, i, s[j]);
    to_multiset_update(t, j, s[i]);
    s.to_multiset_ensures();
    assert(s.contains(s[i]));
    assert(s.contains(s[j]));
    assert(swapped(s, i, j).to_multiset() =~= s.to_multiset());
}

/// In a sequence without duplicates an entry is found where it stands, and
/// `without` takes out that entry alone.
pub proof fn lemma_without<T>(s: Seq<T>, x: T)
    requires
        s.no_duplicates(),
    ensures
        without(s, x).no_duplicates(),
        !without(s, x).contains(x),
        forall|y: T|
            #![trigger without(s, x).contains(y)]
            #![trigger s.contains(y)]
            without(s, x).contains(y) <==> s.contains(y) && y != x,
        s.contains(x) ==> without(s, x).len() == s.len() - 1,
        !s.contains(x) ==> without(s, x) == s,
        forall|i: int| 0 <= i < s.len() && s[i] == x ==> s.index_of_first(x) == Some(i),
{
    s.index_of_first_ensures(x);
    match s.index_of_first(x) {
        Some(i) => {
            lemma_swap_removed(s, i);
        },
        None => {},
    }
}

} // verus!
