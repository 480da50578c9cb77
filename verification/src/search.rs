//! First matches: what a linear search through a sequence finds.

use vstd::prelude::*;

verus! {

/// The first position from `i` on whose item meets `p`.
pub open spec fn first_from<T>(s: Seq<T>, p: spec_fn(T) -> bool, i: int) -> Option<int>
    decreases s.len() - i,
{
    if i < 0 || i >= s.len() {
        None
    } else if p(s[i]) {
        Some(i)
    } else {
        first_from(s, p, i + 1)
    }
}

/// The first position whose item meets `p`.
pub open spec fn first<T>(s: Seq<T>, p: spec_fn(T) -> bool) -> Option<int> {
    first_from(s, p, 0)
}

/// The first item that meets `p`.
pub open spec fn found<T>(s: Seq<T>, p: spec_fn(T) -> bool) -> Option<T> {
    match first(s, p) {
        Some(i) => Some(s[i]),
        None => None,
    }
}

/// Whether some item meets `p`.
pub open spec fn any<T>(s: Seq<T>, p: spec_fn(T) -> bool) -> bool {
    first(s, p) is Some
}

proof fn lemma_first_from<T>(s: Seq<T>, p: spec_fn(T) -> bool, i: int)
    requires
        0 <= i,
    ensures
        match first_from(s, p, i) {
            Some(k) => i <= k < s.len() && p(s[k]) && forall|j: int|
                i <= j < k ==> !p(#[trigger] s[j]),
            None => forall|j: int| i <= j < s.len() ==> !p(#[trigger] s[j]),
        },
    decreases s.len() - i,
{
    if i < s.len() && !p(s[i]) {
        lemma_first_from(s, p, i + 1);
    }
}

/// The first match meets `p`, and nothing before it does.
pub proof fn lemma_first<T>(s: Seq<T>, p: spec_fn(T) -> bool)
    ensures
        match first(s, p) {
            Some(k) => 0 <= k < s.len() && p(s[k]) && forall|j: int|
                0 <= j < k ==> !p(#[trigger] s[j]),
            None => forall|j: int| 0 <= j < s.len() ==> !p(#[trigger] s[j]),
        },
{
    lemma_first_from(s, p, 0);
}

// ---- Every match ------------------------------------------------------------

/// Positions as integers.
pub open spec fn positions(s: Seq<usize>) -> Seq<int> {
    s.map_values(|i: usize| i as int)
}

/// The positions below `n` whose items meet `p`, in ascending order.
pub open spec fn matching_upto<T>(s: Seq<T>, p: spec_fn(T) -> bool, n: nat) -> Seq<int>
    decreases n,
{
    if n == 0 {
        Seq::empty()
    } else {
        let before = matching_upto(s, p, (n - 1) as nat);
        if p(s[n - 1]) {
            before.push(n - 1)
        } else {
            before
        }
    }
}

/// The positions of every item that meets `p`, in ascending order.
pub open spec fn matching<T>(s: Seq<T>, p: spec_fn(T) -> bool) -> Seq<int> {
    matching_upto(s, p, s.len())
}

/// The positions below `n` are exactly those whose items meet `p`, each
/// once, in ascending order.
pub proof fn lemma_matching_upto<T>(s: Seq<T>, p: spec_fn(T) -> bool, n: nat)
    requires
        n <= s.len(),
    ensures
        forall|k: int|
            0 <= k < matching_upto(s, p, n).len() ==> 0 <= (#[trigger] matching_upto(s, p, n)[k])
                < n && p(s[matching_upto(s, p, n)[k]]),
        forall|j: int, k: int|
            0 <= j < k < matching_upto(s, p, n).len() ==> (#[trigger] matching_upto(s, p, n)[j])
                < (#[trigger] matching_upto(s, p, n)[k]),
        forall|i: int|
            0 <= i < n && p(#[trigger] s[i]) ==> matching_upto(s, p, n).contains(i),
    decreases n,
{
    if n > 0 {
        lemma_matching_upto(s, p, (n - 1) as nat);
        let before = matching_upto(s, p, (n - 1) as nat);
        let after = matching_upto(s, p, n);
        assert forall|i: int| 0 <= i < n && p(#[trigger] s[i]) implies after.contains(i) by {
            if i == n - 1 {
                assert(after[after.len() - 1] == i);
            } else {
                assert(before.contains(i));
                let k = choose|k: int| 0 <= k < before.len() && before[k] == i;
                assert(after[k] == i);
            }
        }
    }
}

} // verus!
