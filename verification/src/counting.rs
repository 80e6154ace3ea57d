//! Counting the entries of a sequence of flags that are set.
use vstd::prelude::*;

verus! {

/// The number of `true`s in `s`.
pub open spec fn count_true(s: Seq<bool>) -> nat
    decreases s.len(),
{
    if s.len() == 0 {
        0
    } else {
        count_true(s.drop_last()) + if s.last() {
            1nat
        } else {
            0nat
        }
    }
}

/// Counting the `true`s of `s`: at most one per entry, none exactly when
/// every entry is false, all exactly when every entry is true.
pub proof fn lemma_count_true_bounds(s: Seq<bool>)
    ensures
        count_true(s) <= s.len(),
        (count_true(s) == 0) <==> (forall|i: int| 0 <= i < s.len() ==> !s[i]),
        (count_true(s) == s.len()) <==> (forall|i: int| 0 <= i < s.len() ==> s[i]),
    decreases s.len(),
{
    if s.len() > 0 {
        let n = s.len() - 1;
        let p = s.drop_last();
        lemma_count_true_bounds(p);
        if count_true(s) == 0 {
            assert forall|i: int| 0 <= i < s.len() implies !s[i] by {
                if i < n {
                    assert(p[i] == s[i]);
                }
            }
        }
        if forall|i: int| 0 <= i < s.len() ==> !s[i] {
            assert forall|i: int| 0 <= i < p.len() implies !p[i] by {
                assert(p[i] == s[i]);
            }
        }
        if count_true(s) == s.len() {
            assert forall|i: int| 0 <= i < s.len() implies s[i] by {
                if i < n {
                    assert(p[i] == s[i]);
                }
            }
        }
        if forall|i: int| 0 <= i < s.len() ==> s[i] {
            assert forall|i: int| 0 <= i < p.len() implies p[i] by {
                assert(p[i] == s[i]);
            }
        }
    }
}

/// Whether `i` is the only set entry of `s`.
pub open spec fn only_set(s: Seq<bool>, i: int) -> bool {
    &&& 0 <= i < s.len()
    &&& s[i]
    &&& forall|j: int| 0 <= j < s.len() && s[j] ==> j == i
}

/// Exactly one `true` in `s` when, and only when, a single entry is set.
pub proof fn lemma_count_true_one(s: Seq<bool>)
    ensures
        (count_true(s) == 1) <==> (exists|i: int| only_set(s, i)),
    decreases s.len(),
{
    if s.len() > 0 {
        let n = s.len() - 1;
        let p = s.drop_last();
        lemma_count_true_one(p);
        lemma_count_true_bounds(p);
        if count_true(s) == 1 {
            if s[n] {
                assert forall|j: int| 0 <= j < s.len() && s[j] implies j == n by {
                    if j < n {
                        assert(p[j] == s[j]);
                    }
                }
                assert(only_set(s, n));
            } else {
                let i = choose|i: int| only_set(p, i);
                assert(p[i] == s[i]);
                assert forall|j: int| 0 <= j < s.len() && s[j] implies j == i by {
                    if j < n {
                        assert(p[j] == s[j]);
                    }
                }
                assert(only_set(s, i));
            }
        }
        if exists|i: int| only_set(s, i) {
            let i = choose|i: int| only_set(s, i);
            if s[n] {
                assert(i == n);
                assert forall|j: int| 0 <= j < p.len() implies !p[j] by {
                    assert(p[j] == s[j]);
                    if p[j] {
                        assert(j == i);
                    }
                }
            } else {
                assert(p[i] == s[i]);
                assert forall|j: int| 0 <= j < p.len() && p[j] implies j == i by {
                    assert(p[j] == s[j]);
                }
                assert(only_set(p, i));
            }
        }
    }
}

} // verus!
