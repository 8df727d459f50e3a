//! Facts about sequences that several modules share.

use vstd::prelude::*;

verus! {

/// `s` without repetitions: every element is kept where it occurs first.
pub open spec fn distinct<A>(s: Seq<A>) -> Seq<A>
    decreases s.len(),
{
    if s.len() == 0 {
        Seq::empty()
    } else {
        let front = distinct(s.drop_last());
        if front.contains(s.last()) {
            front
        } else {
            front.push(s.last())
        }
    }
}

/// `i` is the first position at which `x` occurs in `s`.
pub open spec fn is_first_index<A>(s: Seq<A>, x: A, i: int) -> bool {
    &&& 0 <= i < s.len()
    &&& s[i] == x
    &&& forall|j: int| 0 <= j < i ==> s[j] != x
}

/// How many entries of `errors` pass before the first failure: the length
/// of its longest front without an error.
pub open spec fn passed(errors: Seq<Option<Seq<char>>>) -> nat
    decreases errors.len(),
{
    if errors.len() == 0 || errors.first() is Some {
        0
    } else {
        1 + passed(errors.drop_first())
    }
}

/// `passed` stops at the first error and nowhere else.
pub proof fn lemma_passed(errors: Seq<Option<Seq<char>>>)
    ensures
        passed(errors) <= errors.len(),
        forall|i: int| 0 <= i < passed(errors) ==> errors[i] is None,
        passed(errors) < errors.len() ==> errors[passed(errors) as int] is Some,
    decreases errors.len(),
{
    if errors.len() > 0 && errors.first() is None {
        let rest = errors.drop_first();
        lemma_passed(rest);
        assert forall|i: int| 0 <= i < passed(errors) implies errors[i] is None by {
            if i > 0 {
                assert(errors[i] == rest[i - 1]);
            }
        }
        if passed(errors) < errors.len() {
            assert(errors[passed(errors) as int] == rest[passed(rest) as int]);
        }
    }
}

/// A filter keeps exactly the elements that pass it.
pub proof fn lemma_filter_contains<A>(s: Seq<A>, keep: spec_fn(A) -> bool, x: A)
    ensures
        s.filter(keep).contains(x) <==> s.contains(x) && keep(x),
{
    if s.filter(keep).contains(x) {
        s.lemma_filter_contains_rev(keep, x);
        let k = choose|k: int| 0 <= k < s.filter(keep).len() && s.filter(keep)[k] == x;
        s.lemma_filter_pred(keep, k);
    }
    if s.contains(x) && keep(x) {
        let i = choose|i: int| 0 <= i < s.len() && s[i] == x;
        s.lemma_filter_contains(keep, i);
    }
}

/// A filter keeps a whole sequence exactly when every element passes it.
pub proof fn lemma_filter_keeps_all<A>(s: Seq<A>, keep: spec_fn(A) -> bool)
    ensures
        s.filter(keep).len() <= s.len(),
        s.filter(keep).len() == s.len() <==> forall|i: int| 0 <= i < s.len() ==> keep(#[trigger] s[i]),
    decreases s.len(),
{
    if s.len() == 0 {
        s.lemma_filter_len(keep);
    } else {
        let init = s.drop_last();
        lemma_filter_keeps_all(init, keep);
        assert(init.push(s.last()) =~= s);
        init.lemma_filter_push(s.last(), keep);
        if forall|i: int| 0 <= i < s.len() ==> keep(#[trigger] s[i]) {
            assert(keep(s[s.len() - 1]));
            assert forall|i: int| 0 <= i < init.len() implies keep(#[trigger] init[i]) by {
                assert(init[i] == s[i]);
            }
        }
        if s.filter(keep).len() == s.len() {
            assert forall|i: int| 0 <= i < s.len() implies keep(#[trigger] s[i]) by {
                if i < init.len() {
                    assert(init[i] == s[i]);
                }
            }
        }
    }
}

/// Every element that occurs in a sequence has a first position there.
pub proof fn lemma_first_index_exists<A>(s: Seq<A>, x: A)
    requires
        s.contains(x),
    ensures
        exists|i: int| is_first_index(s, x, i),
    decreases s.len(),
{
    let k = choose|k: int| 0 <= k < s.len() && s[k] == x;
    if exists|j: int| 0 <= j < k && s[j] == x {
        let j = choose|j: int| 0 <= j < k && s[j] == x;
        let front = s.take(k);
        assert(forall|m: int| 0 <= m < front.len() ==> front[m] == s[m]);
        assert(front[j] == x);
        lemma_first_index_exists(front, x);
        let i = choose|i: int| is_first_index(front, x, i);
        assert(is_first_index(s, x, i));
    } else {
        assert(is_first_index(s, x, k));
    }
}

/// `distinct(s)` holds exactly the elements of `s`, each of them once.
pub proof fn lemma_distinct<A>(s: Seq<A>)
    ensures
        distinct(s).no_duplicates(),
        distinct(s).len() <= s.len(),
        forall|x: A| distinct(s).contains(x) <==> s.contains(x),
    decreases s.len(),
{
    if s.len() > 0 {
        let init = s.drop_last();
        let front = distinct(init);
        let all = distinct(s);
        lemma_distinct(init);
        assert(init.len() == s.len() - 1);
        assert(forall|i: int| 0 <= i < init.len() ==> init[i] == s[i]);
        assert(forall|k: int| 0 <= k < front.len() ==> all[k] == front[k]);
        assert forall|x: A| s.contains(x) implies all.contains(x) by {
            let i = choose|i: int| 0 <= i < s.len() && s[i] == x;
            if i < init.len() {
                assert(init[i] == x);
                assert(init.contains(x));
                let k = choose|k: int| 0 <= k < front.len() && front[k] == x;
                assert(all[k] == x);
            } else if front.contains(x) {
                let k = choose|k: int| 0 <= k < front.len() && front[k] == x;
                assert(all[k] == x);
            } else {
                assert(all[front.len() as int] == x);
            }
        }
        assert forall|x: A| all.contains(x) implies s.contains(x) by {
            let k = choose|k: int| 0 <= k < all.len() && all[k] == x;
            if k < front.len() {
                assert(front[k] == x);
                assert(front.contains(x));
                assert(init.contains(x));
                let i = choose|i: int| 0 <= i < init.len() && init[i] == x;
                assert(s[i] == x);
            } else {
                assert(!front.contains(s.last()));
                assert(all == front.push(s.last()));
                assert(k == front.len());
                assert(s[s.len() - 1] == x);
            }
        }
        assert forall|i: int, j: int| 0 <= i < all.len() && 0 <= j < all.len() && i != j implies all[i]
            != all[j] by {
            if i < front.len() && j < front.len() {
            } else if i < front.len() {
                assert(front.contains(front[i]));
            } else {
                assert(front.contains(front[j]));
            }
        }
    }
}

/// Appending never removes an element, nor moves one.
pub proof fn lemma_distinct_push<A>(s: Seq<A>, x: A)
    ensures
        distinct(s.push(x)) == if distinct(s).contains(x) {
            distinct(s)
        } else {
            distinct(s).push(x)
        },
{
    assert(s.push(x).drop_last() =~= s);
}

} // verus!
