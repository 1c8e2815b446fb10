//! Sequences without repetition: what is left of a sequence when only the
//! first occurrence of each value stays.

use vstd::prelude::*;

verus! {

/// The values of `s` without repetition, each where it first occurs.
pub open spec fn unique<A>(s: Seq<A>) -> Seq<A>
    decreases s.len(),
{
    if s.len() == 0 {
        Seq::empty()
    } else {
        let rest = unique(s.drop_last());
        if rest.contains(s.last()) {
            rest
        } else {
            rest.push(s.last())
        }
    }
}

/// `unique` keeps exactly the values of `s`.
pub proof fn lemma_unique_keeps_values<A>(s: Seq<A>, x: A)
    ensures
        unique(s).contains(x) <==> s.contains(x),
    decreases s.len(),
{
    if s.len() > 0 {
        let front = s.drop_last();
        let rest = unique(front);
        lemma_unique_keeps_values(front, x);
        if s.contains(x) {
            let i = choose|i: int| 0 <= i < s.len() && s[i] == x;
            if i < s.len() - 1 {
                assert(front[i] == x);
                assert(rest.contains(x));
                let j = choose|j: int| 0 <= j < rest.len() && rest[j] == x;
                assert(unique(s)[j] == x);
            } else if rest.contains(x) {
                let j = choose|j: int| 0 <= j < rest.len() && rest[j] == x;
                assert(unique(s)[j] == x);
            } else {
                assert(unique(s)[rest.len() as int] == x);
            }
        }
        if unique(s).contains(x) {
            let i = choose|i: int| 0 <= i < unique(s).len() && unique(s)[i] == x;
            if i < rest.len() {
                assert(rest[i] == x);
                assert(front.contains(x));
                let j = choose|j: int| 0 <= j < front.len() && front[j] == x;
                assert(s[j] == x);
            } else {
                assert(s[s.len() - 1] == x);
            }
        }
    }
}

/// `unique` holds no value twice.
pub proof fn lemma_unique_no_duplicates<A>(s: Seq<A>)
    ensures
        unique(s).no_duplicates(),
    decreases s.len(),
{
    if s.len() > 0 {
        lemma_unique_no_duplicates(s.drop_last());
    }
}

/// Two equal values collapse into one; two different ones both stay.
pub proof fn lemma_unique_pair<A>(a: A, b: A)
    ensures
        a == b ==> unique(seq![a, b]) == seq![a],
        a != b ==> unique(seq![a, b]) == seq![a, b],
{
    let s = seq![a, b];
    assert(s.drop_last() =~= seq![a]);
    assert(seq![a].drop_last() =~= Seq::<A>::empty());
    reveal_with_fuel(unique, 3);
    assert(unique(seq![a]) =~= seq![a]);
    if a == b {
        assert(seq![a][0] == b);
        assert(unique(s) =~= seq![a]);
    } else {
        assert(unique(s) =~= seq![a, b]);
    }
}

/// One more value: `unique` takes it unless it has it.
pub proof fn lemma_unique_push<A>(s: Seq<A>, x: A)
    ensures
        unique(s + seq![x]) == if unique(s).contains(x) {
            unique(s)
        } else {
            unique(s).push(x)
        },
{
    assert((s + seq![x]).drop_last() =~= s);
}

} // verus!
