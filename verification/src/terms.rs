use vstd::prelude::*;

use crate::text::str_eq;

verus! {

/// The set of strings that a vector of terms holds.
pub open spec fn term_set(terms: Seq<String>) -> Set<Seq<char>> {
    Set::new(|t: Seq<char>| exists|i: int| 0 <= i < terms.len() && #[trigger] terms[i]@ == t)
}

/// No two terms of the vector are equal.
pub open spec fn distinct_terms(terms: Seq<String>) -> bool {
    forall|i: int, j: int| 0 <= i < j < terms.len() ==> #[trigger] terms[i]@ != #[trigger] terms[j]@
}

/// Pushing a term adds it to the term set.
pub proof fn lemma_term_set_push(terms: Seq<String>, t: String)
    ensures
        term_set(terms.push(t)) == term_set(terms).insert(t@),
{
    let pushed = terms.push(t);
    assert forall|x: Seq<char>| term_set(pushed).contains(x) implies term_set(terms).insert(t@).contains(x) by {
        let i = choose|i: int| 0 <= i < pushed.len() && #[trigger] pushed[i]@ == x;
        if i < terms.len() {
            assert(terms[i]@ == x);
        }
    }
    assert forall|x: Seq<char>| term_set(terms).insert(t@).contains(x) implies term_set(pushed).contains(x) by {
        if x == t@ {
            assert(pushed[terms.len() as int]@ == x);
        } else {
            let i = choose|i: int| 0 <= i < terms.len() && #[trigger] terms[i]@ == x;
            assert(pushed[i]@ == x);
        }
    }
    assert(term_set(pushed) =~= term_set(terms).insert(t@));
}

/// The term set of a prefix grows by one term at a time.
pub proof fn lemma_term_set_prefix(terms: Seq<String>, i: int)
    requires
        0 <= i < terms.len(),
    ensures
        term_set(terms.subrange(0, i + 1)) == term_set(terms.subrange(0, i)).insert(terms[i]@),
{
    assert(terms.subrange(0, i + 1) =~= terms.subrange(0, i).push(terms[i]));
    lemma_term_set_push(terms.subrange(0, i), terms[i]);
}

/// A term set is finite, and distinct terms give as many members as the list is long.
pub proof fn lemma_term_set_finite(terms: Seq<String>)
    ensures
        term_set(terms).finite(),
        distinct_terms(terms) ==> term_set(terms).len() == terms.len(),
    decreases terms.len(),
{
    if terms.len() == 0 {
        assert(term_set(terms) =~= Set::<Seq<char>>::empty());
    } else {
        let rest = terms.drop_last();
        lemma_term_set_finite(rest);
        assert(terms =~= rest.push(terms.last()));
        lemma_term_set_push(rest, terms.last());
        if distinct_terms(terms) {
            assert(distinct_terms(rest));
            if term_set(rest).contains(terms.last()@) {
                let k = choose|k: int| 0 <= k < rest.len() && #[trigger] rest[k]@ == terms.last()@;
                assert(terms[k]@ == terms[terms.len() - 1]@);
            }
        }
    }
}

/// Whether `terms` holds `t`.
pub fn contains_term(terms: &Vec<String>, t: &str) -> (b: bool)
    ensures
        b == term_set(terms@).contains(t@),
{
    let mut i: usize = 0;
    while i < terms.len()
        invariant
            i <= terms@.len(),
            forall|j: int| 0 <= j < i ==> terms@[j]@ != t@,
        decreases terms@.len() - i,
    {
        if str_eq(terms[i].as_str(), t) {
            assert(terms@[i as int]@ == t@);
            return true;
        }
        i = i + 1;
    }
    assert(!term_set(terms@).contains(t@));
    false
}

/// Adds `t` to `terms` unless it is there already.
pub fn insert_term(terms: &mut Vec<String>, t: String)
    requires
        distinct_terms(old(terms)@),
    ensures
        distinct_terms(final(terms)@),
        term_set(final(terms)@) == term_set(old(terms)@).insert(t@),
{
    if contains_term(terms, t.as_str()) {
        assert(term_set(terms@).insert(t@) =~= term_set(terms@));
    } else {
        let ghost before = terms@;
        proof {
            lemma_term_set_push(before, t);
            assert forall|j: int| 0 <= j < before.len() implies before[j]@ != t@ by {
                if before[j]@ == t@ {
                    assert(term_set(before).contains(t@));
                }
            }
        }
        terms.push(t);
        assert(terms@ == before.push(t));
    }
}

/// Adds every term of `source` to `terms`.
pub fn extend_terms(terms: &mut Vec<String>, source: Vec<String>)
    requires
        distinct_terms(old(terms)@),
    ensures
        distinct_terms(final(terms)@),
        term_set(final(terms)@) == term_set(old(terms)@).union(term_set(source@)),
{
    let ghost start = terms@;
    let mut i: usize = 0;
    while i < source.len()
        invariant
            i <= source@.len(),
            distinct_terms(terms@),
            term_set(terms@) == term_set(start).union(term_set(source@.subrange(0, i as int))),
        decreases source@.len() - i,
    {
        proof {
            lemma_term_set_prefix(source@, i as int);
        }
        let t = source[i].clone();
        insert_term(terms, t);
        i = i + 1;
        assert(term_set(terms@) =~= term_set(start).union(term_set(source@.subrange(0, i as int))));
    }
    assert(source@.subrange(0, source@.len() as int) =~= source@);
}

/// Number of terms that `a` and `b` share.
pub fn count_common(a: &Vec<String>, b: &Vec<String>) -> (n: usize)
    requires
        distinct_terms(a@),
    ensures
        n == term_set(a@).intersect(term_set(b@)).len(),
{
    let mut n: usize = 0;
    let mut i: usize = 0;
    proof {
        lemma_term_set_finite(a@);
        assert(term_set(a@.subrange(0, 0)) =~= Set::<Seq<char>>::empty());
        assert(term_set(a@.subrange(0, 0)).intersect(term_set(b@)) =~= Set::<Seq<char>>::empty());
    }
    while i < a.len()
        invariant
            i <= a@.len(),
            distinct_terms(a@),
            n <= i,
            n == term_set(a@.subrange(0, i as int)).intersect(term_set(b@)).len(),
        decreases a@.len() - i,
    {
        let ghost before = term_set(a@.subrange(0, i as int));
        proof {
            lemma_term_set_prefix(a@, i as int);
            lemma_term_set_finite(a@.subrange(0, i as int));
            if before.contains(a@[i as int]@) {
                let k = choose|k: int| 0 <= k < i && #[trigger] a@.subrange(0, i as int)[k]@ == a@[i as int]@;
                assert(a@[k]@ == a@[i as int]@);
            }
        }
        if contains_term(b, a[i].as_str()) {
            proof {
                assert(before.insert(a@[i as int]@).intersect(term_set(b@)) =~= before.intersect(
                    term_set(b@),
                ).insert(a@[i as int]@));
            }
            n = n + 1;
        } else {
            proof {
                assert(before.insert(a@[i as int]@).intersect(term_set(b@)) =~= before.intersect(
                    term_set(b@),
                ));
            }
        }
        i = i + 1;
    }
    assert(a@.subrange(0, a@.len() as int) =~= a@);
    n
}

} // verus!
