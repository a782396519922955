//! Counts in the order in which a summary shows them: the largest first,
//! and of two that are equal the one that was counted first.

use vstd::prelude::*;
use crate::keyed::KeyedList;
use crate::text::string_views;

verus! {

/// The index of the first of the largest counts.
pub open spec fn first_largest(counts: Seq<usize>) -> int
    decreases counts.len(),
{
    if counts.len() <= 1 {
        0
    } else {
        let before = first_largest(counts.drop_last());
        if counts.last() > counts[before] {
            counts.len() - 1
        } else {
            before
        }
    }
}

/// The first `limit` entries by descending count: the first of the
/// largest, then the same of what is left.
pub open spec fn ranked(names: Seq<Seq<char>>, counts: Seq<usize>, limit: nat) -> Seq<
    (Seq<char>, usize),
>
    decreases limit,
{
    if limit == 0 || counts.len() == 0 || names.len() != counts.len() {
        Seq::empty()
    } else {
        let at = first_largest(counts);
        seq![(names[at], counts[at])] + ranked(
            names.remove(at),
            counts.remove(at),
            (limit - 1) as nat,
        )
    }
}

/// The views of named counts.
pub open spec fn named_views(entries: Seq<(String, usize)>) -> Seq<(Seq<char>, usize)> {
    entries.map_values(|e: (String, usize)| (e.0@, e.1))
}

/// The first of the largest counts lies within the counts and none is
/// larger; none before it is as large.
pub proof fn lemma_first_largest(counts: Seq<usize>)
    requires
        counts.len() > 0,
    ensures
        0 <= first_largest(counts) < counts.len(),
        forall|i: int|
            0 <= i < counts.len() ==> (#[trigger] counts[i]) <= counts[first_largest(counts)],
        forall|i: int|
            0 <= i < first_largest(counts) ==> (#[trigger] counts[i]) < counts[first_largest(
                counts,
            )],
    decreases counts.len(),
{
    if counts.len() > 1 {
        let rest = counts.drop_last();
        lemma_first_largest(rest);
        let before = first_largest(rest);
        assert forall|i: int| 0 <= i < counts.len() implies (#[trigger] counts[i])
            <= counts[first_largest(counts)] by {
            if i < rest.len() {
                assert(rest[i] == counts[i]);
            }
        }
        assert forall|i: int| 0 <= i < first_largest(counts) implies (#[trigger] counts[i])
            < counts[first_largest(counts)] by {
            assert(rest[i] == counts[i]);
            if first_largest(counts) == before {
            } else {
                assert(rest[i] <= rest[before]);
            }
        }
    }
}

/// A summary never shows more entries than it was asked for, nor more than
/// there are.
pub proof fn lemma_ranked_len(names: Seq<Seq<char>>, counts: Seq<usize>, limit: nat)
    requires
        names.len() == counts.len(),
    ensures
        ranked(names, counts, limit).len() == if limit <= counts.len() {
            limit
        } else {
            counts.len()
        },
    decreases limit,
{
    if limit > 0 && counts.len() > 0 {
        lemma_first_largest(counts);
        let at = first_largest(counts);
        lemma_ranked_len(names.remove(at), counts.remove(at), (limit - 1) as nat);
    }
}

fn largest(counts: &Vec<usize>) -> (at: usize)
    requires
        counts.len() > 0,
    ensures
        at == first_largest(counts@),
        at < counts.len(),
{
    let mut at: usize = 0;
    let mut i: usize = 1;
    assert(counts@.take(1).len() == 1);
    while i < counts.len()
        invariant
            1 <= i <= counts.len(),
            at < i,
            at == first_largest(counts@.take(i as int)),
        decreases counts.len() - i,
    {
        proof {
            let upto = counts@.take(i + 1);
            assert(upto.drop_last() == counts@.take(i as int));
            assert(upto.last() == counts@[i as int]);
            assert(upto[at as int] == counts@[at as int]);
        }
        if counts[i] > counts[at] {
            at = i;
        }
        i = i + 1;
    }
    assert(counts@.take(counts.len() as int) == counts@);
    at
}

/// The first `limit` entries of a tally by descending count. Of two equal
/// counts the one that was counted first comes first.
pub fn ranked_counts(tally: &KeyedList<usize>, limit: usize) -> (r: Vec<(String, usize)>)
    requires
        tally.wf(),
    ensures
        named_views(r@) == ranked(tally.keys(), tally.values(), limit as nat),
{
    let mut names: Vec<String> = Vec::new();
    let mut counts: Vec<usize> = Vec::new();
    let n = tally.len();
    let mut i: usize = 0;
    while i < n
        invariant
            i <= n,
            n == tally.keys().len(),
            tally.wf(),
            string_views(names@) == tally.keys().take(i as int),
            counts@ == tally.values().take(i as int),
        decreases n - i,
    {
        let ghost before = names@;
        let name = tally.key(i).clone();
        names.push(name);
        counts.push(*tally.value(i));
        assert(string_views(names@) == string_views(before).push(
            tally.keys()[i as int],
        ));
        assert(tally.keys().take(i + 1) == tally.keys().take(i as int).push(
            tally.keys()[i as int],
        ));
        assert(tally.values().take(i + 1) == tally.values().take(i as int).push(
            tally.values()[i as int],
        ));
        i = i + 1;
    }
    assert(tally.keys().take(n as int) == tally.keys());
    assert(tally.values().take(n as int) == tally.values());
    let mut r: Vec<(String, usize)> = Vec::new();
    let mut left: usize = limit;
    assert(named_views(r@) == Seq::<(Seq<char>, usize)>::empty());
    while left > 0 && counts.len() > 0
        invariant
            names.len() == counts.len(),
            named_views(r@) + ranked(string_views(names@), counts@, left as nat)
                == ranked(tally.keys(), tally.values(), limit as nat),
        decreases left,
    {
        let ghost shown = r@;
        let ghost open_names = string_views(names@);
        let ghost open_counts = counts@;
        let at = largest(&counts);
        let name = names.remove(at);
        let count = counts.remove(at);
        r.push((name, count));
        left = left - 1;
        proof {
            assert(string_views(names@) == open_names.remove(at as int));
            assert(named_views(r@) == named_views(shown).push((open_names[at as int], count)));
            assert(named_views(r@) + ranked(
                string_views(names@),
                counts@,
                left as nat,
            ) == named_views(shown) + ranked(open_names, open_counts, (left + 1) as nat));
        }
    }
    assert(ranked(string_views(names@), counts@, left as nat) == Seq::<
        (Seq<char>, usize),
    >::empty());
    assert(named_views(r@) + Seq::<(Seq<char>, usize)>::empty() == named_views(r@));
    r
}

} // verus!
