//! Counting by name, in the order in which the names first occur.
use crate::text::{decimal, decimal_of, join, join_all, law_join_of_two_lists, same, views};
use vstd::prelude::*;

verus! {

/// Names with how often each occurred.
pub type Counts = Seq<(Seq<char>, nat)>;

/// The position of a name, or the number of names where it is not there.
pub open spec fn name_at(counts: Counts, k: Seq<char>) -> int
    decreases counts.len(),
{
    if counts.len() == 0 || counts[0].0 == k {
        0
    } else {
        1 + name_at(counts.skip(1), k)
    }
}

/// The counts after one more occurrence of a name.
pub open spec fn bumped(counts: Counts, k: Seq<char>) -> Counts {
    let at = name_at(counts, k);
    if 0 <= at < counts.len() {
        counts.update(at, (counts[at].0, counts[at].1 + 1))
    } else {
        counts.push((k, 1))
    }
}

/// The counts of a list of names.
pub open spec fn counted(names: Seq<Seq<char>>) -> Counts
    decreases names.len(),
{
    if names.len() == 0 {
        Seq::empty()
    } else {
        bumped(counted(names.drop_last()), names.last())
    }
}

/// The counts as text: each name with its count, with commas between.
pub open spec fn counts_text(counts: Counts) -> Seq<char> {
    join(counts.map_values(|c: (Seq<char>, nat)| c.0 + " ×"@ + decimal_of(c.1)), ", "@)
}

/// The count of one name.
pub open spec fn count_of(counts: Counts, k: Seq<char>) -> nat {
    let at = name_at(counts, k);
    if 0 <= at < counts.len() {
        counts[at].1
    } else {
        0
    }
}

/// How often a name stands in a list.
pub open spec fn occurrences(names: Seq<Seq<char>>, k: Seq<char>) -> nat
    decreases names.len(),
{
    if names.len() == 0 {
        0
    } else {
        occurrences(names.drop_last(), k) + (if names.last() == k {
            1nat
        } else {
            0nat
        })
    }
}

proof fn lemma_name_at(counts: Counts, k: Seq<char>)
    ensures
        0 <= name_at(counts, k) <= counts.len(),
        name_at(counts, k) < counts.len() ==> counts[name_at(counts, k)].0 == k,
        forall|j: int| 0 <= j < name_at(counts, k) ==> (#[trigger] counts[j]).0 != k,
    decreases counts.len(),
{
    if counts.len() > 0 && counts[0].0 != k {
        let rest = counts.skip(1);
        lemma_name_at(rest, k);
        assert forall|j: int| 0 <= j < name_at(counts, k) implies (#[trigger] counts[j]).0 != k by {
            if j > 0 {
                assert(counts[j] == rest[j - 1]);
            }
        }
    }
}

proof fn lemma_name_at_unique(counts: Counts, k: Seq<char>, at: int)
    requires
        0 <= at <= counts.len(),
        at < counts.len() ==> counts[at].0 == k,
        forall|j: int| 0 <= j < at ==> (#[trigger] counts[j]).0 != k,
    ensures
        name_at(counts, k) == at,
{
    lemma_name_at(counts, k);
    let f = name_at(counts, k);
    if f < at {
        assert(counts[f].0 != k);
    }
    if at < f {
        assert(counts[at].0 != k);
    }
}

/// The count of a name is how often it stands in the list.
pub proof fn law_counts_are_occurrences(names: Seq<Seq<char>>, k: Seq<char>)
    ensures
        count_of(counted(names), k) == occurrences(names, k),
    decreases names.len(),
{
    if names.len() > 0 {
        law_counts_are_occurrences(names.drop_last(), k);
        let before = counted(names.drop_last());
        let after = counted(names);
        let n = names.last();
        lemma_name_at(before, k);
        lemma_name_at(before, n);
        let at = name_at(before, k);
        if n == k {
            lemma_name_at_unique(after, k, at);
        } else if at < before.len() {
            assert(after[at] == before[at]);
            lemma_name_at_unique(after, k, at);
        } else {
            lemma_name_at_unique(after, k, after.len() as int);
        }
    }
}

/// The counts of a list, as a model of the list that holds them.
pub open spec fn counts_view(v: Seq<(String, usize)>) -> Counts {
    v.map_values(|c: (String, usize)| (c.0@, c.1 as nat))
}

/// One more occurrence of `k`, after `seen` names.
fn bump(counts: &mut Vec<(String, usize)>, k: &str, seen: usize)
    requires
        seen < usize::MAX,
        forall|i: int| 0 <= i < old(counts)@.len() ==> (#[trigger] old(counts)@[i]).1 <= seen,
    ensures
        counts_view(final(counts)@) == bumped(counts_view(old(counts)@), k@),
        forall|i: int| 0 <= i < final(counts)@.len() ==> (#[trigger] final(counts)@[i]).1 <= seen + 1,
{
    let ghost before = counts_view(counts@);
    let mut i: usize = 0;
    while i < counts.len()
        invariant
            0 <= i <= counts@.len(),
            before == counts_view(counts@),
            before == counts_view(old(counts)@),
            seen < usize::MAX,
            forall|j: int| 0 <= j < counts@.len() ==> (#[trigger] counts@[j]).1 <= seen,
            forall|j: int| 0 <= j < i ==> (#[trigger] before[j]).0 != k@,
        decreases counts.len() - i,
    {
        if same(counts[i].0.as_str(), k) {
            proof {
                assert(before[i as int].0 == k@);
                lemma_name_at_unique(before, k@, i as int);
            }
            let name = counts[i].0.clone();
            let n: usize = counts[i].1 + 1;
            counts.set(i, (name, n));
            assert(counts_view(counts@) =~= bumped(before, k@));
            return;
        }
        assert(before[i as int].0 != k@);
        i = i + 1;
    }
    proof {
        lemma_name_at_unique(before, k@, i as int);
    }
    counts.push((k.to_owned(), 1));
    assert(counts_view(counts@) =~= bumped(before, k@));
}

/// The counts of a list of names as text.
pub fn tally(names: &Vec<String>) -> (r: String)
    ensures
        r@ == counts_text(counted(views(names@))),
{
    let mut counts: Vec<(String, usize)> = Vec::new();
    let mut i: usize = 0;
    let ghost vs = views(names@);
    assert(counts_view(counts@) =~= counted(vs.take(0)));
    while i < names.len()
        invariant
            0 <= i <= names@.len(),
            vs == views(names@),
            counts_view(counts@) == counted(vs.take(i as int)),
            forall|j: int| 0 <= j < counts@.len() ==> (#[trigger] counts@[j]).1 <= i,
        decreases names.len() - i,
    {
        proof {
            assert(vs.take(i + 1).drop_last() =~= vs.take(i as int));
            assert(vs.take(i + 1).last() == names@[i as int]@);
        }
        bump(&mut counts, names[i].as_str(), i);
        i = i + 1;
    }
    assert(vs.take(vs.len() as int) =~= vs);
    let mut out: Vec<String> = Vec::new();
    let mut k: usize = 0;
    let ghost cs = counts_view(counts@);
    while k < counts.len()
        invariant
            0 <= k <= counts@.len(),
            cs == counts_view(counts@),
            out@.len() == k,
            forall|j: int|
                0 <= j < k ==> (#[trigger] out@[j])@ == cs[j].0 + " ×"@ + decimal_of(cs[j].1),
        decreases counts.len() - k,
    {
        let mut s = counts[k].0.clone();
        s.push_str(" ×");
        s.push_str(decimal(counts[k].1 as u64).as_str());
        out.push(s);
        k = k + 1;
    }
    assert(views(out@) =~= cs.map_values(
        |c: (Seq<char>, nat)| c.0 + " ×"@ + decimal_of(c.1),
    ));
    join_all(&out, ", ")
}

proof fn lemma_counted_names(names: Seq<Seq<char>>, k: Seq<char>)
    ensures
        name_at(counted(names), k) < counted(names).len() <==> names.contains(k),
    decreases names.len(),
{
    if names.len() == 0 {
        assert(!names.contains(k));
    } else {
        let rest = names.drop_last();
        let n = names.last();
        let before = counted(rest);
        let after = counted(names);
        lemma_counted_names(rest, k);
        lemma_counted_names(rest, n);
        lemma_name_at(before, k);
        lemma_name_at(before, n);
        lemma_name_at(after, k);
        if names.contains(k) {
            if k == n {
                assert(after[name_at(before, n)].0 == k);
            } else {
                let i = choose|i: int| 0 <= i < names.len() && names[i] == k;
                assert(rest[i] == k);
                assert(rest.contains(k));
                assert(after[name_at(before, k)].0 == k);
            }
            if name_at(after, k) >= after.len() {
                let at = if k == n {
                    name_at(before, n)
                } else {
                    name_at(before, k)
                };
                assert(after[at].0 != k);
            }
        } else {
            assert(k != n) by {
                assert(names[names.len() - 1] == n);
            }
            assert(!rest.contains(k)) by {
                if rest.contains(k) {
                    let i = choose|i: int| 0 <= i < rest.len() && rest[i] == k;
                    assert(names[i] == k);
                }
            }
            if name_at(after, k) < after.len() {
                let at = name_at(after, k);
                if at < before.len() {
                    assert(before[at].0 == k);
                } else {
                    assert(after[at].0 == n);
                }
            }
        }
    }
}

/// Names stand in the order in which they first occur: a name that did not occur yet goes behind
/// the others, counted once; any other name leaves the names where they are.
pub proof fn law_names_stand_in_order(names: Seq<Seq<char>>, n: Seq<char>)
    ensures
        !names.contains(n) ==> counted(names.push(n)) == counted(names).push((n, 1nat)),
        names.contains(n) ==> counted(names.push(n)).len() == counted(names).len(),
        forall|i: int|
            0 <= i < counted(names).len() ==> (#[trigger] counted(names.push(n))[i]).0 == counted(
                names,
            )[i].0,
        forall|i: int|
            0 <= i < counted(names).len() ==> (#[trigger] counted(names.push(n))[i]).1 == counted(
                names,
            )[i].1 + (if i == name_at(counted(names), n) {
                1nat
            } else {
                0nat
            }),
{
    assert(names.push(n).drop_last() =~= names);
    lemma_counted_names(names, n);
    lemma_name_at(counted(names), n);
}

/// Each name is shown with its count behind it, and commas stand between.
pub proof fn law_counts_are_shown_in_order(counts: Counts, n: Seq<char>, c: nat)
    ensures
        counts.len() == 0 ==> counts_text(counts.push((n, c))) == n + " ×"@ + decimal_of(c),
        counts.len() > 0 ==> counts_text(counts.push((n, c))) == counts_text(counts) + ", "@ + (n
            + " ×"@ + decimal_of(c)),
{
    let shown = |c: (Seq<char>, nat)| c.0 + " ×"@ + decimal_of(c.1);
    let parts = counts.map_values(shown);
    let one = n + " ×"@ + decimal_of(c);
    assert(counts.push((n, c)).map_values(shown) =~= parts + seq![one]);
    law_join_of_two_lists(parts, seq![one], ", "@);
}

} // verus!
