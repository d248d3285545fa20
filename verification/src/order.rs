//! Sorting strings.

use vstd::prelude::*;
use vstd::string::*;

use crate::text;

verus! {

/// The lexicographic order on strings, by the code points of their characters.
pub open spec fn at_most(a: Seq<char>, b: Seq<char>) -> bool
    decreases a.len(),
{
    if a.len() == 0 {
        true
    } else if b.len() == 0 {
        false
    } else if a[0] == b[0] {
        at_most(a.drop_first(), b.drop_first())
    } else {
        a[0] < b[0]
    }
}

pub proof fn lemma_at_most_total(a: Seq<char>, b: Seq<char>)
    ensures
        at_most(a, b) || at_most(b, a),
    decreases a.len(),
{
    if a.len() > 0 && b.len() > 0 && a[0] == b[0] {
        lemma_at_most_total(a.drop_first(), b.drop_first());
    }
}

pub proof fn lemma_at_most_transitive(a: Seq<char>, b: Seq<char>, c: Seq<char>)
    requires
        at_most(a, b),
        at_most(b, c),
    ensures
        at_most(a, c),
    decreases a.len(),
{
    if a.len() > 0 && b.len() > 0 && c.len() > 0 && a[0] == b[0] && b[0] == c[0] {
        lemma_at_most_transitive(a.drop_first(), b.drop_first(), c.drop_first());
    }
}

pub proof fn lemma_at_most_antisymmetric(a: Seq<char>, b: Seq<char>)
    requires
        at_most(a, b),
        at_most(b, a),
    ensures
        a == b,
    decreases a.len(),
{
    if a.len() > 0 && b.len() > 0 {
        lemma_at_most_antisymmetric(a.drop_first(), b.drop_first());
        assert(a =~= seq![a[0]] + a.drop_first());
        assert(b =~= seq![b[0]] + b.drop_first());
    } else {
        assert(a =~= b);
    }
}

pub open spec fn sorted(list: Seq<Seq<char>>) -> bool {
    forall|i: int, j: int|
        0 <= i <= j < list.len() ==> at_most(#[trigger] list[i], #[trigger] list[j])
}

/// `result` holds what `list` does, in order.
pub open spec fn sorting_of(list: Seq<Seq<char>>, result: Seq<Seq<char>>) -> bool {
    sorted(result) && result.to_multiset() == list.to_multiset()
}

/// What `list` holds, in order.
pub open spec fn arranged(list: Seq<Seq<char>>) -> Seq<Seq<char>> {
    choose|result: Seq<Seq<char>>| sorting_of(list, result)
}

/// Whether `a` comes before `b` or equals it.
pub fn le(a: &str, b: &str) -> (r: bool)
    ensures
        r == at_most(a@, b@),
{
    let x: Vec<char> = text::to_chars(a);
    let y: Vec<char> = text::to_chars(b);
    let mut i: usize = 0;
    assert(a@.skip(0) =~= a@);
    assert(b@.skip(0) =~= b@);
    while i < x.len() && i < y.len() && x[i] == y[i]
        invariant
            x@ == a@,
            y@ == b@,
            i <= x@.len(),
            i <= y@.len(),
            at_most(a@, b@) == at_most(a@.skip(i as int), b@.skip(i as int)),
        decreases x@.len() - i,
    {
        assert(a@.skip(i as int).drop_first() =~= a@.skip(i + 1));
        assert(b@.skip(i as int).drop_first() =~= b@.skip(i + 1));
        i = i + 1;
    }
    if i == x.len() {
        true
    } else if i == y.len() {
        false
    } else {
        x[i] < y[i]
    }
}

proof fn lemma_multiset_insert(list: Seq<Seq<char>>, at: int, s: Seq<char>)
    requires
        0 <= at <= list.len(),
    ensures
        list.insert(at, s).to_multiset() == list.to_multiset().insert(s),
{
    vstd::seq_lib::to_multiset_insert(list, at, s);
}

/// The strings of `list`, in order.
pub fn sort(list: Vec<String>) -> (r: Vec<String>)
    ensures
        sorting_of(text::views(list@), text::views(r@)),
        text::views(r@) == arranged(text::views(list@)),
{
    let ghost input = text::views(list@);
    let mut out: Vec<String> = Vec::new();
    let mut i: usize = 0;
    assert(input.take(0) =~= Seq::<Seq<char>>::empty());
    assert(text::views(out@) =~= Seq::<Seq<char>>::empty());
    while i < list.len()
        invariant
            i <= list@.len(),
            input == text::views(list@),
            sorting_of(input.take(i as int), text::views(out@)),
        decreases list@.len() - i,
    {
        let item: String = list[i].clone();
        let ghost before = text::views(out@);
        let mut at: usize = out.len();
        while at > 0 && !le(out[at - 1].as_str(), item.as_str())
            invariant
                at <= out@.len(),
                before == text::views(out@),
                sorted(before),
                forall|j: int| at <= j < before.len() ==> at_most(item@, #[trigger] before[j]),
            decreases at,
        {
            proof {
                lemma_at_most_total(before[at - 1], item@);
            }
            at = at - 1;
        }
        let ghost s = item@;
        out.insert(at, item);
        let ghost after = text::views(out@);
        proof {
            assert(after =~= before.insert(at as int, s));
            assert forall|j: int, k: int| 0 <= j <= k < after.len() implies at_most(
                #[trigger] after[j],
                #[trigger] after[k],
            ) by {
                lemma_at_most_total(s, s);
                if j < at && k == at {
                    assert(at_most(before[j], before[at - 1]));
                    lemma_at_most_transitive(before[j], before[at - 1], s);
                } else if j == at && k > at {
                    assert(at_most(s, before[k - 1]));
                } else if j < at && k < at {
                    assert(at_most(before[j], before[k]));
                } else if j < at && k > at {
                    assert(at_most(before[j], before[k - 1]));
                } else if j > at {
                    assert(at_most(before[j - 1], before[k - 1]));
                }
            }
            lemma_multiset_insert(before, at as int, s);
            assert(input.take(i + 1) =~= input.take(i as int).push(s));
            vstd::seq_lib::to_multiset_build(input.take(i as int), s);
        }
        i = i + 1;
    }
    assert(input.take(i as int) =~= input);
    proof {
        sorting_is_unique(input, arranged(input), text::views(out@));
    }
    out
}

/// There is one way to sort a list of strings: two sorted lists with the same strings are equal.
pub proof fn sorting_is_unique(list: Seq<Seq<char>>, a: Seq<Seq<char>>, b: Seq<Seq<char>>)
    requires
        sorting_of(list, a),
        sorting_of(list, b),
    ensures
        a == b,
{
    let leq = |x: Seq<char>, y: Seq<char>| at_most(x, y);
    lemma_total_ordering();
    assert(vstd::relations::sorted_by(a, leq));
    assert(vstd::relations::sorted_by(b, leq));
    vstd::seq_lib::lemma_sorted_unique(a, b, leq);
}

/// Every list of strings can be sorted.
pub proof fn arranged_is_a_sorting(list: Seq<Seq<char>>)
    ensures
        sorting_of(list, arranged(list)),
{
    let leq = |x: Seq<char>, y: Seq<char>| at_most(x, y);
    lemma_total_ordering();
    list.lemma_sort_by_ensures(leq);
    let result = list.sort_by(leq);
    assert forall|i: int, j: int| 0 <= i <= j < result.len() implies at_most(
        #[trigger] result[i],
        #[trigger] result[j],
    ) by {
        lemma_at_most_total(result[i], result[i]);
        if i < j {
            assert(leq(result[i], result[j]));
        }
    }
    assert(sorting_of(list, result));
}

proof fn lemma_total_ordering()
    ensures
        vstd::relations::total_ordering(|x: Seq<char>, y: Seq<char>| at_most(x, y)),
{
    let leq = |x: Seq<char>, y: Seq<char>| at_most(x, y);
    assert(vstd::relations::total_ordering(leq)) by {
        assert forall|x: Seq<char>| #[trigger] leq(x, x) by {
            lemma_at_most_total(x, x);
        }
        assert forall|x: Seq<char>, y: Seq<char>| #[trigger] leq(x, y) && #[trigger] leq(
            y,
            x,
        ) implies x == y by {
            lemma_at_most_antisymmetric(x, y);
        }
        assert forall|x: Seq<char>, y: Seq<char>, z: Seq<char>| #[trigger]
            leq(x, y) && #[trigger] leq(y, z) implies leq(x, z) by {
            lemma_at_most_transitive(x, y, z);
        }
        assert forall|x: Seq<char>, y: Seq<char>| #[trigger] leq(x, y) || #[trigger] leq(y, x) by {
            lemma_at_most_total(x, y);
        }
    }
}

} // verus!
