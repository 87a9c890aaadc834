//! Sorted lists of distinct names.

use vstd::prelude::*;
use crate::idmap::Entries;
use crate::text::{
    lemma_text_lt_total,
    lemma_text_lt_transitive,
    text_eq,
    text_less,
    text_lt,
    views,
};

verus! {

/// Each name is smaller than all that follow it.
pub open spec fn strictly_sorted(s: Seq<Seq<char>>) -> bool {
    forall|i: int, j: int| 0 <= i < j < s.len() ==> text_lt(#[trigger] s[i], #[trigger] s[j])
}

/// `s` with `n` put at its place in the order, unless `n` is in it already.
pub open spec fn with_name(s: Seq<Seq<char>>, n: Seq<char>) -> Seq<Seq<char>>
    decreases s.len(),
{
    if s.len() == 0 {
        seq![n]
    } else if s[0] == n {
        s
    } else if text_lt(n, s[0]) {
        seq![n] + s
    } else {
        seq![s[0]] + with_name(s.drop_first(), n)
    }
}

/// Some entry of `entries` carries the name `name`.
pub open spec fn carries(entries: Entries<Seq<char>>, name: Seq<char>) -> bool {
    exists|i: int| 0 <= i < entries.len() && (#[trigger] entries[i]).1 == name
}

/// The distinct values of `entries`, in ascending order.
pub open spec fn names_of(entries: Entries<Seq<char>>) -> Seq<Seq<char>>
    decreases entries.len(),
{
    if entries.len() == 0 {
        Seq::empty()
    } else {
        with_name(names_of(entries.drop_last()), entries.last().1)
    }
}

/// Adding a name keeps a sorted list sorted; the list then holds the name
/// and what it held before, and nothing else.
pub proof fn lemma_with_name(s: Seq<Seq<char>>, n: Seq<char>)
    requires
        strictly_sorted(s),
    ensures
        strictly_sorted(with_name(s, n)),
        forall|x: Seq<char>| with_name(s, n).contains(x) <==> (x == n || s.contains(x)),
        with_name(s, n).len() == if s.contains(n) {
            s.len()
        } else {
            s.len() + 1
        },
    decreases s.len(),
{
    let t = with_name(s, n);
    if s.len() == 0 {
        assert(t[0] == n);
        assert forall|x: Seq<char>| t.contains(x) <==> (x == n || s.contains(x)) by {}
    } else if s[0] == n {
        assert(s.contains(n));
    } else if text_lt(n, s[0]) {
        assert forall|i: int, j: int| 0 <= i < j < t.len() implies text_lt(
            #[trigger] t[i],
            #[trigger] t[j],
        ) by {
            if i == 0 {
                if j > 1 {
                    assert(text_lt(s[0], s[j - 1]));
                    lemma_text_lt_transitive(n, s[0], s[j - 1]);
                }
            } else {
                assert(text_lt(s[i - 1], s[j - 1]));
            }
        }
        assert forall|x: Seq<char>| t.contains(x) <==> (x == n || s.contains(x)) by {
            if t.contains(x) {
                let i = choose|i: int| 0 <= i < t.len() && t[i] == x;
                if i > 0 {
                    assert(s[i - 1] == x);
                }
            }
            if x == n {
                assert(t[0] == n);
            }
            if s.contains(x) {
                let i = choose|i: int| 0 <= i < s.len() && s[i] == x;
                assert(t[i + 1] == x);
            }
        }
        if s.contains(n) {
            let i = choose|i: int| 0 <= i < s.len() && s[i] == n;
            lemma_text_lt_total(n, n);
            if i > 0 {
                assert(text_lt(s[0], s[i]));
                lemma_text_lt_total(n, s[0]);
            }
        }
    } else {
        let rest = s.drop_first();
        assert forall|i: int, j: int| 0 <= i < j < rest.len() implies text_lt(
            #[trigger] rest[i],
            #[trigger] rest[j],
        ) by {
            assert(text_lt(s[i + 1], s[j + 1]));
        }
        lemma_with_name(rest, n);
        let r = with_name(rest, n);
        lemma_text_lt_total(n, s[0]);
        assert(text_lt(s[0], n));
        assert forall|k: int| 0 <= k < r.len() implies text_lt(s[0], #[trigger] r[k]) by {
            assert(r.contains(r[k]));
            if r[k] != n {
                assert(rest.contains(r[k]));
                let m = choose|m: int| 0 <= m < rest.len() && rest[m] == r[k];
                assert(text_lt(s[0], s[m + 1]));
            }
        }
        assert forall|i: int, j: int| 0 <= i < j < t.len() implies text_lt(
            #[trigger] t[i],
            #[trigger] t[j],
        ) by {
            if i == 0 {
                assert(t[j] == r[j - 1]);
            } else {
                assert(text_lt(r[i - 1], r[j - 1]));
            }
        }
        assert forall|x: Seq<char>| t.contains(x) <==> (x == n || s.contains(x)) by {
            if t.contains(x) {
                let i = choose|i: int| 0 <= i < t.len() && t[i] == x;
                if i > 0 {
                    assert(r[i - 1] == x);
                    assert(r.contains(x));
                    if x != n {
                        assert(rest.contains(x));
                        let m = choose|m: int| 0 <= m < rest.len() && rest[m] == x;
                        assert(s[m + 1] == x);
                    }
                } else {
                    assert(s[0] == x);
                }
            }
            if x == n {
                assert(r.contains(n));
                let i = choose|i: int| 0 <= i < r.len() && r[i] == n;
                assert(t[i + 1] == n);
            }
            if s.contains(x) {
                let i = choose|i: int| 0 <= i < s.len() && s[i] == x;
                if i == 0 {
                    assert(t[0] == x);
                } else {
                    assert(rest[i - 1] == x);
                    assert(rest.contains(x));
                    assert(r.contains(x));
                    let m = choose|m: int| 0 <= m < r.len() && r[m] == x;
                    assert(t[m + 1] == x);
                }
            }
        }
        if s.contains(n) {
            let i = choose|i: int| 0 <= i < s.len() && s[i] == n;
            assert(rest[i - 1] == n);
            assert(rest.contains(n));
        }
        if rest.contains(n) {
            let i = choose|i: int| 0 <= i < rest.len() && rest[i] == n;
            assert(s[i + 1] == n);
        }
    }
}

/// The names of a tag map are sorted, and a name is among them exactly when
/// some entry carries it.
pub proof fn law_names_of(entries: Entries<Seq<char>>)
    ensures
        strictly_sorted(names_of(entries)),
        forall|x: Seq<char>|
            names_of(entries).contains(x) <==> exists|i: int|
                0 <= i < entries.len() && (#[trigger] entries[i]).1 == x,
        names_of(entries).len() <= entries.len(),
    decreases entries.len(),
{
    if entries.len() > 0 {
        let before = entries.drop_last();
        law_names_of(before);
        lemma_with_name(names_of(before), entries.last().1);
        let last = entries.last().1;
        let all = names_of(entries);
        assert(all == with_name(names_of(before), last));
        assert forall|x: Seq<char>|
            all.contains(x) <==> exists|i: int|
                0 <= i < entries.len() && (#[trigger] entries[i]).1 == x by {
            if all.contains(x) {
                if x == last {
                    assert(entries[entries.len() - 1].1 == x);
                } else {
                    assert(names_of(before).contains(x));
                    let i = choose|i: int| 0 <= i < before.len() && (#[trigger] before[i]).1 == x;
                    assert(entries[i].1 == x);
                }
            }
            if exists|i: int| 0 <= i < entries.len() && (#[trigger] entries[i]).1 == x {
                let i = choose|i: int| 0 <= i < entries.len() && (#[trigger] entries[i]).1 == x;
                if i < before.len() {
                    assert(before[i].1 == x);
                    assert(names_of(before).contains(x));
                } else {
                    assert(x == last);
                }
                assert(all.contains(x));
            }
        }
    } else {
        assert forall|x: Seq<char>| !names_of(entries).contains(x) by {}
    }
}

/// Two sorted lists that hold the same names are the same list.
pub proof fn law_sorted_names_unique(a: Seq<Seq<char>>, b: Seq<Seq<char>>)
    requires
        strictly_sorted(a),
        strictly_sorted(b),
        forall|x: Seq<char>| a.contains(x) <==> b.contains(x),
    ensures
        a == b,
    decreases a.len(),
{
    if a.len() == 0 {
        if b.len() > 0 {
            assert(b.contains(b[0]));
            assert(a.contains(b[0]));
        }
        assert(a =~= b);
    } else {
        assert(a.contains(a[0]));
        assert(b.contains(a[0]));
        let k = choose|k: int| 0 <= k < b.len() && b[k] == a[0];
        assert(b.contains(b[0]));
        assert(a.contains(b[0]));
        let m = choose|m: int| 0 <= m < a.len() && a[m] == b[0];
        lemma_text_lt_total(a[0], b[0]);
        if k > 0 && m > 0 {
            assert(text_lt(b[0], b[k]));
            assert(text_lt(a[0], a[m]));
        }
        assert(a[0] == b[0]);
        let ra = a.drop_first();
        let rb = b.drop_first();
        assert forall|i: int, j: int| 0 <= i < j < ra.len() implies text_lt(
            #[trigger] ra[i],
            #[trigger] ra[j],
        ) by {
            assert(text_lt(a[i + 1], a[j + 1]));
        }
        assert forall|i: int, j: int| 0 <= i < j < rb.len() implies text_lt(
            #[trigger] rb[i],
            #[trigger] rb[j],
        ) by {
            assert(text_lt(b[i + 1], b[j + 1]));
        }
        assert forall|x: Seq<char>| ra.contains(x) <==> rb.contains(x) by {
            lemma_text_lt_total(x, x);
            if ra.contains(x) {
                let i = choose|i: int| 0 <= i < ra.len() && ra[i] == x;
                assert(a[i + 1] == x);
                assert(text_lt(a[0], a[i + 1]));
                assert(a.contains(x));
                assert(b.contains(x));
                let j = choose|j: int| 0 <= j < b.len() && b[j] == x;
                assert(j > 0);
                assert(rb[j - 1] == x);
            }
            if rb.contains(x) {
                let i = choose|i: int| 0 <= i < rb.len() && rb[i] == x;
                assert(b[i + 1] == x);
                assert(text_lt(b[0], b[i + 1]));
                assert(b.contains(x));
                assert(a.contains(x));
                let j = choose|j: int| 0 <= j < a.len() && a[j] == x;
                assert(j > 0);
                assert(ra[j - 1] == x);
            }
        }
        law_sorted_names_unique(ra, rb);
        assert(a =~= seq![a[0]] + ra);
        assert(b =~= seq![b[0]] + rb);
    }
}

/// The names of a tag map depend on nothing but which names its entries
/// carry: not on the reactions that added them, not on their order, not on
/// how often a name occurs.
pub proof fn law_names_depend_on_values_only(a: Entries<Seq<char>>, b: Entries<Seq<char>>)
    requires
        forall|x: Seq<char>| #[trigger] carries(a, x) <==> carries(b, x),
    ensures
        names_of(a) == names_of(b),
{
    law_names_of(a);
    law_names_of(b);
    assert forall|x: Seq<char>| names_of(a).contains(x) <==> names_of(b).contains(x) by {
        assert(carries(a, x) <==> carries(b, x));
    }
    law_sorted_names_unique(names_of(a), names_of(b));
}

proof fn lemma_with_name_from(s: Seq<Seq<char>>, n: Seq<char>, i: int)
    requires
        0 <= i <= s.len(),
        forall|j: int| 0 <= j < i ==> text_lt(#[trigger] s[j], n),
    ensures
        with_name(s, n) == s.take(i) + with_name(s.skip(i), n),
    decreases i,
{
    if i == 0 {
        assert(s.skip(0) =~= s);
        assert(s.take(0) + with_name(s, n) =~= with_name(s, n));
    } else {
        lemma_text_lt_total(s[0], n);
        let rest = s.drop_first();
        assert forall|j: int| 0 <= j < i - 1 implies text_lt(#[trigger] rest[j], n) by {
            assert(text_lt(s[j + 1], n));
        }
        lemma_with_name_from(rest, n, i - 1);
        assert(rest.skip(i - 1) =~= s.skip(i));
        assert(seq![s[0]] + (rest.take(i - 1) + with_name(s.skip(i), n)) =~= s.take(i)
            + with_name(s.skip(i), n));
    }
}

/// Puts `name` at its place in the sorted list `names`, unless it is there
/// already.
pub fn insert_name(names: &mut Vec<String>, name: String)
    ensures
        views(final(names)@) == with_name(views(old(names)@), name@),
{
    let ghost s = views(names@);
    let mut i: usize = 0;
    while i < names.len() && text_less(names[i].as_str(), name.as_str())
        invariant
            i <= names.len(),
            names@ == old(names)@,
            forall|j: int| 0 <= j < i ==> text_lt(#[trigger] views(names@)[j], name@),
        decreases names.len() - i,
    {
        i += 1;
    }
    proof {
        lemma_with_name_from(s, name@, i as int);
        if i < names.len() {
            assert(s.skip(i as int)[0] == names@[i as int]@);
            lemma_text_lt_total(name@, names@[i as int]@);
        }
    }
    if i < names.len() && text_eq(names[i].as_str(), name.as_str()) {
        proof {
            assert(s.take(i as int) + s.skip(i as int) =~= s);
        }
    } else {
        names.insert(i, name);
        proof {
            assert(views(names@) =~= s.take(i as int) + (seq![name@] + s.skip(i as int)));
            if i == s.len() {
                assert(seq![name@] + s.skip(i as int) =~= seq![name@]);
            }
        }
    }
}

} // verus!
