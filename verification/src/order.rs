//! Lexicographic order on names, and a verified sort for name lists.
//!
//! The daemon reports groups and members in no particular order, and every
//! cursor in this crate addresses them by rank in name-sorted order, so the
//! sort order is the sole source of index stability.

use vstd::prelude::*;
use vstd::multiset::Multiset;
use vstd::relations::sorted_by;
use vstd::relations::total_ordering;
use vstd::seq_lib::lemma_sorted_unique;
use vstd::string::StrSliceExecFns;

verus! {

broadcast use {vstd::seq_lib::group_to_multiset_ensures, vstd::multiset::group_multiset_axioms};

/// Lexicographic (code-point) order on character sequences.
pub open spec fn lex_le(a: Seq<char>, b: Seq<char>) -> bool
    decreases a.len(),
{
    if a.len() == 0 {
        true
    } else if b.len() == 0 {
        false
    } else if a[0] != b[0] {
        (a[0] as int) < (b[0] as int)
    } else {
        lex_le(a.drop_first(), b.drop_first())
    }
}

/// The name order as a first-class relation, for `sort_by` and `sorted_by`.
pub open spec fn name_le() -> spec_fn(Seq<char>, Seq<char>) -> bool {
    |a: Seq<char>, b: Seq<char>| lex_le(a, b)
}

/// The character sequences of a list of names.
pub open spec fn names_view(s: Seq<String>) -> Seq<Seq<char>> {
    Seq::new(s.len(), |i: int| s[i]@)
}

pub proof fn lemma_lex_le_total(a: Seq<char>, b: Seq<char>)
    ensures
        lex_le(a, b) || lex_le(b, a),
    decreases a.len(),
{
    if a.len() == 0 || b.len() == 0 {
    } else if a[0] != b[0] {
    } else {
        lemma_lex_le_total(a.drop_first(), b.drop_first());
    }
}

pub proof fn lemma_lex_le_antisymmetric(a: Seq<char>, b: Seq<char>)
    requires
        lex_le(a, b),
        lex_le(b, a),
    ensures
        a == b,
    decreases a.len(),
{
    if a.len() == 0 {
        assert(b.len() == 0);
        assert(a =~= b);
    } else {
        assert(b.len() > 0);
        assert(a[0] == b[0]);
        lemma_lex_le_antisymmetric(a.drop_first(), b.drop_first());
        assert(a.drop_first().len() == a.len() - 1);
        assert(b.drop_first().len() == b.len() - 1);
        assert(a.len() == b.len());
        assert forall|i: int| 0 <= i < a.len() implies a[i] == b[i] by {
            if i > 0 {
                assert(a[i] == a.drop_first()[i - 1]);
                assert(b[i] == b.drop_first()[i - 1]);
            }
        }
        assert(a =~= b);
    }
}

pub proof fn lemma_lex_le_transitive(a: Seq<char>, b: Seq<char>, c: Seq<char>)
    requires
        lex_le(a, b),
        lex_le(b, c),
    ensures
        lex_le(a, c),
    decreases a.len(),
{
    if a.len() == 0 {
    } else {
        assert(b.len() > 0);
        assert(c.len() > 0);
        if a[0] == b[0] && b[0] == c[0] {
            lemma_lex_le_transitive(a.drop_first(), b.drop_first(), c.drop_first());
        }
    }
}

/// The name order is a total order, so name-sorting a list pins it down
/// completely.
pub proof fn lemma_name_le_total_ordering()
    ensures
        total_ordering(name_le()),
{
    let r = name_le();
    assert forall|a: Seq<char>| #[trigger] r(a, a) by {
        lemma_lex_le_total(a, a);
    }
    assert forall|a: Seq<char>, b: Seq<char>| #[trigger] r(a, b) && #[trigger] r(b, a) implies a
        == b by {
        lemma_lex_le_antisymmetric(a, b);
    }
    assert forall|a: Seq<char>, b: Seq<char>, c: Seq<char>|
        #[trigger] r(a, b) && #[trigger] r(b, c) implies r(a, c) by {
        lemma_lex_le_transitive(a, b, c);
    }
    assert forall|a: Seq<char>, b: Seq<char>| #[trigger] r(a, b) || #[trigger] r(b, a) by {
        lemma_lex_le_total(a, b);
    }
}

/// Comparing two sequences that agree on their first `i` characters comes
/// down to comparing what follows those characters.
proof fn lemma_lex_le_common_prefix(a: Seq<char>, b: Seq<char>, i: int)
    requires
        0 <= i <= a.len(),
        i <= b.len(),
        forall|k: int| 0 <= k < i ==> a[k] == b[k],
    ensures
        lex_le(a, b) == lex_le(a.skip(i), b.skip(i)),
    decreases i,
{
    if i == 0 {
        assert(a.skip(0) =~= a);
        assert(b.skip(0) =~= b);
    } else {
        assert(a[0] == b[0]);
        assert(forall|k: int|
            0 <= k < i - 1 ==> a.drop_first()[k] == b.drop_first()[k]);
        lemma_lex_le_common_prefix(a.drop_first(), b.drop_first(), i - 1);
        assert(a.drop_first().skip(i - 1) =~= a.skip(i));
        assert(b.drop_first().skip(i - 1) =~= b.skip(i));
    }
}

/// Compares two names; `true` when `a` sorts at or before `b`.
pub fn str_le(a: &str, b: &str) -> (r: bool)
    ensures
        r == lex_le(a@, b@),
{
    let a_len = a.unicode_len();
    let b_len = b.unicode_len();
    let mut i: usize = 0;
    while i < a_len && i < b_len
        invariant
            a_len == a@.len(),
            b_len == b@.len(),
            i <= a_len,
            i <= b_len,
            forall|k: int| 0 <= k < i ==> a@[k] == b@[k],
        decreases a_len - i,
    {
        let ca = a.get_char(i);
        let cb = b.get_char(i);
        if ca != cb {
            proof {
                lemma_lex_le_common_prefix(a@, b@, i as int);
                assert(a@.skip(i as int)[0] == ca);
                assert(b@.skip(i as int)[0] == cb);
            }
            return (ca as u32) < (cb as u32);
        }
        i = i + 1;
    }
    proof {
        lemma_lex_le_common_prefix(a@, b@, i as int);
        if i == a_len {
            assert(a@.skip(i as int).len() == 0);
        } else {
            assert(b@.skip(i as int).len() == 0);
            assert(a@.skip(i as int).len() > 0);
        }
    }
    i == a_len
}

proof fn lemma_names_view_push(s: Seq<String>, x: String)
    ensures
        names_view(s.push(x)) =~= names_view(s).push(x@),
{
}

proof fn lemma_names_view_remove(s: Seq<String>, i: int)
    requires
        0 <= i < s.len(),
    ensures
        names_view(s.remove(i)) =~= names_view(s).remove(i),
{
}

/// Copies a list of names.
fn clone_names(v: &Vec<String>) -> (r: Vec<String>)
    ensures
        r@ == v@,
{
    let mut r: Vec<String> = Vec::new();
    let mut i: usize = 0;
    while i < v.len()
        invariant
            i <= v@.len(),
            r@.len() == i,
            forall|k: int| 0 <= k < i ==> r@[k] == v@[k],
        decreases v@.len() - i,
    {
        r.push(v[i].clone());
        i = i + 1;
    }
    proof {
        assert(r@ =~= v@);
    }
    r
}

/// The rank of a least name in a nonempty list.
fn min_name_index(v: &Vec<String>) -> (m: usize)
    requires
        v@.len() > 0,
    ensures
        m < v@.len(),
        forall|k: int| 0 <= k < v@.len() ==> lex_le(v@[m as int]@, v@[k]@),
{
    let mut m: usize = 0;
    let mut j: usize = 1;
    proof {
        lemma_lex_le_total(v@[0]@, v@[0]@);
    }
    while j < v.len()
        invariant
            m < j,
            j <= v@.len(),
            forall|k: int| 0 <= k < j ==> lex_le(v@[m as int]@, v@[k]@),
        decreases v@.len() - j,
    {
        if str_le(v[j].as_str(), v[m].as_str()) {
            proof {
                assert forall|k: int| 0 <= k < j + 1 implies lex_le(
                    v@[j as int]@,
                    v@[k]@,
                ) by {
                    if k < j {
                        lemma_lex_le_transitive(v@[j as int]@, v@[m as int]@, v@[k]@);
                    } else {
                        lemma_lex_le_total(v@[j as int]@, v@[j as int]@);
                    }
                }
            }
            m = j;
        } else {
            proof {
                lemma_lex_le_total(v@[m as int]@, v@[j as int]@);
            }
        }
        j = j + 1;
    }
    m
}

/// Returns the names in lexicographic order: exactly the name-sorted member
/// list the member cursor ranges over.
pub fn sort_names(v: &Vec<String>) -> (r: Vec<String>)
    ensures
        names_view(r@) == names_view(v@).sort_by(name_le()),
        r@.len() == v@.len(),
{
    let mut rest = clone_names(v);
    let ghost orig: Seq<Seq<char>> = names_view(v@);
    let mut out: Vec<String> = Vec::new();
    while rest.len() > 0
        invariant
            sorted_by(names_view(out@), name_le()),
            names_view(out@).to_multiset().add(names_view(rest@).to_multiset())
                == orig.to_multiset(),
            out@.len() + rest@.len() == orig.len(),
            forall|p: int, q: int|
                0 <= p < out@.len() && 0 <= q < rest@.len() ==> lex_le(out@[p]@, rest@[q]@),
        decreases rest@.len(),
    {
        let ghost pre = rest@;
        let m = min_name_index(&rest);
        let x = rest.remove(m);
        proof {
            lemma_names_view_remove(pre, m as int);
            lemma_names_view_push(out@, x);
            assert(names_view(pre).to_multiset().count(x@) > 0) by {
                assert(names_view(pre)[m as int] == x@);
                assert(names_view(pre).contains(x@));
            }
            assert(names_view(out@.push(x)).to_multiset().add(
                names_view(rest@).to_multiset(),
            ) =~= orig.to_multiset());
            // the pushed name follows everything already placed
            assert forall|i: int, j: int|
                0 <= i < j < names_view(out@.push(x)).len() implies name_le()(
                names_view(out@.push(x))[i],
                names_view(out@.push(x))[j],
            ) by {
                if j < out@.len() {
                    assert(name_le()(names_view(out@)[i], names_view(out@)[j]));
                } else {
                    assert(lex_le(out@[i]@, pre[m as int]@));
                }
            }
        }
        out.push(x);
        proof {
            assert forall|p: int, q: int|
                0 <= p < out@.len() && 0 <= q < rest@.len() implies lex_le(
                out@[p]@,
                rest@[q]@,
            ) by {
                let q0: int = if q < m { q } else { q + 1 };
                assert(rest@[q] == pre[q0]);
                if p < out@.len() - 1 {
                    assert(lex_le(out@[p]@, pre[q0]@));
                } else {
                    assert(out@[p] == pre[m as int]);
                    assert(lex_le(pre[m as int]@, pre[q0]@));
                }
            }
        }
    }
    proof {
        assert(names_view(rest@) =~= Seq::<Seq<char>>::empty());
        assert(names_view(rest@).to_multiset() =~= Multiset::<Seq<char>>::empty());
        assert(names_view(out@).to_multiset() =~= orig.to_multiset());
        lemma_name_le_total_ordering();
        orig.lemma_sort_by_ensures(name_le());
        lemma_sorted_unique(names_view(out@), orig.sort_by(name_le()), name_le());
    }
    out
}

} // verus!
