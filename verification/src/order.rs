//! Ordinal (case-sensitive, by Unicode scalar value) lexicographic order on
//! names.
//!
//! The catalog presented to the user is sorted with this order; the laws
//! here (totality, antisymmetry, transitivity) are what make a sorted,
//! deterministic catalog possible.

use vstd::multiset::Multiset;
use vstd::prelude::*;

verus! {

/// Ordinal lexicographic "less than or equal": compares character by
/// character by Unicode scalar value; a prefix sorts before its extensions.
pub open spec fn lex_le(a: Seq<char>, b: Seq<char>) -> bool
    decreases a.len(),
{
    if a.len() == 0 {
        true
    } else if b.len() == 0 {
        false
    } else if a[0] < b[0] {
        true
    } else if b[0] < a[0] {
        false
    } else {
        lex_le(a.skip(1), b.skip(1))
    }
}

/// Strict form of [`lex_le`].
pub open spec fn lex_lt(a: Seq<char>, b: Seq<char>) -> bool {
    lex_le(a, b) && a != b
}

/// The order is total: any two names are comparable.
pub proof fn lemma_lex_le_total(a: Seq<char>, b: Seq<char>)
    ensures
        lex_le(a, b) || lex_le(b, a),
    decreases a.len(),
{
    if a.len() == 0 || b.len() == 0 {
    } else if a[0] < b[0] || b[0] < a[0] {
    } else {
        lemma_lex_le_total(a.skip(1), b.skip(1));
    }
}

/// The order is antisymmetric: mutual `lex_le` means equal names.
pub proof fn lemma_lex_le_antisymmetric(a: Seq<char>, b: Seq<char>)
    requires
        lex_le(a, b),
        lex_le(b, a),
    ensures
        a == b,
    decreases a.len(),
{
    if a.len() == 0 {
        assert(b.len() == 0);
        assert(a =~= b);
    } else {
        assert(b.len() > 0);
        assert(!(a[0] < b[0]) && !(b[0] < a[0]));
        assert(a[0] == b[0]);
        lemma_lex_le_antisymmetric(a.skip(1), b.skip(1));
        assert(a =~= seq![a[0]] + a.skip(1));
        assert(b =~= seq![b[0]] + b.skip(1));
    }
}

/// The order is transitive.
pub proof fn lemma_lex_le_transitive(a: Seq<char>, b: Seq<char>, c: Seq<char>)
    requires
        lex_le(a, b),
        lex_le(b, c),
    ensures
        lex_le(a, c),
    decreases a.len(),
{
    if a.len() == 0 || b.len() == 0 || c.len() == 0 {
    } else if a[0] == b[0] && b[0] == c[0] {
        lemma_lex_le_transitive(a.skip(1), b.skip(1), c.skip(1));
    }
}

/// A sequence of names in ascending ordinal order (duplicates allowed).
pub open spec fn sorted_names(s: Seq<Seq<char>>) -> bool {
    forall|i: int, j: int| 0 <= i <= j < s.len() ==> lex_le(s[i], s[j])
}

/// Where a name lands in an already sorted sequence: after every element
/// that is `lex_le` it (so an equal name keeps its earlier position —
/// this is what makes the sort stable), before the first strictly greater
/// one.
pub open spec fn insert_name(x: Seq<char>, s: Seq<Seq<char>>) -> Seq<Seq<char>>
    decreases s.len(),
{
    if s.len() == 0 {
        seq![x]
    } else if lex_le(s[0], x) {
        seq![s[0]] + insert_name(x, s.skip(1))
    } else {
        seq![x] + s
    }
}

/// The sorted arrangement of a sequence of names: each element, left to
/// right, inserted into the sorted arrangement of those before it.
pub open spec fn sort_spec(s: Seq<Seq<char>>) -> Seq<Seq<char>>
    decreases s.len(),
{
    if s.len() == 0 {
        Seq::empty()
    } else {
        insert_name(s.last(), sort_spec(s.drop_last()))
    }
}

/// Inserting adds exactly one element.
pub proof fn lemma_insert_name_len(x: Seq<char>, s: Seq<Seq<char>>)
    ensures
        insert_name(x, s).len() == s.len() + 1,
    decreases s.len(),
{
    if s.len() > 0 && lex_le(s[0], x) {
        lemma_insert_name_len(x, s.skip(1));
    }
}

/// Sorting keeps the length.
pub proof fn lemma_sort_spec_len(s: Seq<Seq<char>>)
    ensures
        sort_spec(s).len() == s.len(),
    decreases s.len(),
{
    if s.len() > 0 {
        lemma_sort_spec_len(s.drop_last());
        lemma_insert_name_len(s.last(), sort_spec(s.drop_last()));
    }
}

/// Inserting into a name multiset is what insertion does to the sequence.
pub proof fn lemma_insert_name_multiset(x: Seq<char>, s: Seq<Seq<char>>)
    ensures
        insert_name(x, s).to_multiset() == s.to_multiset().insert(x),
    decreases s.len(),
{
    broadcast use vstd::seq_lib::group_to_multiset_ensures;

    if s.len() == 0 {
        assert(seq![x] =~= Seq::<Seq<char>>::empty().push(x));
        assert(s.to_multiset() =~= Multiset::<Seq<char>>::empty());
        assert(insert_name(x, s).to_multiset() =~= s.to_multiset().insert(x));
    } else if lex_le(s[0], x) {
        lemma_insert_name_multiset(x, s.skip(1));
        let t = insert_name(x, s.skip(1));
        assert(seq![s[0]] + t =~= t.insert(0, s[0]));
        assert(t.insert(0, s[0]).remove(0) =~= t);
        assert(t.insert(0, s[0]).to_multiset().remove(s[0]) =~= t.to_multiset());
        assert(s =~= s.skip(1).insert(0, s[0]));
        assert(s.to_multiset().remove(s[0]) =~= s.skip(1).to_multiset());
        assert(insert_name(x, s).to_multiset() =~= s.to_multiset().insert(x));
    } else {
        assert(seq![x] + s =~= s.insert(0, x));
        assert(s.insert(0, x).remove(0) =~= s);
        assert(s.insert(0, x).to_multiset().remove(x) =~= s.to_multiset());
        assert(insert_name(x, s).to_multiset() =~= s.to_multiset().insert(x));
    }
}

/// The sorted arrangement is a permutation: it holds exactly the names
/// that went in, with their multiplicities.
pub proof fn lemma_sort_spec_multiset(s: Seq<Seq<char>>)
    ensures
        sort_spec(s).to_multiset() == s.to_multiset(),
    decreases s.len(),
{
    broadcast use vstd::seq_lib::group_to_multiset_ensures;

    if s.len() > 0 {
        lemma_sort_spec_multiset(s.drop_last());
        lemma_insert_name_multiset(s.last(), sort_spec(s.drop_last()));
        assert(s =~= s.drop_last().push(s.last()));
        assert(s.drop_last().push(s.last()).to_multiset()
            =~= s.drop_last().to_multiset().insert(s.last()));
    }
}

/// `y` precedes (or equals) every name in `s`.
pub open spec fn name_lower_bound(y: Seq<char>, s: Seq<Seq<char>>) -> bool {
    forall|i: int| 0 <= i < s.len() ==> lex_le(y, s[i])
}

/// Inserting into a sorted sequence keeps it sorted, and keeps any lower
/// bound that also precedes the inserted name.
pub proof fn lemma_insert_name_sorted(x: Seq<char>, s: Seq<Seq<char>>)
    requires
        sorted_names(s),
    ensures
        sorted_names(insert_name(x, s)),
        forall|y: Seq<char>|
            name_lower_bound(y, s) && lex_le(y, x) ==> #[trigger] name_lower_bound(
                y,
                insert_name(x, s),
            ),
    decreases s.len(),
{
    let r = insert_name(x, s);
    if s.len() == 0 {
        lemma_lex_le_total(x, x);
        assert(r[0] == x);
        assert forall|y: Seq<char>|
            name_lower_bound(y, s) && lex_le(y, x) implies #[trigger] name_lower_bound(
            y,
            r,
        ) by {
            assert(r[0] == x);
        };
    } else if lex_le(s[0], x) {
        let tail = s.skip(1);
        let t = insert_name(x, tail);
        assert forall|i: int, j: int| 0 <= i <= j < tail.len() implies lex_le(
            tail[i],
            tail[j],
        ) by {
            assert(lex_le(s[i + 1], s[j + 1]));
        };
        lemma_insert_name_sorted(x, tail);
        lemma_insert_name_len(x, tail);
        assert(r =~= seq![s[0]] + t);
        // s[0] is a lower bound of the tail (s is sorted) and precedes x,
        // so by induction it is a lower bound of the new tail.
        assert forall|i: int| 0 <= i < tail.len() implies lex_le(s[0], tail[i]) by {
            assert(lex_le(s[0], s[i + 1]));
        };
        assert(name_lower_bound(s[0], tail));
        assert(name_lower_bound(s[0], t));
        assert forall|i: int, j: int| 0 <= i <= j < r.len() implies lex_le(r[i], r[j]) by {
            if i == 0 {
                if j == 0 {
                    lemma_lex_le_total(s[0], s[0]);
                } else {
                    assert(r[j] == t[j - 1]);
                    assert(lex_le(s[0], t[j - 1]));
                }
            } else {
                assert(lex_le(t[i - 1], t[j - 1]));
            }
        };
        assert forall|y: Seq<char>|
            name_lower_bound(y, s) && lex_le(y, x) implies #[trigger] name_lower_bound(
            y,
            r,
        ) by {
            assert forall|i: int| 0 <= i < tail.len() implies lex_le(y, tail[i]) by {
                assert(lex_le(y, s[i + 1]));
            };
            assert(name_lower_bound(y, tail));
            assert(name_lower_bound(y, t));
            assert forall|i: int| 0 <= i < r.len() implies lex_le(y, r[i]) by {
                if i == 0 {
                    assert(lex_le(y, s[0]));
                } else {
                    assert(r[i] == t[i - 1]);
                }
            };
        };
    } else {
        // x goes in front; it precedes s[0] by totality, and every other
        // name in s through s[0] by transitivity.
        lemma_lex_le_total(s[0], x);
        assert(lex_le(x, s[0]));
        assert(r =~= seq![x] + s);
        assert forall|i: int, j: int| 0 <= i <= j < r.len() implies lex_le(r[i], r[j]) by {
            if i == 0 {
                if j == 0 {
                    lemma_lex_le_total(x, x);
                } else {
                    assert(lex_le(s[0], s[j - 1]));
                    lemma_lex_le_transitive(x, s[0], s[j - 1]);
                }
            } else {
                assert(lex_le(s[i - 1], s[j - 1]));
            }
        };
        assert forall|y: Seq<char>|
            name_lower_bound(y, s) && lex_le(y, x) implies #[trigger] name_lower_bound(
            y,
            r,
        ) by {
            assert forall|i: int| 0 <= i < r.len() implies lex_le(y, r[i]) by {
                if i > 0 {
                    assert(lex_le(y, s[i - 1]));
                }
            };
        };
    }
}

/// The sorted arrangement is sorted.
pub proof fn lemma_sort_spec_sorted(s: Seq<Seq<char>>)
    ensures
        sorted_names(sort_spec(s)),
    decreases s.len(),
{
    if s.len() > 0 {
        lemma_sort_spec_sorted(s.drop_last());
        lemma_insert_name_sorted(s.last(), sort_spec(s.drop_last()));
    }
}

/// Executable ordinal comparison of two names, pinned to [`lex_le`].
pub fn str_lex_le(a: &str, b: &str) -> (r: bool)
    ensures
        r == lex_le(a@, b@),
{
    let a_len = a.unicode_len();
    let b_len = b.unicode_len();
    let mut i: usize = 0;
    proof {
        assert(a@.skip(0) =~= a@);
        assert(b@.skip(0) =~= b@);
    }
    loop
        invariant
            i <= a_len,
            i <= b_len,
            a_len == a@.len(),
            b_len == b@.len(),
            lex_le(a@, b@) == lex_le(a@.skip(i as int), b@.skip(i as int)),
        decreases a_len - i,
    {
        if i == a_len {
            return true;
        }
        if i == b_len {
            return false;
        }
        let ca = a.get_char(i);
        let cb = b.get_char(i);
        if ca < cb {
            return true;
        }
        if cb < ca {
            return false;
        }
        proof {
            let sa = a@.skip(i as int);
            let sb = b@.skip(i as int);
            assert(sa[0] == a@[i as int]);
            assert(sb[0] == b@[i as int]);
            assert(sa.skip(1) =~= a@.skip(i + 1));
            assert(sb.skip(1) =~= b@.skip(i + 1));
        }
        i = i + 1;
    }
}

} // verus!
