//! The canonical ordering of a directory listing: paths compared
//! lexicographically by character, case-sensitively, and a verified sort
//! that puts a listing into that order.  Because the order is total, the
//! sorted listing is determined by its contents alone: re-listing an
//! unchanged directory always yields the same sequence.

use vstd::prelude::*;
use vstd::relations::{sorted_by, total_ordering};
use vstd::seq_lib::group_to_multiset_ensures;
use vstd::seq_lib::lemma_sorted_unique;

verus! {

/// Lexicographic order on paths, by character, case-sensitive: the empty
/// text comes first, and otherwise the first differing character decides.
pub open spec fn lex_le(a: Seq<char>, b: Seq<char>) -> bool
    decreases a.len(),
{
    if a.len() == 0 {
        true
    } else if b.len() == 0 {
        false
    } else if a[0] == b[0] {
        lex_le(a.drop_first(), b.drop_first())
    } else {
        a[0] < b[0]
    }
}

/// The order as a relation value, for the sortedness predicates.
pub open spec fn lex_leq() -> spec_fn(Seq<char>, Seq<char>) -> bool {
    |a: Seq<char>, b: Seq<char>| lex_le(a, b)
}

/// The order is reflexive.
pub proof fn lemma_lex_le_refl(a: Seq<char>)
    ensures
        lex_le(a, a),
    decreases a.len(),
{
    if a.len() > 0 {
        lemma_lex_le_refl(a.drop_first());
    }
}

/// The order is total and antisymmetric: of two paths one comes first, and
/// only equal paths come before each other.
pub proof fn lemma_lex_le_total(a: Seq<char>, b: Seq<char>)
    ensures
        lex_le(a, b) || lex_le(b, a),
        lex_le(a, b) && lex_le(b, a) ==> a == b,
    decreases a.len(),
{
    if a.len() == 0 {
        if lex_le(b, a) {
            assert(b.len() == 0);
            assert(a =~= b);
        }
    } else if b.len() == 0 {
    } else if a[0] == b[0] {
        lemma_lex_le_total(a.drop_first(), b.drop_first());
        if lex_le(a, b) && lex_le(b, a) {
            assert(a.drop_first() == b.drop_first());
            assert forall|i: int| 0 <= i < a.len() implies a[i] == b[i] by {
                if i > 0 {
                    assert(a.drop_first()[i - 1] == b.drop_first()[i - 1]);
                }
            }
            assert(a =~= b);
        }
    }
}

/// The order is transitive.
pub proof fn lemma_lex_le_trans(a: Seq<char>, b: Seq<char>, c: Seq<char>)
    requires
        lex_le(a, b),
        lex_le(b, c),
    ensures
        lex_le(a, c),
    decreases a.len(),
{
    if a.len() == 0 {
    } else {
        assert(b.len() > 0);
        assert(c.len() > 0);
        if a[0] == b[0] && b[0] == c[0] {
            lemma_lex_le_trans(a.drop_first(), b.drop_first(), c.drop_first());
        }
    }
}

/// The order is a total ordering in the library's sense.
pub proof fn lemma_lex_total_ordering()
    ensures
        total_ordering(lex_leq()),
{
    assert forall|a: Seq<char>| #[trigger] lex_leq()(a, a) by {
        lemma_lex_le_refl(a);
    }
    assert forall|a: Seq<char>, b: Seq<char>|
        #[trigger] lex_leq()(a, b) && #[trigger] lex_leq()(b, a) implies a == b by {
        lemma_lex_le_total(a, b);
    }
    assert forall|a: Seq<char>, b: Seq<char>, c: Seq<char>|
        #[trigger] lex_leq()(a, b) && #[trigger] lex_leq()(b, c) implies lex_leq()(a, c) by {
        lemma_lex_le_trans(a, b, c);
    }
    assert forall|a: Seq<char>, b: Seq<char>| #[trigger]
        lex_leq()(a, b) || #[trigger] lex_leq()(b, a) by {
        lemma_lex_le_total(a, b);
    }
}

/// When the first `i` characters agree, the order is decided by the rest.
proof fn lemma_lex_le_skip(a: Seq<char>, b: Seq<char>, i: int)
    requires
        0 <= i < a.len(),
        0 <= i < b.len(),
        a[i] == b[i],
    ensures
        lex_le(a.skip(i), b.skip(i)) == lex_le(a.skip(i + 1), b.skip(i + 1)),
{
    assert(a.skip(i)[0] == a[i]);
    assert(b.skip(i)[0] == b[i]);
    assert(a.skip(i).drop_first() =~= a.skip(i + 1));
    assert(b.skip(i).drop_first() =~= b.skip(i + 1));
}

/// Decide the lexicographic order of two paths.
pub fn str_le(a: &str, b: &str) -> (r: bool)
    ensures
        r == lex_le(a@, b@),
{
    let la = a.unicode_len();
    let lb = b.unicode_len();
    proof {
        assert(a@.skip(0) =~= a@);
        assert(b@.skip(0) =~= b@);
    }
    let mut i: usize = 0;
    while i < la && i < lb
        invariant
            0 <= i <= la,
            0 <= i <= lb,
            la == a@.len(),
            lb == b@.len(),
            lex_le(a@, b@) == lex_le(a@.skip(i as int), b@.skip(i as int)),
        decreases la - i,
    {
        let ca = a.get_char(i);
        let cb = b.get_char(i);
        if ca != cb {
            proof {
                assert(a@.skip(i as int)[0] == a@[i as int]);
                assert(b@.skip(i as int)[0] == b@[i as int]);
            }
            return ca < cb;
        }
        proof {
            lemma_lex_le_skip(a@, b@, i as int);
        }
        i += 1;
    }
    proof {
        if i >= la {
            assert(a@.skip(i as int).len() == 0);
        } else {
            assert(b@.skip(i as int).len() == 0);
            assert(a@.skip(i as int).len() > 0);
        }
    }
    i >= la
}

/// A sorted sequence stays sorted when an element that nothing exceeds is
/// pushed at its end.
proof fn lemma_sorted_push(s: Seq<Seq<char>>, x: Seq<char>)
    requires
        sorted_by(s, lex_leq()),
        forall|i: int| 0 <= i < s.len() ==> lex_le(#[trigger] s[i], x),
    ensures
        sorted_by(s.push(x), lex_leq()),
{
    let t = s.push(x);
    assert forall|i: int, j: int| 0 <= i < j < t.len() implies #[trigger] lex_leq()(t[i], t[j]) by {
        if j < s.len() {
            assert(lex_leq()(s[i], s[j]));
        } else {
            assert(lex_le(s[i], x));
        }
    }
}

/// Sort a listing into the canonical order.  The result is sorted and holds
/// exactly the same paths, with multiplicity.
pub fn sort_listing(list: Vec<String>) -> (r: Vec<String>)
    ensures
        sorted_by(r.deep_view(), lex_leq()),
        r.deep_view().to_multiset() == list.deep_view().to_multiset(),
{
    broadcast use group_to_multiset_ensures;

    let ghost dv = list.deep_view();
    let mut rest = list;
    let mut out: Vec<String> = Vec::new();
    proof {
        assert(out.deep_view() =~= Seq::<Seq<char>>::empty());
        assert(out.deep_view().to_multiset().add(rest.deep_view().to_multiset())
            =~= dv.to_multiset());
    }
    while rest.len() > 0
        invariant
            out.deep_view().to_multiset().add(rest.deep_view().to_multiset())
                == dv.to_multiset(),
            sorted_by(out.deep_view(), lex_leq()),
            forall|i: int, j: int|
                0 <= i < out.deep_view().len() && 0 <= j < rest.deep_view().len() ==> lex_le(
                    #[trigger] out.deep_view()[i],
                    #[trigger] rest.deep_view()[j],
                ),
        decreases rest.len(),
    {
        let ghost out0 = out.deep_view();
        let ghost rest0 = rest.deep_view();
        let mut m: usize = 0;
        let mut j: usize = 1;
        proof {
            lemma_lex_le_refl(rest0[0]);
        }
        while j < rest.len()
            invariant
                0 <= m < rest@.len(),
                1 <= j <= rest@.len(),
                rest.deep_view() == rest0,
                forall|k: int| 0 <= k < j ==> lex_le(rest0[m as int], #[trigger] rest0[k]),
            decreases rest@.len() - j,
        {
            if str_le(rest[j].as_str(), rest[m].as_str()) {
                proof {
                    assert forall|k: int| 0 <= k < j + 1 implies lex_le(
                        rest0[j as int],
                        #[trigger] rest0[k],
                    ) by {
                        if k < j {
                            lemma_lex_le_trans(rest0[j as int], rest0[m as int], rest0[k]);
                        } else {
                            lemma_lex_le_refl(rest0[j as int]);
                        }
                    }
                }
                m = j;
            } else {
                proof {
                    lemma_lex_le_total(rest0[j as int], rest0[m as int]);
                }
            }
            j += 1;
        }
        let ghost restv0 = rest@;
        let x = rest.remove(m);
        let ghost xv = x@;
        proof {
            assert(xv == rest0[m as int]);
            assert forall|k: int| 0 <= k < rest.deep_view().len() implies rest.deep_view()[k]
                == rest0.remove(m as int)[k] by {
                if k < m as int {
                    assert(rest@[k] == restv0[k]);
                } else {
                    assert(rest@[k] == restv0[k + 1]);
                }
            }
            assert(rest.deep_view() =~= rest0.remove(m as int));
        }
        out.push(x);
        proof {
            broadcast use vstd::multiset::group_multiset_axioms;

            assert(out.deep_view() =~= out0.push(xv));
            // Multisets: moving the minimum from `rest` to `out` keeps the
            // combined contents.
            vstd::seq_lib::to_multiset_build(out0, xv);
            vstd::seq_lib::to_multiset_remove(rest0, m as int);
            vstd::seq_lib::to_multiset_contains(rest0, xv);
            assert(rest0[m as int] == xv);
            assert(rest0.contains(xv));
            assert(rest0.to_multiset().count(xv) > 0);
            assert(out.deep_view().to_multiset() =~= out0.to_multiset().insert(xv));
            assert(rest.deep_view().to_multiset() =~= rest0.to_multiset().remove(xv));
            assert(out.deep_view().to_multiset().add(rest.deep_view().to_multiset())
                =~= out0.to_multiset().add(rest0.to_multiset()));
            // Order: everything already emitted precedes the minimum, so the
            // output stays sorted and still precedes everything left.
            assert forall|i: int| 0 <= i < out0.len() implies lex_le(#[trigger] out0[i], xv) by {
                assert(lex_le(out0[i], rest0[m as int]));
            }
            lemma_sorted_push(out0, xv);
            assert forall|i: int, j2: int|
                0 <= i < out.deep_view().len() && 0 <= j2 < rest.deep_view().len() implies lex_le(
                #[trigger] out.deep_view()[i],
                #[trigger] rest.deep_view()[j2],
            ) by {
                let rd = rest.deep_view();
                assert(rd[j2] == rest0.remove(m as int)[j2]);
                if j2 < m as int {
                    assert(rd[j2] == rest0[j2]);
                } else {
                    assert(rd[j2] == rest0[j2 + 1]);
                }
                if i < out0.len() {
                    assert(out.deep_view()[i] == out0[i]);
                } else {
                    assert(out.deep_view()[i] == xv);
                }
            }
        }
    }
    out
}

/// Determinism of the canonical listing: two sorted listings of the same
/// paths are the same sequence, entry for entry.  Re-listing an unchanged
/// directory therefore always yields the same sub-index-to-path mapping.
pub proof fn lemma_listing_deterministic(a: Seq<Seq<char>>, b: Seq<Seq<char>>)
    requires
        sorted_by(a, lex_leq()),
        sorted_by(b, lex_leq()),
        a.to_multiset() == b.to_multiset(),
    ensures
        a == b,
{
    lemma_lex_total_ordering();
    lemma_sorted_unique(a, b, lex_leq());
}

} // verus!
