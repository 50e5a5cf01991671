//! The order in which paths are listed: part by part, as the standard
//! library orders paths.
//!
//! A path is a run of parts held apart by separators. Two paths are compared
//! part by part, and two parts byte by byte, so a directory comes before any
//! sibling whose name merely starts with the directory's name: `a/b` comes
//! before `a.b`. The order is computed in one pass over the text: it is the
//! lexicographic order of the bytes with the separator ranked below every
//! other byte, which is proved to be the same order.

use vstd::prelude::*;
use vstd::string::StringSliceAdditionalSpecFns;
use vstd::utf8::{encode_utf8, encode_utf8_decode_utf8};
use crate::parts::{by_parts_less, lemma_by_parts_is_lex};

verus! {

/// The byte that holds the parts of a path apart: `/`.
pub const SEPARATOR: u8 = 47;

/// The rank of a byte within a path: the separator comes first, the other
/// bytes follow in their own order.
pub open spec fn byte_rank(b: u8) -> int {
    if b == SEPARATOR {
        0
    } else {
        b + 1
    }
}

/// `a` and `b` agree before position `k`, and at `k` either `a` has ended
/// while `b` goes on, or `a` holds the byte of lower rank.
pub open spec fn parts_at(a: Seq<u8>, b: Seq<u8>, k: int) -> bool {
    &&& 0 <= k <= a.len()
    &&& k < b.len()
    &&& forall|j: int| 0 <= j < k ==> a[j] == b[j]
    &&& k < a.len() ==> byte_rank(a[k]) < byte_rank(b[k])
}

/// Lexicographic order on byte strings by the rank of their bytes, strict.
pub open spec fn lex_less(a: Seq<u8>, b: Seq<u8>) -> bool {
    exists|k: int| parts_at(a, b, k)
}

/// The strict order on paths: part by part over their encoded text.
pub open spec fn path_less(a: Seq<char>, b: Seq<char>) -> bool {
    by_parts_less(encode_utf8(a), encode_utf8(b))
}

/// A sequence of paths in strictly increasing order. Such a sequence holds
/// no path twice.
pub open spec fn strictly_sorted(s: Seq<Seq<char>>) -> bool {
    forall|i: int, j: int| 0 <= i < j < s.len() ==> path_less(s[i], s[j])
}

/// How one value stands to another in the order.
#[derive(Debug, Clone, Copy, PartialEq, Eq, Structural)]
pub enum Rank {
    Before,
    Same,
    After,
}

/// No byte string precedes itself.
pub proof fn lemma_lex_irreflexive(a: Seq<u8>)
    ensures
        !lex_less(a, a),
{
}

/// The order is transitive.
pub proof fn lemma_lex_transitive(a: Seq<u8>, b: Seq<u8>, c: Seq<u8>)
    requires
        lex_less(a, b),
        lex_less(b, c),
    ensures
        lex_less(a, c),
{
    let k1 = choose|k: int| parts_at(a, b, k);
    let k2 = choose|k: int| parts_at(b, c, k);
    let k = if k1 <= k2 { k1 } else { k2 };
    assert(parts_at(a, c, k));
}

/// Where one byte string precedes another, the second does not precede the
/// first, and the two differ.
pub proof fn lemma_lex_asymmetric(a: Seq<u8>, b: Seq<u8>)
    requires
        lex_less(a, b),
    ensures
        !lex_less(b, a),
        a != b,
{
}

/// Two paths with the same encoding are the same path.
pub proof fn lemma_encoding_injective(a: Seq<char>, b: Seq<char>)
    requires
        encode_utf8(a) == encode_utf8(b),
    ensures
        a == b,
{
    encode_utf8_decode_utf8(a);
    encode_utf8_decode_utf8(b);
}

/// A path never precedes itself, and of two paths at most one precedes the
/// other.
pub proof fn lemma_path_less_strict(a: Seq<char>, b: Seq<char>)
    ensures
        !path_less(a, a),
        path_less(a, b) ==> !path_less(b, a) && a != b,
{
    lemma_by_parts_is_lex(encode_utf8(a), encode_utf8(a));
    lemma_by_parts_is_lex(encode_utf8(a), encode_utf8(b));
    lemma_by_parts_is_lex(encode_utf8(b), encode_utf8(a));
    lemma_lex_irreflexive(encode_utf8(a));
    if path_less(a, b) {
        lemma_lex_asymmetric(encode_utf8(a), encode_utf8(b));
    }
}

/// The order on paths is transitive.
pub proof fn lemma_path_less_transitive(a: Seq<char>, b: Seq<char>, c: Seq<char>)
    requires
        path_less(a, b),
        path_less(b, c),
    ensures
        path_less(a, c),
{
    lemma_by_parts_is_lex(encode_utf8(a), encode_utf8(b));
    lemma_by_parts_is_lex(encode_utf8(b), encode_utf8(c));
    lemma_by_parts_is_lex(encode_utf8(a), encode_utf8(c));
    lemma_lex_transitive(encode_utf8(a), encode_utf8(b), encode_utf8(c));
}

/// The paths of a set in listing order: the strictly increasing sequence
/// that holds exactly the paths of the set.
pub open spec fn is_listing(s: Seq<Seq<char>>, paths: Set<Seq<char>>) -> bool {
    strictly_sorted(s) && s.to_set() == paths
}

/// The listing of a set of paths.
pub open spec fn listing(paths: Set<Seq<char>>) -> Seq<Seq<char>> {
    choose|s: Seq<Seq<char>>| is_listing(s, paths)
}

/// A set has at most one listing.
pub proof fn lemma_listing_unique(s: Seq<Seq<char>>, t: Seq<Seq<char>>)
    requires
        strictly_sorted(s),
        strictly_sorted(t),
        s.to_set() == t.to_set(),
    ensures
        s == t,
    decreases s.len(),
{
    if s.len() == 0 {
        if t.len() > 0 {
            assert(t.to_set().contains(t[0]));
        }
    } else {
        assert(s.to_set().contains(s[0]));
        let j = choose|j: int| 0 <= j < t.len() && t[j] == s[0];
        assert(t.to_set().contains(t[0]));
        if j > 0 {
            lemma_path_less_strict(s[0], t[0]);
            lemma_path_less_strict(t[0], s[0]);
        }
        let s1 = s.drop_first();
        let t1 = t.drop_first();
        assert forall|p: Seq<char>| s1.to_set().contains(p) <==> t1.to_set().contains(p) by {
            if s1.contains(p) {
                lemma_path_less_strict(s[0], p);
                assert(s.to_set().contains(p));
                let b = choose|b: int| 0 <= b < t.len() && t[b] == p;
                assert(t1[b - 1] == p);
            }
            if t1.contains(p) {
                lemma_path_less_strict(t[0], p);
                assert(t.to_set().contains(p));
                let b = choose|b: int| 0 <= b < s.len() && s[b] == p;
                assert(s1[b - 1] == p);
            }
        }
        assert(s1.to_set() =~= t1.to_set());
        assert forall|a: int, b: int| 0 <= a < b < s1.len() implies path_less(s1[a], s1[b]) by {
        }
        assert forall|a: int, b: int| 0 <= a < b < t1.len() implies path_less(t1[a], t1[b]) by {
        }
        lemma_listing_unique(s1, t1);
        assert(s =~= seq![s[0]] + s1);
    }
}

/// A strictly increasing sequence is the listing of the set of its paths.
pub proof fn lemma_sorted_is_listing(s: Seq<Seq<char>>)
    requires
        strictly_sorted(s),
    ensures
        listing(s.to_set()) == s,
{
    assert(is_listing(s, s.to_set()));
    lemma_listing_unique(s, listing(s.to_set()));
}

/// The rank of a byte, computed.
pub fn rank_of(b: u8) -> (r: u16)
    ensures
        r == byte_rank(b),
{
    if b == SEPARATOR {
        0
    } else {
        b as u16 + 1
    }
}

/// Ranks the text of one path against that of another, part by part. One
/// pass over the bytes does it, the separator taken as the lowest of them.
pub fn rank_bytes(a: &[u8], b: &[u8]) -> (r: Rank)
    ensures
        r == Rank::Before <==> by_parts_less(a@, b@),
        r == Rank::Same <==> a@ == b@,
        r == Rank::After <==> by_parts_less(b@, a@),
{
    proof {
        lemma_by_parts_is_lex(a@, b@);
        lemma_by_parts_is_lex(b@, a@);
    }
    let mut i: usize = 0;
    while i < a.len() && i < b.len()
        invariant
            i <= a.len(),
            i <= b.len(),
            forall|j: int| 0 <= j < i ==> a@[j] == b@[j],
            by_parts_less(a@, b@) == lex_less(a@, b@),
            by_parts_less(b@, a@) == lex_less(b@, a@),
        decreases a.len() - i,
    {
        let here = rank_of(a[i]);
        let there = rank_of(b[i]);
        if here < there {
            proof {
                assert(parts_at(a@, b@, i as int));
                lemma_lex_asymmetric(a@, b@);
            }
            return Rank::Before;
        }
        if here > there {
            proof {
                assert(parts_at(b@, a@, i as int));
                lemma_lex_asymmetric(b@, a@);
            }
            return Rank::After;
        }
        i = i + 1;
    }
    if i < b.len() {
        proof {
            assert(parts_at(a@, b@, i as int));
            lemma_lex_asymmetric(a@, b@);
        }
        Rank::Before
    } else if i < a.len() {
        proof {
            assert(parts_at(b@, a@, i as int));
            lemma_lex_asymmetric(b@, a@);
        }
        Rank::After
    } else {
        proof {
            assert(a@ =~= b@);
            lemma_lex_irreflexive(a@);
        }
        Rank::Same
    }
}

/// Ranks one path against another.
pub fn rank_paths(a: &str, b: &str) -> (r: Rank)
    ensures
        r == Rank::Before <==> path_less(a@, b@),
        r == Rank::Same <==> a@ == b@,
        r == Rank::After <==> path_less(b@, a@),
{
    proof {
        if a.spec_bytes() == b.spec_bytes() {
            lemma_encoding_injective(a@, b@);
        }
    }
    rank_bytes(a.as_bytes(), b.as_bytes())
}

} // verus!
