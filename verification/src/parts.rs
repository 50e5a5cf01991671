//! Paths part by part: what the order of paths means, and the proof that
//! ranking the separator below every other byte yields it.
//!
//! For paths made of plain names, as a directory walk yields them under one
//! root, this is the order in which the standard library ranks paths. The
//! text of a path is taken as it stands: an empty part, `.` and `..` are
//! parts like any other.

use vstd::prelude::*;
use crate::order::{
    byte_rank, lemma_lex_asymmetric, lemma_lex_irreflexive, lex_less, parts_at, SEPARATOR,
};

verus! {

/// The length of the first part of a path: the number of bytes before its
/// first separator.
pub open spec fn first_part_len(s: Seq<u8>) -> nat
    decreases s.len(),
{
    if s.len() == 0 || s[0] == SEPARATOR {
        0
    } else {
        1 + first_part_len(s.drop_first())
    }
}

/// The first part of a path.
pub open spec fn first_part(s: Seq<u8>) -> Seq<u8> {
    s.subrange(0, first_part_len(s) as int)
}

/// Whether a separator, and so a further part, follows the first part.
pub open spec fn has_more_parts(s: Seq<u8>) -> bool {
    first_part_len(s) < s.len()
}

/// What follows the separator after the first part.
pub open spec fn later_parts(s: Seq<u8>) -> Seq<u8> {
    s.subrange(first_part_len(s) as int + 1, s.len() as int)
}

/// `a` and `b` agree before position `k`, and at `k` either `a` has ended
/// while `b` goes on, or `a` holds the smaller byte.
pub open spec fn bytes_at(a: Seq<u8>, b: Seq<u8>, k: int) -> bool {
    &&& 0 <= k <= a.len()
    &&& k < b.len()
    &&& forall|j: int| 0 <= j < k ==> a[j] == b[j]
    &&& k < a.len() ==> a[k] < b[k]
}

/// The order of two parts: byte by byte, strict.
pub open spec fn part_less(a: Seq<u8>, b: Seq<u8>) -> bool {
    exists|k: int| bytes_at(a, b, k)
}

/// The order of two paths, part by part: the first parts decide where they
/// differ; where they are equal, the path that ends there comes first, and
/// otherwise the later parts decide.
pub open spec fn by_parts_less(a: Seq<u8>, b: Seq<u8>) -> bool
    decreases a.len(),
{
    if first_part(a) != first_part(b) {
        part_less(first_part(a), first_part(b))
    } else if !has_more_parts(a) {
        has_more_parts(b)
    } else if !has_more_parts(b) {
        false
    } else {
        by_parts_less(later_parts(a), later_parts(b))
    }
}

/// The first part ends at the first separator, or with the path.
pub proof fn lemma_first_part(s: Seq<u8>)
    ensures
        first_part_len(s) <= s.len(),
        forall|j: int| 0 <= j < first_part_len(s) ==> s[j] != SEPARATOR,
        first_part_len(s) < s.len() ==> s[first_part_len(s) as int] == SEPARATOR,
    decreases s.len(),
{
    if s.len() > 0 && s[0] != SEPARATOR {
        let rest = s.drop_first();
        lemma_first_part(rest);
        assert forall|j: int| 0 <= j < first_part_len(s) implies s[j] != SEPARATOR by {
            if j > 0 {
                assert(s[j] == rest[j - 1]);
            }
        }
    }
}

/// Paths that agree on their first bytes are ordered as what follows those
/// bytes.
pub proof fn lemma_lex_common_head(a: Seq<u8>, b: Seq<u8>, n: int)
    requires
        0 <= n <= a.len(),
        n <= b.len(),
        forall|j: int| 0 <= j < n ==> a[j] == b[j],
    ensures
        lex_less(a, b) == lex_less(a.subrange(n, a.len() as int), b.subrange(n, b.len() as int)),
{
    let ta = a.subrange(n, a.len() as int);
    let tb = b.subrange(n, b.len() as int);
    if lex_less(a, b) {
        let k = choose|k: int| parts_at(a, b, k);
        assert(parts_at(ta, tb, k - n)) by {
            assert forall|j: int| 0 <= j < k - n implies ta[j] == tb[j] by {
            }
        }
    }
    if lex_less(ta, tb) {
        let k = choose|k: int| parts_at(ta, tb, k);
        assert(parts_at(a, b, k + n)) by {
            assert forall|j: int| 0 <= j < k + n implies a[j] == b[j] by {
                if j >= n {
                    assert(ta[j - n] == a[j]);
                }
            }
        }
    }
}

/// The order part by part is the order of the bytes with the separator
/// ranked below every other byte.
pub proof fn lemma_by_parts_is_lex(a: Seq<u8>, b: Seq<u8>)
    ensures
        by_parts_less(a, b) == lex_less(a, b),
    decreases a.len(),
{
    lemma_first_part(a);
    lemma_first_part(b);
    let na = first_part_len(a) as int;
    let nb = first_part_len(b) as int;
    let ha = first_part(a);
    let hb = first_part(b);
    if ha != hb {
        if part_less(ha, hb) {
            let j = choose|j: int| bytes_at(ha, hb, j);
            assert(parts_at(a, b, j)) by {
                assert forall|i: int| 0 <= i < j implies a[i] == b[i] by {
                    assert(ha[i] == hb[i]);
                }
            }
        }
        if lex_less(a, b) {
            let k = choose|k: int| parts_at(a, b, k);
            if k > na || k > nb || (k == nb && k == na) {
                assert(ha =~= hb);
            }
            assert(bytes_at(ha, hb, k)) by {
                assert forall|i: int| 0 <= i < k implies ha[i] == hb[i] by {
                }
            }
        }
    } else {
        assert(ha.len() == na && hb.len() == nb);
        assert forall|j: int| 0 <= j < na implies a[j] == b[j] by {
            assert(ha[j] == hb[j]);
        }
        if !has_more_parts(a) {
            if has_more_parts(b) {
                assert(parts_at(a, b, na));
            } else {
                lemma_lex_irreflexive(a);
            }
        } else if !has_more_parts(b) {
            assert(parts_at(b, a, nb));
            lemma_lex_asymmetric(b, a);
        } else {
            lemma_by_parts_is_lex(later_parts(a), later_parts(b));
            lemma_lex_common_head(a, b, na + 1);
        }
    }
}

} // verus!
