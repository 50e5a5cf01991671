//! A set of paths, held in listing order.

use vstd::prelude::*;
use crate::order::{
    lemma_path_less_strict, lemma_path_less_transitive, path_less, rank_paths, strictly_sorted,
    Rank,
};

verus! {

/// The views of a vector of strings, in order.
pub open spec fn string_views(v: Seq<String>) -> Seq<Seq<char>> {
    Seq::new(v.len(), |i: int| v[i]@)
}

/// A set of paths. The paths are kept in strictly increasing order, so each
/// is held once and listing them needs no further sorting.
#[derive(Debug)]
pub struct PathSet {
    pub items: Vec<String>,
}

impl View for PathSet {
    type V = Seq<Seq<char>>;

    /// The paths in listing order.
    open spec fn view(&self) -> Seq<Seq<char>> {
        string_views(self.items@)
    }
}

impl PathSet {
    /// The invariant: strictly increasing order.
    pub open spec fn wf(&self) -> bool {
        strictly_sorted(self@)
    }

    /// The paths as a mathematical set.
    pub open spec fn paths(&self) -> Set<Seq<char>> {
        self@.to_set()
    }

    /// The empty set.
    pub fn new() -> (r: PathSet)
        ensures
            r.wf(),
            r@ == Seq::<Seq<char>>::empty(),
            r.paths() == Set::<Seq<char>>::empty(),
    {
        let r = PathSet { items: Vec::new() };
        r
    }

    /// The number of paths held.
    pub fn len(&self) -> (n: usize)
        ensures
            n == self@.len(),
    {
        self.items.len()
    }

    /// The path at position `i` of the listing.
    pub fn get(&self, i: usize) -> (p: &str)
        requires
            i < self@.len(),
        ensures
            p@ == self@[i as int],
    {
        self.items[i].as_str()
    }

    /// The position of the first path that does not precede `path`, and
    /// whether that path is `path` itself.
    pub fn locate(&self, path: &str) -> (r: (usize, bool))
        requires
            self.wf(),
        ensures
            r.0 <= self@.len(),
            forall|j: int| 0 <= j < r.0 ==> path_less(#[trigger] self@[j], path@),
            r.1 ==> r.0 < self@.len() && self@[r.0 as int] == path@,
            !r.1 ==> forall|j: int| r.0 <= j < self@.len() ==> path_less(path@, #[trigger] self@[j]),
            r.1 == self@.contains(path@),
    {
        let mut i: usize = 0;
        while i < self.items.len()
            invariant
                self.wf(),
                i <= self.items.len(),
                forall|j: int| 0 <= j < i ==> path_less(#[trigger] self@[j], path@),
            decreases self.items.len() - i,
        {
            let rank = rank_paths(self.items[i].as_str(), path);
            match rank {
                Rank::Before => {},
                Rank::Same => {
                    return (i, true);
                },
                Rank::After => {
                    proof {
                        let at = i as int;
                        assert forall|j: int| at <= j < self@.len() implies path_less(
                            path@,
                            #[trigger] self@[j],
                        ) by {
                            if at < j {
                                lemma_path_less_transitive(path@, self@[at], self@[j]);
                            }
                        }
                        assert forall|j: int| 0 <= j < self@.len() implies self@[j] != path@ by {
                            lemma_path_less_strict(self@[j], path@);
                            lemma_path_less_strict(path@, self@[j]);
                        }
                    }
                    return (i, false);
                },
            }
            i = i + 1;
        }
        proof {
            assert forall|j: int| 0 <= j < self@.len() implies self@[j] != path@ by {
                lemma_path_less_strict(self@[j], path@);
            }
        }
        (i, false)
    }

    /// Whether `path` is in the set.
    pub fn contains(&self, path: &str) -> (r: bool)
        requires
            self.wf(),
        ensures
            r == self.paths().contains(path@),
    {
        let found = self.locate(path);
        found.1
    }

    /// Adds `path` to the set and says where it stands in the listing, and
    /// whether it is new. Adding a path that is already held changes nothing.
    pub fn insert(&mut self, path: &str) -> (r: (usize, bool))
        requires
            old(self).wf(),
        ensures
            final(self).wf(),
            final(self).paths() == old(self).paths().insert(path@),
            r.1 == !old(self).paths().contains(path@),
            r.0 < final(self)@.len(),
            final(self)@[r.0 as int] == path@,
            r.1 ==> r.0 <= old(self)@.len() && final(self)@ == old(self)@.insert(
                r.0 as int,
                path@,
            ),
            !r.1 ==> final(self)@ == old(self)@,
    {
        let found = self.locate(path);
        if found.1 {
            return (found.0, false);
        }
        let ghost before = self@;
        let at = found.0;
        self.items.insert(at, path.to_owned());
        proof {
            assert(self@ =~= before.insert(at as int, path@));
            assert forall|i: int, j: int| 0 <= i < j < self@.len() implies path_less(
                self@[i],
                self@[j],
            ) by {
            }
            assert forall|p: Seq<char>| self.paths().contains(p) <==> before.to_set().insert(
                path@,
            ).contains(p) by {
                if before.contains(p) {
                    let i = choose|i: int| 0 <= i < before.len() && before[i] == p;
                    if i < at {
                        assert(self@[i] == p);
                    } else {
                        assert(self@[i + 1] == p);
                    }
                }
                if p == path@ {
                    assert(self@[at as int] == p);
                }
            }
        }
        (at, true)
    }

    /// The set of the paths in `paths`. A path given twice is held once.
    pub fn from_vec(paths: &Vec<String>) -> (r: PathSet)
        ensures
            r.wf(),
            r.paths() == string_views(paths@).to_set(),
    {
        let mut r = PathSet::new();
        let ghost all = string_views(paths@);
        let mut i: usize = 0;
        while i < paths.len()
            invariant
                i <= paths.len(),
                all == string_views(paths@),
                r.wf(),
                r.paths() == all.subrange(0, i as int).to_set(),
            decreases paths.len() - i,
        {
            r.insert(paths[i].as_str());
            proof {
                let head = all.subrange(0, i as int);
                let next = all.subrange(0, i + 1);
                assert forall|p: Seq<char>| next.to_set().contains(p) <==> head.to_set().insert(
                    all[i as int],
                ).contains(p) by {
                    if p == all[i as int] {
                        assert(next[i as int] == p);
                    }
                }
            }
            i = i + 1;
        }
        assert(all.subrange(0, i as int) =~= all);
        r
    }

    /// The paths of this set that `other` does not hold.
    pub fn difference(&self, other: &PathSet) -> (r: PathSet)
        requires
            self.wf(),
            other.wf(),
        ensures
            r.wf(),
            r.paths() == self.paths().difference(other.paths()),
    {
        let mut kept: Vec<String> = Vec::new();
        let mut i: usize = 0;
        while i < self.items.len()
            invariant
                i <= self.items.len(),
                self.wf(),
                other.wf(),
                strictly_sorted(string_views(kept@)),
                forall|k: int, j: int|
                    0 <= k < kept@.len() && i <= j < self@.len() ==> path_less(
                        #[trigger] string_views(kept@)[k],
                        #[trigger] self@[j],
                    ),
                forall|p: Seq<char>| #[trigger]
                    string_views(kept@).contains(p) ==> self@.subrange(0, i as int).contains(p)
                        && !other.paths().contains(p),
                forall|p: Seq<char>| #[trigger]
                    self@.subrange(0, i as int).contains(p) && !other.paths().contains(p)
                        ==> string_views(kept@).contains(p),
            decreases self.items.len() - i,
        {
            let ghost before = string_views(kept@);
            let ghost head = self@.subrange(0, i as int);
            let ghost next = self@.subrange(0, i + 1);
            let ghost here = self@[i as int];
            if !other.contains(self.items[i].as_str()) {
                kept.push(self.items[i].clone());
                proof {
                    let after = string_views(kept@);
                    assert(after =~= before.push(here));
                    assert forall|a: int, b: int| 0 <= a < b < after.len() implies path_less(
                        after[a],
                        after[b],
                    ) by {
                    }
                    assert forall|k: int, j: int|
                        0 <= k < kept@.len() && i + 1 <= j < self@.len() implies path_less(
                        #[trigger] string_views(kept@)[k],
                        #[trigger] self@[j],
                    ) by {
                    }
                    assert forall|p: Seq<char>|
                        (#[trigger] after.contains(p)) <==> ((#[trigger] next.contains(p))
                            && !other.paths().contains(p)) by {
                        if after.contains(p) {
                            let k = choose|k: int| 0 <= k < after.len() && after[k] == p;
                            if k < before.len() {
                                assert(before.contains(p));
                            } else {
                                assert(next[i as int] == p);
                            }
                        }
                        if next.contains(p) && !other.paths().contains(p) {
                            let j = choose|j: int| 0 <= j < next.len() && next[j] == p;
                            if j < i {
                                assert(head.contains(p));
                                let k = choose|k: int| 0 <= k < before.len() && before[k] == p;
                                assert(after[k] == p);
                            } else {
                                assert(after[after.len() - 1] == p);
                            }
                        }
                    }
                }
            } else {
                proof {
                    assert forall|p: Seq<char>|
                        (#[trigger] before.contains(p)) <==> ((#[trigger] next.contains(p))
                            && !other.paths().contains(p)) by {
                        if next.contains(p) && !other.paths().contains(p) {
                            assert(head.contains(p));
                        }
                    }
                }
            }
            i = i + 1;
        }
        let r = PathSet { items: kept };
        proof {
            assert(self@.subrange(0, i as int) =~= self@);
            assert forall|p: Seq<char>| r.paths().contains(p) <==> self.paths().difference(
                other.paths(),
            ).contains(p) by {
            }
        }
        r
    }
}

} // verus!
