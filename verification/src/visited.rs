//! The record of dependency references already expanded in a traversal. A
//! visited set only grows; each recursion level receives a value copy and the
//! caller folds the returned copy forward.

use vstd::prelude::*;

use crate::strutil::str_eq;

verus! {

/// The set of dependency-reference strings already expanded anywhere in the
/// traversal.
pub struct VisitedSet {
    items: Vec<String>,
}

impl View for VisitedSet {
    type V = Set<Seq<char>>;

    closed spec fn view(&self) -> Set<Seq<char>> {
        self.items.deep_view().to_set()
    }
}

impl VisitedSet {
    /// The empty visited set.
    pub fn new() -> (r: Self)
        ensures
            r@ == Set::<Seq<char>>::empty(),
    {
        let r = VisitedSet { items: Vec::new() };
        proof {
            assert(r@ =~= Set::<Seq<char>>::empty());
        }
        r
    }

    /// Membership of one reference string.
    pub fn contains(&self, s: &str) -> (r: bool)
        ensures
            r == self@.contains(s@),
    {
        let mut i: usize = 0;
        while i < self.items.len()
            invariant
                i <= self.items.len(),
                forall|j: int| 0 <= j < i ==> self.items.deep_view()[j] != s@,
            decreases self.items.len() - i,
        {
            if str_eq(self.items[i].as_str(), s) {
                proof {
                    assert(self.items.deep_view()[i as int] == s@);
                    assert(self.items.deep_view().contains(s@));
                }
                return true;
            }
            i += 1;
        }
        proof {
            assert(!self.items.deep_view().contains(s@));
        }
        false
    }

    /// Marks one reference as expanded.
    pub fn insert(&mut self, s: String)
        ensures
            final(self)@ == old(self)@.insert(s@),
    {
        let ghost old_dv = self.items.deep_view();
        self.items.push(s);
        proof {
            assert(self.items.deep_view() =~= old_dv.push(s@));
            assert forall|x: Seq<char>| self.items.deep_view().contains(x) implies old_dv.to_set().insert(
                s@,
            ).contains(x) by {
                let i = choose|i: int|
                    0 <= i < self.items.deep_view().len() && self.items.deep_view()[i] == x;
                if i < old_dv.len() {
                    assert(old_dv[i] == x);
                }
            }
            assert forall|x: Seq<char>| old_dv.to_set().insert(s@).contains(x) implies self.items.deep_view().contains(
                x,
            ) by {
                if x == s@ {
                    assert(self.items.deep_view()[old_dv.len() as int] == x);
                } else {
                    let i = choose|i: int| 0 <= i < old_dv.len() && old_dv[i] == x;
                    assert(self.items.deep_view()[i] == x);
                }
            }
            assert(self@ =~= old(self)@.insert(s@));
        }
    }

    /// A value copy of the set, for handing to one recursion level.
    pub fn duplicate(&self) -> (r: Self)
        ensures
            r@ == self@,
    {
        let mut items: Vec<String> = Vec::new();
        let mut i: usize = 0;
        while i < self.items.len()
            invariant
                i <= self.items.len(),
                items.deep_view() == self.items.deep_view().subrange(0, i as int),
            decreases self.items.len() - i,
        {
            let ghost old_dv = items.deep_view();
            items.push(self.items[i].clone());
            proof {
                assert(items.deep_view() =~= old_dv.push(self.items.deep_view()[i as int]));
                assert(items.deep_view() =~= self.items.deep_view().subrange(0, i + 1 as int));
            }
            i += 1;
        }
        proof {
            assert(items.deep_view() =~= self.items.deep_view());
        }
        let r = VisitedSet { items };
        r
    }
}

} // verus!
