//! A set of strings, held as a vector in which nothing occurs twice.

use vstd::prelude::*;

verus! {

/// Position of `k` in `items`, where there is one.
pub(crate) fn position_of(items: &Vec<String>, k: &String) -> (at: Option<usize>)
    ensures
        match at {
            Some(i) => i < items.len() && items@[i as int]@ == k@,
            None => forall|j: int| 0 <= j < items.len() ==> items@[j]@ != k@,
        },
{
    let mut i: usize = 0;
    while i < items.len()
        invariant
            i <= items.len(),
            forall|j: int| 0 <= j < i ==> items@[j]@ != k@,
        decreases items.len() - i,
    {
        if items[i] == *k {
            return Some(i);
        }
        i = i + 1;
    }
    None
}

/// A finite set of strings. Its view is the set of their character
/// sequences.
#[derive(Debug)]
pub struct StrSet {
    items: Vec<String>,
}

impl View for StrSet {
    type V = Set<Seq<char>>;

    closed spec fn view(&self) -> Set<Seq<char>> {
        Set::new(|k: Seq<char>| exists|i: int| 0 <= i < self.items@.len() && self.items@[i]@ == k)
    }
}

impl StrSet {
    #[verifier::type_invariant]
    spec fn distinct(self) -> bool {
        forall|i: int, j: int|
            0 <= i < j < self.items@.len() ==> self.items@[i]@ != self.items@[j]@
    }

    /// The empty set.
    pub fn new() -> (s: StrSet)
        ensures
            s@ == Set::<Seq<char>>::empty(),
    {
        let s = StrSet { items: Vec::new() };
        assert(s@ =~= Set::<Seq<char>>::empty());
        s
    }

    /// Whether `k` is in the set.
    pub fn contains(&self, k: &String) -> (found: bool)
        ensures
            found == self@.contains(k@),
    {
        position_of(&self.items, k).is_some()
    }

    /// Adds `k`; says whether it was new.
    pub fn insert(&mut self, k: String) -> (fresh: bool)
        ensures
            final(self)@ == old(self)@.insert(k@),
            fresh == !old(self)@.contains(k@),
    {
        proof {
            use_type_invariant(&*self);
        }
        let mut items: Vec<String> = Vec::new();
        std::mem::swap(&mut items, &mut self.items);
        let ghost before = items@;
        let fresh = position_of(&items, &k).is_none();
        if fresh {
            items.push(k);
            assert(forall|j: int| 0 <= j < before.len() ==> items@[j] == before[j]);
            assert(items@[before.len() as int]@ == k@);
        }
        self.items = items;
        assert(self@ =~= old(self)@.insert(k@));
        fresh
    }

    /// Takes `k` out; says whether it was there.
    pub fn remove(&mut self, k: &String) -> (found: bool)
        ensures
            final(self)@ == old(self)@.remove(k@),
            found == old(self)@.contains(k@),
    {
        proof {
            use_type_invariant(&*self);
        }
        let mut items: Vec<String> = Vec::new();
        std::mem::swap(&mut items, &mut self.items);
        let ghost before = items@;
        let at = position_of(&items, k);
        let found = match at {
            Some(i) => {
                let _ = items.remove(i);
                assert(forall|j: int| 0 <= j < i ==> items@[j] == before[j]);
                assert(forall|j: int| i <= j < items.len() ==> items@[j] == before[j + 1]);
                true
            },
            None => false,
        };
        self.items = items;
        assert(self@ =~= old(self)@.remove(k@)) by {
            assert forall|x: Seq<char>| old(self)@.remove(k@).contains(x) implies self@.contains(
                x,
            ) by {
                let j = choose|j: int| 0 <= j < before.len() && before[j]@ == x;
                if at is Some {
                    let i = at.unwrap() as int;
                    if j < i {
                        assert(self.items@[j]@ == x);
                    } else {
                        assert(self.items@[j - 1]@ == x);
                    }
                }
            }
        }
        found
    }
}

} // verus!
