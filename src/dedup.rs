use vstd::prelude::*;

verus! {

/// The destination paths claimed so far in one run.
pub struct DedupSet {
    claimed: Vec<String>,
}

impl DedupSet {
    /// The set of claimed paths.
    pub closed spec fn view(&self) -> Set<Seq<char>> {
        Set::new(|p: Seq<char>| exists|i: int| 0 <= i < self.claimed.len() && #[trigger] self.claimed@[i]@ == p)
    }

    /// An empty set: nothing claimed yet.
    pub fn new() -> (r: DedupSet)
        ensures
            r@ == Set::<Seq<char>>::empty(),
    {
        let r = DedupSet { claimed: Vec::new() };
        assert(r@ =~= Set::<Seq<char>>::empty());
        r
    }

    /// Whether `path` has been claimed.
    pub fn contains(&self, path: &String) -> (r: bool)
        ensures
            r == self@.contains(path@),
    {
        let mut i: usize = 0;
        while i < self.claimed.len()
            invariant
                i <= self.claimed.len(),
                forall|k: int| 0 <= k < i ==> (#[trigger] self.claimed@[k])@ != path@,
            decreases self.claimed.len() - i,
        {
            if self.claimed[i] == *path {
                assert(self.claimed@[i as int]@ == path@);
                return true;
            }
            i = i + 1;
        }
        false
    }

    /// Claims `path`: true, and recorded, when it was not claimed before;
    /// false, and nothing changes, when it was.
    pub fn claim(&mut self, path: &String) -> (r: bool)
        ensures
            r == !old(self)@.contains(path@),
            final(self)@ == old(self)@.insert(path@),
    {
        if self.contains(path) {
            assert(self@ =~= self@.insert(path@));
            false
        } else {
            let ghost before = self@;
            self.claimed.push(path.clone());
            assert forall|p: Seq<char>| self@.contains(p) <==> before.insert(path@).contains(p) by {
                if before.contains(p) {
                    let i = choose|i: int| 0 <= i < old(self).claimed.len() && #[trigger] old(self).claimed@[i]@ == p;
                    assert(self.claimed@[i]@ == p);
                }
                if p == path@ {
                    assert(self.claimed@[self.claimed.len() - 1]@ == p);
                }
            }
            assert(self@ =~= before.insert(path@));
            true
        }
    }
}

} // verus!
