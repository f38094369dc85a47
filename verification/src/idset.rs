//! A finite set of identifiers.

use vstd::prelude::*;

verus! {

/// Appending an element to a sequence inserts it into the set of its elements.
pub proof fn lemma_push_to_set(s: Seq<u64>, x: u64)
    ensures
        s.push(x).to_set() == s.to_set().insert(x),
{
    assert forall|y: u64| #[trigger] s.push(x).to_set().contains(y) == s.to_set().insert(x).contains(y) by {
        if s.push(x).contains(y) {
            let i = s.push(x).index_of(y);
            if i < s.len() {
                assert(s[i] == y);
            }
        }
        if s.contains(y) {
            let i = s.index_of(y);
            assert(s.push(x)[i] == y);
        }
        if y == x {
            assert(s.push(x)[s.len() as int] == x);
        }
    }
    assert(s.push(x).to_set() =~= s.to_set().insert(x));
}

/// A set of identifiers.
#[derive(Debug)]
pub struct IdSet {
    items: Vec<u64>,
}

impl View for IdSet {
    type V = Set<u64>;

    closed spec fn view(&self) -> Set<u64> {
        self.items@.to_set()
    }
}

impl IdSet {
    pub fn new() -> (r: IdSet)
        ensures
            r@ == Set::<u64>::empty(),
    {
        let r = IdSet { items: Vec::new() };
        assert(r.items@.to_set() =~= Set::<u64>::empty());
        r
    }

    pub fn contains(&self, x: u64) -> (r: bool)
        ensures
            r == self@.contains(x),
    {
        let mut i: usize = 0;
        while i < self.items.len()
            invariant
                i <= self.items@.len(),
                forall|j: int| 0 <= j < i ==> self.items@[j] != x,
            decreases self.items@.len() - i,
        {
            if self.items[i] == x {
                assert(self.items@.contains(x));
                return true;
            }
            i += 1;
        }
        proof {
            if self.items@.contains(x) {
                let k = self.items@.index_of(x);
                assert(self.items@[k] == x);
            }
        }
        false
    }

    /// Adds `x`. Returns whether it was absent.
    pub fn insert(&mut self, x: u64) -> (r: bool)
        ensures
            final(self)@ == old(self)@.insert(x),
            r == !old(self)@.contains(x),
    {
        if self.contains(x) {
            assert(self@.insert(x) =~= self@);
            false
        } else {
            proof {
                lemma_push_to_set(self.items@, x);
            }
            self.items.push(x);
            true
        }
    }

    /// Adds every element of `xs`.
    pub fn insert_all(&mut self, xs: &Vec<u64>)
        ensures
            final(self)@ == old(self)@.union(xs@.to_set()),
    {
        let ghost start = self@;
        let mut i: usize = 0;
        assert(xs@.take(0).to_set() =~= Set::<u64>::empty());
        assert(start.union(Set::<u64>::empty()) =~= start);
        while i < xs.len()
            invariant
                i <= xs@.len(),
                self@ == start.union(xs@.take(i as int).to_set()),
            decreases xs@.len() - i,
        {
            proof {
                let seen = xs@.take(i as int);
                assert(xs@.take(i + 1) =~= seen.push(xs@[i as int]));
                lemma_push_to_set(seen, xs@[i as int]);
                assert(start.union(seen.to_set()).insert(xs@[i as int]) =~= start.union(
                    xs@.take(i + 1).to_set(),
                ));
            }
            self.insert(xs[i]);
            i += 1;
        }
        assert(xs@.take(i as int) =~= xs@);
    }

    /// Removes `x`. Returns whether it was present.
    pub fn remove(&mut self, x: u64) -> (r: bool)
        ensures
            final(self)@ == old(self)@.remove(x),
            r == old(self)@.contains(x),
    {
        let mut kept: Vec<u64> = Vec::new();
        let mut found = false;
        let mut i: usize = 0;
        assert(self.items@.take(0).to_set() =~= Set::<u64>::empty());
        assert(kept@.to_set() =~= Set::<u64>::empty().remove(x));
        while i < self.items.len()
            invariant
                i <= self.items@.len(),
                kept@.to_set() == self.items@.take(i as int).to_set().remove(x),
                found == self.items@.take(i as int).to_set().contains(x),
            decreases self.items@.len() - i,
        {
            let y: u64 = self.items[i];
            proof {
                assert(self.items@.take(i + 1) =~= self.items@.take(i as int).push(y));
                lemma_push_to_set(self.items@.take(i as int), y);
                lemma_push_to_set(kept@, y);
                let t = self.items@.take(i as int).to_set();
                if y == x {
                    assert(t.insert(y).remove(x) =~= t.remove(x));
                } else {
                    assert(t.insert(y).remove(x) =~= t.remove(x).insert(y));
                }
            }
            if y == x {
                found = true;
            } else {
                kept.push(y);
            }
            i += 1;
        }
        assert(self.items@.take(i as int) =~= self.items@);
        self.items = kept;
        found
    }

    /// The elements, each once.
    pub fn to_vec(&self) -> (r: Vec<u64>)
        ensures
            r@.no_duplicates(),
            r@.to_set() == self@,
    {
        let mut out: Vec<u64> = Vec::new();
        let mut seen = IdSet::new();
        let mut i: usize = 0;
        assert(self.items@.take(0).to_set() =~= Set::<u64>::empty());
        assert(out@.to_set() =~= Set::<u64>::empty());
        while i < self.items.len()
            invariant
                i <= self.items@.len(),
                out@.no_duplicates(),
                out@.to_set() == self.items@.take(i as int).to_set(),
                seen@ == out@.to_set(),
            decreases self.items@.len() - i,
        {
            let y: u64 = self.items[i];
            proof {
                assert(self.items@.take(i + 1) =~= self.items@.take(i as int).push(y));
                lemma_push_to_set(self.items@.take(i as int), y);
                lemma_push_to_set(out@, y);
            }
            if seen.insert(y) {
                proof {
                    assert(!out@.contains(y));
                    assert forall|a: int, b: int|
                        0 <= a < out@.push(y).len() && 0 <= b < out@.push(y).len() && a
                            != b implies out@.push(y)[a] != out@.push(y)[b] by {
                        if a < out@.len() {
                            assert(out@.contains(out@[a]));
                        }
                        if b < out@.len() {
                            assert(out@.contains(out@[b]));
                        }
                    }
                }
                out.push(y);
            } else {
                assert(out@.to_set().insert(y) =~= out@.to_set());
            }
            i += 1;
        }
        assert(self.items@.take(i as int) =~= self.items@);
        out
    }
}

} // verus!
