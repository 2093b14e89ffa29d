//! The registry of approved destination addresses: a set, kept as a vector
//! without duplicates.

use vstd::prelude::*;

verus! {

/// The set of approved canonical addresses.
pub struct Whitelist {
    entries: Vec<String>,
}

impl View for Whitelist {
    type V = Set<Seq<char>>;

    closed spec fn view(&self) -> Set<Seq<char>> {
        Set::new(|a: Seq<char>| exists|i: int| 0 <= i < self.entries@.len() && #[trigger] self.entries@[i]@ == a)
    }
}

impl Whitelist {
    /// No address is held twice.
    pub closed spec fn wf(&self) -> bool {
        forall|i: int, j: int|
            0 <= i < j < self.entries@.len() ==> #[trigger] self.entries@[i]@ != #[trigger] self.entries@[j]@
    }

    /// An empty whitelist.
    pub fn new() -> (r: Self)
        ensures
            r.wf(),
            r@ == Set::<Seq<char>>::empty(),
    {
        let r = Whitelist { entries: Vec::new() };
        assert(r@ =~= Set::<Seq<char>>::empty());
        r
    }

    /// Whether `address` is approved.
    pub fn contains(&self, address: &String) -> (r: bool)
        ensures
            r == self@.contains(address@),
    {
        let mut i: usize = 0;
        while i < self.entries.len()
            invariant
                i <= self.entries@.len(),
                forall|j: int| 0 <= j < i ==> #[trigger] self.entries@[j]@ != address@,
            decreases self.entries@.len() - i,
        {
            if self.entries[i] == *address {
                return true;
            }
            i = i + 1;
        }
        false
    }

    /// Approves `address`; approving it again changes nothing.
    pub fn add(&mut self, address: String)
        requires
            old(self).wf(),
        ensures
            final(self).wf(),
            final(self)@ == old(self)@.insert(address@),
    {
        if self.contains(&address) {
            assert(self@ =~= old(self)@.insert(address@));
            return;
        }
        let ghost a = address@;
        let ghost before = self.entries@;
        self.entries.push(address);
        assert(forall|i: int| 0 <= i < before.len() ==> #[trigger] self.entries@[i] == before[i]);
        assert(self.entries@[before.len() as int]@ == a);
        assert forall|x: Seq<char>| #[trigger] self@.contains(x) == old(self)@.insert(a).contains(x) by {
            if x == a {
                assert(self.entries@[before.len() as int]@ == x);
            }
            if old(self)@.contains(x) {
                let i = choose|i: int| 0 <= i < before.len() && #[trigger] before[i]@ == x;
                assert(self.entries@[i]@ == x);
            }
            if self@.contains(x) && x != a {
                let i = choose|i: int| 0 <= i < self.entries@.len() && #[trigger] self.entries@[i]@ == x;
                assert(before[i]@ == x);
            }
        }
        assert(self@ =~= old(self)@.insert(a));
    }

    /// Withdraws the approval of `address`; withdrawing an absent one changes
    /// nothing.
    pub fn remove(&mut self, address: &String)
        requires
            old(self).wf(),
        ensures
            final(self).wf(),
            final(self)@ == old(self)@.remove(address@),
    {
        let ghost before = self.entries@;
        let mut i: usize = 0;
        while i < self.entries.len()
            invariant
                i <= self.entries@.len(),
                forall|j: int| 0 <= j < i ==> #[trigger] self.entries@[j]@ != address@,
            ensures
                i <= self.entries@.len(),
                forall|j: int| 0 <= j < i ==> #[trigger] self.entries@[j]@ != address@,
                i < self.entries@.len() ==> self.entries@[i as int]@ == address@,
            decreases self.entries@.len() - i,
        {
            if self.entries[i] == *address {
                break;
            }
            i = i + 1;
        }
        if i == self.entries.len() {
            assert(self@ =~= old(self)@.remove(address@));
            return;
        }
        let ghost at = i as int;
        self.entries.remove(i);
        let ghost after = self.entries@;
        assert(forall|k: int| 0 <= k < at ==> #[trigger] after[k] == before[k]);
        assert(forall|k: int| at <= k < after.len() ==> #[trigger] after[k] == before[k + 1]);
        assert forall|k1: int, k2: int| 0 <= k1 < k2 < after.len() implies #[trigger] after[k1]@
            != #[trigger] after[k2]@ by {
            let j1 = if k1 < at { k1 } else { k1 + 1 };
            let j2 = if k2 < at { k2 } else { k2 + 1 };
            assert(after[k1] == before[j1]);
            assert(after[k2] == before[j2]);
            assert(before[j1]@ != before[j2]@);
        }
        assert forall|x: Seq<char>| #[trigger] self@.contains(x) == old(self)@.remove(address@).contains(
            x,
        ) by {
            if self@.contains(x) {
                let k = choose|k: int| 0 <= k < after.len() && #[trigger] after[k]@ == x;
                let j = if k < at { k } else { k + 1 };
                assert(after[k] == before[j]);
                assert(before[j]@ != before[at]@);
                assert(old(self).entries@[j]@ == x);
            }
            if old(self)@.remove(address@).contains(x) {
                let j = choose|j: int| 0 <= j < before.len() && #[trigger] old(self).entries@[j]@ == x;
                assert(j != at);
                let k = if j < at { j } else { j - 1 };
                assert(after[k] == before[j]);
                assert(self.entries@[k]@ == x);
            }
        }
        assert(self@ =~= old(self)@.remove(address@));
    }

    /// A copy of the approved addresses.
    pub fn list(&self) -> (r: Vec<String>)
        ensures
            forall|a: Seq<char>|
                self@.contains(a) <==> exists|i: int| 0 <= i < r@.len() && #[trigger] r@[i]@ == a,
    {
        let mut r: Vec<String> = Vec::new();
        let mut i: usize = 0;
        while i < self.entries.len()
            invariant
                i <= self.entries@.len(),
                r@.len() == i,
                forall|k: int| 0 <= k < i ==> #[trigger] r@[k]@ == self.entries@[k]@,
            decreases self.entries@.len() - i,
        {
            r.push(self.entries[i].clone());
            i = i + 1;
        }
        assert forall|a: Seq<char>|
            self@.contains(a) <==> exists|i: int| 0 <= i < r@.len() && #[trigger] r@[i]@ == a by {
            if self@.contains(a) {
                let i = choose|i: int| 0 <= i < self.entries@.len() && #[trigger] self.entries@[i]@ == a;
                assert(r@[i]@ == a);
            }
            if exists|i: int| 0 <= i < r@.len() && #[trigger] r@[i]@ == a {
                let i = choose|i: int| 0 <= i < r@.len() && #[trigger] r@[i]@ == a;
                assert(self.entries@[i]@ == a);
            }
        }
        r
    }
}

/// Adding an address that is already approved, or removing one that is
/// already absent, leaves the set of approved addresses as it was.
pub proof fn lemma_membership_idempotent(w: Set<Seq<char>>, a: Seq<char>)
    ensures
        w.insert(a).insert(a) == w.insert(a),
        w.remove(a).remove(a) == w.remove(a),
{
    assert(w.insert(a).insert(a) =~= w.insert(a));
    assert(w.remove(a).remove(a) =~= w.remove(a));
}

/// After an address is added it is approved, and after it is then removed it
/// is not.
pub proof fn lemma_add_then_remove(w: Set<Seq<char>>, a: Seq<char>)
    ensures
        w.insert(a).contains(a),
        !w.insert(a).remove(a).contains(a),
{
}

} // verus!
