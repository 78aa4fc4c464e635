use vstd::prelude::*;

verus! {

/// Sparse per-account storage: one value for each account that was ever
/// written, keyed by the account's name.
///
/// Its model is a map from account names to values. Names are stored at most
/// once, so every lookup sees the last value written for that name.
pub struct AccountTable<V> {
    names: Vec<String>,
    values: Vec<V>,
}

impl<V> View for AccountTable<V> {
    type V = Map<Seq<char>, V>;

    closed spec fn view(&self) -> Map<Seq<char>, V> {
        Map::new(
            |k: Seq<char>| exists|i: int| 0 <= i < self.names@.len() && self.names@[i]@ == k,
            |k: Seq<char>|
                self.values@[choose|i: int| 0 <= i < self.names@.len() && self.names@[i]@ == k],
        )
    }
}

impl<V> AccountTable<V> {
    /// Each name is stored once, with exactly one value beside it.
    pub closed spec fn wf(&self) -> bool {
        &&& self.names@.len() == self.values@.len()
        &&& forall|i: int, j: int|
            0 <= i < j < self.names@.len() ==> self.names@[i]@ != self.names@[j]@
    }
}

impl<V: Copy> AccountTable<V> {
    /// An empty table: no account holds a value.
    pub fn new() -> (r: Self)
        ensures
            r.wf(),
            r@ == Map::<Seq<char>, V>::empty(),
    {
        let r = AccountTable { names: Vec::new(), values: Vec::new() };
        assert(r@ =~= Map::<Seq<char>, V>::empty());
        r
    }

    /// The position of `who` among the stored names, if it is there.
    fn find(&self, who: &String) -> (r: Option<usize>)
        ensures
            match r {
                Some(i) => i < self.names@.len() && self.names@[i as int]@ == who@,
                None => forall|j: int| 0 <= j < self.names@.len() ==> self.names@[j]@ != who@,
            },
    {
        let mut i: usize = 0;
        while i < self.names.len()
            invariant
                i <= self.names@.len(),
                forall|j: int| 0 <= j < i ==> self.names@[j]@ != who@,
            decreases self.names@.len() - i,
        {
            if self.names[i] == *who {
                return Some(i);
            }
            i = i + 1;
        }
        None
    }

    /// The value stored for `who`, or `None` if nothing was ever stored.
    pub fn get(&self, who: &String) -> (r: Option<V>)
        requires
            self.wf(),
        ensures
            r == (if self@.contains_key(who@) {
                Some(self@[who@])
            } else {
                None::<V>
            }),
    {
        match self.find(who) {
            Some(i) => {
                assert(self@.contains_key(who@));
                Some(self.values[i])
            },
            None => {
                assert(!self@.contains_key(who@));
                None
            },
        }
    }

    /// Every stored account with its value, each account once.
    pub fn entries(&self) -> (r: Vec<(String, V)>)
        requires
            self.wf(),
        ensures
            forall|i: int|
                0 <= i < r@.len() ==> self@.contains_key(#[trigger] r@[i].0@) && self@[r@[i].0@]
                    == r@[i].1,
            forall|k: Seq<char>|
                #[trigger] self@.contains_key(k) ==> exists|i: int| 0 <= i < r@.len() && r@[i].0@ == k,
            forall|i: int, j: int| 0 <= i < j < r@.len() ==> r@[i].0@ != r@[j].0@,
    {
        let mut r: Vec<(String, V)> = Vec::new();
        let mut i: usize = 0;
        while i < self.names.len()
            invariant
                self.wf(),
                i <= self.names@.len(),
                r@.len() == i,
                forall|j: int|
                    0 <= j < i ==> (#[trigger] r@[j]).0@ == self.names@[j]@ && r@[j].1
                        == self.values@[j],
            decreases self.names@.len() - i,
        {
            r.push((self.names[i].clone(), self.values[i]));
            i = i + 1;
        }
        assert forall|i: int|
            0 <= i < r@.len() implies self@.contains_key(#[trigger] r@[i].0@) && self@[r@[i].0@]
            == r@[i].1 by {
            let k = r@[i].0@;
            assert(self.names@[i]@ == k);
            let j = choose|j: int| 0 <= j < self.names@.len() && self.names@[j]@ == k;
            assert(j == i);
        }
        assert forall|k: Seq<char>| #[trigger] self@.contains_key(k) implies exists|i: int|
            0 <= i < r@.len() && r@[i].0@ == k by {
            let j = choose|j: int| 0 <= j < self.names@.len() && self.names@[j]@ == k;
            assert(r@[j].0@ == k);
        }
        assert forall|i: int, j: int| 0 <= i < j < r@.len() implies r@[i].0@ != r@[j].0@ by {
            assert(r@[i].0@ == self.names@[i]@);
            assert(r@[j].0@ == self.names@[j]@);
        }
        r
    }

    /// Stores `value` for `who`, replacing any earlier value.
    pub fn insert(&mut self, who: &String, value: V)
        requires
            old(self).wf(),
        ensures
            final(self).wf(),
            final(self)@ == old(self)@.insert(who@, value),
    {
        let ghost m = old(self)@.insert(who@, value);
        match self.find(who) {
            Some(i) => {
                self.values[i] = value;
                assert forall|k: Seq<char>| self@.contains_key(k) <==> m.contains_key(k) by {
                    if k == who@ {
                        assert(self.names@[i as int]@ == k);
                    }
                }
                assert forall|k: Seq<char>| self@.contains_key(k) implies self@[k] == m[k] by {
                    let j = choose|j: int| 0 <= j < self.names@.len() && self.names@[j]@ == k;
                    if k == who@ {
                        assert(j == i);
                    } else {
                        assert(j != i);
                    }
                }
            },
            None => {
                self.names.push(who.clone());
                self.values.push(value);
                let ghost n = old(self).names@.len() as int;
                assert(self.names@[n]@ == who@);
                assert forall|k: Seq<char>| self@.contains_key(k) <==> m.contains_key(k) by {
                    if old(self)@.contains_key(k) {
                        let j = choose|j: int|
                            0 <= j < old(self).names@.len() && old(self).names@[j]@ == k;
                        assert(self.names@[j]@ == k);
                    }
                    if self@.contains_key(k) && k != who@ {
                        let j = choose|j: int| 0 <= j < self.names@.len() && self.names@[j]@ == k;
                        assert(old(self).names@[j]@ == k);
                    }
                }
                assert forall|k: Seq<char>| self@.contains_key(k) implies self@[k] == m[k] by {
                    let j = choose|j: int| 0 <= j < self.names@.len() && self.names@[j]@ == k;
                    if k == who@ {
                        assert(j == n);
                    } else {
                        let j0 = choose|j0: int|
                            0 <= j0 < old(self).names@.len() && old(self).names@[j0]@ == k;
                        assert(old(self).names@[j]@ == k);
                        assert(j == j0);
                    }
                }
            },
        }
        assert(self@ =~= m);
    }
}

} // verus!
