use vstd::prelude::*;

use crate::accounts::AccountTable;

verus! {

/// The nonce that the stored map `m` gives `who`: an absent account is at zero.
pub open spec fn nonce_in(m: Map<Seq<char>, u32>, who: Seq<char>) -> u32 {
    if m.contains_key(who) {
        m[who]
    } else {
        0
    }
}

/// The chain counters: the current block number and one nonce per account.
pub struct Pallet {
    block_number: u32,
    nonce: AccountTable<u32>,
}

impl Pallet {
    pub closed spec fn wf(&self) -> bool {
        self.nonce.wf()
    }

    /// The current block number.
    pub closed spec fn current_block(&self) -> u32 {
        self.block_number
    }

    /// The nonces that were stored, by account name.
    pub closed spec fn nonces(&self) -> Map<Seq<char>, u32> {
        self.nonce@
    }

    /// The nonce of `who` as the counters report it.
    pub open spec fn spec_nonce(&self, who: Seq<char>) -> u32 {
        nonce_in(self.nonces(), who)
    }

    /// `post` is `pre` one block later, with the nonces untouched.
    pub open spec fn block_advanced(pre: Pallet, post: Pallet) -> bool {
        &&& post.current_block() == pre.current_block() + 1
        &&& post.nonces() == pre.nonces()
    }

    /// `post` is `pre` with the nonce of `who` one higher and all else untouched.
    pub open spec fn nonce_advanced(pre: Pallet, post: Pallet, who: Seq<char>) -> bool {
        &&& post.spec_nonce(who) == pre.spec_nonce(who) + 1
        &&& post.nonces() == pre.nonces().insert(who, post.spec_nonce(who))
        &&& post.current_block() == pre.current_block()
    }

    /// Counters at block zero, with every nonce at zero.
    pub fn new() -> (r: Self)
        ensures
            r.wf(),
            r.current_block() == 0,
            r.nonces() == Map::<Seq<char>, u32>::empty(),
            forall|who: Seq<char>| #[trigger] r.spec_nonce(who) == 0,
    {
        Pallet { block_number: 0, nonce: AccountTable::new() }
    }

    /// The current block number.
    pub fn block_number(&self) -> (r: u32)
        ensures
            r == self.current_block(),
    {
        self.block_number
    }

    /// Moves on to the next block. The block number cannot pass `u32::MAX`.
    pub fn inc_block_number(&mut self)
        requires
            old(self).current_block() < u32::MAX,
        ensures
            final(self).wf() == old(self).wf(),
            Pallet::block_advanced(*old(self), *final(self)),
    {
        self.block_number = self.block_number + 1;
    }

    /// The nonce of `who`; zero for an account that never sent a transaction.
    pub fn nonce(&self, who: &String) -> (r: u32)
        requires
            self.wf(),
        ensures
            r == self.spec_nonce(who@),
    {
        match self.nonce.get(who) {
            Some(n) => n,
            None => 0,
        }
    }

    /// Every account with a stored nonce, each once, with that nonce.
    pub fn nonce_entries(&self) -> (r: Vec<(String, u32)>)
        requires
            self.wf(),
        ensures
            forall|i: int|
                0 <= i < r@.len() ==> self.nonces().contains_key(#[trigger] r@[i].0@)
                    && self.nonces()[r@[i].0@] == r@[i].1,
            forall|k: Seq<char>|
                #[trigger] self.nonces().contains_key(k) ==> exists|i: int|
                    0 <= i < r@.len() && r@[i].0@ == k,
            forall|i: int, j: int| 0 <= i < j < r@.len() ==> r@[i].0@ != r@[j].0@,
    {
        self.nonce.entries()
    }

    /// Counts one more transaction sent by `who`. A nonce cannot pass `u32::MAX`.
    pub fn inc_nonce(&mut self, who: &String)
        requires
            old(self).wf(),
            old(self).spec_nonce(who@) < u32::MAX,
        ensures
            final(self).wf(),
            Pallet::nonce_advanced(*old(self), *final(self), who@),
    {
        let current = self.nonce(who);
        self.nonce.insert(who, current + 1);
    }
}

/// Advancing the block `n` times from block zero gives block number `n`:
/// in a run of states that each follow the previous one by one block, the
/// state at position `i` is at block `i`.
pub proof fn lemma_block_count(states: Seq<Pallet>)
    requires
        states.len() > 0,
        states[0].current_block() == 0,
        forall|i: int|
            0 <= i < states.len() - 1 ==> Pallet::block_advanced(#[trigger] states[i], states[i + 1]),
    ensures
        forall|i: int| 0 <= i < states.len() ==> #[trigger] states[i].current_block() == i,
    decreases states.len(),
{
    if states.len() > 1 {
        let prefix = states.drop_last();
        assert forall|i: int| 0 <= i < prefix.len() - 1 implies Pallet::block_advanced(
            #[trigger] prefix[i],
            prefix[i + 1],
        ) by {
            assert(Pallet::block_advanced(states[i], states[i + 1]));
        }
        lemma_block_count(prefix);
        let last = states.len() - 1;
        assert(Pallet::block_advanced(states[last - 1], states[last]));
        assert forall|i: int| 0 <= i < states.len() implies #[trigger] states[i].current_block()
            == i by {
            if i < last {
                assert(states[i] == prefix[i]);
            } else {
                assert(states[last - 1] == prefix[last - 1]);
            }
        }
    }
}

/// Advancing the nonce of `who` `n` times raises it by exactly `n`, and
/// leaves the nonce of every other account where it was.
pub proof fn lemma_nonce_count(states: Seq<Pallet>, who: Seq<char>)
    requires
        states.len() > 0,
        forall|i: int|
            0 <= i < states.len() - 1 ==> Pallet::nonce_advanced(
                #[trigger] states[i],
                states[i + 1],
                who,
            ),
    ensures
        forall|i: int|
            0 <= i < states.len() ==> #[trigger] states[i].spec_nonce(who) == states[0].spec_nonce(
                who,
            ) + i,
        forall|i: int, other: Seq<char>|
            0 <= i < states.len() && other != who ==> #[trigger] states[i].spec_nonce(other)
                == states[0].spec_nonce(other),
    decreases states.len(),
{
    if states.len() > 1 {
        let prefix = states.drop_last();
        assert forall|i: int| 0 <= i < prefix.len() - 1 implies Pallet::nonce_advanced(
            #[trigger] prefix[i],
            prefix[i + 1],
            who,
        ) by {
            assert(Pallet::nonce_advanced(states[i], states[i + 1], who));
        }
        lemma_nonce_count(prefix, who);
        let last = states.len() - 1;
        assert(Pallet::nonce_advanced(states[last - 1], states[last], who));
        assert forall|i: int| 0 <= i < states.len() implies #[trigger] states[i].spec_nonce(who)
            == states[0].spec_nonce(who) + i by {
            if i < last {
                assert(states[i] == prefix[i]);
            } else {
                assert(states[last - 1] == prefix[last - 1]);
            }
        }
        assert forall|i: int, other: Seq<char>|
            0 <= i < states.len() && other != who implies #[trigger] states[i].spec_nonce(other)
            == states[0].spec_nonce(other) by {
            if i < last {
                assert(states[i] == prefix[i]);
            } else {
                assert(prefix[last - 1].spec_nonce(other) == states[0].spec_nonce(other));
            }
        }
    }
}

} // verus!
