use vstd::prelude::*;

use crate::balances;
use crate::system;

verus! {

/// The whole world state: the chain counters and the balance ledger, owned
/// together. Callers drive both directly through the public fields.
pub struct Runtime {
    pub system: system::Pallet,
    pub balances: balances::Pallet,
}

impl Runtime {
    pub open spec fn wf(&self) -> bool {
        self.system.wf() && self.balances.wf()
    }

    /// A fresh state: block zero, and every account at zero balance and nonce.
    pub fn new() -> (r: Self)
        ensures
            r.wf(),
            r.system.current_block() == 0,
            r.system.nonces() == Map::<Seq<char>, u32>::empty(),
            r.balances@ == Map::<Seq<char>, u128>::empty(),
            forall|who: Seq<char>|
                #[trigger] r.balances.spec_balance(who) == 0 && r.system.spec_nonce(who) == 0,
    {
        Runtime { system: system::Pallet::new(), balances: balances::Pallet::new() }
    }
}

/// An account that no write ever reached, neither by a balance change nor by
/// a nonce increment, holds a zero balance and a zero nonce.
pub proof fn lemma_untouched_account_is_zero(rt: Runtime, who: Seq<char>)
    requires
        !rt.balances@.contains_key(who),
        !rt.system.nonces().contains_key(who),
    ensures
        rt.balances.spec_balance(who) == 0,
        rt.system.spec_nonce(who) == 0,
{
}

} // verus!
