use vstd::prelude::*;

use crate::accounts::AccountTable;

verus! {

/// Why a transfer was refused.
#[derive(Clone, Copy, Debug, PartialEq, Eq, Structural)]
pub enum TransferError {
    /// The sender holds less than the amount to move.
    InsufficientBalance,
    /// The receiver's balance plus the amount would not fit in a `u128`.
    Overflow,
}

impl TransferError {
    /// A short human-readable description of the error.
    pub fn message(&self) -> (r: &'static str)
        ensures
            *self == TransferError::InsufficientBalance ==> r@ == "Unsufficient balance"@,
            *self == TransferError::Overflow ==> r@ == "Overflow"@,
    {
        proof {
            reveal_strlit("Unsufficient balance");
            reveal_strlit("Overflow");
        }
        match self {
            TransferError::InsufficientBalance => "Unsufficient balance",
            TransferError::Overflow => "Overflow",
        }
    }
}

/// The balance that the stored map `m` gives `who`: an absent account holds zero.
pub open spec fn balance_in(m: Map<Seq<char>, u128>, who: Seq<char>) -> u128 {
    if m.contains_key(who) {
        m[who]
    } else {
        0
    }
}

/// What moving `amount` from `from` to `to` does to the stored balances `m`:
/// the new map, or the error that refuses the move.
///
/// The sender's funds are checked first, then the receiver's room. A move from
/// an account to itself leaves the balances as they are.
pub open spec fn transfer_result(
    m: Map<Seq<char>, u128>,
    from: Seq<char>,
    to: Seq<char>,
    amount: u128,
) -> Result<Map<Seq<char>, u128>, TransferError> {
    let from_balance = balance_in(m, from);
    let to_balance = balance_in(m, to);
    if amount > from_balance {
        Err(TransferError::InsufficientBalance)
    } else if from == to {
        Ok(m)
    } else if to_balance + amount > u128::MAX {
        Err(TransferError::Overflow)
    } else {
        Ok(m.insert(from, (from_balance - amount) as u128).insert(to, (to_balance + amount) as u128))
    }
}

/// The stored balances after a transfer: the new map on success, `m` itself
/// when the transfer is refused.
pub open spec fn after_transfer(
    m: Map<Seq<char>, u128>,
    from: Seq<char>,
    to: Seq<char>,
    amount: u128,
) -> Map<Seq<char>, u128> {
    match transfer_result(m, from, to, amount) {
        Ok(next) => next,
        Err(_) => m,
    }
}

/// Relies on num's `CheckedSub::checked_sub` for `u128`, which forwards to
/// `u128::checked_sub`: `None` exactly when the difference would be negative.
#[verifier::external_body]
fn sub_checked(a: u128, b: u128) -> (r: Option<u128>)
    ensures
        r == (if b <= a {
            Some((a - b) as u128)
        } else {
            None::<u128>
        }),
{
    num::traits::CheckedSub::checked_sub(&a, &b)
}

/// Relies on num's `CheckedAdd::checked_add` for `u128`, which forwards to
/// `u128::checked_add`: `None` exactly when the sum would exceed `u128::MAX`.
#[verifier::external_body]
fn add_checked(a: u128, b: u128) -> (r: Option<u128>)
    ensures
        r == (if a + b <= u128::MAX {
            Some((a + b) as u128)
        } else {
            None::<u128>
        }),
{
    num::traits::CheckedAdd::checked_add(&a, &b)
}

/// The balance ledger: one `u128` balance per account, zero until written.
pub struct Pallet {
    balances: AccountTable<u128>,
}

impl View for Pallet {
    type V = Map<Seq<char>, u128>;

    /// The balances that were stored, by account name.
    closed spec fn view(&self) -> Map<Seq<char>, u128> {
        self.balances@
    }
}

impl Pallet {
    pub closed spec fn wf(&self) -> bool {
        self.balances.wf()
    }

    /// The balance of `who` as the ledger reports it.
    pub open spec fn spec_balance(&self, who: Seq<char>) -> u128 {
        balance_in(self@, who)
    }

    /// An empty ledger: every account holds zero.
    pub fn new() -> (r: Self)
        ensures
            r.wf(),
            r@ == Map::<Seq<char>, u128>::empty(),
            forall|who: Seq<char>| #[trigger] r.spec_balance(who) == 0,
    {
        Pallet { balances: AccountTable::new() }
    }

    /// Sets the balance of `who` to `amount`, whatever it was before.
    pub fn set_balance(&mut self, who: &String, amount: u128)
        requires
            old(self).wf(),
        ensures
            final(self).wf(),
            final(self)@ == old(self)@.insert(who@, amount),
            final(self).spec_balance(who@) == amount,
    {
        self.balances.insert(who, amount);
    }

    /// The balance of `who`; zero for an account that was never written.
    pub fn balance(&self, who: &String) -> (r: u128)
        requires
            self.wf(),
        ensures
            r == self.spec_balance(who@),
    {
        match self.balances.get(who) {
            Some(amount) => amount,
            None => 0,
        }
    }

    /// Every account with a stored balance, each once, with that balance.
    pub fn entries(&self) -> (r: Vec<(String, u128)>)
        requires
            self.wf(),
        ensures
            forall|i: int|
                0 <= i < r@.len() ==> self@.contains_key(#[trigger] r@[i].0@) && self@[r@[i].0@]
                    == r@[i].1,
            forall|k: Seq<char>|
                #[trigger] self@.contains_key(k) ==> exists|i: int| 0 <= i < r@.len() && r@[i].0@ == k,
            forall|i: int, j: int| 0 <= i < j < r@.len() ==> r@[i].0@ != r@[j].0@,
    {
        self.balances.entries()
    }

    /// Moves `amount` from `from` to `to`.
    ///
    /// Fails with `InsufficientBalance` when `from` holds less than `amount`,
    /// and then with `Overflow` when the credit would not fit in `to`'s
    /// balance. Both legs are checked before either is written, so a refused
    /// transfer leaves the ledger exactly as it was.
    pub fn transfer(&mut self, from: &String, to: &String, amount: u128) -> (r: Result<
        (),
        TransferError,
    >)
        requires
            old(self).wf(),
        ensures
            final(self).wf(),
            final(self)@ == after_transfer(old(self)@, from@, to@, amount),
            match transfer_result(old(self)@, from@, to@, amount) {
                Ok(_) => r == Ok::<(), TransferError>(()),
                Err(e) => r == Err::<(), TransferError>(e),
            },
    {
        let from_balance = self.balance(from);
        let debited = match sub_checked(from_balance, amount) {
            Some(v) => v,
            None => return Err(TransferError::InsufficientBalance),
        };
        if *from == *to {
            return Ok(());
        }
        let to_balance = self.balance(to);
        let credited = match add_checked(to_balance, amount) {
            Some(v) => v,
            None => return Err(TransferError::Overflow),
        };
        self.set_balance(from, debited);
        self.set_balance(to, credited);
        Ok(())
    }
}

/// Setting a balance and reading it back gives exactly the value that was
/// set, and leaves every other account's balance as it was.
pub proof fn lemma_set_balance_reads_back(p: Pallet, who: Seq<char>, amount: u128)
    ensures
        balance_in(p@.insert(who, amount), who) == amount,
        forall|other: Seq<char>|
            other != who ==> #[trigger] balance_in(p@.insert(who, amount), other)
                == p.spec_balance(other),
{
}

/// A successful transfer between two distinct accounts moves funds without
/// creating or destroying any: the two balances keep their sum, and every
/// other account is untouched.
pub proof fn lemma_transfer_conserves(p: Pallet, from: Seq<char>, to: Seq<char>, amount: u128)
    requires
        from != to,
        transfer_result(p@, from, to, amount) is Ok,
    ensures
        balance_in(after_transfer(p@, from, to, amount), from) + balance_in(
            after_transfer(p@, from, to, amount),
            to,
        ) == p.spec_balance(from) + p.spec_balance(to),
        forall|other: Seq<char>|
            other != from && other != to ==> #[trigger] balance_in(
                after_transfer(p@, from, to, amount),
                other,
            ) == p.spec_balance(other),
{
}

/// A transfer of more than the sender holds is refused with
/// `InsufficientBalance`, and neither balance changes.
pub proof fn lemma_transfer_insufficient(p: Pallet, from: Seq<char>, to: Seq<char>, amount: u128)
    requires
        amount > p.spec_balance(from),
    ensures
        transfer_result(p@, from, to, amount) == Err::<Map<Seq<char>, u128>, TransferError>(
            TransferError::InsufficientBalance,
        ),
        balance_in(after_transfer(p@, from, to, amount), from) == p.spec_balance(from),
        balance_in(after_transfer(p@, from, to, amount), to) == p.spec_balance(to),
{
}

/// A transfer whose credit would push the receiver past `u128::MAX` is
/// refused with `Overflow`, for a sender that holds the amount and differs
/// from the receiver.
pub proof fn lemma_transfer_overflow(p: Pallet, from: Seq<char>, to: Seq<char>, amount: u128)
    requires
        from != to,
        amount <= p.spec_balance(from),
        p.spec_balance(to) + amount > u128::MAX,
    ensures
        transfer_result(p@, from, to, amount) == Err::<Map<Seq<char>, u128>, TransferError>(
            TransferError::Overflow,
        ),
        after_transfer(p@, from, to, amount) == p@,
{
}

/// A transfer from an account to itself, of no more than it holds, succeeds
/// and leaves its balance unchanged.
pub proof fn lemma_self_transfer(p: Pallet, who: Seq<char>, amount: u128)
    requires
        amount <= p.spec_balance(who),
    ensures
        transfer_result(p@, who, who, amount) is Ok,
        balance_in(after_transfer(p@, who, who, amount), who) == p.spec_balance(who),
{
}

} // verus!
