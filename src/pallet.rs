//! The ledger: a store of account balances and the total issuance, with the
//! two state transitions `mint_unsafe` and `transfer`.
use crate::sum::total;
use std::collections::HashMap;
use std::marker::PhantomData;
use vstd::prelude::*;

verus! {

broadcast use vstd::std_specs::hash::group_hash_axioms;

/// Identifies an account; supplied by the host's identity system.
pub type AccountId = u64;

/// A quantity of the single asset the ledger tracks.
pub type Balance = u128;

/// Host configuration of a ledger.
pub trait Config {
    /// The minimum balance an account is meant to keep. It is part of the
    /// configuration only: no operation of the ledger enforces it.
    fn ed() -> Balance;
}

/// Where a call comes from, as the host's dispatcher reports it.
#[derive(Clone, Copy, Debug, PartialEq, Eq, Structural)]
pub enum Origin {
    /// The privileged root origin.
    Root,
    /// A call signed by the given account.
    Signed(AccountId),
    /// An unsigned call.
    Unsigned,
}

/// Why an operation of the ledger failed.
#[derive(Clone, Copy, Debug, PartialEq, Eq, Structural)]
pub enum Error {
    /// The origin is not a signed account.
    AuthenticationFailed,
    /// The sender of a transfer has no balance entry.
    NonExistentAccount,
    /// The sender of a transfer holds less than the amount.
    InsufficientBalance,
    /// An addition would exceed the range of `Balance`.
    Overflow,
}

/// The account that signed `origin`, or the error for an origin that is not signed.
pub open spec fn signer(origin: Origin) -> Result<AccountId, Error> {
    match origin {
        Origin::Signed(who) => Ok(who),
        _ => Err(Error::AuthenticationFailed),
    }
}

/// Resolves `origin` to the account that signed it.
pub fn ensure_signed(origin: Origin) -> (r: Result<AccountId, Error>)
    ensures
        r == signer(origin),
{
    match origin {
        Origin::Signed(who) => Ok(who),
        _ => Err(Error::AuthenticationFailed),
    }
}

/// The abstract state of a ledger.
pub struct LedgerModel {
    /// Balance of each materialized account.
    pub balances: Map<AccountId, Balance>,
    /// The total issuance counter.
    pub total_issuance: Balance,
}

impl LedgerModel {
    /// Finitely many accounts, and the issuance is the sum of all balances.
    pub open spec fn wf(self) -> bool {
        &&& self.balances.dom().finite()
        &&& self.total_issuance == total(self.balances)
    }

    /// The balance of `who`, counting an absent entry as zero.
    pub open spec fn balance_or_zero(self, who: AccountId) -> int {
        if self.balances.contains_key(who) {
            self.balances[who] as int
        } else {
            0
        }
    }

    /// The balances after adding `amount` to the balance of `who`.
    pub open spec fn credited(self, who: AccountId, amount: Balance) -> Map<AccountId, Balance> {
        self.balances.insert(who, (self.balance_or_zero(who) + amount) as Balance)
    }
}

/// The state and result of `mint_unsafe(origin, dest, amount)` on state `s`.
pub open spec fn mint_step(s: LedgerModel, origin: Origin, dest: AccountId, amount: Balance) -> (
    LedgerModel,
    Result<(), Error>,
) {
    match signer(origin) {
        Err(e) => (s, Err(e)),
        Ok(_) => {
            if s.balance_or_zero(dest) + amount > Balance::MAX || s.total_issuance + amount
                > Balance::MAX {
                (s, Err(Error::Overflow))
            } else {
                (
                    LedgerModel {
                        balances: s.credited(dest, amount),
                        total_issuance: (s.total_issuance + amount) as Balance,
                    },
                    Ok(()),
                )
            }
        },
    }
}

/// The state and result of `transfer(origin, dest, amount)` on state `s`:
/// the sender is debited first, then `dest` is credited on the debited state.
pub open spec fn transfer_step(s: LedgerModel, origin: Origin, dest: AccountId, amount: Balance) -> (
    LedgerModel,
    Result<(), Error>,
) {
    match signer(origin) {
        Err(e) => (s, Err(e)),
        Ok(sender) => {
            if !s.balances.contains_key(sender) {
                (s, Err(Error::NonExistentAccount))
            } else if s.balances[sender] < amount {
                (s, Err(Error::InsufficientBalance))
            } else {
                let debited = LedgerModel {
                    balances: s.balances.insert(sender, (s.balances[sender] - amount) as Balance),
                    total_issuance: s.total_issuance,
                };
                if debited.balance_or_zero(dest) + amount > Balance::MAX {
                    (s, Err(Error::Overflow))
                } else {
                    (
                        LedgerModel {
                            balances: debited.credited(dest, amount),
                            total_issuance: s.total_issuance,
                        },
                        Ok(()),
                    )
                }
            }
        },
    }
}

/// A ledger of account balances and total issuance, configured by `T`.
pub struct Pallet<T: Config> {
    balances: HashMap<AccountId, Balance>,
    total_issuance: Balance,
    config: PhantomData<T>,
}

impl<T: Config> View for Pallet<T> {
    type V = LedgerModel;

    closed spec fn view(&self) -> LedgerModel {
        LedgerModel { balances: self.balances@, total_issuance: self.total_issuance }
    }
}

impl<T: Config> Pallet<T> {
    /// An empty ledger: no accounts, zero issuance.
    pub fn new() -> (p: Self)
        ensures
            p@.balances == Map::<AccountId, Balance>::empty(),
            p@.total_issuance == 0,
            p@.wf(),
    {
        let p = Pallet { balances: HashMap::new(), total_issuance: 0, config: PhantomData };
        assert(p@.balances =~= Map::<AccountId, Balance>::empty());
        p
    }

    /// Creates `amount` in the balance of `dest`, for any signed origin;
    /// the issuance grows by the same amount. Nothing changes unless the
    /// call succeeds.
    pub fn mint_unsafe(&mut self, origin: Origin, dest: AccountId, amount: Balance) -> (r: Result<
        (),
        Error,
    >)
        requires
            old(self)@.wf(),
        ensures
            (final(self)@, r) == mint_step(old(self)@, origin, dest, amount),
            final(self)@.wf(),
    {
        proof {
            crate::laws::lemma_mint_keeps_issuance_equal_to_sum(self@, origin, dest, amount);
        }
        let _anyone = match ensure_signed(origin) {
            Ok(who) => who,
            Err(e) => return Err(e),
        };
        let dest_before: Balance = match self.balances.get(&dest) {
            Some(b) => *b,
            None => 0,
        };
        let dest_after: Balance = match dest_before.checked_add(amount) {
            Some(sum) => sum,
            None => return Err(Error::Overflow),
        };
        let issuance_after: Balance = match self.total_issuance.checked_add(amount) {
            Some(sum) => sum,
            None => return Err(Error::Overflow),
        };
        self.balances.insert(dest, dest_after);
        self.total_issuance = issuance_after;
        Ok(())
    }

    /// Moves `amount` from the account that signed `origin` to `dest`.
    /// Nothing changes unless the call succeeds.
    pub fn transfer(&mut self, origin: Origin, dest: AccountId, amount: Balance) -> (r: Result<
        (),
        Error,
    >)
        requires
            old(self)@.wf(),
        ensures
            (final(self)@, r) == transfer_step(old(self)@, origin, dest, amount),
            final(self)@.wf(),
            r != Err::<(), Error>(Error::Overflow),
    {
        proof {
            crate::laws::lemma_transfer_conserves(self@, origin, dest, amount);
        }
        let sender = match ensure_signed(origin) {
            Ok(who) => who,
            Err(e) => return Err(e),
        };
        let sender_balance: Balance = match self.balances.get(&sender) {
            Some(b) => *b,
            None => return Err(Error::NonExistentAccount),
        };
        if sender_balance < amount {
            return Err(Error::InsufficientBalance);
        }
        let remainder: Balance = match sender_balance.checked_sub(amount) {
            Some(left) => left,
            None => return Err(Error::InsufficientBalance),
        };
        // The credit reads the sender's entry after the debit, so that a
        // transfer to oneself keeps both updates.
        let dest_before: Balance = if dest == sender {
            remainder
        } else {
            match self.balances.get(&dest) {
                Some(b) => *b,
                None => 0,
            }
        };
        let dest_after: Balance = match dest_before.checked_add(amount) {
            Some(sum) => sum,
            None => return Err(Error::Overflow),
        };
        self.balances.insert(sender, remainder);
        self.balances.insert(dest, dest_after);
        Ok(())
    }
    /// The balance entry of `who`, if it is materialized.
    pub fn balance(&self, who: AccountId) -> (r: Option<Balance>)
        ensures
            r == (if self@.balances.contains_key(who) {
                Some(self@.balances[who])
            } else {
                None::<Balance>
            }),
    {
        match self.balances.get(&who) {
            Some(b) => Some(*b),
            None => None,
        }
    }

    /// The total issuance.
    pub fn total_issuance(&self) -> (r: Balance)
        ensures
            r == self@.total_issuance,
    {
        self.total_issuance
    }
}

} // verus!
