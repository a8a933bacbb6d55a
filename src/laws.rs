//! Properties of the ledger's state transitions.
use crate::pallet::{mint_step, signer, transfer_step, LedgerModel, Origin};
use crate::pallet::{AccountId, Balance, Error};
use crate::sum::{lemma_total_insert, lemma_two_entries_le_total, lemma_entry_le_total, total};
use vstd::prelude::*;

verus! {

/// A transfer keeps the sum of the balances and the issuance as they are, so
/// the issuance stays equal to the sum; and the credit to the receiver can
/// never overflow.
pub proof fn lemma_transfer_conserves(s: LedgerModel, origin: Origin, dest: AccountId, amount: Balance)
    requires
        s.wf(),
    ensures
        transfer_step(s, origin, dest, amount).0.wf(),
        total(transfer_step(s, origin, dest, amount).0.balances) == total(s.balances),
        transfer_step(s, origin, dest, amount).0.total_issuance == s.total_issuance,
        transfer_step(s, origin, dest, amount).1 != Err::<(), Error>(Error::Overflow),
{
    if let Ok(sender) = signer(origin) {
        if s.balances.contains_key(sender) && s.balances[sender] >= amount {
            let m = s.balances;
            let d = m.insert(sender, (m[sender] - amount) as Balance);
            lemma_total_insert(m, sender, (m[sender] - amount) as Balance);
            if dest == sender {
            } else if m.contains_key(dest) {
                lemma_two_entries_le_total(m, sender, dest);
            } else {
                lemma_entry_le_total(m, sender);
            }
            let before = if d.contains_key(dest) { d[dest] as int } else { 0 };
            assert(before + amount <= Balance::MAX);
            lemma_total_insert(d, dest, (before + amount) as Balance);
        }
    }
}

/// Every stored balance lies between zero and the total issuance.
pub proof fn lemma_balance_bounded(s: LedgerModel, who: AccountId)
    requires
        s.wf(),
        s.balances.contains_key(who),
    ensures
        0 <= s.balances[who] <= s.total_issuance,
{
    lemma_entry_le_total(s.balances, who);
}

/// A mint keeps the issuance equal to the sum of the balances.
pub proof fn lemma_mint_keeps_issuance_equal_to_sum(
    s: LedgerModel,
    origin: Origin,
    dest: AccountId,
    amount: Balance,
)
    requires
        s.wf(),
    ensures
        mint_step(s, origin, dest, amount).0.wf(),
{
    let m = s.balances;
    lemma_total_insert(m, dest, (s.balance_or_zero(dest) + amount) as Balance);
}

/// A mint whose credit would take the balance of `dest` past the largest
/// `Balance` fails with `Overflow` and changes nothing.
pub proof fn lemma_mint_rejects_overflow(s: LedgerModel, caller: AccountId, dest: AccountId, amount: Balance)
    requires
        s.balance_or_zero(dest) + amount > Balance::MAX,
    ensures
        mint_step(s, Origin::Signed(caller), dest, amount) == (s, Err::<(), Error>(Error::Overflow)),
{
}

/// Minting `a` and then `b` into one account gives the same state as minting
/// `a + b` at once, when no overflow occurs.
pub proof fn lemma_mint_additive(s: LedgerModel, caller: AccountId, dest: AccountId, a: Balance, b: Balance)
    requires
        s.wf(),
        s.total_issuance + a + b <= Balance::MAX,
    ensures
        mint_step(s, Origin::Signed(caller), dest, a).1 == Ok::<(), Error>(()),
        mint_step(mint_step(s, Origin::Signed(caller), dest, a).0, Origin::Signed(caller), dest, b)
            == mint_step(s, Origin::Signed(caller), dest, (a + b) as Balance),
        mint_step(s, Origin::Signed(caller), dest, (a + b) as Balance).1 == Ok::<(), Error>(()),
{
    if s.balances.contains_key(dest) {
        lemma_entry_le_total(s.balances, dest);
    }
    let first = mint_step(s, Origin::Signed(caller), dest, a).0;
    assert(first.credited(dest, b) =~= s.credited(dest, (a + b) as Balance));
}

/// A transfer from an account to itself, of at most its balance, succeeds and
/// leaves the state as it was.
pub proof fn lemma_self_transfer_is_identity(s: LedgerModel, caller: AccountId, amount: Balance)
    requires
        s.balances.contains_key(caller),
        s.balances[caller] >= amount,
    ensures
        transfer_step(s, Origin::Signed(caller), caller, amount) == (s, Ok::<(), Error>(())),
{
    let after = transfer_step(s, Origin::Signed(caller), caller, amount).0;
    assert(after.balances =~= s.balances);
}

/// A call on the ledger.
pub enum Call {
    /// `mint_unsafe(origin, dest, amount)`.
    Mint { origin: Origin, dest: AccountId, amount: Balance },
    /// `transfer(origin, dest, amount)`.
    Transfer { origin: Origin, dest: AccountId, amount: Balance },
}

/// The state after `c` on state `s`.
pub open spec fn apply(s: LedgerModel, c: Call) -> LedgerModel {
    match c {
        Call::Mint { origin, dest, amount } => mint_step(s, origin, dest, amount).0,
        Call::Transfer { origin, dest, amount } => transfer_step(s, origin, dest, amount).0,
    }
}

/// The state after the calls of `calls`, in order, on state `s`.
pub open spec fn apply_all(s: LedgerModel, calls: Seq<Call>) -> LedgerModel
    decreases calls.len(),
{
    if calls.len() == 0 {
        s
    } else {
        apply(apply_all(s, calls.drop_last()), calls.last())
    }
}

/// After any sequence of mints and transfers, successful or not, the
/// issuance equals the sum of the balances.
pub proof fn lemma_calls_keep_issuance_equal_to_sum(s: LedgerModel, calls: Seq<Call>)
    requires
        s.wf(),
    ensures
        apply_all(s, calls).wf(),
    decreases calls.len(),
{
    if calls.len() > 0 {
        lemma_calls_keep_issuance_equal_to_sum(s, calls.drop_last());
        let before = apply_all(s, calls.drop_last());
        match calls.last() {
            Call::Mint { origin, dest, amount } => {
                lemma_mint_keeps_issuance_equal_to_sum(before, origin, dest, amount);
            },
            Call::Transfer { origin, dest, amount } => {
                lemma_transfer_conserves(before, origin, dest, amount);
            },
        }
    }
}

/// Any sequence of transfers keeps the sum of the balances and the issuance.
pub proof fn lemma_transfers_conserve_sum(s: LedgerModel, calls: Seq<Call>)
    requires
        s.wf(),
        forall|i: int| 0 <= i < calls.len() ==> calls[i] is Transfer,
    ensures
        total(apply_all(s, calls).balances) == total(s.balances),
        apply_all(s, calls).total_issuance == s.total_issuance,
    decreases calls.len(),
{
    if calls.len() > 0 {
        let rest = calls.drop_last();
        assert(forall|i: int| 0 <= i < rest.len() ==> rest[i] == calls[i]);
        lemma_transfers_conserve_sum(s, rest);
        lemma_calls_keep_issuance_equal_to_sum(s, rest);
        assert(calls[calls.len() - 1] is Transfer);
        if let Call::Transfer { origin, dest, amount } = calls.last() {
            lemma_transfer_conserves(apply_all(s, rest), origin, dest, amount);
        }
    }
}

} // verus!
