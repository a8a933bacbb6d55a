//! A minimal single-asset ledger: account balances plus a total-issuance
//! counter, changed only through `mint_unsafe` and `transfer`.

pub mod laws;
pub mod pallet;
pub mod sum;

pub use pallet::{ensure_signed, AccountId, Balance, Config, Error, LedgerModel, Origin, Pallet};
