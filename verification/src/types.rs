//! Plain value types shared by the engine, its model and its callers.

use vstd::prelude::*;

verus! {

/// An account identity as supplied by the (already authenticated) host
/// environment, reduced to a plain numeric id. The id `0` doubles as the
/// "unset" identity that the admin role holds until the owner assigns it.
pub type AccountId = u64;

/// A non-negative amount of some quote currency.
pub type Balance = u128;

/// The outcome of a rejected operation. Every error aborts the whole
/// invocation: the engine's methods leave the state untouched whenever they
/// return one of these.
#[derive(Clone, Copy, Debug, PartialEq, Eq, Structural)]
pub enum Error {
    /// The caller lacks the role or ownership the operation demands.
    Unauthorized,
    /// A lookup on an absent key: listing, deposit record, withdrawal id,
    /// or a currency whose traded-volume counter was never initialized.
    NotFound,
    /// A debit larger than the available balance.
    InsufficientFunds,
    /// A credit that would exceed the representable balance range, or a
    /// credit of zero (the ledger only records strictly growing credits).
    Overflow,
}

/// Why a currency withdrawal request was enqueued.
#[derive(Clone, Copy, Debug, PartialEq, Eq, Structural)]
pub enum WithdrawType {
    /// Withdraw by the seller after a successful trade.
    WithdrawMatched,
    /// Withdraw of unused funds, requested by the account holder.
    WithdrawUnused,
}

/// The notification a successful `buy` returns: who sold, who bought, the
/// combined token identifier `collection_id * 2^32 + token_id`, and the
/// price that changed hands.
#[derive(Clone, Copy, Debug, PartialEq, Eq)]
pub struct Sold {
    pub seller: Option<AccountId>,
    pub buyer: Option<AccountId>,
    pub coll_token_id: u128,
    pub price: Balance,
}

} // verus!
