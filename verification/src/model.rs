//! The mathematical model of the marketplace engine.
//!
//! [`EngineModel`] is the view of the executable engine: partial maps for the
//! ledger, the deposit registry and the listing book, and sequences for the
//! two append-only withdrawal queues (the entry with id `i` sits at index
//! `i - 1`, so a queue's length is its last issued id). Every contract of the
//! executable engine is stated over this model, through the success
//! predicates and transition functions below.

use crate::types::{AccountId, Balance, WithdrawType};
use vstd::prelude::*;

verus! {

/// One listing: `(collection_id, token_id, quote_id, price, seller)`.
pub type AskRecord = (u64, u64, u64, Balance, AccountId);

/// One currency withdrawal intent: `(account, amount, withdraw_type)`.
pub type WithdrawRecord = (AccountId, Balance, WithdrawType);

/// One token withdrawal intent: `(account, collection_id, token_id)`.
pub type NftWithdrawRecord = (AccountId, u64, u64);

/// The abstract state of the whole engine.
#[verifier::ext_equal]
pub struct EngineModel {
    /// The contract owner, fixed at construction.
    pub owner: AccountId,
    /// The custodian identity; `0` until the owner assigns one.
    pub admin: AccountId,
    /// Ledger: `(quote_id, account)` to the recorded balance. Absence of a
    /// key reads as a zero balance (see [`EngineModel::balance_of`]).
    pub balances: Map<(u64, AccountId), Balance>,
    /// Cumulative traded volume per quote currency.
    pub totals: Map<u64, Balance>,
    /// Append-only currency withdrawal queue; id `i` is at index `i - 1`.
    pub withdraws: Seq<WithdrawRecord>,
    /// Deposit registry: `(collection_id, token_id)` to the depositing account.
    pub deposits: Map<(u64, u64), AccountId>,
    /// Append-only token withdrawal queue; id `i` is at index `i - 1`.
    pub nft_withdraws: Seq<NftWithdrawRecord>,
    /// Listing book: listing id to the listing record.
    pub asks: Map<u128, AskRecord>,
    /// Reverse index: `(collection_id, token_id)` to the live listing id.
    pub asks_by_token: Map<(u64, u64), u128>,
    /// The last listing id ever issued; ids are never reused.
    pub last_ask_id: u128,
}

impl EngineModel {
    /// The state a fresh engine starts in: `caller` owns it, no admin is
    /// set, everything is empty but the traded-volume counter of quote
    /// currency 2, which is seeded with zero.
    pub open spec fn init(caller: AccountId) -> EngineModel {
        EngineModel {
            owner: caller,
            admin: 0,
            balances: Map::empty(),
            totals: Map::empty().insert(2u64, 0 as Balance),
            withdraws: Seq::empty(),
            deposits: Map::empty(),
            nft_withdraws: Seq::empty(),
            asks: Map::empty(),
            asks_by_token: Map::empty(),
            last_ask_id: 0,
        }
    }

    /// Internal consistency of the listing book: every reverse-index entry
    /// points at a live listing for exactly its own key, and every issued
    /// listing id lies in `1 ..= last_ask_id`.
    pub open spec fn inv(self) -> bool {
        &&& forall|tk: (u64, u64)| #[trigger]
            self.asks_by_token.contains_key(tk) ==> {
                let id = self.asks_by_token[tk];
                &&& self.asks.contains_key(id)
                &&& self.asks[id].0 == tk.0
                &&& self.asks[id].1 == tk.1
            }
        &&& forall|id: u128| #[trigger] self.asks.contains_key(id) ==> 1 <= id <= self.last_ask_id
    }

    /// The ledger balance of `account` in currency `quote_id`; an absent
    /// entry is a zero balance.
    pub open spec fn balance_of(self, quote_id: u64, account: AccountId) -> Balance {
        if self.balances.contains_key((quote_id, account)) {
            self.balances[(quote_id, account)]
        } else {
            0
        }
    }

    /// The cumulative traded volume of `quote_id`; an absent counter reads
    /// as zero (only `buy` uses this default; `get_total` reports absence).
    pub open spec fn total_of(self, quote_id: u64) -> Balance {
        if self.totals.contains_key(quote_id) {
            self.totals[quote_id]
        } else {
            0
        }
    }

    /// Whether `(collection_id, token_id)` currently resolves to a listing.
    pub open spec fn listing_live(self, collection_id: u64, token_id: u64) -> bool {
        self.asks_by_token.contains_key((collection_id, token_id))
    }

    /// The id the reverse index holds for `(collection_id, token_id)`.
    pub open spec fn live_ask_id(self, collection_id: u64, token_id: u64) -> u128 {
        self.asks_by_token[(collection_id, token_id)]
    }

    /// The listing record the reverse index resolves to for this key.
    pub open spec fn live_ask(self, collection_id: u64, token_id: u64) -> AskRecord {
        self.asks[self.live_ask_id(collection_id, token_id)]
    }

    // ------------------------------------------------------------------
    // Transitions. Each `*_ok` predicate says when the operation commits;
    // each past-participle function gives the committed successor state.
    // A rejected operation leaves the state untouched, which the engine's
    // contracts state directly.
    // ------------------------------------------------------------------

    /// `set_admin` committed: only the admin identity changes.
    pub open spec fn with_admin(self, admin: AccountId) -> EngineModel {
        EngineModel { admin, ..self }
    }

    /// `reset_total` committed: the counter of `quote_id` is (re)set to zero.
    pub open spec fn with_total_reset(self, quote_id: u64) -> EngineModel {
        EngineModel { totals: self.totals.insert(quote_id, 0 as Balance), ..self }
    }

    /// A credit commits only for a strictly positive amount that keeps the
    /// balance representable.
    pub open spec fn credit_ok(self, quote_id: u64, amount: Balance, account: AccountId) -> bool {
        amount > 0 && self.balance_of(quote_id, account) + amount <= Balance::MAX
    }

    /// `register_deposit` committed: the account's balance grows by `amount`.
    pub open spec fn credited(self, quote_id: u64, amount: Balance, account: AccountId) -> EngineModel {
        EngineModel {
            balances: self.balances.insert(
                (quote_id, account),
                (self.balance_of(quote_id, account) + amount) as Balance,
            ),
            ..self
        }
    }

    /// A withdrawal commits only when the balance covers the amount.
    pub open spec fn withdraw_ok(self, account: AccountId, quote_id: u64, amount: Balance) -> bool {
        self.balance_of(quote_id, account) >= amount
    }

    /// A committed vault withdrawal: the balance shrinks by `amount` and one
    /// new entry is appended to the currency withdrawal queue.
    pub open spec fn withdrawn(
        self,
        account: AccountId,
        quote_id: u64,
        amount: Balance,
        withdraw_type: WithdrawType,
    ) -> EngineModel {
        EngineModel {
            balances: self.balances.insert(
                (quote_id, account),
                (self.balance_of(quote_id, account) - amount) as Balance,
            ),
            withdraws: self.withdraws.push((account, amount, withdraw_type)),
            ..self
        }
    }

    /// `register_nft_deposit` committed: the record is written, overwriting
    /// any earlier attestation for the same key.
    pub open spec fn nft_deposited(
        self,
        collection_id: u64,
        token_id: u64,
        account: AccountId,
    ) -> EngineModel {
        EngineModel { deposits: self.deposits.insert((collection_id, token_id), account), ..self }
    }

    /// `ask` commits when a deposit record exists for the key and the caller
    /// is either the contract owner or the depositing account.
    pub open spec fn list_ok(self, caller: AccountId, collection_id: u64, token_id: u64) -> bool {
        &&& self.deposits.contains_key((collection_id, token_id))
        &&& (caller == self.owner || caller == self.deposits[(collection_id, token_id)])
    }

    /// `ask` committed: the deposit record is consumed, the next listing id
    /// is issued, and the listing and its reverse-index entry are written
    /// together. The seller is the depositing account, also when the owner
    /// listed on its behalf.
    pub open spec fn listed(
        self,
        collection_id: u64,
        token_id: u64,
        quote_id: u64,
        price: Balance,
    ) -> EngineModel {
        let seller = self.deposits[(collection_id, token_id)];
        let id = (self.last_ask_id + 1) as u128;
        EngineModel {
            deposits: self.deposits.remove((collection_id, token_id)),
            asks: self.asks.insert(id, (collection_id, token_id, quote_id, price, seller)),
            asks_by_token: self.asks_by_token.insert((collection_id, token_id), id),
            last_ask_id: id,
            ..self
        }
    }

    /// `cancel` commits for the contract owner or the listing's seller.
    pub open spec fn cancel_ok(self, caller: AccountId, collection_id: u64, token_id: u64) -> bool {
        &&& self.listing_live(collection_id, token_id)
        &&& (caller == self.owner || caller == self.live_ask(collection_id, token_id).4)
    }

    /// `cancel` committed: the listing and its reverse-index entry vanish
    /// together and the token is queued for withdrawal back to the seller.
    /// The consumed deposit record is not restored.
    pub open spec fn cancelled(self, collection_id: u64, token_id: u64) -> EngineModel {
        let id = self.live_ask_id(collection_id, token_id);
        let seller = self.asks[id].4;
        EngineModel {
            asks: self.asks.remove(id),
            asks_by_token: self.asks_by_token.remove((collection_id, token_id)),
            nft_withdraws: self.nft_withdraws.push((seller, collection_id, token_id)),
            ..self
        }
    }

    /// The seller's balance as it stands after the buyer has paid: for a
    /// self-purchase that is the already debited balance.
    pub open spec fn seller_balance_before_credit(
        self,
        buyer: AccountId,
        collection_id: u64,
        token_id: u64,
    ) -> Balance {
        let ask = self.live_ask(collection_id, token_id);
        if ask.4 == buyer {
            (self.balance_of(ask.2, buyer) - ask.3) as Balance
        } else {
            self.balance_of(ask.2, ask.4)
        }
    }

    /// The buyer can pay the listing's price.
    pub open spec fn buy_funded(self, buyer: AccountId, collection_id: u64, token_id: u64) -> bool {
        let ask = self.live_ask(collection_id, token_id);
        self.balance_of(ask.2, buyer) >= ask.3
    }

    /// Crediting the seller and the volume counter stays representable, and
    /// the price is strictly positive (a credit of zero is rejected as
    /// [`crate::types::Error::Overflow`], like any non-growing credit).
    pub open spec fn buy_fits(self, buyer: AccountId, collection_id: u64, token_id: u64) -> bool {
        let ask = self.live_ask(collection_id, token_id);
        let seller_balance = self.seller_balance_before_credit(buyer, collection_id, token_id);
        &&& ask.3 > 0
        &&& seller_balance + ask.3 <= Balance::MAX
        &&& self.total_of(ask.2) + ask.3 <= Balance::MAX
    }

    /// All of `buy`'s checks together.
    pub open spec fn buy_ok(self, buyer: AccountId, collection_id: u64, token_id: u64) -> bool {
        &&& self.listing_live(collection_id, token_id)
        &&& self.buy_funded(buyer, collection_id, token_id)
        &&& self.buy_fits(buyer, collection_id, token_id)
    }

    /// `buy` committed, as one indivisible step: the buyer pays the price,
    /// the seller's proceeds move straight into the currency withdrawal
    /// queue (so the seller's ledger entry ends at its pre-credit value),
    /// the listing and its reverse-index entry vanish, the token is queued
    /// for withdrawal to the buyer, and the traded volume grows by the
    /// price.
    pub open spec fn bought(self, buyer: AccountId, collection_id: u64, token_id: u64) -> EngineModel {
        let id = self.live_ask_id(collection_id, token_id);
        let ask = self.asks[id];
        let quote_id = ask.2;
        let price = ask.3;
        let seller = ask.4;
        let buyer_balance = self.balance_of(quote_id, buyer);
        let seller_balance = self.seller_balance_before_credit(buyer, collection_id, token_id);
        EngineModel {
            balances: self.balances.insert(
                (quote_id, buyer),
                (buyer_balance - price) as Balance,
            ).insert((quote_id, seller), seller_balance),
            totals: self.totals.insert(quote_id, (self.total_of(quote_id) + price) as Balance),
            withdraws: self.withdraws.push((seller, price, WithdrawType::WithdrawMatched)),
            deposits: self.deposits,
            nft_withdraws: self.nft_withdraws.push((buyer, collection_id, token_id)),
            asks: self.asks.remove(id),
            asks_by_token: self.asks_by_token.remove((collection_id, token_id)),
            ..self
        }
    }
}

/// A committed `ask` keeps the listing book consistent: the new id is
/// fresh, and every older reverse-index entry still resolves.
pub proof fn lemma_listed_preserves_inv(
    s: EngineModel,
    collection_id: u64,
    token_id: u64,
    quote_id: u64,
    price: Balance,
)
    requires
        s.inv(),
        s.deposits.contains_key((collection_id, token_id)),
        s.last_ask_id < u128::MAX,
    ensures
        s.listed(collection_id, token_id, quote_id, price).inv(),
{
    let s1 = s.listed(collection_id, token_id, quote_id, price);
    let fresh_id = (s.last_ask_id + 1) as u128;
    assert forall|tk: (u64, u64)| #[trigger] s1.asks_by_token.contains_key(tk) implies {
        let id = s1.asks_by_token[tk];
        &&& s1.asks.contains_key(id)
        &&& s1.asks[id].0 == tk.0
        &&& s1.asks[id].1 == tk.1
    } by {
        if tk != (collection_id, token_id) {
            assert(s.asks_by_token.contains_key(tk));
            assert(s.asks.contains_key(s.asks_by_token[tk]));
        }
    }
    assert forall|id: u128| #[trigger] s1.asks.contains_key(id) implies 1 <= id
        <= s1.last_ask_id by {
        if id != fresh_id {
            assert(s.asks.contains_key(id));
        }
    }
}

/// A committed `cancel` keeps the listing book consistent: no other
/// reverse-index entry can point at the removed listing, because each
/// listing stores its own key.
pub proof fn lemma_cancelled_preserves_inv(s: EngineModel, collection_id: u64, token_id: u64)
    requires
        s.inv(),
        s.listing_live(collection_id, token_id),
    ensures
        s.cancelled(collection_id, token_id).inv(),
{
    lemma_unlisting_preserves_inv(s, collection_id, token_id);
}

/// A committed `buy` keeps the listing book consistent, for the same
/// reason a `cancel` does: it removes one listing and its own
/// reverse-index entry together.
pub proof fn lemma_bought_preserves_inv(
    s: EngineModel,
    buyer: AccountId,
    collection_id: u64,
    token_id: u64,
)
    requires
        s.inv(),
        s.listing_live(collection_id, token_id),
    ensures
        s.bought(buyer, collection_id, token_id).inv(),
{
    lemma_unlisting_preserves_inv(s, collection_id, token_id);
    let s1 = s.bought(buyer, collection_id, token_id);
    let s2 = s.cancelled(collection_id, token_id);
    assert(s1.asks == s2.asks);
    assert(s1.asks_by_token == s2.asks_by_token);
    assert(s1.last_ask_id == s2.last_ask_id);
}

/// Removing a live listing together with its reverse-index entry (what
/// both `cancel` and `buy` do to the listing book) preserves the book
/// invariant.
proof fn lemma_unlisting_preserves_inv(s: EngineModel, collection_id: u64, token_id: u64)
    requires
        s.inv(),
        s.listing_live(collection_id, token_id),
    ensures
        s.cancelled(collection_id, token_id).inv(),
{
    let s1 = s.cancelled(collection_id, token_id);
    let removed_id = s.asks_by_token[(collection_id, token_id)];
    assert(s.asks_by_token.contains_key((collection_id, token_id)));
    assert forall|tk: (u64, u64)| #[trigger] s1.asks_by_token.contains_key(tk) implies {
        let id = s1.asks_by_token[tk];
        &&& s1.asks.contains_key(id)
        &&& s1.asks[id].0 == tk.0
        &&& s1.asks[id].1 == tk.1
    } by {
        assert(s.asks_by_token.contains_key(tk));
        let id = s.asks_by_token[tk];
        assert(s.asks.contains_key(id));
        if id == removed_id {
            assert(s.asks[id].0 == tk.0 && s.asks[id].1 == tk.1);
            assert(s.asks[id].0 == collection_id && s.asks[id].1 == token_id);
            assert(false);
        }
    }
    assert forall|id: u128| #[trigger] s1.asks.contains_key(id) implies 1 <= id
        <= s1.last_ask_id by {
        assert(s.asks.contains_key(id));
    }
}

} // verus!
