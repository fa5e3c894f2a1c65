//! The laws the marketplace obeys, proved once and for all over the model.
//!
//! Each lemma here is stated over [`EngineModel`] and its transition
//! functions, which are exactly what the executable methods' contracts pin
//! their results to; together with those contracts the lemmas cover whole
//! sequences of operations.

use crate::model::EngineModel;
use crate::types::{AccountId, Balance, WithdrawType};
use vstd::prelude::*;

verus! {

/// The ledger never holds a negative balance: whatever sequence of credits
/// and debits produced a state, every recorded amount, and the zero default
/// of an absent entry, is non-negative. (A debit that would overdraw is
/// rejected and leaves the state untouched, which `withdraw` and `buy`
/// state directly in their contracts.)
pub proof fn lemma_balance_never_negative(s: EngineModel, quote_id: u64, account: AccountId)
    ensures
        0 <= s.balance_of(quote_id, account),
{
}

/// Placing a token for sale and then cancelling the listing leaves no live
/// listing for the token and exactly one new token withdrawal request, made
/// out to the original depositor; the consumed deposit record is not
/// restored, and the ledger and the currency withdrawal queue are untouched.
pub proof fn lemma_place_then_cancel(
    s: EngineModel,
    caller: AccountId,
    collection_id: u64,
    token_id: u64,
    quote_id: u64,
    price: Balance,
)
    requires
        s.inv(),
        s.list_ok(caller, collection_id, token_id),
        s.last_ask_id < u128::MAX,
    ensures
        ({
            let s1 = s.listed(collection_id, token_id, quote_id, price);
            let s2 = s1.cancelled(collection_id, token_id);
            let seller = s.deposits[(collection_id, token_id)];
            &&& !s2.listing_live(collection_id, token_id)
            &&& !s2.asks.contains_key(s1.last_ask_id)
            &&& s2.nft_withdraws == s.nft_withdraws.push((seller, collection_id, token_id))
            &&& !s2.deposits.contains_key((collection_id, token_id))
            &&& s2.deposits == s.deposits.remove((collection_id, token_id))
            &&& s2.balances == s.balances
            &&& s2.withdraws == s.withdraws
            &&& s2.totals == s.totals
            &&& s2.last_ask_id == s.last_ask_id + 1
        }),
{
}

/// Placing a token for sale and then buying it settles atomically: the
/// buyer pays exactly the price, the listing no longer resolves, exactly one
/// token withdrawal (to the buyer) and one currency withdrawal (to the
/// seller, cause `WithdrawMatched`, for exactly the price) are enqueued, and
/// the traded volume of the quote currency grows by exactly the price. The
/// seller's proceeds go straight from the credit into the matched
/// withdrawal request, so the seller's ledger entry itself ends unchanged:
/// the price the buyer paid is owed to the seller by the custodian.
pub proof fn lemma_place_then_buy(
    s: EngineModel,
    lister: AccountId,
    buyer: AccountId,
    collection_id: u64,
    token_id: u64,
    quote_id: u64,
    price: Balance,
)
    requires
        s.inv(),
        s.list_ok(lister, collection_id, token_id),
        s.last_ask_id < u128::MAX,
        s.listed(collection_id, token_id, quote_id, price).buy_ok(buyer, collection_id, token_id),
    ensures
        ({
            let s1 = s.listed(collection_id, token_id, quote_id, price);
            let s2 = s1.bought(buyer, collection_id, token_id);
            let seller = s.deposits[(collection_id, token_id)];
            &&& s2.balance_of(quote_id, buyer) == s1.balance_of(quote_id, buyer) - price
            &&& (buyer != seller ==> s2.balance_of(quote_id, seller) == s1.balance_of(
                quote_id,
                seller,
            ))
            &&& s2.withdraws == s1.withdraws.push((seller, price, WithdrawType::WithdrawMatched))
            &&& s2.nft_withdraws == s1.nft_withdraws.push((buyer, collection_id, token_id))
            &&& s2.total_of(quote_id) == s1.total_of(quote_id) + price
            &&& !s2.listing_live(collection_id, token_id)
            &&& !s2.asks.contains_key(s1.live_ask_id(collection_id, token_id))
        }),
{
}

/// Listing ids strictly increase and are never reused: the id a commit of
/// `ask` issues is one past the last ever issued, above every id a live
/// listing carries, and `cancel` and `buy` never lower the counter (their
/// transitions keep `last_ask_id`), so an id freed by cancellation can never
/// come back.
pub proof fn lemma_listing_ids_strictly_increase(
    s: EngineModel,
    caller: AccountId,
    collection_id: u64,
    token_id: u64,
    quote_id: u64,
    price: Balance,
)
    requires
        s.inv(),
        s.list_ok(caller, collection_id, token_id),
        s.last_ask_id < u128::MAX,
    ensures
        ({
            let s1 = s.listed(collection_id, token_id, quote_id, price);
            &&& s1.last_ask_id == s.last_ask_id + 1
            &&& !s.asks.contains_key(s1.last_ask_id)
            &&& forall|id: u128| #[trigger] s.asks.contains_key(id) ==> id < s1.last_ask_id
        }),
{
}

/// Token withdrawal ids are never reused either: cancelling a live listing
/// appends one entry with the next id, made out to the listing's seller,
/// and every already issued entry stays exactly where and what it was.
/// (A committed `buy` appends to this queue in the same way, which
/// [`lemma_place_then_buy`] pins.)
pub proof fn lemma_token_withdraw_queue_append_only(
    s: EngineModel,
    collection_id: u64,
    token_id: u64,
)
    requires
        s.listing_live(collection_id, token_id),
    ensures
        ({
            let s1 = s.cancelled(collection_id, token_id);
            let seller = s.live_ask(collection_id, token_id).4;
            &&& s1.nft_withdraws.len() == s.nft_withdraws.len() + 1
            &&& s1.nft_withdraws[s.nft_withdraws.len() as int] == (
                seller,
                collection_id,
                token_id,
            )
            &&& forall|i: int|
                0 <= i < s.nft_withdraws.len() ==> #[trigger] s1.nft_withdraws[i]
                    == s.nft_withdraws[i]
        }),
{
}

/// Withdrawal ids strictly increase and are never reused: a committed
/// withdrawal appends one entry with the next id (the queue's new length)
/// and every already issued entry stays exactly where and what it was.
pub proof fn lemma_withdraw_queue_append_only(
    s: EngineModel,
    account: AccountId,
    quote_id: u64,
    amount: Balance,
    withdraw_type: WithdrawType,
)
    ensures
        ({
            let s1 = s.withdrawn(account, quote_id, amount, withdraw_type);
            &&& s1.withdraws.len() == s.withdraws.len() + 1
            &&& s1.withdraws[s.withdraws.len() as int] == (account, amount, withdraw_type)
            &&& forall|i: int|
                0 <= i < s.withdraws.len() ==> #[trigger] s1.withdraws[i] == s.withdraws[i]
        }),
{
}

} // verus!
