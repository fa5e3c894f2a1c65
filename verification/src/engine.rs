//! The executable marketplace engine, verified against [`EngineModel`].
//!
//! Storage keys that the model treats as pairs are packed into a single
//! `u128` (`high * 2^64 + low`) so that the hash maps are keyed by a plain
//! integer; the packing is injective, which the view lemmas below use to
//! carry each map operation over to the pair-keyed model maps.

use crate::keys::{make_key, pair_key};
use crate::model::{AskRecord, EngineModel, NftWithdrawRecord, WithdrawRecord};
use crate::types::{AccountId, Balance, Error, Sold, WithdrawType};
use std::collections::HashMap;
use vstd::prelude::*;

verus! {

broadcast use vstd::std_specs::hash::group_hash_axioms, crate::keys::lemma_pair_key_injective;

/// Reads a packed-key map as the pair-keyed map the model speaks of.
spec fn pair_view<V>(m: Map<u128, V>) -> Map<(u64, u64), V> {
    Map::new(
        |p: (u64, u64)| m.contains_key(pair_key(p.0, p.1)),
        |p: (u64, u64)| m[pair_key(p.0, p.1)],
    )
}

proof fn lemma_pair_view_lookup<V>(m: Map<u128, V>, high: u64, low: u64)
    ensures
        pair_view(m).contains_key((high, low)) == m.contains_key(pair_key(high, low)),
        m.contains_key(pair_key(high, low)) ==> pair_view(m)[(high, low)] == m[pair_key(high, low)],
{
}

proof fn lemma_pair_view_insert<V>(m: Map<u128, V>, high: u64, low: u64, v: V)
    ensures
        pair_view(m.insert(pair_key(high, low), v)) == pair_view(m).insert((high, low), v),
{
    assert(pair_view(m.insert(pair_key(high, low), v)) =~= pair_view(m).insert((high, low), v));
}

proof fn lemma_pair_view_remove<V>(m: Map<u128, V>, high: u64, low: u64)
    ensures
        pair_view(m.remove(pair_key(high, low))) == pair_view(m).remove((high, low)),
{
    assert(pair_view(m.remove(pair_key(high, low))) =~= pair_view(m).remove((high, low)));
}

/// The custodial marketplace engine. All state lives here; every public
/// method takes the authenticated caller identity explicitly and either
/// commits completely or returns an [`Error`] leaving the state untouched.
pub struct MatchingEngine {
    /// Contract owner, fixed at construction.
    owner: AccountId,
    /// Custodian identity, owner-settable; `0` until assigned.
    admin: AccountId,
    /// Balances, keyed by `pair_key(quote_id, account)`.
    quote_balance: HashMap<u128, Balance>,
    /// Cumulative traded volume per quote currency.
    total_traded: HashMap<u64, Balance>,
    /// Currency withdrawal queue; the entry with id `i` sits at index `i - 1`.
    withdraw_queue: Vec<WithdrawRecord>,
    /// Deposit registry, keyed by `pair_key(collection_id, token_id)`.
    nft_deposits: HashMap<u128, AccountId>,
    /// Token withdrawal queue; the entry with id `i` sits at index `i - 1`.
    nft_withdraw_queue: Vec<NftWithdrawRecord>,
    /// Listing book, keyed by listing id.
    asks: HashMap<u128, AskRecord>,
    /// Reverse index, keyed by `pair_key(collection_id, token_id)`.
    asks_by_token: HashMap<u128, u128>,
    /// Last listing id ever issued.
    last_ask_id: u128,
}

impl View for MatchingEngine {
    type V = EngineModel;

    closed spec fn view(&self) -> EngineModel {
        EngineModel {
            owner: self.owner,
            admin: self.admin,
            balances: pair_view(self.quote_balance@),
            totals: self.total_traded@,
            withdraws: self.withdraw_queue@,
            deposits: pair_view(self.nft_deposits@),
            nft_withdraws: self.nft_withdraw_queue@,
            asks: self.asks@,
            asks_by_token: pair_view(self.asks_by_token@),
            last_ask_id: self.last_ask_id,
        }
    }
}

impl MatchingEngine {
    /// The engine is well formed when its listing book satisfies the model
    /// invariant [`EngineModel::inv`].
    pub open spec fn wf(self) -> bool {
        self@.inv()
    }

    /// Creates the engine: `caller` becomes the immutable owner, no admin
    /// is set yet, and only the traded-volume counter of quote currency 2
    /// is seeded.
    pub fn new(caller: AccountId) -> (r: MatchingEngine)
        ensures
            r.wf(),
            r@ == EngineModel::init(caller),
    {
        let mut total_traded: HashMap<u64, Balance> = HashMap::new();
        total_traded.insert(2, 0);
        let r = MatchingEngine {
            owner: caller,
            admin: 0,
            quote_balance: HashMap::new(),
            total_traded,
            withdraw_queue: Vec::new(),
            nft_deposits: HashMap::new(),
            nft_withdraw_queue: Vec::new(),
            asks: HashMap::new(),
            asks_by_token: HashMap::new(),
            last_ask_id: 0,
        };
        proof {
            assert(pair_view(r.quote_balance@) =~= Map::<(u64, u64), Balance>::empty());
            assert(pair_view(r.nft_deposits@) =~= Map::<(u64, u64), AccountId>::empty());
            assert(pair_view(r.asks_by_token@) =~= Map::<(u64, u64), u128>::empty());
            assert(r@ =~= EngineModel::init(caller));
        }
        r
    }

    /// Returns the contract owner.
    pub fn get_owner(&self) -> (r: AccountId)
        ensures
            r == self@.owner,
    {
        self.owner
    }

    /// Owner only: assigns the admin identity.
    pub fn set_admin(&mut self, caller: AccountId, admin: AccountId) -> (r: Result<(), Error>)
        requires
            old(self).wf(),
        ensures
            final(self).wf(),
            caller == old(self)@.owner ==> r == Ok::<(), Error>(()) && final(self)@ == old(self)@.with_admin(admin),
            caller != old(self)@.owner ==> r == Err::<(), Error>(Error::Unauthorized) && final(self)@ == old(self)@,
    {
        match self.ensure_only_owner(caller) {
            Err(e) => {
                return Err(e);
            },
            Ok(()) => {},
        }
        self.admin = admin;
        proof {
            assert(self@ =~= old(self)@.with_admin(admin));
        }
        Ok(())
    }

    /// Returns the cumulative traded volume of `quote_id`, or `NotFound`
    /// for a currency whose counter was never initialized.
    pub fn get_total(&self, quote_id: u64) -> (r: Result<Balance, Error>)
        ensures
            self@.totals.contains_key(quote_id) ==> r == Ok::<Balance, Error>(
                self@.totals[quote_id],
            ),
            !self@.totals.contains_key(quote_id) ==> r == Err::<Balance, Error>(Error::NotFound),
    {
        match self.total_traded.get(&quote_id) {
            Some(total) => Ok(*total),
            None => Err(Error::NotFound),
        }
    }

    /// Owner only: resets (and thereby initializes) the traded-volume
    /// counter of `quote_id` to zero.
    pub fn reset_total(&mut self, caller: AccountId, quote_id: u64) -> (r: Result<(), Error>)
        requires
            old(self).wf(),
        ensures
            final(self).wf(),
            caller == old(self)@.owner ==> r == Ok::<(), Error>(()) && final(self)@ == old(self)@.with_total_reset(quote_id),
            caller != old(self)@.owner ==> r == Err::<(), Error>(Error::Unauthorized) && final(self)@ == old(self)@,
    {
        match self.ensure_only_owner(caller) {
            Err(e) => {
                return Err(e);
            },
            Ok(()) => {},
        }
        self.total_traded.insert(quote_id, 0);
        proof {
            assert(self@ =~= old(self)@.with_total_reset(quote_id));
        }
        Ok(())
    }

    /// Admin only: credits `deposit_balance` of `quote_id` to `user`,
    /// attesting a custodian deposit. A credit of zero or one that would
    /// overflow the balance is rejected as `Overflow`.
    pub fn register_deposit(
        &mut self,
        caller: AccountId,
        quote_id: u64,
        deposit_balance: Balance,
        user: AccountId,
    ) -> (r: Result<(), Error>)
        requires
            old(self).wf(),
        ensures
            final(self).wf(),
            caller != old(self)@.admin ==> r == Err::<(), Error>(Error::Unauthorized) && final(self)@ == old(self)@,
            caller == old(self)@.admin && !old(self)@.credit_ok(quote_id, deposit_balance, user)
                ==> r == Err::<(), Error>(Error::Overflow) && final(self)@ == old(self)@,
            caller == old(self)@.admin && old(self)@.credit_ok(quote_id, deposit_balance, user)
                ==> r == Ok::<(), Error>(()) && final(self)@ == old(self)@.credited(
                quote_id,
                deposit_balance,
                user,
            ),
    {
        match self.ensure_only_admin(caller) {
            Err(e) => {
                return Err(e);
            },
            Ok(()) => {},
        }
        let initial_balance: Balance = self.balance_of_or_zero(quote_id, user);
        if deposit_balance == 0 || initial_balance > Balance::MAX - deposit_balance {
            return Err(Error::Overflow);
        }
        let key: u128 = make_key(quote_id, user);
        self.quote_balance.insert(key, initial_balance + deposit_balance);
        proof {
            lemma_pair_view_insert::<Balance>(
                old(self).quote_balance@,
                quote_id,
                user,
                (initial_balance + deposit_balance) as Balance,
            );
            assert(self@ =~= old(self)@.credited(quote_id, deposit_balance, user));
        }
        Ok(())
    }

    /// Returns the caller's balance in `quote_id`; an account without a
    /// ledger entry holds zero.
    pub fn get_balance(&self, caller: AccountId, quote_id: u64) -> (r: Balance)
        ensures
            r == self@.balance_of(quote_id, caller),
    {
        self.balance_of_or_zero(quote_id, caller)
    }

    /// Debits the caller's balance and enqueues a currency withdrawal
    /// intent for the custodian, with cause `WithdrawUnused`.
    pub fn withdraw(
        &mut self,
        caller: AccountId,
        quote_id: u64,
        withdraw_balance: Balance,
    ) -> (r: Result<(), Error>)
        requires
            old(self).wf(),
        ensures
            final(self).wf(),
            old(self)@.withdraw_ok(caller, quote_id, withdraw_balance) ==> r == Ok::<(), Error>(())
                && final(self)@ == old(self)@.withdrawn(
                caller,
                quote_id,
                withdraw_balance,
                WithdrawType::WithdrawUnused,
            ),
            !old(self)@.withdraw_ok(caller, quote_id, withdraw_balance) ==> r == Err::<(), Error>(
                Error::InsufficientFunds,
            ) && final(self)@ == old(self)@,
    {
        self.vault_withdraw(caller, quote_id, withdraw_balance, WithdrawType::WithdrawUnused)
    }

    /// Returns the id of the last currency withdrawal request issued; ids
    /// start at 1, so this is also how many requests exist.
    pub fn get_last_withdraw_id(&self) -> (r: u128)
        ensures
            r as int == self@.withdraws.len() as int,
    {
        self.withdraw_queue.len() as u128
    }

    /// Returns the currency withdrawal request with the given id, or
    /// `NotFound` if that id was never issued.
    pub fn get_withdraw_by_id(&self, id: u128) -> (r: Result<WithdrawRecord, Error>)
        ensures
            1 <= id <= self@.withdraws.len() ==> r == Ok::<WithdrawRecord, Error>(
                self@.withdraws[id as int - 1],
            ),
            !(1 <= id <= self@.withdraws.len()) ==> r == Err::<WithdrawRecord, Error>(
                Error::NotFound,
            ),
    {
        if 1 <= id && id <= self.withdraw_queue.len() as u128 {
            let idx: usize = (id - 1) as usize;
            Ok(self.withdraw_queue[idx])
        } else {
            Err(Error::NotFound)
        }
    }

    /// Returns the id of the last token withdrawal request issued.
    pub fn get_last_nft_withdraw_id(&self) -> (r: u128)
        ensures
            r as int == self@.nft_withdraws.len() as int,
    {
        self.nft_withdraw_queue.len() as u128
    }

    /// Returns the token withdrawal request with the given id, or
    /// `NotFound` if that id was never issued.
    pub fn get_nft_withdraw_by_id(&self, id: u128) -> (r: Result<NftWithdrawRecord, Error>)
        ensures
            1 <= id <= self@.nft_withdraws.len() ==> r == Ok::<NftWithdrawRecord, Error>(
                self@.nft_withdraws[id as int - 1],
            ),
            !(1 <= id <= self@.nft_withdraws.len()) ==> r == Err::<NftWithdrawRecord, Error>(
                Error::NotFound,
            ),
    {
        if 1 <= id && id <= self.nft_withdraw_queue.len() as u128 {
            let idx: usize = (id - 1) as usize;
            Ok(self.nft_withdraw_queue[idx])
        } else {
            Err(Error::NotFound)
        }
    }

    /// Admin only: records that `user` deposited the token
    /// `(collection_id, token_id)` with the custodian. A later attestation
    /// for the same token overwrites the earlier one.
    pub fn register_nft_deposit(
        &mut self,
        caller: AccountId,
        collection_id: u64,
        token_id: u64,
        user: AccountId,
    ) -> (r: Result<(), Error>)
        requires
            old(self).wf(),
        ensures
            final(self).wf(),
            caller == old(self)@.admin ==> r == Ok::<(), Error>(()) && final(self)@ == old(self)@.nft_deposited(collection_id, token_id, user),
            caller != old(self)@.admin ==> r == Err::<(), Error>(Error::Unauthorized) && final(self)@ == old(self)@,
    {
        match self.ensure_only_admin(caller) {
            Err(e) => {
                return Err(e);
            },
            Ok(()) => {},
        }
        let key: u128 = make_key(collection_id, token_id);
        self.nft_deposits.insert(key, user);
        proof {
            lemma_pair_view_insert::<AccountId>(
                old(self).nft_deposits@,
                collection_id,
                token_id,
                user,
            );
            assert(self@ =~= old(self)@.nft_deposited(collection_id, token_id, user));
        }
        Ok(())
    }

    /// Returns the account that deposited `(collection_id, token_id)`, or
    /// `NotFound` if no deposit record is live for that token.
    pub fn get_nft_deposit(&self, collection_id: u64, token_id: u64) -> (r: Result<
        AccountId,
        Error,
    >)
        ensures
            self@.deposits.contains_key((collection_id, token_id)) ==> r == Ok::<AccountId, Error>(
                self@.deposits[(collection_id, token_id)],
            ),
            !self@.deposits.contains_key((collection_id, token_id)) ==> r == Err::<
                AccountId,
                Error,
            >(Error::NotFound),
    {
        let key: u128 = make_key(collection_id, token_id);
        proof {
            lemma_pair_view_lookup::<AccountId>(self.nft_deposits@, collection_id, token_id);
        }
        match self.nft_deposits.get(&key) {
            Some(account) => Ok(*account),
            None => Err(Error::NotFound),
        }
    }

    /// Places a deposited token for sale: consumes the deposit record,
    /// issues the next listing id, and writes the listing together with
    /// its reverse-index entry. Allowed for the depositing account or for
    /// the contract owner; the seller is always the depositing account.
    pub fn ask(
        &mut self,
        caller: AccountId,
        collection_id: u64,
        token_id: u64,
        quote_id: u64,
        price: Balance,
    ) -> (r: Result<u128, Error>)
        requires
            old(self).wf(),
            old(self)@.last_ask_id < u128::MAX,
        ensures
            final(self).wf(),
            !old(self)@.deposits.contains_key((collection_id, token_id)) ==> r == Err::<
                u128,
                Error,
            >(Error::NotFound) && final(self)@ == old(self)@,
            old(self)@.deposits.contains_key((collection_id, token_id)) && !old(self)@.list_ok(
                caller,
                collection_id,
                token_id,
            ) ==> r == Err::<u128, Error>(Error::Unauthorized) && final(self)@ == old(self)@,
            old(self)@.list_ok(caller, collection_id, token_id) ==> r == Ok::<u128, Error>(
                (old(self)@.last_ask_id + 1) as u128,
            ) && final(self)@ == old(self)@.listed(collection_id, token_id, quote_id, price),
    {
        let key: u128 = make_key(collection_id, token_id);
        proof {
            lemma_pair_view_lookup::<AccountId>(self.nft_deposits@, collection_id, token_id);
        }
        let deposit_owner: AccountId = match self.nft_deposits.get(&key) {
            Some(account) => *account,
            None => {
                return Err(Error::NotFound);
            },
        };
        if caller != self.owner && caller != deposit_owner {
            return Err(Error::Unauthorized);
        }
        self.nft_deposits.remove(&key);
        let ask_id: u128 = self.last_ask_id + 1;
        self.last_ask_id = ask_id;
        self.asks.insert(ask_id, (collection_id, token_id, quote_id, price, deposit_owner));
        self.asks_by_token.insert(key, ask_id);
        proof {
            lemma_pair_view_remove::<AccountId>(old(self).nft_deposits@, collection_id, token_id);
            lemma_pair_view_insert::<u128>(old(self).asks_by_token@, collection_id, token_id, ask_id);
            assert(self@ =~= old(self)@.listed(collection_id, token_id, quote_id, price));
            crate::model::lemma_listed_preserves_inv(
                old(self)@,
                collection_id,
                token_id,
                quote_id,
                price,
            );
        }
        Ok(ask_id)
    }

    /// Returns the last listing id ever issued.
    pub fn get_last_ask_id(&self) -> (r: u128)
        ensures
            r == self@.last_ask_id,
    {
        self.last_ask_id
    }

    /// Returns the listing with the given id, or `NotFound` if no live
    /// listing carries it.
    pub fn get_ask_by_id(&self, ask_id: u128) -> (r: Result<AskRecord, Error>)
        ensures
            self@.asks.contains_key(ask_id) ==> r == Ok::<AskRecord, Error>(self@.asks[ask_id]),
            !self@.asks.contains_key(ask_id) ==> r == Err::<AskRecord, Error>(Error::NotFound),
    {
        match self.asks.get(&ask_id) {
            Some(ask) => Ok(*ask),
            None => Err(Error::NotFound),
        }
    }

    /// Returns the id of the live listing for `(collection_id, token_id)`,
    /// or `NotFound` if none is live.
    pub fn get_ask_id_by_token(&self, collection_id: u64, token_id: u64) -> (r: Result<u128, Error>)
        ensures
            self@.listing_live(collection_id, token_id) ==> r == Ok::<u128, Error>(
                self@.live_ask_id(collection_id, token_id),
            ),
            !self@.listing_live(collection_id, token_id) ==> r == Err::<u128, Error>(
                Error::NotFound,
            ),
    {
        let key: u128 = make_key(collection_id, token_id);
        proof {
            lemma_pair_view_lookup::<u128>(self.asks_by_token@, collection_id, token_id);
        }
        match self.asks_by_token.get(&key) {
            Some(id) => Ok(*id),
            None => Err(Error::NotFound),
        }
    }

    /// Cancels the live listing for `(collection_id, token_id)`: removes
    /// the listing and its reverse-index entry together and queues the
    /// token for withdrawal back to the seller. Allowed for the seller or
    /// for the contract owner. The consumed deposit record is not restored.
    pub fn cancel(&mut self, caller: AccountId, collection_id: u64, token_id: u64) -> (r: Result<
        (),
        Error,
    >)
        requires
            old(self).wf(),
        ensures
            final(self).wf(),
            !old(self)@.listing_live(collection_id, token_id) ==> r == Err::<(), Error>(
                Error::NotFound,
            ) && final(self)@ == old(self)@,
            old(self)@.listing_live(collection_id, token_id) && !old(self)@.cancel_ok(
                caller,
                collection_id,
                token_id,
            ) ==> r == Err::<(), Error>(Error::Unauthorized) && final(self)@ == old(self)@,
            old(self)@.cancel_ok(caller, collection_id, token_id) ==> r == Ok::<(), Error>(())
                && final(self)@ == old(self)@.cancelled(collection_id, token_id),
    {
        let key: u128 = make_key(collection_id, token_id);
        proof {
            lemma_pair_view_lookup::<u128>(self.asks_by_token@, collection_id, token_id);
        }
        let ask_id: u128 = match self.asks_by_token.get(&key) {
            Some(id) => *id,
            None => {
                return Err(Error::NotFound);
            },
        };
        let ask: AskRecord = match self.asks.get(&ask_id) {
            Some(ask) => *ask,
            None => {
                // unreachable: the invariant ties every reverse-index
                // entry to a live listing
                proof {
                    assert(false);
                }
                return Err(Error::NotFound);
            },
        };
        let user: AccountId = ask.4;
        if caller != self.owner && caller != user {
            return Err(Error::Unauthorized);
        }
        self.remove_ask(collection_id, token_id, ask_id);
        self.nft_withdraw_queue.push((user, collection_id, token_id));
        proof {
            assert(self@ =~= old(self)@.cancelled(collection_id, token_id));
            crate::model::lemma_cancelled_preserves_inv(old(self)@, collection_id, token_id);
        }
        Ok(())
    }

    /// Settles the live listing for `(collection_id, token_id)` as one
    /// indivisible step: debits the buyer by the price, moves the seller's
    /// proceeds into the currency withdrawal queue (cause
    /// `WithdrawMatched`), removes the listing and its reverse-index entry,
    /// queues the token for withdrawal to the buyer, and grows the traded
    /// volume by the price. Every check precedes the first mutation, so a
    /// rejected purchase changes nothing.
    pub fn buy(&mut self, caller: AccountId, collection_id: u64, token_id: u64) -> (r: Result<
        Sold,
        Error,
    >)
        requires
            old(self).wf(),
        ensures
            final(self).wf(),
            !old(self)@.listing_live(collection_id, token_id) ==> r == Err::<Sold, Error>(
                Error::NotFound,
            ) && final(self)@ == old(self)@,
            old(self)@.listing_live(collection_id, token_id) && !old(self)@.buy_funded(
                caller,
                collection_id,
                token_id,
            ) ==> r == Err::<Sold, Error>(Error::InsufficientFunds) && final(self)@ == old(self)@,
            old(self)@.listing_live(collection_id, token_id) && old(self)@.buy_funded(
                caller,
                collection_id,
                token_id,
            ) && !old(self)@.buy_fits(caller, collection_id, token_id) ==> r == Err::<Sold, Error>(
                Error::Overflow,
            ) && final(self)@ == old(self)@,
            old(self)@.buy_ok(caller, collection_id, token_id) ==> r == Ok::<Sold, Error>(
                (Sold {
                    seller: Some(old(self)@.live_ask(collection_id, token_id).4),
                    buyer: Some(caller),
                    coll_token_id: ((collection_id as u128) * 0x1_0000_0000 + (token_id as u128)) as u128,
                    price: old(self)@.live_ask(collection_id, token_id).3,
                }),
            ) && final(self)@ == old(self)@.bought(caller, collection_id, token_id),
    {
        let key: u128 = make_key(collection_id, token_id);
        proof {
            lemma_pair_view_lookup::<u128>(self.asks_by_token@, collection_id, token_id);
        }
        let ask_id: u128 = match self.asks_by_token.get(&key) {
            Some(id) => *id,
            None => {
                return Err(Error::NotFound);
            },
        };
        let ask: AskRecord = match self.asks.get(&ask_id) {
            Some(ask) => *ask,
            None => {
                // unreachable: the invariant ties every reverse-index
                // entry to a live listing
                proof {
                    assert(false);
                }
                return Err(Error::NotFound);
            },
        };
        let quote_id: u64 = ask.2;
        let price: Balance = ask.3;
        let seller: AccountId = ask.4;
        let initial_buyer_balance: Balance = self.balance_of_or_zero(quote_id, caller);
        if initial_buyer_balance < price {
            return Err(Error::InsufficientFunds);
        }
        let initial_seller_balance: Balance = if seller == caller {
            initial_buyer_balance - price
        } else {
            self.balance_of_or_zero(quote_id, seller)
        };
        let total: Balance = match self.total_traded.get(&quote_id) {
            Some(total) => *total,
            None => 0,
        };
        if price == 0 || initial_seller_balance > Balance::MAX - price || total > Balance::MAX
            - price {
            return Err(Error::Overflow);
        }
        let buyer_key: u128 = make_key(quote_id, caller);
        let seller_key: u128 = make_key(quote_id, seller);
        self.quote_balance.insert(buyer_key, initial_buyer_balance - price);
        proof {
            lemma_pair_view_insert::<Balance>(
                old(self).quote_balance@,
                quote_id,
                caller,
                (initial_buyer_balance - price) as Balance,
            );
        }
        self.quote_balance.insert(seller_key, initial_seller_balance + price);
        proof {
            lemma_pair_view_insert::<Balance>(
                old(self).quote_balance@.insert(
                    pair_key(quote_id, caller),
                    (initial_buyer_balance - price) as Balance,
                ),
                quote_id,
                seller,
                (initial_seller_balance + price) as Balance,
            );
        }
        self.remove_ask(collection_id, token_id, ask_id);
        self.nft_withdraw_queue.push((caller, collection_id, token_id));
        let vault_result: Result<(), Error> = self.vault_withdraw(
            seller,
            quote_id,
            price,
            WithdrawType::WithdrawMatched,
        );
        proof {
            assert(vault_result == Ok::<(), Error>(()));
        }
        self.total_traded.insert(quote_id, total + price);
        proof {
            assert(self@ =~= old(self)@.bought(caller, collection_id, token_id));
            crate::model::lemma_bought_preserves_inv(old(self)@, caller, collection_id, token_id);
        }
        Ok(
            Sold {
                seller: Some(seller),
                buyer: Some(caller),
                coll_token_id: (collection_id as u128) * 0x1_0000_0000u128 + (token_id as u128),
                price,
            },
        )
    }

    /// Role check: only the contract owner passes.
    fn ensure_only_owner(&self, caller: AccountId) -> (r: Result<(), Error>)
        ensures
            r == if caller == self@.owner {
                Ok::<(), Error>(())
            } else {
                Err::<(), Error>(Error::Unauthorized)
            },
    {
        if caller == self.owner {
            Ok(())
        } else {
            Err(Error::Unauthorized)
        }
    }

    /// Role check: only the admin passes.
    fn ensure_only_admin(&self, caller: AccountId) -> (r: Result<(), Error>)
        ensures
            r == if caller == self@.admin {
                Ok::<(), Error>(())
            } else {
                Err::<(), Error>(Error::Unauthorized)
            },
    {
        if caller == self.admin {
            Ok(())
        } else {
            Err(Error::Unauthorized)
        }
    }

    /// Reads an account's balance; an absent ledger entry is zero.
    fn balance_of_or_zero(&self, quote_id: u64, user: AccountId) -> (r: Balance)
        ensures
            r == self@.balance_of(quote_id, user),
    {
        let key: u128 = make_key(quote_id, user);
        proof {
            lemma_pair_view_lookup::<Balance>(self.quote_balance@, quote_id, user);
        }
        match self.quote_balance.get(&key) {
            Some(balance) => *balance,
            None => 0,
        }
    }

    /// Removes a listing and its reverse-index entry together.
    fn remove_ask(&mut self, collection_id: u64, token_id: u64, ask_id: u128)
        ensures
            final(self)@ == (EngineModel {
                asks: old(self)@.asks.remove(ask_id),
                asks_by_token: old(self)@.asks_by_token.remove((collection_id, token_id)),
                ..old(self)@
            }),
    {
        let key: u128 = make_key(collection_id, token_id);
        self.asks_by_token.remove(&key);
        self.asks.remove(&ask_id);
        proof {
            lemma_pair_view_remove::<u128>(old(self).asks_by_token@, collection_id, token_id);
            assert(self@ =~= (EngineModel {
                asks: old(self)@.asks.remove(ask_id),
                asks_by_token: old(self)@.asks_by_token.remove((collection_id, token_id)),
                ..old(self)@
            }));
        }
    }

    /// Debits `withdraw_balance` from `user` and appends one entry to the
    /// currency withdrawal queue; rejects the debit if the balance does
    /// not cover it.
    fn vault_withdraw(
        &mut self,
        user: AccountId,
        quote_id: u64,
        withdraw_balance: Balance,
        withdraw_type: WithdrawType,
    ) -> (r: Result<(), Error>)
        ensures
            old(self)@.withdraw_ok(user, quote_id, withdraw_balance) ==> r == Ok::<(), Error>(())
                && final(self)@ == old(self)@.withdrawn(
                user,
                quote_id,
                withdraw_balance,
                withdraw_type,
            ),
            !old(self)@.withdraw_ok(user, quote_id, withdraw_balance) ==> r == Err::<(), Error>(
                Error::InsufficientFunds,
            ) && final(self)@ == old(self)@,
    {
        let initial_balance: Balance = self.balance_of_or_zero(quote_id, user);
        if initial_balance < withdraw_balance {
            return Err(Error::InsufficientFunds);
        }
        let key: u128 = make_key(quote_id, user);
        self.quote_balance.insert(key, initial_balance - withdraw_balance);
        self.withdraw_queue.push((user, withdraw_balance, withdraw_type));
        proof {
            lemma_pair_view_insert::<Balance>(
                old(self).quote_balance@,
                quote_id,
                user,
                (initial_balance - withdraw_balance) as Balance,
            );
            assert(self@ =~= old(self)@.withdrawn(user, quote_id, withdraw_balance, withdraw_type));
        }
        Ok(())
    }
}

} // verus!
