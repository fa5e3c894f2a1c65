//! Per-operation behavior: authorization, rejections, ids, and edge cases.

use market::engine::MatchingEngine;
use market::types::{Error, WithdrawType};

const OWNER: u64 = 50;
const ADMIN: u64 = 51;

fn engine_with_admin() -> MatchingEngine {
    let mut engine = MatchingEngine::new(OWNER);
    assert_eq!(engine.set_admin(OWNER, ADMIN), Ok(()));
    engine
}

#[test]
fn new_engine_seeds_only_currency_two() {
    let engine = MatchingEngine::new(OWNER);
    assert_eq!(engine.get_total(2), Ok(0));
    assert_eq!(engine.get_total(3), Err(Error::NotFound));
    assert_eq!(engine.get_last_ask_id(), 0);
    assert_eq!(engine.get_last_withdraw_id(), 0);
    assert_eq!(engine.get_last_nft_withdraw_id(), 0);
}

#[test]
fn set_admin_is_owner_only() {
    let stranger: u64 = 7;
    let mut engine = MatchingEngine::new(OWNER);
    assert_eq!(engine.set_admin(stranger, stranger), Err(Error::Unauthorized));
    // the stranger did not become admin: attestations still fail
    assert_eq!(engine.register_deposit(stranger, 2, 10, stranger), Err(Error::Unauthorized));
}

#[test]
fn register_deposit_is_admin_only() {
    let user: u64 = 3;
    let mut engine = engine_with_admin();
    assert_eq!(engine.register_deposit(OWNER, 2, 10, user), Err(Error::Unauthorized));
    assert_eq!(engine.get_balance(user, 2), 0);
    assert_eq!(engine.register_deposit(ADMIN, 2, 10, user), Ok(()));
    assert_eq!(engine.get_balance(user, 2), 10);
}

#[test]
fn zero_credit_is_rejected_as_overflow() {
    let user: u64 = 3;
    let mut engine = engine_with_admin();
    assert_eq!(engine.register_deposit(ADMIN, 2, 0, user), Err(Error::Overflow));
    assert_eq!(engine.get_balance(user, 2), 0);
}

#[test]
fn overflowing_credit_is_rejected_and_changes_nothing() {
    let user: u64 = 3;
    let mut engine = engine_with_admin();
    assert_eq!(engine.register_deposit(ADMIN, 2, u128::MAX, user), Ok(()));
    assert_eq!(engine.register_deposit(ADMIN, 2, 1, user), Err(Error::Overflow));
    assert_eq!(engine.get_balance(user, 2), u128::MAX);
}

#[test]
fn overdraft_is_rejected_and_changes_nothing() {
    let user: u64 = 3;
    let mut engine = engine_with_admin();
    assert_eq!(engine.register_deposit(ADMIN, 2, 100, user), Ok(()));
    assert_eq!(engine.withdraw(user, 2, 101), Err(Error::InsufficientFunds));
    assert_eq!(engine.get_balance(user, 2), 100);
    assert_eq!(engine.get_last_withdraw_id(), 0);
    assert_eq!(engine.withdraw(user, 2, 100), Ok(()));
    assert_eq!(engine.get_balance(user, 2), 0);
    assert_eq!(engine.get_last_withdraw_id(), 1);
    assert_eq!(engine.get_withdraw_by_id(1), Ok((user, 100, WithdrawType::WithdrawUnused)));
}

#[test]
fn withdraw_ids_are_never_zero_and_never_skipped() {
    let engine = MatchingEngine::new(OWNER);
    assert_eq!(engine.get_withdraw_by_id(0), Err(Error::NotFound));
    assert_eq!(engine.get_withdraw_by_id(1), Err(Error::NotFound));
    assert_eq!(engine.get_nft_withdraw_by_id(0), Err(Error::NotFound));
    assert_eq!(engine.get_nft_withdraw_by_id(1), Err(Error::NotFound));
}

#[test]
fn later_attestation_overwrites_deposit_record() {
    let first: u64 = 3;
    let second: u64 = 4;
    let mut engine = engine_with_admin();
    assert_eq!(engine.register_nft_deposit(ADMIN, 5, 6, first), Ok(()));
    assert_eq!(engine.register_nft_deposit(ADMIN, 5, 6, second), Ok(()));
    assert_eq!(engine.get_nft_deposit(5, 6), Ok(second));
    assert_eq!(engine.register_nft_deposit(first, 5, 6, first), Err(Error::Unauthorized));
    assert_eq!(engine.get_nft_deposit(5, 6), Ok(second));
}

#[test]
fn ask_requires_a_deposit_record() {
    let user: u64 = 3;
    let mut engine = engine_with_admin();
    assert_eq!(engine.ask(user, 5, 6, 2, 10), Err(Error::NotFound));
    assert_eq!(engine.get_last_ask_id(), 0);
}

#[test]
fn ask_requires_the_depositor_or_the_owner() {
    let depositor: u64 = 3;
    let stranger: u64 = 4;
    let mut engine = engine_with_admin();
    assert_eq!(engine.register_nft_deposit(ADMIN, 5, 6, depositor), Ok(()));
    assert_eq!(engine.ask(stranger, 5, 6, 2, 10), Err(Error::Unauthorized));
    // the rejected listing consumed nothing
    assert_eq!(engine.get_nft_deposit(5, 6), Ok(depositor));
    assert_eq!(engine.get_last_ask_id(), 0);
}

#[test]
fn owner_lists_on_behalf_of_the_depositor() {
    let depositor: u64 = 3;
    let mut engine = engine_with_admin();
    assert_eq!(engine.register_nft_deposit(ADMIN, 5, 6, depositor), Ok(()));
    assert_eq!(engine.ask(OWNER, 5, 6, 2, 10), Ok(1));
    // the seller on record is the depositor, not the owner
    assert_eq!(engine.get_ask_by_id(1), Ok((5, 6, 2, 10, depositor)));
}

#[test]
fn cancel_returns_token_and_consumes_listing() {
    let depositor: u64 = 3;
    let stranger: u64 = 4;
    let mut engine = engine_with_admin();
    assert_eq!(engine.register_nft_deposit(ADMIN, 5, 6, depositor), Ok(()));
    assert_eq!(engine.ask(depositor, 5, 6, 2, 10), Ok(1));
    assert_eq!(engine.cancel(stranger, 5, 6), Err(Error::Unauthorized));
    assert_eq!(engine.get_ask_id_by_token(5, 6), Ok(1));
    assert_eq!(engine.cancel(depositor, 5, 6), Ok(()));
    // no live listing, one token withdrawal to the depositor, and the
    // consumed deposit record is not restored
    assert_eq!(engine.get_ask_id_by_token(5, 6), Err(Error::NotFound));
    assert_eq!(engine.get_ask_by_id(1), Err(Error::NotFound));
    assert_eq!(engine.get_last_nft_withdraw_id(), 1);
    assert_eq!(engine.get_nft_withdraw_by_id(1), Ok((depositor, 5, 6)));
    assert_eq!(engine.get_nft_deposit(5, 6), Err(Error::NotFound));
    assert_eq!(engine.get_last_withdraw_id(), 0);
}

#[test]
fn owner_may_cancel_any_listing() {
    let depositor: u64 = 3;
    let mut engine = engine_with_admin();
    assert_eq!(engine.register_nft_deposit(ADMIN, 5, 6, depositor), Ok(()));
    assert_eq!(engine.ask(depositor, 5, 6, 2, 10), Ok(1));
    assert_eq!(engine.cancel(OWNER, 5, 6), Ok(()));
    assert_eq!(engine.get_nft_withdraw_by_id(1), Ok((depositor, 5, 6)));
}

#[test]
fn cancel_and_buy_without_listing_report_not_found() {
    let user: u64 = 3;
    let mut engine = engine_with_admin();
    assert_eq!(engine.register_deposit(ADMIN, 2, 100, user), Ok(()));
    assert_eq!(engine.cancel(user, 5, 6), Err(Error::NotFound));
    assert_eq!(engine.buy(user, 5, 6), Err(Error::NotFound));
    // nothing moved
    assert_eq!(engine.get_balance(user, 2), 100);
    assert_eq!(engine.get_total(2), Ok(0));
    assert_eq!(engine.get_last_withdraw_id(), 0);
    assert_eq!(engine.get_last_nft_withdraw_id(), 0);
}

#[test]
fn underfunded_buy_is_rejected_and_changes_nothing() {
    let seller: u64 = 3;
    let buyer: u64 = 4;
    let mut engine = engine_with_admin();
    assert_eq!(engine.register_nft_deposit(ADMIN, 5, 6, seller), Ok(()));
    assert_eq!(engine.ask(seller, 5, 6, 2, 100), Ok(1));
    assert_eq!(engine.register_deposit(ADMIN, 2, 99, buyer), Ok(()));
    assert_eq!(engine.buy(buyer, 5, 6), Err(Error::InsufficientFunds));
    // balances, the listing and both queues are exactly as before
    assert_eq!(engine.get_balance(buyer, 2), 99);
    assert_eq!(engine.get_balance(seller, 2), 0);
    assert_eq!(engine.get_ask_id_by_token(5, 6), Ok(1));
    assert_eq!(engine.get_ask_by_id(1), Ok((5, 6, 2, 100, seller)));
    assert_eq!(engine.get_total(2), Ok(0));
    assert_eq!(engine.get_last_withdraw_id(), 0);
    assert_eq!(engine.get_last_nft_withdraw_id(), 0);
}

#[test]
fn zero_price_listing_cannot_settle() {
    let seller: u64 = 3;
    let buyer: u64 = 4;
    let mut engine = engine_with_admin();
    assert_eq!(engine.register_nft_deposit(ADMIN, 5, 6, seller), Ok(()));
    assert_eq!(engine.ask(seller, 5, 6, 2, 0), Ok(1));
    assert_eq!(engine.buy(buyer, 5, 6), Err(Error::Overflow));
    assert_eq!(engine.get_ask_id_by_token(5, 6), Ok(1));
}

#[test]
fn self_purchase_pays_into_the_withdrawal_queue() {
    let trader: u64 = 3;
    let mut engine = engine_with_admin();
    assert_eq!(engine.register_deposit(ADMIN, 2, 500, trader), Ok(()));
    assert_eq!(engine.register_nft_deposit(ADMIN, 5, 6, trader), Ok(()));
    assert_eq!(engine.ask(trader, 5, 6, 2, 500), Ok(1));
    let sold = engine.buy(trader, 5, 6).unwrap();
    assert_eq!(sold.seller, Some(trader));
    assert_eq!(sold.buyer, Some(trader));
    assert_eq!(engine.get_balance(trader, 2), 0);
    assert_eq!(engine.get_withdraw_by_id(1), Ok((trader, 500, WithdrawType::WithdrawMatched)));
    assert_eq!(engine.get_nft_withdraw_by_id(1), Ok((trader, 5, 6)));
    assert_eq!(engine.get_total(2), Ok(500));
}

#[test]
fn listing_ids_are_not_reused_after_cancel() {
    let depositor: u64 = 3;
    let mut engine = engine_with_admin();
    assert_eq!(engine.register_nft_deposit(ADMIN, 5, 6, depositor), Ok(()));
    assert_eq!(engine.ask(depositor, 5, 6, 2, 10), Ok(1));
    assert_eq!(engine.cancel(depositor, 5, 6), Ok(()));
    assert_eq!(engine.register_nft_deposit(ADMIN, 5, 6, depositor), Ok(()));
    assert_eq!(engine.ask(depositor, 5, 6, 2, 10), Ok(2));
    assert_eq!(engine.get_last_ask_id(), 2);
    assert_eq!(engine.get_ask_id_by_token(5, 6), Ok(2));
    assert_eq!(engine.get_ask_by_id(1), Err(Error::NotFound));
}

#[test]
fn reset_total_is_owner_only_and_initializes() {
    let stranger: u64 = 3;
    let mut engine = MatchingEngine::new(OWNER);
    assert_eq!(engine.reset_total(stranger, 9), Err(Error::Unauthorized));
    assert_eq!(engine.get_total(9), Err(Error::NotFound));
    assert_eq!(engine.reset_total(OWNER, 9), Ok(()));
    assert_eq!(engine.get_total(9), Ok(0));
}

#[test]
fn reattestation_of_listed_token_orphans_earlier_listing() {
    let depositor: u64 = 3;
    let mut engine = engine_with_admin();
    assert_eq!(engine.register_nft_deposit(ADMIN, 5, 6, depositor), Ok(()));
    assert_eq!(engine.ask(depositor, 5, 6, 2, 10), Ok(1));
    // the custodian attests the same token again while it is listed
    assert_eq!(engine.register_nft_deposit(ADMIN, 5, 6, depositor), Ok(()));
    assert_eq!(engine.ask(depositor, 5, 6, 2, 20), Ok(2));
    // the reverse index now resolves to the later listing; the earlier one
    // is orphaned: still queryable by id, no longer reachable by token
    assert_eq!(engine.get_ask_id_by_token(5, 6), Ok(2));
    assert_eq!(engine.get_ask_by_id(1), Ok((5, 6, 2, 10, depositor)));
    assert_eq!(engine.cancel(depositor, 5, 6), Ok(()));
    assert_eq!(engine.get_ask_id_by_token(5, 6), Err(Error::NotFound));
    assert_eq!(engine.get_ask_by_id(2), Err(Error::NotFound));
    assert_eq!(engine.get_ask_by_id(1), Ok((5, 6, 2, 10, depositor)));
}
