use homa_lite::homa::Pallet;
use homa_lite::ledger::CurrencyLedger;
use homa_lite::rate::FIXED_POINT_ACCURACY;
use homa_lite::types::{CurrencyId, Error, Event, Origin};

const U1: u64 = 1;
const U2: u64 = 2;
const V: u64 = 9;
const RESERVE: u64 = 7;

/// A pallet with stash `V` and a ledger where each `(user, amount)` holds that
/// much staking currency and `liquid` liquid currency already circulates.
fn setup(endowed: &[(u64, u128)], liquid: u128) -> (Pallet, CurrencyLedger) {
    let mut pallet = Pallet::new();
    let mut ledger = CurrencyLedger::new();
    for (who, amount) in endowed {
        ledger.deposit(CurrencyId::Staking, *who, *amount).unwrap();
    }
    if liquid > 0 {
        ledger.deposit(CurrencyId::Liquid, RESERVE, liquid).unwrap();
    }
    pallet.set_stash_account_id(Origin::Governance, V).unwrap();
    (pallet, ledger)
}

#[test]
fn mint_request_moves_stake_and_records_pending() {
    let (mut pallet, mut ledger) = setup(&[(U1, 1500)], 0);
    assert_eq!(pallet.request_mint(&mut ledger, Origin::Signed(U1), 1000), Ok(()));
    assert_eq!(pallet.pending_amount(0, U1), 1000);
    assert_eq!(ledger.free_balance(CurrencyId::Staking, U1), 500);
    assert_eq!(ledger.free_balance(CurrencyId::Staking, V), 1000);
    assert_eq!(
        pallet.events().last(),
        Some(&Event::MintRequested(0, U1, 1000))
    );
}

#[test]
fn repeated_mint_requests_accumulate() {
    let (mut pallet, mut ledger) = setup(&[(U1, 1500)], 0);
    assert_eq!(pallet.request_mint(&mut ledger, Origin::Signed(U1), 1000), Ok(()));
    assert_eq!(pallet.request_mint(&mut ledger, Origin::Signed(U1), 500), Ok(()));
    assert_eq!(pallet.pending_amount(0, U1), 1500);
    assert_eq!(ledger.free_balance(CurrencyId::Staking, U1), 0);
}

#[test]
fn mint_request_fails_without_stash_account() {
    let mut pallet = Pallet::new();
    let mut ledger = CurrencyLedger::new();
    ledger.deposit(CurrencyId::Staking, U1, 1000).unwrap();
    assert_eq!(
        pallet.request_mint(&mut ledger, Origin::Signed(U1), 100),
        Err(Error::RelayChainStashAccountNotSet)
    );
    assert_eq!(
        pallet.request_mint(&mut ledger, Origin::Signed(U2), 0),
        Err(Error::RelayChainStashAccountNotSet)
    );
    assert_eq!(
        pallet.request_mint(&mut ledger, Origin::Issuer, 5),
        Err(Error::RelayChainStashAccountNotSet)
    );
    assert_eq!(pallet.pending_amount(0, U1), 0);
    assert_eq!(ledger.free_balance(CurrencyId::Staking, U1), 1000);
}

#[test]
fn mint_request_fails_on_insufficient_balance() {
    let (mut pallet, mut ledger) = setup(&[(U1, 99)], 0);
    assert_eq!(
        pallet.request_mint(&mut ledger, Origin::Signed(U1), 100),
        Err(Error::InsufficientBalance)
    );
    assert_eq!(pallet.pending_amount(0, U1), 0);
    assert_eq!(ledger.free_balance(CurrencyId::Staking, U1), 99);
    assert_eq!(pallet.events().len(), 1);
}

#[test]
fn mint_request_demands_signed_origin() {
    let (mut pallet, mut ledger) = setup(&[(U1, 100)], 0);
    assert_eq!(
        pallet.request_mint(&mut ledger, Origin::Issuer, 10),
        Err(Error::Unauthorized)
    );
    assert_eq!(
        pallet.request_mint(&mut ledger, Origin::Governance, 10),
        Err(Error::Unauthorized)
    );
}

#[test]
fn issue_snapshots_and_advances_batch() {
    let (mut pallet, mut ledger) = setup(&[(U1, 1000)], 500);
    pallet.request_mint(&mut ledger, Origin::Signed(U1), 1000).unwrap();
    assert_eq!(pallet.current_batch(), 0);
    assert_eq!(pallet.issue(&ledger, Origin::Issuer, 1000), Ok(()));
    assert_eq!(pallet.current_batch(), 1);
    let info = pallet.batch_total_issuance_info(0).unwrap();
    assert_eq!(info.staking_total, 1000);
    assert_eq!(info.liquid_total, 500);
    assert_eq!(pallet.batch_total_issuance_info(1), None);
    assert_eq!(
        pallet.events().last(),
        Some(&Event::BatchProcessed(0, 1000, 500))
    );
}

#[test]
fn issue_demands_issuer_origin() {
    let (mut pallet, ledger) = setup(&[], 0);
    assert_eq!(
        pallet.issue(&ledger, Origin::Signed(U1), 1000),
        Err(Error::Unauthorized)
    );
    assert_eq!(
        pallet.issue(&ledger, Origin::Governance, 1000),
        Err(Error::Unauthorized)
    );
    assert_eq!(pallet.current_batch(), 0);
}

#[test]
fn issue_rejects_zero_staking_total() {
    let (mut pallet, ledger) = setup(&[], 500);
    assert_eq!(
        pallet.issue(&ledger, Origin::Issuer, 0),
        Err(Error::InvalidStakedCurrencyTotalIssuance)
    );
    assert_eq!(pallet.current_batch(), 0);
    assert_eq!(pallet.batch_total_issuance_info(0), None);
}

#[test]
fn batch_cursor_increases_by_one_per_close_and_snapshots_are_immutable() {
    let (mut pallet, ledger) = setup(&[], 500);
    assert_eq!(pallet.issue(&ledger, Origin::Issuer, 1000), Ok(()));
    assert_eq!(pallet.current_batch(), 1);
    let first = pallet.batch_total_issuance_info(0).unwrap();
    assert_eq!(pallet.issue(&ledger, Origin::Issuer, 2222), Ok(()));
    assert_eq!(pallet.current_batch(), 2);
    // the first batch's snapshot is exactly as it was fixed
    assert_eq!(pallet.batch_total_issuance_info(0).unwrap(), first);
    let second = pallet.batch_total_issuance_info(1).unwrap();
    assert_eq!(second.staking_total, 2222);
}

#[test]
fn claim_mints_at_the_snapshot_rate() {
    let (mut pallet, mut ledger) = setup(&[(U1, 1000)], 500);
    pallet.request_mint(&mut ledger, Origin::Signed(U1), 1000).unwrap();
    pallet.issue(&ledger, Origin::Issuer, 1000).unwrap();
    assert_eq!(pallet.claim(&mut ledger, Origin::Signed(U1), U1, 0), Ok(()));
    // 1000 * 500 / 1000 = 500
    assert_eq!(ledger.free_balance(CurrencyId::Liquid, U1), 500);
    assert_eq!(ledger.total_issuance(CurrencyId::Liquid), 1000);
    assert_eq!(pallet.pending_amount(0, U1), 0);
    assert_eq!(
        pallet.events().last(),
        Some(&Event::LiquidCurrencyClaimed(0, U1, 500))
    );
}

#[test]
fn claim_rate_is_shared_across_a_batch() {
    let (mut pallet, mut ledger) = setup(&[(U1, 300), (U2, 700)], 2000);
    pallet.request_mint(&mut ledger, Origin::Signed(U1), 300).unwrap();
    pallet.request_mint(&mut ledger, Origin::Signed(U2), 700).unwrap();
    assert_eq!(pallet.pending_amount(0, U1), 300);
    assert_eq!(pallet.pending_amount(0, U2), 700);
    pallet.issue(&ledger, Origin::Issuer, 1000).unwrap();
    assert_eq!(pallet.claim(&mut ledger, Origin::Signed(U1), U1, 0), Ok(()));
    assert_eq!(pallet.claim(&mut ledger, Origin::Signed(U2), U2, 0), Ok(()));
    // both redeem at 2000 / 1000 = 2x
    assert_eq!(ledger.free_balance(CurrencyId::Liquid, U1), 600);
    assert_eq!(ledger.free_balance(CurrencyId::Liquid, U2), 1400);
}

#[test]
fn claim_truncates_toward_zero() {
    let (mut pallet, mut ledger) = setup(&[(U1, 7)], 10);
    pallet.request_mint(&mut ledger, Origin::Signed(U1), 7).unwrap();
    pallet.issue(&ledger, Origin::Issuer, 3).unwrap();
    assert_eq!(pallet.claim(&mut ledger, Origin::Signed(U1), U1, 0), Ok(()));
    // rate 10/3 is fixed as 3.333...; 7 * 10 / 3 = 23.33... mints 23
    assert_eq!(ledger.free_balance(CurrencyId::Liquid, U1), 23);
}

#[test]
fn claim_fails_for_unclosed_batch() {
    let (mut pallet, mut ledger) = setup(&[(U1, 1000)], 500);
    pallet.request_mint(&mut ledger, Origin::Signed(U1), 1000).unwrap();
    assert_eq!(
        pallet.claim(&mut ledger, Origin::Signed(U1), U1, 1),
        Err(Error::LiquidCurrencyNotIssuedForThisBatch)
    );
    assert_eq!(
        pallet.claim(&mut ledger, Origin::Signed(U1), U1, 0),
        Err(Error::LiquidCurrencyNotIssuedForThisBatch)
    );
    assert_eq!(ledger.free_balance(CurrencyId::Liquid, U1), 0);
    assert_eq!(pallet.pending_amount(0, U1), 1000);
}

#[test]
fn claim_with_no_pending_entry_mints_zero() {
    let (mut pallet, mut ledger) = setup(&[], 500);
    pallet.issue(&ledger, Origin::Issuer, 1000).unwrap();
    assert_eq!(pallet.claim(&mut ledger, Origin::Signed(U2), U2, 0), Ok(()));
    assert_eq!(ledger.free_balance(CurrencyId::Liquid, U2), 0);
    assert_eq!(ledger.total_issuance(CurrencyId::Liquid), 500);
    assert_eq!(
        pallet.events().last(),
        Some(&Event::LiquidCurrencyClaimed(0, U2, 0))
    );
}

#[test]
fn claim_is_idempotent_after_redemption() {
    let (mut pallet, mut ledger) = setup(&[(U1, 1000)], 500);
    pallet.request_mint(&mut ledger, Origin::Signed(U1), 1000).unwrap();
    pallet.issue(&ledger, Origin::Issuer, 1000).unwrap();
    pallet.claim(&mut ledger, Origin::Signed(U1), U1, 0).unwrap();
    assert_eq!(ledger.free_balance(CurrencyId::Liquid, U1), 500);
    // a second redemption finds nothing pending and mints zero
    assert_eq!(pallet.claim(&mut ledger, Origin::Signed(U1), U1, 0), Ok(()));
    assert_eq!(ledger.free_balance(CurrencyId::Liquid, U1), 500);
}

#[test]
fn claim_anyone_signed_may_redeem_on_behalf() {
    let (mut pallet, mut ledger) = setup(&[(U1, 1000)], 500);
    pallet.request_mint(&mut ledger, Origin::Signed(U1), 1000).unwrap();
    pallet.issue(&ledger, Origin::Issuer, 1000).unwrap();
    assert_eq!(pallet.claim(&mut ledger, Origin::Signed(U2), U1, 0), Ok(()));
    assert_eq!(ledger.free_balance(CurrencyId::Liquid, U1), 500);
    assert_eq!(
        pallet.claim(&mut ledger, Origin::Issuer, U1, 0),
        Err(Error::Unauthorized)
    );
}

#[test]
fn claim_fails_when_rate_is_not_representable() {
    // liquid total so large that the rate's inner value exceeds u128::MAX
    let huge: u128 = u128::MAX / FIXED_POINT_ACCURACY + 1;
    let (mut pallet, mut ledger) = setup(&[(U1, 10)], huge);
    pallet.request_mint(&mut ledger, Origin::Signed(U1), 10).unwrap();
    pallet.issue(&ledger, Origin::Issuer, 1).unwrap();
    assert_eq!(
        pallet.claim(&mut ledger, Origin::Signed(U1), U1, 0),
        Err(Error::ArithmeticOverflow)
    );
    assert_eq!(pallet.pending_amount(0, U1), 10);
    assert_eq!(ledger.free_balance(CurrencyId::Liquid, U1), 0);
}

#[test]
fn set_stash_account_updates_and_demands_governance() {
    let mut pallet = Pallet::new();
    assert_eq!(pallet.relay_chain_stash_account(), None);
    assert_eq!(
        pallet.set_stash_account_id(Origin::Signed(U1), U1),
        Err(Error::Unauthorized)
    );
    assert_eq!(
        pallet.set_stash_account_id(Origin::Issuer, U1),
        Err(Error::Unauthorized)
    );
    assert_eq!(pallet.relay_chain_stash_account(), None);
    assert_eq!(pallet.set_stash_account_id(Origin::Governance, V), Ok(()));
    assert_eq!(pallet.relay_chain_stash_account(), Some(V));
    assert_eq!(
        pallet.events().last(),
        Some(&Event::RelayChainStashAccountUpdated(V))
    );
    // governance may overwrite the destination unconditionally
    assert_eq!(pallet.set_stash_account_id(Origin::Governance, U2), Ok(()));
    assert_eq!(pallet.relay_chain_stash_account(), Some(U2));
}

#[test]
fn transfer_and_deposit_primitives() {
    let mut ledger = CurrencyLedger::new();
    ledger.deposit(CurrencyId::Staking, U1, 100).unwrap();
    assert_eq!(ledger.total_issuance(CurrencyId::Staking), 100);
    assert_eq!(ledger.total_issuance(CurrencyId::Liquid), 0);
    assert_eq!(
        ledger.transfer(CurrencyId::Staking, U1, U2, 101),
        Err(Error::InsufficientBalance)
    );
    assert_eq!(ledger.transfer(CurrencyId::Staking, U1, U1, 100), Ok(()));
    assert_eq!(ledger.free_balance(CurrencyId::Staking, U1), 100);
    assert_eq!(ledger.transfer(CurrencyId::Staking, U1, U2, 30), Ok(()));
    assert_eq!(ledger.free_balance(CurrencyId::Staking, U1), 70);
    assert_eq!(ledger.free_balance(CurrencyId::Staking, U2), 30);
    // transfers move value without creating any
    assert_eq!(ledger.total_issuance(CurrencyId::Staking), 100);
    ledger.deposit(CurrencyId::Liquid, U1, u128::MAX).unwrap();
    assert_eq!(
        ledger.deposit(CurrencyId::Liquid, U2, 1),
        Err(Error::BalanceOverflow)
    );
}

#[test]
fn events_are_emitted_in_call_order() {
    let (mut pallet, mut ledger) = setup(&[(U1, 1000)], 500);
    pallet.request_mint(&mut ledger, Origin::Signed(U1), 1000).unwrap();
    pallet.issue(&ledger, Origin::Issuer, 1000).unwrap();
    pallet.claim(&mut ledger, Origin::Signed(U1), U1, 0).unwrap();
    assert_eq!(
        pallet.events().as_slice(),
        &[
            Event::RelayChainStashAccountUpdated(V),
            Event::MintRequested(0, U1, 1000),
            Event::BatchProcessed(0, 1000, 500),
            Event::LiquidCurrencyClaimed(0, U1, 500),
        ]
    );
}
