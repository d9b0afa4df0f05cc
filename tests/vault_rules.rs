use neurowealth_vault::{
    mul_div_floor, Address, DepositEvent, LimitsUpdatedEvent, VaultConfig, NeuroWealthVault, VaultError, VaultEvent,
    WithdrawEvent, DEFAULT_TVL_CAP, DEFAULT_USER_DEPOSIT_CAP, MIN_DEPOSIT,
};

const UNIT: i128 = 1_000_000;
const AGENT: Address = Address { id: 1 };
const TOKEN: Address = Address { id: 2 };
const ALICE: Address = Address { id: 10 };
const BOB: Address = Address { id: 11 };
const MALLORY: Address = Address { id: 99 };

fn ready() -> NeuroWealthVault {
    let mut vault = NeuroWealthVault::new();
    vault.initialize(AGENT, TOKEN).unwrap();
    vault
}

fn snapshot(v: &NeuroWealthVault) -> (i128, i128, i128, i128, bool, usize) {
    (
        v.get_total_assets(),
        v.get_total_shares(),
        v.get_shares(ALICE),
        v.get_shares(BOB),
        v.is_paused(),
        v.events().len(),
    )
}

#[test]
fn initialize_sets_defaults() {
    let vault = ready();
    assert_eq!(vault.get_agent(), AGENT);
    assert_eq!(vault.get_owner(), AGENT);
    assert_eq!(vault.get_usdc_token(), TOKEN);
    assert_eq!(vault.get_tvl_cap(), 100_000_000_000);
    assert_eq!(vault.get_user_deposit_cap(), 10_000_000_000);
    assert_eq!(DEFAULT_TVL_CAP, 100_000_000_000);
    assert_eq!(DEFAULT_USER_DEPOSIT_CAP, 10_000_000_000);
    assert_eq!(vault.get_version(), 1);
    assert_eq!(vault.get_total_deposits(), 0);
    assert!(!vault.is_paused());
}

#[test]
fn initialize_twice_is_rejected() {
    let mut vault = ready();
    let before = snapshot(&vault);
    assert_eq!(vault.initialize(BOB, TOKEN), Err(VaultError::AlreadyInitialized));
    assert_eq!(snapshot(&vault), before);
    assert_eq!(vault.get_agent(), AGENT);
}

#[test]
fn calls_before_initialize_are_rejected() {
    let mut vault = NeuroWealthVault::new();
    assert_eq!(vault.get_version(), 1);
    assert_eq!(vault.deposit(MALLORY, ALICE, 10 * UNIT), Err(VaultError::Unauthorized));
    assert_eq!(vault.withdraw(MALLORY, ALICE, UNIT), Err(VaultError::Unauthorized));
    assert_eq!(vault.deposit(ALICE, ALICE, 10 * UNIT), Err(VaultError::NotInitialized));
    assert_eq!(vault.withdraw(ALICE, ALICE, UNIT), Err(VaultError::NotInitialized));
    assert_eq!(vault.pause(ALICE), Err(VaultError::NotInitialized));
    assert_eq!(vault.update_total_assets(AGENT, 5), Err(VaultError::NotInitialized));
    assert_eq!(vault.rebalance(AGENT, String::from("growth"), 1), Err(VaultError::NotInitialized));
    assert!(vault.events().is_empty());
}

#[test]
fn bootstrap_deposit_mints_one_for_one() {
    let mut vault = ready();
    vault.deposit(ALICE, ALICE, 7 * UNIT + 3).unwrap();
    assert_eq!(vault.get_shares(ALICE), 7 * UNIT + 3);
    assert_eq!(vault.get_total_shares(), 7 * UNIT + 3);
    assert_eq!(vault.get_total_assets(), 7 * UNIT + 3);
    assert_eq!(
        vault.events().last(),
        Some(&VaultEvent::Deposit(DepositEvent { user: ALICE, amount: 7 * UNIT + 3, shares: 7 * UNIT + 3 }))
    );
}

#[test]
fn bootstrap_deposit_after_reported_assets_keeps_them() {
    let mut vault = ready();
    vault.update_total_assets(AGENT, 5 * UNIT).unwrap();
    vault.deposit(ALICE, ALICE, 2 * UNIT).unwrap();
    assert_eq!(vault.get_shares(ALICE), 2 * UNIT);
    assert_eq!(vault.get_total_assets(), 7 * UNIT);
}

#[test]
fn scenario_deposit_yield_withdraw() {
    let mut vault = ready();
    vault.deposit(ALICE, ALICE, 10 * UNIT).unwrap();
    assert_eq!(vault.get_shares(ALICE), 10 * UNIT);
    assert_eq!(vault.get_total_shares(), 10 * UNIT);
    assert_eq!(vault.get_total_assets(), 10 * UNIT);

    vault.update_total_assets(AGENT, 11 * UNIT).unwrap();
    assert_eq!(vault.get_balance(ALICE), 11 * UNIT);

    vault.withdraw(ALICE, ALICE, 6 * UNIT).unwrap();
    // burns floor(6 * 10 / 11) and pays floor(burned * 11 / 10)
    assert_eq!(
        vault.events().last(),
        Some(&VaultEvent::Withdraw(WithdrawEvent { user: ALICE, amount: 5_999_999, shares: 5_454_545 }))
    );
    assert_eq!(vault.get_shares(ALICE), 4_545_455);
    assert_eq!(vault.get_total_shares(), 4_545_455);
    assert_eq!(vault.get_total_assets(), 5_000_001);
}

#[test]
fn second_depositor_after_yield_gets_fewer_shares() {
    let mut vault = ready();
    vault.deposit(ALICE, ALICE, 10 * UNIT).unwrap();
    vault.update_total_assets(AGENT, 11 * UNIT).unwrap();
    vault.deposit(BOB, BOB, 10 * UNIT).unwrap();
    assert_eq!(vault.get_shares(BOB), 9_090_909);
    assert!(vault.get_shares(BOB) < vault.get_shares(ALICE));
}

#[test]
fn two_holders_redeem_the_whole_vault() {
    let mut vault = ready();
    vault.deposit(ALICE, ALICE, 3 * UNIT).unwrap();
    vault.deposit(BOB, BOB, 4 * UNIT).unwrap();
    vault.update_total_assets(AGENT, 10 * UNIT + 1).unwrap();
    let sum = vault.get_balance(ALICE) + vault.get_balance(BOB);
    assert_eq!(vault.get_balance(ALICE), 4_285_714);
    assert_eq!(vault.get_balance(BOB), 5_714_286);
    assert!(sum <= vault.get_total_assets() && sum >= vault.get_total_assets() - 2);
}

#[test]
fn round_trip_at_price_one_returns_the_amount() {
    let mut vault = ready();
    vault.deposit(BOB, BOB, 4 * UNIT).unwrap();
    vault.deposit(ALICE, ALICE, 5 * UNIT).unwrap();
    vault.withdraw(ALICE, ALICE, 5 * UNIT).unwrap();
    assert_eq!(
        vault.events().last(),
        Some(&VaultEvent::Withdraw(WithdrawEvent { user: ALICE, amount: 5 * UNIT, shares: 5 * UNIT }))
    );
    assert_eq!(vault.get_shares(ALICE), 0);
    assert_eq!(vault.get_total_assets(), 4 * UNIT);
    assert_eq!(vault.get_total_shares(), 4 * UNIT);
}

#[test]
fn deposit_price_never_falls() {
    let mut vault = ready();
    vault.deposit(ALICE, ALICE, 3 * UNIT).unwrap();
    vault.update_total_assets(AGENT, 7 * UNIT).unwrap();
    let (a0, s0) = (vault.get_total_assets(), vault.get_total_shares());
    vault.deposit(BOB, BOB, 2 * UNIT).unwrap();
    let (a1, s1) = (vault.get_total_assets(), vault.get_total_shares());
    assert_eq!(s1, 3 * UNIT + 857_142);
    assert!(a0 * s1 <= a1 * s0);
}

#[test]
fn user_cap_rejects_and_changes_nothing() {
    let mut vault = ready();
    vault.deposit(ALICE, ALICE, 9_000 * UNIT).unwrap();
    let before = snapshot(&vault);
    assert_eq!(vault.deposit(ALICE, ALICE, 1_000 * UNIT + 1), Err(VaultError::CapExceeded));
    assert_eq!(snapshot(&vault), before);
    vault.deposit(ALICE, ALICE, 1_000 * UNIT).unwrap();
    assert_eq!(vault.get_balance(ALICE), 10_000 * UNIT);
}

#[test]
fn user_cap_counts_yield() {
    let mut vault = ready();
    vault.set_user_deposit_cap(AGENT, 20 * UNIT).unwrap();
    vault.deposit(ALICE, ALICE, 10 * UNIT).unwrap();
    vault.update_total_assets(AGENT, 15 * UNIT).unwrap();
    assert_eq!(vault.deposit(ALICE, ALICE, 5 * UNIT + 1), Err(VaultError::CapExceeded));
    vault.deposit(ALICE, ALICE, 5 * UNIT).unwrap();
}

#[test]
fn tvl_cap_rejects_and_zero_cap_is_uncapped() {
    let mut vault = ready();
    vault.set_tvl_cap(AGENT, 5 * UNIT).unwrap();
    vault.deposit(ALICE, ALICE, 3 * UNIT).unwrap();
    let before = snapshot(&vault);
    assert_eq!(vault.deposit(BOB, BOB, 2 * UNIT + 1), Err(VaultError::CapExceeded));
    assert_eq!(snapshot(&vault), before);
    vault.set_limits(AGENT, 0, 0).unwrap();
    vault.deposit(BOB, BOB, 50_000 * UNIT).unwrap();
    assert_eq!(vault.get_total_assets(), 50_003 * UNIT);
}

#[test]
fn set_caps_report_both_limits() {
    let mut vault = ready();
    vault.set_tvl_cap(AGENT, 7).unwrap();
    vault.set_user_deposit_cap(AGENT, 3).unwrap();
    let events = vault.events();
    assert_eq!(
        events[1],
        VaultEvent::LimitsUpdated(LimitsUpdatedEvent {
            old_min: 10_000_000_000,
            new_min: 10_000_000_000,
            old_max: 100_000_000_000,
            new_max: 7,
        })
    );
    assert_eq!(
        events[2],
        VaultEvent::LimitsUpdated(LimitsUpdatedEvent { old_min: 10_000_000_000, new_min: 3, old_max: 7, new_max: 7 })
    );
    assert_eq!((vault.get_user_deposit_cap(), vault.get_tvl_cap()), (3, 7));
}

#[test]
fn pause_gates_deposit_withdraw_rebalance() {
    let mut vault = ready();
    vault.deposit(ALICE, ALICE, 4 * UNIT).unwrap();
    vault.pause(AGENT).unwrap();
    let before = snapshot(&vault);
    assert_eq!(vault.deposit(ALICE, ALICE, 2 * UNIT), Err(VaultError::Paused));
    assert_eq!(vault.withdraw(ALICE, ALICE, UNIT), Err(VaultError::Paused));
    assert_eq!(vault.rebalance(AGENT, String::from("growth"), 900), Err(VaultError::Paused));
    assert_eq!(snapshot(&vault), before);
    assert_eq!(vault.get_balance(ALICE), 4 * UNIT);
    vault.update_total_assets(AGENT, 5 * UNIT).unwrap();
    vault.unpause(AGENT).unwrap();
    vault.withdraw(ALICE, ALICE, UNIT).unwrap();
}

#[test]
fn emergency_pause_also_gates() {
    let mut vault = ready();
    vault.emergency_pause(AGENT).unwrap();
    assert!(vault.is_paused());
    assert_eq!(vault.deposit(ALICE, ALICE, 2 * UNIT), Err(VaultError::Paused));
}

#[test]
fn unpause_requires_paused() {
    let mut vault = ready();
    assert_eq!(vault.unpause(AGENT), Err(VaultError::NotPaused));
    assert_eq!(vault.events().len(), 1);
}

#[test]
fn owner_entry_points_reject_others() {
    let mut vault = ready();
    let before = snapshot(&vault);
    assert_eq!(vault.pause(MALLORY), Err(VaultError::Unauthorized));
    assert_eq!(vault.emergency_pause(MALLORY), Err(VaultError::Unauthorized));
    assert_eq!(vault.unpause(MALLORY), Err(VaultError::Unauthorized));
    assert_eq!(vault.set_tvl_cap(MALLORY, 1), Err(VaultError::Unauthorized));
    assert_eq!(vault.set_user_deposit_cap(MALLORY, 1), Err(VaultError::Unauthorized));
    assert_eq!(vault.set_limits(MALLORY, 1, 1), Err(VaultError::Unauthorized));
    assert_eq!(vault.update_agent(MALLORY, MALLORY), Err(VaultError::Unauthorized));
    assert_eq!(snapshot(&vault), before);
    assert_eq!(vault.get_agent(), AGENT);
    assert_eq!(vault.get_tvl_cap(), DEFAULT_TVL_CAP);
}

#[test]
fn agent_entry_points_reject_others() {
    let mut vault = ready();
    assert_eq!(vault.rebalance(MALLORY, String::from("growth"), 1), Err(VaultError::Unauthorized));
    assert_eq!(vault.update_total_assets(MALLORY, 5), Err(VaultError::Unauthorized));
    assert_eq!(vault.get_total_assets(), 0);
    assert_eq!(vault.events().len(), 1);
}

#[test]
fn replaced_agent_loses_its_rights() {
    let mut vault = ready();
    vault.update_agent(AGENT, BOB).unwrap();
    assert_eq!(vault.get_agent(), BOB);
    assert_eq!(vault.get_owner(), AGENT);
    assert_eq!(vault.update_total_assets(AGENT, 5), Err(VaultError::Unauthorized));
    assert_eq!(vault.rebalance(AGENT, String::from("growth"), 1), Err(VaultError::Unauthorized));
    vault.update_total_assets(BOB, 5).unwrap();
    assert_eq!(vault.get_total_assets(), 5);
}

#[test]
fn deposit_and_withdraw_are_self_gated() {
    let mut vault = ready();
    assert_eq!(vault.deposit(MALLORY, ALICE, 2 * UNIT), Err(VaultError::Unauthorized));
    vault.deposit(ALICE, ALICE, 2 * UNIT).unwrap();
    assert_eq!(vault.withdraw(MALLORY, ALICE, UNIT), Err(VaultError::Unauthorized));
    assert_eq!(vault.get_shares(ALICE), 2 * UNIT);
}

#[test]
fn invalid_amounts_are_rejected() {
    let mut vault = ready();
    assert_eq!(vault.deposit(ALICE, ALICE, 0), Err(VaultError::InvalidAmount));
    assert_eq!(vault.deposit(ALICE, ALICE, -5), Err(VaultError::InvalidAmount));
    assert_eq!(vault.deposit(ALICE, ALICE, MIN_DEPOSIT - 1), Err(VaultError::InvalidAmount));
    vault.deposit(ALICE, ALICE, MIN_DEPOSIT).unwrap();
    assert_eq!(vault.withdraw(ALICE, ALICE, 0), Err(VaultError::InvalidAmount));
    assert_eq!(vault.update_total_assets(AGENT, -1), Err(VaultError::InvalidAmount));
}

#[test]
fn withdraw_without_shares_or_assets() {
    let mut vault = ready();
    assert_eq!(vault.withdraw(ALICE, ALICE, UNIT), Err(VaultError::NoSharesExist));
    vault.deposit(ALICE, ALICE, 2 * UNIT).unwrap();
    vault.update_total_assets(AGENT, 0).unwrap();
    assert_eq!(vault.withdraw(ALICE, ALICE, UNIT), Err(VaultError::EmptyVault));
    assert_eq!(vault.deposit(BOB, BOB, 2 * UNIT), Err(VaultError::InconsistentState));
}

#[test]
fn withdraw_more_than_owned_is_rejected() {
    let mut vault = ready();
    vault.deposit(ALICE, ALICE, 2 * UNIT).unwrap();
    vault.deposit(BOB, BOB, 8 * UNIT).unwrap();
    let before = snapshot(&vault);
    assert_eq!(vault.withdraw(ALICE, ALICE, 2 * UNIT + 1), Err(VaultError::InsufficientShares));
    assert_eq!(snapshot(&vault), before);
}

#[test]
fn dust_withdrawal_burns_one_share() {
    let mut vault = ready();
    vault.deposit(ALICE, ALICE, UNIT).unwrap();
    vault.update_total_assets(AGENT, 10_000_000 * UNIT).unwrap();
    vault.withdraw(ALICE, ALICE, 1).unwrap();
    assert_eq!(
        vault.events().last(),
        Some(&VaultEvent::Withdraw(WithdrawEvent { user: ALICE, amount: 10_000_000, shares: 1 }))
    );
    assert_eq!(vault.get_shares(ALICE), UNIT - 1);
}

#[test]
fn oversized_products_are_reported() {
    let mut vault = ready();
    vault.set_limits(AGENT, 0, 0).unwrap();
    vault.deposit(ALICE, ALICE, 10 * UNIT).unwrap();
    let before = snapshot(&vault);
    let huge = 10_i128.pow(32);
    assert_eq!(vault.deposit(BOB, BOB, huge), Err(VaultError::ArithmeticOverflow));
    assert_eq!(vault.withdraw(ALICE, ALICE, huge), Err(VaultError::ArithmeticOverflow));
    assert_eq!(snapshot(&vault), before);
}

#[test]
fn event_topics() {
    let mut vault = ready();
    vault.deposit(ALICE, ALICE, 2 * UNIT).unwrap();
    vault.withdraw(ALICE, ALICE, UNIT).unwrap();
    vault.rebalance(AGENT, String::from("growth"), 1).unwrap();
    vault.update_total_assets(AGENT, 2 * UNIT).unwrap();
    let topics: Vec<&str> = vault.events().iter().map(|e| e.topic()).collect();
    assert_eq!(topics, vec!["vault_initialized", "deposit", "withdraw", "rebalance", "assets_updated"]);
}

fn config() -> VaultConfig {
    VaultConfig {
        agent: AGENT,
        owner: AGENT,
        usdc_token: TOKEN,
        paused: false,
        tvl_cap: DEFAULT_TVL_CAP,
        user_deposit_cap: DEFAULT_USER_DEPOSIT_CAP,
        version: 1,
    }
}

#[test]
fn restore_rebuilds_the_stored_vault() {
    let holdings = vec![(ALICE, 3 * UNIT), (BOB, 5 * UNIT)];
    let mut vault = NeuroWealthVault::restore(Some(config()), 12 * UNIT, &holdings).unwrap();
    assert!(vault.is_initialized());
    assert_eq!(vault.get_total_shares(), 8 * UNIT);
    assert_eq!(vault.get_total_assets(), 12 * UNIT);
    assert_eq!(vault.get_shares(BOB), 5 * UNIT);
    assert_eq!(vault.get_balance(ALICE), 4_500_000);
    assert!(vault.events().is_empty());
    vault.withdraw(BOB, BOB, 3 * UNIT).unwrap();
    assert_eq!(
        vault.events().last(),
        Some(&VaultEvent::Withdraw(WithdrawEvent { user: BOB, amount: 3 * UNIT, shares: 2 * UNIT }))
    );
}

#[test]
fn restore_without_config_is_a_fresh_vault() {
    let mut vault = NeuroWealthVault::restore(None, 0, &Vec::new()).unwrap();
    assert!(!vault.is_initialized());
    vault.initialize(AGENT, TOKEN).unwrap();
    assert_eq!(vault.get_owner(), AGENT);
}

#[test]
fn restore_rejects_inconsistent_records() {
    let dup = vec![(ALICE, UNIT), (BOB, UNIT), (ALICE, UNIT)];
    assert_eq!(NeuroWealthVault::restore(Some(config()), UNIT, &dup).err(), Some(VaultError::InconsistentState));
    let negative = vec![(ALICE, UNIT), (BOB, -1)];
    assert_eq!(NeuroWealthVault::restore(Some(config()), UNIT, &negative).err(), Some(VaultError::InconsistentState));
    let huge = vec![(ALICE, i128::MAX), (BOB, 1)];
    assert_eq!(NeuroWealthVault::restore(Some(config()), UNIT, &huge).err(), Some(VaultError::InconsistentState));
    let held = vec![(ALICE, UNIT)];
    assert_eq!(NeuroWealthVault::restore(None, 0, &held).err(), Some(VaultError::InconsistentState));
    assert_eq!(NeuroWealthVault::restore(None, 5, &Vec::new()).err(), Some(VaultError::InconsistentState));
    assert_eq!(NeuroWealthVault::restore(Some(config()), -1, &Vec::new()).err(), Some(VaultError::InconsistentState));
}

#[test]
fn mul_div_floor_rounds_down_and_reports_overflow() {
    assert_eq!(mul_div_floor(7, 3, 2), Ok(10));
    assert_eq!(mul_div_floor(0, 3, 2), Ok(0));
    assert_eq!(mul_div_floor(i128::MAX, 2, 3), Err(VaultError::ArithmeticOverflow));
}
