//! A single-asset yield vault: share accounting, capability checks and a
//! typed event log, as a verified state machine.
//!
//! Depositors buy shares at the current price (`total_assets /
//! total_shares`, one for one while no shares exist); an agent reports
//! yield by setting the total assets and signals rebalances; an owner
//! pauses the vault, sets the caps and replaces the agent. Every accepted
//! call appends one event; a rejected call changes nothing.

mod accounting;
mod laws;
mod state;
mod types;
mod vault;

pub use accounting::{
    all_nonneg, assets_for_shares, fits, lemma_scaled_within, lemma_share_sum_agree,
    lemma_share_sum_nonneg, lemma_share_sum_remove, lemma_total_of_insert, lemma_total_of_pair,
    mul_div_floor, share_sum, shares_for_deposit, shares_for_withdrawal, total_of,
    DEFAULT_TVL_CAP, DEFAULT_USER_DEPOSIT_CAP, MIN_DEPOSIT, VAULT_VERSION,
};
pub use laws::{
    after_steps, lemma_agent_gated, lemma_bootstrap_pricing, lemma_deposit_keeps_inv,
    lemma_deposit_price_monotone, lemma_growth_run_price_monotone, lemma_owner_gated,
    lemma_pause_gating, lemma_price_le_transitive, lemma_proportional_redemption,
    lemma_report_price_monotone, lemma_round_trip, lemma_self_gated, lemma_shares_bounded,
    lemma_user_cap_enforced, reports_grow, step_outcome, GrowthStep,
};
pub use state::{
    holdings_map, holdings_sum, holdings_valid, lemma_holdings_map_dom, lemma_holdings_sum_prefix,
    restore_outcome, status, VaultState,
};
pub use types::{
    topic_of, Address, AgentUpdatedEvent, AssetsUpdatedEvent, DepositEvent, EmergencyPausedEvent,
    LimitsUpdatedEvent, PauseEvent, VaultConfig, RebalanceEvent, VaultError, VaultEvent,
    VaultInitializedEvent, VaultPausedEvent, VaultUnpausedEvent, WithdrawEvent,
};
pub use vault::NeuroWealthVault;
