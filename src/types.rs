use vstd::prelude::*;

verus! {

/// An authenticated principal (a depositor, the agent, the owner or a token).
#[derive(Clone, Copy, Debug, PartialEq, Eq, Structural)]
pub struct Address {
    pub id: u64,
}

/// The configuration record of an initialized vault, as a host stores it.
#[derive(Clone, Copy, Debug, PartialEq, Eq, Structural)]
pub struct VaultConfig {
    pub agent: Address,
    pub owner: Address,
    pub usdc_token: Address,
    pub paused: bool,
    pub tvl_cap: i128,
    pub user_deposit_cap: i128,
    pub version: u32,
}

/// Why a vault call was rejected. A rejected call changes nothing.
#[derive(Clone, Copy, Debug, PartialEq, Eq, Structural)]
pub enum VaultError {
    /// `initialize` was called on a vault that is already configured.
    AlreadyInitialized,
    /// The vault has not been configured yet.
    NotInitialized,
    /// The caller is not the principal the entry point is gated to.
    Unauthorized,
    /// A non-positive amount, or a deposit below the minimum.
    InvalidAmount,
    /// The deposit would breach the per-user or the vault-wide cap.
    CapExceeded,
    /// A deposit, withdrawal or rebalance while the vault is paused.
    Paused,
    /// `unpause` while the vault is not paused.
    NotPaused,
    /// A withdrawal while no shares exist.
    NoSharesExist,
    /// A withdrawal while the vault holds no assets.
    EmptyVault,
    /// The user holds fewer shares than the withdrawal burns.
    InsufficientShares,
    /// Shares exist but the assets backing them are zero, so no price exists.
    InconsistentState,
    /// An intermediate product or sum does not fit in 128 bits.
    ArithmeticOverflow,
}

/// A deposit: `amount` units pulled from `user`, `shares` minted to them.
#[derive(Clone, Copy, Debug, PartialEq, Eq, Structural)]
pub struct DepositEvent {
    pub user: Address,
    pub amount: i128,
    pub shares: i128,
}

/// A withdrawal: `shares` burned from `user`, `amount` units paid out to them.
#[derive(Clone, Copy, Debug, PartialEq, Eq, Structural)]
pub struct WithdrawEvent {
    pub user: Address,
    pub amount: i128,
    pub shares: i128,
}

/// The agent's signal that funds should move to `protocol`, with the expected
/// yield in basis points.
#[derive(Clone, Debug, PartialEq, Eq)]
pub struct RebalanceEvent {
    pub protocol: String,
    pub expected_apy: i128,
}

/// A combined pause-state record: the new state and who set it.
#[derive(Clone, Copy, Debug, PartialEq, Eq, Structural)]
pub struct PauseEvent {
    pub paused: bool,
    pub caller: Address,
}

/// The vault was configured.
#[derive(Clone, Copy, Debug, PartialEq, Eq, Structural)]
pub struct VaultInitializedEvent {
    pub agent: Address,
    pub usdc_token: Address,
    pub tvl_cap: i128,
}

/// The owner paused the vault.
#[derive(Clone, Copy, Debug, PartialEq, Eq, Structural)]
pub struct VaultPausedEvent {
    pub caller: Address,
}

/// The owner unpaused the vault.
#[derive(Clone, Copy, Debug, PartialEq, Eq, Structural)]
pub struct VaultUnpausedEvent {
    pub caller: Address,
}

/// The owner paused the vault through the emergency switch.
#[derive(Clone, Copy, Debug, PartialEq, Eq, Structural)]
pub struct EmergencyPausedEvent {
    pub caller: Address,
}

/// The caps changed: `min` is the per-user deposit cap, `max` the vault-wide
/// cap. Both are always reported, changed or not.
#[derive(Clone, Copy, Debug, PartialEq, Eq, Structural)]
pub struct LimitsUpdatedEvent {
    pub old_min: i128,
    pub new_min: i128,
    pub old_max: i128,
    pub new_max: i128,
}

/// The owner replaced the agent.
#[derive(Clone, Copy, Debug, PartialEq, Eq, Structural)]
pub struct AgentUpdatedEvent {
    pub old_agent: Address,
    pub new_agent: Address,
}

/// The agent reported a new total of managed assets.
#[derive(Clone, Copy, Debug, PartialEq, Eq, Structural)]
pub struct AssetsUpdatedEvent {
    pub old_total: i128,
    pub new_total: i128,
}

/// One record of the vault's event log; every accepted state change appends
/// exactly one.
#[derive(Clone, Debug, PartialEq, Eq)]
pub enum VaultEvent {
    VaultInitialized(VaultInitializedEvent),
    Deposit(DepositEvent),
    Withdraw(WithdrawEvent),
    Rebalance(RebalanceEvent),
    VaultPaused(VaultPausedEvent),
    VaultUnpaused(VaultUnpausedEvent),
    EmergencyPaused(EmergencyPausedEvent),
    LimitsUpdated(LimitsUpdatedEvent),
    AgentUpdated(AgentUpdatedEvent),
    AssetsUpdated(AssetsUpdatedEvent),
}

/// The topic under which an event is published.
pub open spec fn topic_of(e: VaultEvent) -> &'static str {
    match e {
        VaultEvent::VaultInitialized(_) => "vault_initialized",
        VaultEvent::Deposit(_) => "deposit",
        VaultEvent::Withdraw(_) => "withdraw",
        VaultEvent::Rebalance(_) => "rebalance",
        VaultEvent::VaultPaused(_) => "vault_paused",
        VaultEvent::VaultUnpaused(_) => "vault_unpaused",
        VaultEvent::EmergencyPaused(_) => "emergency_paused",
        VaultEvent::LimitsUpdated(_) => "limits_updated",
        VaultEvent::AgentUpdated(_) => "agent_updated",
        VaultEvent::AssetsUpdated(_) => "assets_updated",
    }
}

impl VaultEvent {
    /// The topic under which this event is published.
    pub fn topic(&self) -> (r: &'static str)
        ensures
            r == topic_of(*self),
    {
        match self {
            VaultEvent::VaultInitialized(_) => "vault_initialized",
            VaultEvent::Deposit(_) => "deposit",
            VaultEvent::Withdraw(_) => "withdraw",
            VaultEvent::Rebalance(_) => "rebalance",
            VaultEvent::VaultPaused(_) => "vault_paused",
            VaultEvent::VaultUnpaused(_) => "vault_unpaused",
            VaultEvent::EmergencyPaused(_) => "emergency_paused",
            VaultEvent::LimitsUpdated(_) => "limits_updated",
            VaultEvent::AgentUpdated(_) => "agent_updated",
            VaultEvent::AssetsUpdated(_) => "assets_updated",
        }
    }
}

} // verus!
