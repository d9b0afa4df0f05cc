//! The vault as its contracts speak of it, and what each entry point does to
//! it: the new state, or the error that rejects the call.
use vstd::prelude::*;

use crate::accounting::{
    all_nonneg, assets_for_shares, fits, shares_for_deposit, shares_for_withdrawal, total_of,
    DEFAULT_TVL_CAP, DEFAULT_USER_DEPOSIT_CAP, MIN_DEPOSIT, VAULT_VERSION,
};
use crate::types::{
    Address, AgentUpdatedEvent, VaultConfig, AssetsUpdatedEvent, DepositEvent, EmergencyPausedEvent,
    LimitsUpdatedEvent, RebalanceEvent, VaultError, VaultEvent, VaultInitializedEvent,
    VaultPausedEvent, VaultUnpausedEvent, WithdrawEvent,
};

verus! {

/// The configuration record, the two aggregates, the per-user share balances
/// and the event log.
pub struct VaultState {
    pub initialized: bool,
    pub agent: Address,
    pub owner: Address,
    pub usdc_token: Address,
    pub total_shares: int,
    pub total_assets: int,
    pub paused: bool,
    pub tvl_cap: int,
    pub user_deposit_cap: int,
    pub version: int,
    /// Share balance per user identity; a missing entry reads as zero.
    pub shares: Map<u64, i128>,
    pub events: Seq<VaultEvent>,
}

/// The balances that a list of holdings records (a later entry wins).
pub open spec fn holdings_map(h: Seq<(Address, i128)>) -> Map<u64, i128>
    decreases h.len(),
{
    if h.len() == 0 {
        Map::empty()
    } else {
        holdings_map(h.drop_last()).insert(h.last().0.id, h.last().1)
    }
}

/// The sum of the balances in a list of holdings.
pub open spec fn holdings_sum(h: Seq<(Address, i128)>) -> int
    decreases h.len(),
{
    if h.len() == 0 {
        0
    } else {
        holdings_sum(h.drop_last()) + h.last().1
    }
}

/// No two holdings are for the same user, and none is negative.
pub open spec fn holdings_valid(h: Seq<(Address, i128)>) -> bool {
    &&& forall|i: int, j: int| 0 <= i < j < h.len() ==> h[i].0.id != h[j].0.id
    &&& forall|i: int| 0 <= i < h.len() ==> h[i].1 >= 0
}

/// A user has a balance in the holdings exactly when some entry is theirs.
pub proof fn lemma_holdings_map_dom(h: Seq<(Address, i128)>, k: u64)
    ensures
        holdings_map(h).dom().contains(k) <==> exists|j: int| 0 <= j < h.len() && h[j].0.id == k,
    decreases h.len(),
{
    if h.len() > 0 {
        lemma_holdings_map_dom(h.drop_last(), k);
        if holdings_map(h.drop_last()).dom().contains(k) {
            let j = choose|j: int| 0 <= j < h.len() - 1 && h.drop_last()[j].0.id == k;
            assert(h[j].0.id == k);
        }
        if exists|j: int| 0 <= j < h.len() && h[j].0.id == k {
            let j = choose|j: int| 0 <= j < h.len() && h[j].0.id == k;
            if j < h.len() - 1 {
                assert(h.drop_last()[j].0.id == k);
            }
        }
    }
}

/// With non-negative holdings, a prefix sums to no more than the whole.
pub proof fn lemma_holdings_sum_prefix(h: Seq<(Address, i128)>, k: int)
    requires
        0 <= k <= h.len(),
        forall|i: int| 0 <= i < h.len() ==> h[i].1 >= 0,
    ensures
        holdings_sum(h.subrange(0, k)) <= holdings_sum(h),
    decreases h.len(),
{
    if k < h.len() {
        assert(h.drop_last().subrange(0, k) =~= h.subrange(0, k));
        lemma_holdings_sum_prefix(h.drop_last(), k);
    } else {
        assert(h.subrange(0, k) =~= h);
    }
}

/// The vault that a host's stored records describe: the configuration
/// (none before initialization), the total assets and every holding, the
/// total shares being their sum. Records that break the invariant are
/// `InconsistentState`.
pub open spec fn restore_outcome(
    config: Option<VaultConfig>,
    total_assets: i128,
    holdings: Seq<(Address, i128)>,
) -> Result<VaultState, VaultError> {
    if total_assets < 0 || !holdings_valid(holdings) || !fits(holdings_sum(holdings)) || (
    config is None && (holdings.len() > 0 || total_assets != 0)) {
        Err(VaultError::InconsistentState)
    } else {
        let blank = Address { id: 0 };
        Ok(
            VaultState {
                initialized: config is Some,
                agent: if config is Some { config->Some_0.agent } else { blank },
                owner: if config is Some { config->Some_0.owner } else { blank },
                usdc_token: if config is Some { config->Some_0.usdc_token } else { blank },
                total_shares: holdings_sum(holdings),
                total_assets: total_assets as int,
                paused: config is Some && config->Some_0.paused,
                tvl_cap: if config is Some { config->Some_0.tvl_cap as int } else { 0 },
                user_deposit_cap: if config is Some { config->Some_0.user_deposit_cap as int } else { 0 },
                version: if config is Some { config->Some_0.version as int } else { 0 },
                shares: holdings_map(holdings),
                events: Seq::empty(),
            },
        )
    }
}

/// What a call returns, given what it did to the state.
pub open spec fn status(o: Result<VaultState, VaultError>) -> Result<(), VaultError> {
    match o {
        Ok(_) => Ok(()),
        Err(e) => Err(e),
    }
}

impl VaultState {
    /// The state after a call with outcome `o`: a rejected call changes nothing.
    pub open spec fn after(self, o: Result<VaultState, VaultError>) -> VaultState {
        match o {
            Ok(n) => n,
            Err(_) => self,
        }
    }

    /// The invariant: aggregates within range and non-negative, balances
    /// non-negative, total shares equal to the sum of all balances, and
    /// before initialization nothing held, no pause and no caps.
    pub open spec fn inv(self) -> bool {
        &&& 0 <= self.total_shares <= i128::MAX
        &&& 0 <= self.total_assets <= i128::MAX
        &&& i128::MIN <= self.tvl_cap <= i128::MAX
        &&& i128::MIN <= self.user_deposit_cap <= i128::MAX
        &&& 0 <= self.version <= u32::MAX
        &&& self.shares.dom().finite()
        &&& all_nonneg(self.shares)
        &&& self.total_shares == total_of(self.shares)
        &&& !self.initialized ==> {
            &&& self.shares == Map::<u64, i128>::empty()
            &&& self.total_assets == 0
            &&& !self.paused
            &&& self.tvl_cap == 0
            &&& self.user_deposit_cap == 0
        }
    }

    /// The share balance of `user` (zero when absent).
    pub open spec fn shares_of(self, user: Address) -> int {
        if self.shares.dom().contains(user.id) {
            self.shares[user.id] as int
        } else {
            0
        }
    }

    /// The redeemable value of `user`'s shares (zero without shares).
    pub open spec fn balance_of(self, user: Address) -> int {
        if self.shares_of(user) == 0 || self.total_shares == 0 {
            0
        } else {
            assets_for_shares(self.shares_of(user), self.total_shares, self.total_assets)
        }
    }

    /// Whether pricing `user`'s balance overflows an intermediate product.
    pub open spec fn balance_overflows(self, user: Address) -> bool {
        self.shares_of(user) > 0 && self.total_shares > 0 && !fits(
            self.shares_of(user) * self.total_assets,
        )
    }

    /// Whether the price `total_assets / total_shares` of `self` is at most
    /// that of `other` (both with shares outstanding).
    pub open spec fn price_le(self, other: VaultState) -> bool {
        self.total_assets * other.total_shares <= other.total_assets * self.total_shares
    }

    pub open spec fn initialize_outcome(self, agent: Address, usdc_token: Address) -> Result<
        VaultState,
        VaultError,
    > {
        if self.initialized {
            Err(VaultError::AlreadyInitialized)
        } else {
            Ok(
                VaultState {
                    initialized: true,
                    agent,
                    owner: agent,
                    usdc_token,
                    total_shares: 0,
                    total_assets: 0,
                    paused: false,
                    tvl_cap: DEFAULT_TVL_CAP as int,
                    user_deposit_cap: DEFAULT_USER_DEPOSIT_CAP as int,
                    version: VAULT_VERSION as int,
                    shares: self.shares,
                    events: self.events.push(
                        VaultEvent::VaultInitialized(
                            VaultInitializedEvent { agent, usdc_token, tvl_cap: DEFAULT_TVL_CAP },
                        ),
                    ),
                },
            )
        }
    }

    /// The per-user cap check of a deposit.
    pub open spec fn user_cap_check(self, user: Address, amount: i128) -> Result<(), VaultError> {
        if self.user_deposit_cap <= 0 {
            Ok(())
        } else if self.balance_overflows(user) {
            Err(VaultError::ArithmeticOverflow)
        } else if self.balance_of(user) + amount > self.user_deposit_cap {
            Err(VaultError::CapExceeded)
        } else {
            Ok(())
        }
    }

    /// The vault-wide cap check of a deposit.
    pub open spec fn tvl_cap_check(self, amount: i128) -> Result<(), VaultError> {
        if self.tvl_cap > 0 && self.total_assets + amount > self.tvl_cap {
            Err(VaultError::CapExceeded)
        } else {
            Ok(())
        }
    }

    /// Shares minted for a deposit of `amount`, or why none can be priced.
    pub open spec fn mint_for(self, amount: i128) -> Result<int, VaultError> {
        if self.total_shares == 0 {
            Ok(amount as int)
        } else if self.total_assets == 0 {
            Err(VaultError::InconsistentState)
        } else if !fits(amount * self.total_shares) {
            Err(VaultError::ArithmeticOverflow)
        } else {
            Ok(shares_for_deposit(amount as int, self.total_shares, self.total_assets))
        }
    }

    /// The state after `user` is credited `mint` shares for `amount` units.
    pub open spec fn deposited(self, user: Address, amount: i128, mint: int) -> VaultState {
        VaultState {
            total_shares: self.total_shares + mint,
            total_assets: self.total_assets + amount,
            shares: self.shares.insert(user.id, (self.shares_of(user) + mint) as i128),
            events: self.events.push(
                VaultEvent::Deposit(DepositEvent { user, amount, shares: mint as i128 }),
            ),
            ..self
        }
    }

    pub open spec fn deposit_outcome(self, caller: Address, user: Address, amount: i128) -> Result<
        VaultState,
        VaultError,
    > {
        if caller != user {
            Err(VaultError::Unauthorized)
        } else if !self.initialized {
            Err(VaultError::NotInitialized)
        } else if self.paused {
            Err(VaultError::Paused)
        } else if amount <= 0 || amount < MIN_DEPOSIT {
            Err(VaultError::InvalidAmount)
        } else if self.user_cap_check(user, amount) is Err {
            Err(self.user_cap_check(user, amount)->Err_0)
        } else if self.tvl_cap_check(amount) is Err {
            Err(self.tvl_cap_check(amount)->Err_0)
        } else if self.mint_for(amount) is Err {
            Err(self.mint_for(amount)->Err_0)
        } else {
            let mint = self.mint_for(amount)->Ok_0;
            if !fits(self.total_shares + mint) || !fits(self.total_assets + amount) {
                Err(VaultError::ArithmeticOverflow)
            } else {
                Ok(self.deposited(user, amount, mint))
            }
        }
    }

    /// The state after `user` burns `burn` shares and is paid `paid` units.
    pub open spec fn withdrawn(self, user: Address, paid: int, burn: int) -> VaultState {
        VaultState {
            total_shares: self.total_shares - burn,
            total_assets: self.total_assets - paid,
            shares: self.shares.insert(user.id, (self.shares_of(user) - burn) as i128),
            events: self.events.push(
                VaultEvent::Withdraw(
                    WithdrawEvent { user, amount: paid as i128, shares: burn as i128 },
                ),
            ),
            ..self
        }
    }

    pub open spec fn withdraw_outcome(self, caller: Address, user: Address, amount: i128) -> Result<
        VaultState,
        VaultError,
    > {
        if caller != user {
            Err(VaultError::Unauthorized)
        } else if !self.initialized {
            Err(VaultError::NotInitialized)
        } else if self.paused {
            Err(VaultError::Paused)
        } else if amount <= 0 {
            Err(VaultError::InvalidAmount)
        } else if self.total_shares == 0 {
            Err(VaultError::NoSharesExist)
        } else if self.total_assets == 0 {
            Err(VaultError::EmptyVault)
        } else if !fits(amount * self.total_shares) {
            Err(VaultError::ArithmeticOverflow)
        } else {
            let burn = shares_for_withdrawal(amount as int, self.total_shares, self.total_assets);
            if self.shares_of(user) < burn {
                Err(VaultError::InsufficientShares)
            } else if !fits(burn * self.total_assets) {
                Err(VaultError::ArithmeticOverflow)
            } else {
                let paid = assets_for_shares(burn, self.total_shares, self.total_assets);
                Ok(self.withdrawn(user, paid, burn))
            }
        }
    }

    pub open spec fn rebalance_outcome(
        self,
        caller: Address,
        protocol: String,
        expected_apy: i128,
    ) -> Result<VaultState, VaultError> {
        if !self.initialized {
            Err(VaultError::NotInitialized)
        } else if caller != self.agent {
            Err(VaultError::Unauthorized)
        } else if self.paused {
            Err(VaultError::Paused)
        } else {
            Ok(
                VaultState {
                    events: self.events.push(
                        VaultEvent::Rebalance(RebalanceEvent { protocol, expected_apy }),
                    ),
                    ..self
                },
            )
        }
    }

    /// The owner check shared by the administrative entry points.
    pub open spec fn owner_check(self, caller: Address) -> Result<(), VaultError> {
        if !self.initialized {
            Err(VaultError::NotInitialized)
        } else if caller != self.owner {
            Err(VaultError::Unauthorized)
        } else {
            Ok(())
        }
    }

    pub open spec fn pause_outcome(self, caller: Address) -> Result<VaultState, VaultError> {
        if self.owner_check(caller) is Err {
            Err(self.owner_check(caller)->Err_0)
        } else {
            Ok(
                VaultState {
                    paused: true,
                    events: self.events.push(VaultEvent::VaultPaused(VaultPausedEvent { caller })),
                    ..self
                },
            )
        }
    }

    pub open spec fn unpause_outcome(self, caller: Address) -> Result<VaultState, VaultError> {
        if self.owner_check(caller) is Err {
            Err(self.owner_check(caller)->Err_0)
        } else if !self.paused {
            Err(VaultError::NotPaused)
        } else {
            Ok(
                VaultState {
                    paused: false,
                    events: self.events.push(
                        VaultEvent::VaultUnpaused(VaultUnpausedEvent { caller }),
                    ),
                    ..self
                },
            )
        }
    }

    pub open spec fn emergency_pause_outcome(self, caller: Address) -> Result<
        VaultState,
        VaultError,
    > {
        if self.owner_check(caller) is Err {
            Err(self.owner_check(caller)->Err_0)
        } else {
            Ok(
                VaultState {
                    paused: true,
                    events: self.events.push(
                        VaultEvent::EmergencyPaused(EmergencyPausedEvent { caller }),
                    ),
                    ..self
                },
            )
        }
    }

    /// The state with the per-user cap set to `min` and the vault-wide cap
    /// to `max`, and the record of both changes.
    pub open spec fn limits_set(self, min: i128, max: i128) -> VaultState {
        VaultState {
            user_deposit_cap: min as int,
            tvl_cap: max as int,
            events: self.events.push(
                VaultEvent::LimitsUpdated(
                    LimitsUpdatedEvent {
                        old_min: self.user_deposit_cap as i128,
                        new_min: min,
                        old_max: self.tvl_cap as i128,
                        new_max: max,
                    },
                ),
            ),
            ..self
        }
    }

    pub open spec fn set_tvl_cap_outcome(self, caller: Address, cap: i128) -> Result<
        VaultState,
        VaultError,
    > {
        if self.owner_check(caller) is Err {
            Err(self.owner_check(caller)->Err_0)
        } else {
            Ok(self.limits_set(self.user_deposit_cap as i128, cap))
        }
    }

    pub open spec fn set_user_deposit_cap_outcome(self, caller: Address, cap: i128) -> Result<
        VaultState,
        VaultError,
    > {
        if self.owner_check(caller) is Err {
            Err(self.owner_check(caller)->Err_0)
        } else {
            Ok(self.limits_set(cap, self.tvl_cap as i128))
        }
    }

    pub open spec fn set_limits_outcome(self, caller: Address, min: i128, max: i128) -> Result<
        VaultState,
        VaultError,
    > {
        if self.owner_check(caller) is Err {
            Err(self.owner_check(caller)->Err_0)
        } else {
            Ok(self.limits_set(min, max))
        }
    }

    pub open spec fn update_agent_outcome(self, caller: Address, new_agent: Address) -> Result<
        VaultState,
        VaultError,
    > {
        if self.owner_check(caller) is Err {
            Err(self.owner_check(caller)->Err_0)
        } else {
            Ok(
                VaultState {
                    agent: new_agent,
                    events: self.events.push(
                        VaultEvent::AgentUpdated(
                            AgentUpdatedEvent { old_agent: self.agent, new_agent },
                        ),
                    ),
                    ..self
                },
            )
        }
    }

    pub open spec fn update_total_assets_outcome(self, caller: Address, new_total: i128) -> Result<
        VaultState,
        VaultError,
    > {
        if !self.initialized {
            Err(VaultError::NotInitialized)
        } else if caller != self.agent {
            Err(VaultError::Unauthorized)
        } else if new_total < 0 {
            Err(VaultError::InvalidAmount)
        } else {
            Ok(
                VaultState {
                    total_assets: new_total as int,
                    events: self.events.push(
                        VaultEvent::AssetsUpdated(
                            AssetsUpdatedEvent {
                                old_total: self.total_assets as i128,
                                new_total,
                            },
                        ),
                    ),
                    ..self
                },
            )
        }
    }
}

} // verus!
