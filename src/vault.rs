//! The vault state machine: every entry point authenticates the caller,
//! validates, updates the aggregates and appends one event, or changes
//! nothing and returns the error.
use std::collections::HashMap;
use vstd::prelude::*;

use crate::accounting::{
    all_nonneg, lemma_scaled_within, lemma_share_sum_nonneg, lemma_total_of_insert,
    mul_div_floor, total_of, DEFAULT_TVL_CAP, DEFAULT_USER_DEPOSIT_CAP,
    MIN_DEPOSIT, VAULT_VERSION,
};
use crate::laws::lemma_shares_bounded;
use crate::state::{
    holdings_map, holdings_sum, holdings_valid, lemma_holdings_map_dom, lemma_holdings_sum_prefix,
    restore_outcome, status, VaultState,
};
use crate::types::{
    Address, AgentUpdatedEvent, VaultConfig, AssetsUpdatedEvent, DepositEvent, EmergencyPausedEvent,
    LimitsUpdatedEvent, RebalanceEvent, VaultError, VaultEvent, VaultInitializedEvent,
    VaultPausedEvent, VaultUnpausedEvent, WithdrawEvent,
};

verus! {

broadcast use vstd::std_specs::hash::group_hash_axioms;

/// A single-asset vault that prices deposits and withdrawals in shares.
///
/// Callers pass the identity that authenticated the call as `caller`.
/// Token movements are the embedding's: a successful `deposit` is to be
/// paired with a transfer of `amount` from the user into the vault, and a
/// successful `withdraw` with a transfer of the recorded amount back; if
/// that transfer fails, the embedding discards the whole call.
pub struct NeuroWealthVault {
    initialized: bool,
    agent: Address,
    owner: Address,
    usdc_token: Address,
    total_shares: i128,
    total_assets: i128,
    paused: bool,
    tvl_cap: i128,
    user_deposit_cap: i128,
    version: u32,
    shares: HashMap<u64, i128>,
    events: Vec<VaultEvent>,
}

impl View for NeuroWealthVault {
    type V = VaultState;

    closed spec fn view(&self) -> VaultState {
        VaultState {
            initialized: self.initialized,
            agent: self.agent,
            owner: self.owner,
            usdc_token: self.usdc_token,
            total_shares: self.total_shares as int,
            total_assets: self.total_assets as int,
            paused: self.paused,
            tvl_cap: self.tvl_cap as int,
            user_deposit_cap: self.user_deposit_cap as int,
            version: self.version as int,
            shares: self.shares@,
            events: self.events@,
        }
    }
}

impl NeuroWealthVault {
    /// A vault that holds nothing and awaits `initialize`.
    pub fn new() -> (r: NeuroWealthVault)
        ensures
            r@.inv(),
            !r@.initialized,
            !r@.paused,
            r@.total_shares == 0,
            r@.total_assets == 0,
            r@.tvl_cap == 0,
            r@.user_deposit_cap == 0,
            r@.shares == Map::<u64, i128>::empty(),
            r@.events == Seq::<VaultEvent>::empty(),
    {
        let r = NeuroWealthVault {
            initialized: false,
            agent: Address { id: 0 },
            owner: Address { id: 0 },
            usdc_token: Address { id: 0 },
            total_shares: 0,
            total_assets: 0,
            paused: false,
            tvl_cap: 0,
            user_deposit_cap: 0,
            version: 0,
            shares: HashMap::new(),
            events: Vec::new(),
        };
        proof {
            assert(r.shares@.dom() =~= Set::<u64>::empty());
        }
        r
    }

    /// Rebuilds a vault from a host's stored records: the configuration
    /// (none before initialization), the total assets and every holding.
    /// The total shares are the sum of the holdings; records that break the
    /// vault's invariant give `InconsistentState`. The event log starts
    /// empty.
    pub fn restore(
        config: Option<VaultConfig>,
        total_assets: i128,
        holdings: &Vec<(Address, i128)>,
    ) -> (r: Result<NeuroWealthVault, VaultError>)
        ensures
            match restore_outcome(config, total_assets, holdings@) {
                Ok(s) => r is Ok && r->Ok_0@ == s && s.inv(),
                Err(e) => r is Err && r->Err_0 == e,
            },
    {
        let mut shares: HashMap<u64, i128> = HashMap::new();
        let mut total: i128 = 0;
        let mut i: usize = 0;
        proof {
            assert(holdings@.subrange(0, 0) =~= Seq::<(Address, i128)>::empty());
            assert(shares@.dom() =~= Set::<u64>::empty());
            lemma_share_sum_nonneg(shares@, shares@.dom());
        }
        while i < holdings.len()
            invariant
                0 <= i <= holdings@.len(),
                shares@ == holdings_map(holdings@.subrange(0, i as int)),
                total == holdings_sum(holdings@.subrange(0, i as int)),
                holdings_valid(holdings@.subrange(0, i as int)),
                shares@.dom().finite(),
                all_nonneg(shares@),
                total_of(shares@) == total,
                total >= 0,
            decreases holdings@.len() - i,
        {
            let (who, amount) = holdings[i];
            let ghost next = holdings@.subrange(0, i + 1);
            proof {
                assert(next.drop_last() =~= holdings@.subrange(0, i as int));
            }
            if amount < 0 {
                return Err(VaultError::InconsistentState);
            }
            if shares.contains_key(&who.id) {
                proof {
                    lemma_holdings_map_dom(holdings@.subrange(0, i as int), who.id);
                    let j = choose|j: int| 0 <= j < i && holdings@.subrange(0, i as int)[j].0.id == who.id;
                    assert(holdings@[j].0.id == holdings@[i as int].0.id);
                }
                return Err(VaultError::InconsistentState);
            }
            proof {
                lemma_total_of_insert(shares@, who.id, amount);
            }
            total = match total.checked_add(amount) {
                Some(t) => t,
                None => {
                    proof {
                        if holdings_valid(holdings@) {
                            lemma_holdings_sum_prefix(holdings@, i + 1);
                        }
                    }
                    return Err(VaultError::InconsistentState);
                },
            };
            shares.insert(who.id, amount);
            proof {
                lemma_holdings_map_dom(holdings@.subrange(0, i as int), who.id);
                assert forall|a: int, b: int| 0 <= a < b < next.len() implies next[a].0.id
                    != next[b].0.id by {
                    if b == i {
                        assert(holdings@.subrange(0, i as int)[a].0.id == next[a].0.id);
                    } else {
                        assert(holdings@.subrange(0, i as int)[a] == next[a]);
                        assert(holdings@.subrange(0, i as int)[b] == next[b]);
                    }
                }
                assert forall|a: int| 0 <= a < next.len() implies next[a].1 >= 0 by {
                    if a < i {
                        assert(holdings@.subrange(0, i as int)[a] == next[a]);
                    }
                }
            }
            i = i + 1;
        }
        proof {
            assert(holdings@.subrange(0, i as int) =~= holdings@);
        }
        if total_assets < 0 {
            return Err(VaultError::InconsistentState);
        }
        let blank = Address { id: 0 };
        let vault = match config {
            Some(c) => NeuroWealthVault {
                initialized: true,
                agent: c.agent,
                owner: c.owner,
                usdc_token: c.usdc_token,
                total_shares: total,
                total_assets,
                paused: c.paused,
                tvl_cap: c.tvl_cap,
                user_deposit_cap: c.user_deposit_cap,
                version: c.version,
                shares,
                events: Vec::new(),
            },
            None => {
                if holdings.len() > 0 || total_assets != 0 {
                    return Err(VaultError::InconsistentState);
                }
                proof {
                    assert(shares@ =~= Map::<u64, i128>::empty());
                }
                NeuroWealthVault {
                    initialized: false,
                    agent: blank,
                    owner: blank,
                    usdc_token: blank,
                    total_shares: 0,
                    total_assets: 0,
                    paused: false,
                    tvl_cap: 0,
                    user_deposit_cap: 0,
                    version: 0,
                    shares,
                    events: Vec::new(),
                }
            },
        };
        Ok(vault)
    }

    /// Configures the vault: `agent` becomes agent and owner, the caps take
    /// their defaults, and the vault opens unpaused with nothing in it.
    pub fn initialize(&mut self, agent: Address, usdc_token: Address) -> (r: Result<(), VaultError>)
        requires
            old(self)@.inv(),
        ensures
            final(self)@.inv(),
            r == status(old(self)@.initialize_outcome(agent, usdc_token)),
            final(self)@ == old(self)@.after(old(self)@.initialize_outcome(agent, usdc_token)),
    {
        if self.initialized {
            return Err(VaultError::AlreadyInitialized);
        }
        let tvl_cap = DEFAULT_TVL_CAP;
        self.agent = agent;
        self.usdc_token = usdc_token;
        self.total_shares = 0;
        self.total_assets = 0;
        self.paused = false;
        self.owner = agent;
        self.tvl_cap = tvl_cap;
        self.user_deposit_cap = DEFAULT_USER_DEPOSIT_CAP;
        self.version = VAULT_VERSION;
        self.initialized = true;
        self.events.push(
            VaultEvent::VaultInitialized(VaultInitializedEvent { agent, usdc_token, tvl_cap }),
        );
        Ok(())
    }

    /// The share balance recorded for `user`, zero when none is.
    fn stored_shares(&self, user: Address) -> (r: i128)
        ensures
            r == self@.shares_of(user),
    {
        match self.shares.get(&user.id) {
            Some(s) => *s,
            None => 0,
        }
    }

    fn require_initialized(&self) -> (r: Result<(), VaultError>)
        ensures
            r == (if self@.initialized {
                Ok::<(), VaultError>(())
            } else {
                Err(VaultError::NotInitialized)
            }),
    {
        if self.initialized {
            Ok(())
        } else {
            Err(VaultError::NotInitialized)
        }
    }

    fn require_not_paused(&self) -> (r: Result<(), VaultError>)
        ensures
            r == (if self@.paused {
                Err(VaultError::Paused)
            } else {
                Ok::<(), VaultError>(())
            }),
    {
        if self.paused {
            Err(VaultError::Paused)
        } else {
            Ok(())
        }
    }

    fn require_is_owner(&self, caller: Address) -> (r: Result<(), VaultError>)
        ensures
            r == self@.owner_check(caller),
    {
        if !self.initialized {
            Err(VaultError::NotInitialized)
        } else if caller != self.owner {
            Err(VaultError::Unauthorized)
        } else {
            Ok(())
        }
    }

    fn require_is_agent(&self, caller: Address) -> (r: Result<(), VaultError>)
        ensures
            r == (if caller == self@.agent {
                Ok::<(), VaultError>(())
            } else {
                Err(VaultError::Unauthorized)
            }),
    {
        if caller == self.agent {
            Ok(())
        } else {
            Err(VaultError::Unauthorized)
        }
    }

    /// The value that `shares` are worth at the current price.
    fn convert_to_assets(&self, shares: i128) -> (r: Result<i128, VaultError>)
        requires
            self@.total_shares > 0,
            self@.total_assets >= 0,
            shares >= 0,
        ensures
            r == (if crate::accounting::fits(shares * self@.total_assets) {
                Ok::<i128, VaultError>(
                    crate::accounting::assets_for_shares(
                        shares as int,
                        self@.total_shares,
                        self@.total_assets,
                    ) as i128,
                )
            } else {
                Err(VaultError::ArithmeticOverflow)
            }),
    {
        mul_div_floor(shares, self.total_assets, self.total_shares)
    }

    /// The shares that a deposit of `amount` mints at the current price.
    fn convert_to_shares(&self, amount: i128) -> (r: Result<i128, VaultError>)
        requires
            self@.inv(),
            amount >= 0,
        ensures
            r == (match self@.mint_for(amount) {
                Ok(m) => Ok::<i128, VaultError>(m as i128),
                Err(e) => Err(e),
            }),
            r is Ok ==> r->Ok_0 >= 0,
    {
        if self.total_shares == 0 {
            return Ok(amount);
        }
        if self.total_assets == 0 {
            return Err(VaultError::InconsistentState);
        }
        proof {
            vstd::arithmetic::mul::lemma_mul_nonnegative(amount as int, self.total_shares as int);
            vstd::arithmetic::div_mod::lemma_div_pos_is_pos(
                amount * self.total_shares,
                self.total_assets as int,
            );
        }
        mul_div_floor(amount, self.total_shares, self.total_assets)
    }

    /// Rejects a deposit that would take `user`'s redeemable value above the
    /// per-user cap (when one is set).
    fn require_within_deposit_cap(&self, user: Address, amount: i128) -> (r: Result<(), VaultError>)
        requires
            self@.inv(),
            amount > 0,
        ensures
            r == self@.user_cap_check(user, amount),
    {
        let cap = self.user_deposit_cap;
        if cap > 0 {
            let user_shares = self.stored_shares(user);
            proof {
                lemma_shares_bounded(self@, user);
            }
            let current_balance = if user_shares > 0 && self.total_shares > 0 {
                match self.convert_to_assets(user_shares) {
                    Ok(b) => b,
                    Err(e) => return Err(e),
                }
            } else {
                0
            };
            proof {
                if user_shares > 0 && self.total_shares > 0 {
                    lemma_scaled_within(
                        user_shares as int,
                        self.total_assets as int,
                        self.total_shares as int,
                    );
                }
            }
            match current_balance.checked_add(amount) {
                Some(total) => {
                    if total > cap {
                        return Err(VaultError::CapExceeded);
                    }
                },
                None => return Err(VaultError::CapExceeded),
            }
        }
        Ok(())
    }

    /// Rejects a deposit that would take the total assets above the
    /// vault-wide cap (when one is set).
    fn require_within_tvl_cap(&self, amount: i128) -> (r: Result<(), VaultError>)
        requires
            self@.inv(),
            amount > 0,
        ensures
            r == self@.tvl_cap_check(amount),
    {
        let cap = self.tvl_cap;
        if cap > 0 {
            match self.total_assets.checked_add(amount) {
                Some(total) => {
                    if total > cap {
                        return Err(VaultError::CapExceeded);
                    }
                },
                None => return Err(VaultError::CapExceeded),
            }
        }
        Ok(())
    }

    /// Deposits `amount` units for `user`, who must be the caller.
    ///
    /// Checked in this order, the first failure winning: caller is `user`,
    /// initialized, not paused, `amount` positive and at least the minimum, the
    /// per-user cap, the vault-wide cap, a price for the shares, and room in
    /// 128 bits. Then `user` and the total gain the minted shares (`amount`
    /// one for one while no shares exist, else
    /// `floor(amount * total_shares / total_assets)` at the pre-deposit
    /// price), the total assets gain `amount`, and a `Deposit` event is
    /// recorded.
    pub fn deposit(&mut self, caller: Address, user: Address, amount: i128) -> (r: Result<
        (),
        VaultError,
    >)
        requires
            old(self)@.inv(),
        ensures
            final(self)@.inv(),
            r == status(old(self)@.deposit_outcome(caller, user, amount)),
            final(self)@ == old(self)@.after(old(self)@.deposit_outcome(caller, user, amount)),
    {
        if caller != user {
            return Err(VaultError::Unauthorized);
        }
        match self.require_initialized() {
            Ok(()) => {},
            Err(e) => return Err(e),
        }
        match self.require_not_paused() {
            Ok(()) => {},
            Err(e) => return Err(e),
        }
        match require_positive_amount(amount) {
            Ok(()) => {},
            Err(e) => return Err(e),
        }
        match require_minimum_deposit(amount) {
            Ok(()) => {},
            Err(e) => return Err(e),
        }
        match self.require_within_deposit_cap(user, amount) {
            Ok(()) => {},
            Err(e) => return Err(e),
        }
        match self.require_within_tvl_cap(amount) {
            Ok(()) => {},
            Err(e) => return Err(e),
        }
        let shares_to_mint = match self.convert_to_shares(amount) {
            Ok(s) => s,
            Err(e) => return Err(e),
        };
        let new_total_shares = match self.total_shares.checked_add(shares_to_mint) {
            Some(t) => t,
            None => return Err(VaultError::ArithmeticOverflow),
        };
        let new_total_assets = match self.total_assets.checked_add(amount) {
            Some(t) => t,
            None => return Err(VaultError::ArithmeticOverflow),
        };
        let current_shares = self.stored_shares(user);
        proof {
            lemma_shares_bounded(self@, user);
            lemma_total_of_insert(
                self.shares@,
                user.id,
                (current_shares + shares_to_mint) as i128,
            );
        }
        self.shares.insert(user.id, current_shares + shares_to_mint);
        self.total_shares = new_total_shares;
        self.total_assets = new_total_assets;
        self.events.push(VaultEvent::Deposit(DepositEvent { user, amount, shares: shares_to_mint }));
        Ok(())
    }

    /// Withdraws about `amount` units for `user`, who must be the caller.
    ///
    /// Checked in this order: caller is `user`, initialized, not paused,
    /// `amount` positive, shares exist, assets exist, room in 128 bits. The
    /// shares burned are `floor(amount * total_shares / total_assets)`, at
    /// least one; `user` must hold them. The amount paid is
    /// `floor(burned * total_assets / total_shares)` at the pre-withdrawal
    /// aggregates, which may be less than asked; it is what the recorded
    /// `Withdraw` event carries.
    pub fn withdraw(&mut self, caller: Address, user: Address, amount: i128) -> (r: Result<
        (),
        VaultError,
    >)
        requires
            old(self)@.inv(),
        ensures
            final(self)@.inv(),
            r == status(old(self)@.withdraw_outcome(caller, user, amount)),
            final(self)@ == old(self)@.after(old(self)@.withdraw_outcome(caller, user, amount)),
    {
        if caller != user {
            return Err(VaultError::Unauthorized);
        }
        match self.require_initialized() {
            Ok(()) => {},
            Err(e) => return Err(e),
        }
        match self.require_not_paused() {
            Ok(()) => {},
            Err(e) => return Err(e),
        }
        match require_positive_amount(amount) {
            Ok(()) => {},
            Err(e) => return Err(e),
        }
        let total_shares = self.total_shares;
        let total_assets = self.total_assets;
        if total_shares <= 0 {
            return Err(VaultError::NoSharesExist);
        }
        if total_assets <= 0 {
            return Err(VaultError::EmptyVault);
        }
        let shares_to_burn = match mul_div_floor(amount, total_shares, total_assets) {
            Ok(s) => s,
            Err(e) => return Err(e),
        };
        let shares_to_burn = if shares_to_burn == 0 && amount > 0 {
            1
        } else {
            shares_to_burn
        };
        let user_shares = self.stored_shares(user);
        if user_shares < shares_to_burn {
            return Err(VaultError::InsufficientShares);
        }
        proof {
            lemma_shares_bounded(self@, user);
            vstd::arithmetic::mul::lemma_mul_nonnegative(amount as int, total_shares as int);
            vstd::arithmetic::div_mod::lemma_div_pos_is_pos(
                amount * total_shares,
                total_assets as int,
            );
        }
        let actual_amount = match self.convert_to_assets(shares_to_burn) {
            Ok(a) => a,
            Err(e) => return Err(e),
        };
        proof {
            lemma_scaled_within(shares_to_burn as int, total_assets as int, total_shares as int);
            lemma_total_of_insert(self.shares@, user.id, (user_shares - shares_to_burn) as i128);
        }
        self.shares.insert(user.id, user_shares - shares_to_burn);
        self.total_shares = total_shares - shares_to_burn;
        self.total_assets = total_assets - actual_amount;
        self.events.push(
            VaultEvent::Withdraw(
                WithdrawEvent { user, amount: actual_amount, shares: shares_to_burn },
            ),
        );
        Ok(())
    }

    /// The agent's signal to move funds to `protocol`; records a `Rebalance`
    /// event and changes nothing else.
    pub fn rebalance(&mut self, caller: Address, protocol: String, expected_apy: i128) -> (r: Result<
        (),
        VaultError,
    >)
        requires
            old(self)@.inv(),
        ensures
            final(self)@.inv(),
            r == status(old(self)@.rebalance_outcome(caller, protocol, expected_apy)),
            final(self)@ == old(self)@.after(
                old(self)@.rebalance_outcome(caller, protocol, expected_apy),
            ),
    {
        match self.require_initialized() {
            Ok(()) => {},
            Err(e) => return Err(e),
        }
        match self.require_is_agent(caller) {
            Ok(()) => {},
            Err(e) => return Err(e),
        }
        match self.require_not_paused() {
            Ok(()) => {},
            Err(e) => return Err(e),
        }
        self.events.push(VaultEvent::Rebalance(RebalanceEvent { protocol, expected_apy }));
        Ok(())
    }

    /// The owner pauses the vault.
    pub fn pause(&mut self, caller: Address) -> (r: Result<(), VaultError>)
        requires
            old(self)@.inv(),
        ensures
            final(self)@.inv(),
            r == status(old(self)@.pause_outcome(caller)),
            final(self)@ == old(self)@.after(old(self)@.pause_outcome(caller)),
    {
        match self.require_is_owner(caller) {
            Ok(()) => {},
            Err(e) => return Err(e),
        }
        self.paused = true;
        self.events.push(VaultEvent::VaultPaused(VaultPausedEvent { caller }));
        Ok(())
    }

    /// The owner unpauses a paused vault.
    pub fn unpause(&mut self, caller: Address) -> (r: Result<(), VaultError>)
        requires
            old(self)@.inv(),
        ensures
            final(self)@.inv(),
            r == status(old(self)@.unpause_outcome(caller)),
            final(self)@ == old(self)@.after(old(self)@.unpause_outcome(caller)),
    {
        match self.require_is_owner(caller) {
            Ok(()) => {},
            Err(e) => return Err(e),
        }
        if !self.paused {
            return Err(VaultError::NotPaused);
        }
        self.paused = false;
        self.events.push(VaultEvent::VaultUnpaused(VaultUnpausedEvent { caller }));
        Ok(())
    }

    /// The owner pauses the vault through the emergency switch.
    pub fn emergency_pause(&mut self, caller: Address) -> (r: Result<(), VaultError>)
        requires
            old(self)@.inv(),
        ensures
            final(self)@.inv(),
            r == status(old(self)@.emergency_pause_outcome(caller)),
            final(self)@ == old(self)@.after(old(self)@.emergency_pause_outcome(caller)),
    {
        match self.require_is_owner(caller) {
            Ok(()) => {},
            Err(e) => return Err(e),
        }
        self.paused = true;
        self.events.push(VaultEvent::EmergencyPaused(EmergencyPausedEvent { caller }));
        Ok(())
    }

    /// Sets both caps and records the old and new values of each.
    fn store_limits(&mut self, min: i128, max: i128)
        requires
            old(self)@.inv(),
            old(self)@.initialized,
        ensures
            final(self)@.inv(),
            final(self)@ == old(self)@.limits_set(min, max),
    {
        let old_min = self.user_deposit_cap;
        let old_max = self.tvl_cap;
        self.user_deposit_cap = min;
        self.tvl_cap = max;
        self.events.push(
            VaultEvent::LimitsUpdated(
                LimitsUpdatedEvent { old_min, new_min: min, old_max, new_max: max },
            ),
        );
    }

    /// The owner sets the vault-wide cap (0 or less: uncapped).
    pub fn set_tvl_cap(&mut self, caller: Address, cap: i128) -> (r: Result<(), VaultError>)
        requires
            old(self)@.inv(),
        ensures
            final(self)@.inv(),
            r == status(old(self)@.set_tvl_cap_outcome(caller, cap)),
            final(self)@ == old(self)@.after(old(self)@.set_tvl_cap_outcome(caller, cap)),
    {
        match self.require_is_owner(caller) {
            Ok(()) => {},
            Err(e) => return Err(e),
        }
        let min = self.user_deposit_cap;
        self.store_limits(min, cap);
        Ok(())
    }

    /// The owner sets the per-user cap (0 or less: uncapped).
    pub fn set_user_deposit_cap(&mut self, caller: Address, cap: i128) -> (r: Result<
        (),
        VaultError,
    >)
        requires
            old(self)@.inv(),
        ensures
            final(self)@.inv(),
            r == status(old(self)@.set_user_deposit_cap_outcome(caller, cap)),
            final(self)@ == old(self)@.after(old(self)@.set_user_deposit_cap_outcome(caller, cap)),
    {
        match self.require_is_owner(caller) {
            Ok(()) => {},
            Err(e) => return Err(e),
        }
        let max = self.tvl_cap;
        self.store_limits(cap, max);
        Ok(())
    }

    /// The owner sets the per-user cap to `min` and the vault-wide cap to
    /// `max`.
    pub fn set_limits(&mut self, caller: Address, min: i128, max: i128) -> (r: Result<
        (),
        VaultError,
    >)
        requires
            old(self)@.inv(),
        ensures
            final(self)@.inv(),
            r == status(old(self)@.set_limits_outcome(caller, min, max)),
            final(self)@ == old(self)@.after(old(self)@.set_limits_outcome(caller, min, max)),
    {
        match self.require_is_owner(caller) {
            Ok(()) => {},
            Err(e) => return Err(e),
        }
        self.store_limits(min, max);
        Ok(())
    }

    /// The owner replaces the agent; the old agent loses its rights at once.
    pub fn update_agent(&mut self, caller: Address, new_agent: Address) -> (r: Result<
        (),
        VaultError,
    >)
        requires
            old(self)@.inv(),
        ensures
            final(self)@.inv(),
            r == status(old(self)@.update_agent_outcome(caller, new_agent)),
            final(self)@ == old(self)@.after(old(self)@.update_agent_outcome(caller, new_agent)),
    {
        match self.require_is_owner(caller) {
            Ok(()) => {},
            Err(e) => return Err(e),
        }
        let old_agent = self.agent;
        self.agent = new_agent;
        self.events.push(VaultEvent::AgentUpdated(AgentUpdatedEvent { old_agent, new_agent }));
        Ok(())
    }

    /// The agent reports the vault's assets, yield or loss included: the
    /// total assets become `new_total`, the shares stay as they are.
    pub fn update_total_assets(&mut self, caller: Address, new_total: i128) -> (r: Result<
        (),
        VaultError,
    >)
        requires
            old(self)@.inv(),
        ensures
            final(self)@.inv(),
            r == status(old(self)@.update_total_assets_outcome(caller, new_total)),
            final(self)@ == old(self)@.after(
                old(self)@.update_total_assets_outcome(caller, new_total),
            ),
    {
        match self.require_initialized() {
            Ok(()) => {},
            Err(e) => return Err(e),
        }
        match self.require_is_agent(caller) {
            Ok(()) => {},
            Err(e) => return Err(e),
        }
        if new_total < 0 {
            return Err(VaultError::InvalidAmount);
        }
        let old_total = self.total_assets;
        self.total_assets = new_total;
        self.events.push(VaultEvent::AssetsUpdated(AssetsUpdatedEvent { old_total, new_total }));
        Ok(())
    }

    pub fn get_tvl_cap(&self) -> (r: i128)
        ensures
            r == self@.tvl_cap,
    {
        self.tvl_cap
    }

    pub fn get_user_deposit_cap(&self) -> (r: i128)
        ensures
            r == self@.user_deposit_cap,
    {
        self.user_deposit_cap
    }

    /// What `user`'s shares would redeem for now: zero without shares,
    /// else `floor(shares * total_assets / total_shares)`. The product must
    /// fit in 128 bits.
    pub fn get_balance(&self, user: Address) -> (r: i128)
        requires
            self@.inv(),
            !self@.balance_overflows(user),
        ensures
            r == self@.balance_of(user),
    {
        let user_shares = self.stored_shares(user);
        if user_shares == 0 {
            return 0;
        }
        let total_shares = self.total_shares;
        if total_shares == 0 {
            return 0;
        }
        proof {
            lemma_shares_bounded(self@, user);
        }
        match self.convert_to_assets(user_shares) {
            Ok(b) => b,
            Err(_) => 0,
        }
    }

    pub fn get_shares(&self, user: Address) -> (r: i128)
        ensures
            r == self@.shares_of(user),
    {
        self.stored_shares(user)
    }

    /// Deposits are accounted as total assets; this legacy total stays zero.
    pub fn get_total_deposits(&self) -> (r: i128)
        ensures
            r == 0,
    {
        0
    }

    pub fn get_total_assets(&self) -> (r: i128)
        ensures
            r == self@.total_assets,
    {
        self.total_assets
    }

    pub fn get_total_shares(&self) -> (r: i128)
        ensures
            r == self@.total_shares,
    {
        self.total_shares
    }

    pub fn get_agent(&self) -> (r: Address)
        requires
            self@.initialized,
        ensures
            r == self@.agent,
    {
        self.agent
    }

    pub fn get_owner(&self) -> (r: Address)
        requires
            self@.initialized,
        ensures
            r == self@.owner,
    {
        self.owner
    }

    pub fn is_initialized(&self) -> (r: bool)
        ensures
            r == self@.initialized,
    {
        self.initialized
    }

    pub fn is_paused(&self) -> (r: bool)
        ensures
            r == self@.paused,
    {
        self.paused
    }

    /// The recorded version, or the current one before initialization.
    pub fn get_version(&self) -> (r: u32)
        ensures
            r == (if self@.initialized {
                self@.version
            } else {
                VAULT_VERSION as int
            }),
    {
        if self.initialized {
            self.version
        } else {
            VAULT_VERSION
        }
    }

    pub fn get_usdc_token(&self) -> (r: Address)
        requires
            self@.initialized,
        ensures
            r == self@.usdc_token,
    {
        self.usdc_token
    }

    /// Every event recorded so far, oldest first.
    pub fn events(&self) -> (r: &Vec<VaultEvent>)
        ensures
            r@ == self@.events,
    {
        &self.events
    }
}

/// Rejects a non-positive amount.
fn require_positive_amount(amount: i128) -> (r: Result<(), VaultError>)
    ensures
        r == (if amount > 0 {
            Ok::<(), VaultError>(())
        } else {
            Err(VaultError::InvalidAmount)
        }),
{
    if amount > 0 {
        Ok(())
    } else {
        Err(VaultError::InvalidAmount)
    }
}

/// Rejects a deposit below the minimum.
fn require_minimum_deposit(amount: i128) -> (r: Result<(), VaultError>)
    ensures
        r == (if amount >= MIN_DEPOSIT {
            Ok::<(), VaultError>(())
        } else {
            Err(VaultError::InvalidAmount)
        }),
{
    if amount >= MIN_DEPOSIT {
        Ok(())
    } else {
        Err(VaultError::InvalidAmount)
    }
}

} // verus!
