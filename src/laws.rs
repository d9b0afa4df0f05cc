//! What holds of the vault across calls: pricing, rounding, gating.
use vstd::prelude::*;

use vstd::arithmetic::div_mod::{
    lemma_div_by_multiple, lemma_div_pos_is_pos, lemma_fundamental_div_mod, lemma_mod_bound,
};
use vstd::arithmetic::mul::lemma_mul_nonnegative;

use crate::accounting::{fits, lemma_total_of_insert, lemma_total_of_pair, MIN_DEPOSIT};
use crate::state::VaultState;
use crate::types::{Address, DepositEvent, VaultError, VaultEvent, WithdrawEvent};

verus! {

/// While no shares exist, a deposit that passes the checks before pricing
/// is accepted and mints exactly `amount` shares, and adds `amount` to the
/// total assets, so that a vault holding no assets ends with exactly
/// `amount`. The new total must fit in 128 bits.
pub proof fn lemma_bootstrap_pricing(s: VaultState, user: Address, amount: i128)
    requires
        s.inv(),
        s.total_shares == 0,
        s.initialized,
        !s.paused,
        amount >= MIN_DEPOSIT,
        s.user_deposit_cap <= 0 || amount <= s.user_deposit_cap,
        s.tvl_cap <= 0 || s.total_assets + amount <= s.tvl_cap,
        fits(s.total_assets + amount),
    ensures
        s.deposit_outcome(user, user, amount) is Ok,
        s.after(s.deposit_outcome(user, user, amount)).shares_of(user) == amount,
        s.after(s.deposit_outcome(user, user, amount)).total_shares == amount,
        s.after(s.deposit_outcome(user, user, amount)).total_assets == s.total_assets + amount,
        s.total_assets == 0 ==> s.after(s.deposit_outcome(user, user, amount)).total_assets
            == amount,
        s.after(s.deposit_outcome(user, user, amount)).events.last() == VaultEvent::Deposit(
            DepositEvent { user, amount, shares: amount },
        ),
{
    lemma_shares_bounded(s, user);
}

/// A holder's balance lies between zero and the total shares.
pub proof fn lemma_shares_bounded(s: VaultState, user: Address)
    requires
        s.inv(),
    ensures
        0 <= s.shares_of(user) <= s.total_shares,
{
    let other: u64 = if user.id == 0 {
        1
    } else {
        0
    };
    lemma_total_of_pair(s.shares, user.id, other);
    if s.shares.dom().contains(other) {
        assert(s.shares[other] >= 0);
    }
}

/// A yield report of a total no smaller than the current one never lowers
/// the share price.
pub proof fn lemma_report_price_monotone(s: VaultState, caller: Address, new_total: i128)
    requires
        s.inv(),
        new_total >= s.total_assets,
    ensures
        s.price_le(s.after(s.update_total_assets_outcome(caller, new_total))),
        s.after(s.update_total_assets_outcome(caller, new_total)).total_shares == s.total_shares,
{
    let n = s.after(s.update_total_assets_outcome(caller, new_total));
    assert(s.total_assets * n.total_shares <= n.total_assets * s.total_shares) by (nonlinear_arith)
        requires
            n.total_shares == s.total_shares,
            s.total_shares >= 0,
            s.total_assets <= n.total_assets,
    ;
}

/// An accepted deposit never lowers the share price: minting rounds down.
pub proof fn lemma_deposit_price_monotone(
    s: VaultState,
    caller: Address,
    user: Address,
    amount: i128,
)
    requires
        s.inv(),
        s.total_shares > 0,
    ensures
        s.price_le(s.after(s.deposit_outcome(caller, user, amount))),
{
    let o = s.deposit_outcome(caller, user, amount);
    if o is Ok {
        let ta = s.total_assets;
        let ts = s.total_shares;
        let a = amount as int;
        let m = a * ts / ta;
        lemma_fundamental_div_mod(a * ts, ta);
        lemma_mod_bound(a * ts, ta);
        assert(ta * (ts + m) <= (ta + a) * ts) by (nonlinear_arith)
            requires
                a * ts == ta * m + (a * ts) % ta,
                (a * ts) % ta >= 0,
        ;
    }
}

/// The share price ordering is transitive through a state with shares.
pub proof fn lemma_price_le_transitive(a: VaultState, b: VaultState, c: VaultState)
    requires
        a.inv(),
        b.inv(),
        c.inv(),
        b.total_shares > 0,
        a.price_le(b),
        b.price_le(c),
    ensures
        a.price_le(c),
{
    let (at, bt, ct) = (a.total_assets, b.total_assets, c.total_assets);
    let (as_, bs, cs) = (a.total_shares, b.total_shares, c.total_shares);
    assert(at * cs <= ct * as_) by (nonlinear_arith)
        requires
            at * bs <= bt * as_,
            bt * cs <= ct * bs,
            bs > 0,
            as_ >= 0,
            cs >= 0,
            at >= 0,
    {
        assert(at * bs * cs <= bt * as_ * cs);
        assert(bt * cs * as_ <= ct * bs * as_);
        assert(at * cs * bs <= ct * as_ * bs);
    }
}

/// One call of a run that holds no withdrawal: a yield report by `caller`,
/// or a deposit by `caller` for `user`.
pub enum GrowthStep {
    Report(Address, i128),
    Deposit(Address, Address, i128),
}

/// What one step of such a run does.
pub open spec fn step_outcome(s: VaultState, step: GrowthStep) -> Result<VaultState, VaultError> {
    match step {
        GrowthStep::Report(caller, new_total) => s.update_total_assets_outcome(caller, new_total),
        GrowthStep::Deposit(caller, user, amount) => s.deposit_outcome(caller, user, amount),
    }
}

/// The state after the steps, in order.
pub open spec fn after_steps(s: VaultState, steps: Seq<GrowthStep>) -> VaultState
    decreases steps.len(),
{
    if steps.len() == 0 {
        s
    } else {
        after_steps(s.after(step_outcome(s, steps[0])), steps.drop_first())
    }
}

/// Whether every report of the run sets a total no smaller than the total
/// at its turn.
pub open spec fn reports_grow(s: VaultState, steps: Seq<GrowthStep>) -> bool
    decreases steps.len(),
{
    steps.len() == 0 || ((match steps[0] {
        GrowthStep::Report(_, new_total) => new_total >= s.total_assets,
        GrowthStep::Deposit(_, _, _) => true,
    }) && reports_grow(s.after(step_outcome(s, steps[0])), steps.drop_first()))
}

/// An accepted deposit keeps the invariant.
pub proof fn lemma_deposit_keeps_inv(s: VaultState, caller: Address, user: Address, amount: i128)
    requires
        s.inv(),
    ensures
        s.after(s.deposit_outcome(caller, user, amount)).inv(),
{
    if s.deposit_outcome(caller, user, amount) is Ok {
        let mint = s.mint_for(amount)->Ok_0;
        lemma_shares_bounded(s, user);
        if s.total_shares > 0 {
            lemma_mul_nonnegative(amount as int, s.total_shares);
            lemma_div_pos_is_pos(amount * s.total_shares, s.total_assets);
        }
        lemma_total_of_insert(s.shares, user.id, (s.shares_of(user) + mint) as i128);
    }
}

/// Over any run of yield reports and deposits, with each report no smaller
/// than the total at its turn and no withdrawal, the share price never
/// falls.
pub proof fn lemma_growth_run_price_monotone(s: VaultState, steps: Seq<GrowthStep>)
    requires
        s.inv(),
        s.total_shares > 0,
        reports_grow(s, steps),
    ensures
        s.price_le(after_steps(s, steps)),
        after_steps(s, steps).inv(),
        after_steps(s, steps).total_shares >= s.total_shares,
    decreases steps.len(),
{
    if steps.len() == 0 {
        assert(s.total_assets * s.total_shares <= s.total_assets * s.total_shares);
    } else {
        let n = s.after(step_outcome(s, steps[0]));
        match steps[0] {
            GrowthStep::Report(caller, new_total) => {
                lemma_report_price_monotone(s, caller, new_total);
            },
            GrowthStep::Deposit(caller, user, amount) => {
                lemma_deposit_price_monotone(s, caller, user, amount);
                lemma_deposit_keeps_inv(s, caller, user, amount);
                lemma_shares_bounded(s, user);
                if s.deposit_outcome(caller, user, amount) is Ok {
                    lemma_mul_nonnegative(amount as int, s.total_shares);
                    lemma_div_pos_is_pos(amount * s.total_shares, s.total_assets);
                }
            },
        }
        assert(n.inv());
        assert(n.total_shares >= s.total_shares);
        lemma_growth_run_price_monotone(n, steps.drop_first());
        lemma_price_le_transitive(s, n, after_steps(n, steps.drop_first()));
    }
}

/// When two holders own every share, their balances add up to the total
/// assets, less at most one unit of rounding per holder.
pub proof fn lemma_proportional_redemption(s: VaultState, a: Address, b: Address)
    requires
        s.inv(),
        a != b,
        s.shares_of(a) + s.shares_of(b) == s.total_shares,
        s.total_shares > 0 || s.total_assets <= 2,
    ensures
        s.total_assets - 2 <= s.balance_of(a) + s.balance_of(b) <= s.total_assets,
        s.total_shares > 0 ==> s.total_assets - 1 <= s.balance_of(a) + s.balance_of(b),
{
    if s.total_shares > 0 {
        let t = s.total_assets;
        let n = s.total_shares;
        let x = s.shares_of(a) * t;
        let y = s.shares_of(b) * t;
        lemma_shares_bounded(s, a);
        lemma_shares_bounded(s, b);
        lemma_mul_nonnegative(s.shares_of(a), t);
        lemma_mul_nonnegative(s.shares_of(b), t);
        lemma_fundamental_div_mod(x, n);
        lemma_fundamental_div_mod(y, n);
        lemma_mod_bound(x, n);
        lemma_mod_bound(y, n);
        assert(x + y == n * t) by (nonlinear_arith)
            requires
                x == s.shares_of(a) * t,
                y == s.shares_of(b) * t,
                s.shares_of(a) + s.shares_of(b) == n,
        ;
        assert(s.balance_of(a) == x / n);
        assert(s.balance_of(b) == y / n);
        assert(t - 1 <= x / n + y / n <= t) by (nonlinear_arith)
            requires
                x + y == n * t,
                x == n * (x / n) + x % n,
                y == n * (y / n) + y % n,
                0 <= x % n < n,
                0 <= y % n < n,
                n > 0,
        {
            assert(n * (t - x / n - y / n) == x % n + y % n);
        }
    }
}

/// At a share price of one (an empty vault included), depositing `amount`
/// and at once withdrawing `amount` pays back exactly `amount`, burns
/// exactly the minted shares, and restores the aggregates and the user's
/// shares.
pub proof fn lemma_round_trip(s: VaultState, user: Address, amount: i128)
    requires
        s.inv(),
        s.total_assets == s.total_shares,
        s.deposit_outcome(user, user, amount) is Ok,
        fits(amount * (s.total_shares + amount)),
    ensures
        ({
            let d = s.after(s.deposit_outcome(user, user, amount));
            let w = d.after(d.withdraw_outcome(user, user, amount));
            &&& d.withdraw_outcome(user, user, amount) is Ok
            &&& w.total_assets == s.total_assets
            &&& w.total_shares == s.total_shares
            &&& w.shares_of(user) == s.shares_of(user)
            &&& w.events.last() == VaultEvent::Withdraw(
                WithdrawEvent { user, amount, shares: amount },
            )
        }),
{
    let ts = s.total_shares;
    let a = amount as int;
    if ts > 0 {
        lemma_div_by_multiple(a, ts);
        assert(a * ts == a * s.total_assets);
    }
    lemma_shares_bounded(s, user);
    let d = s.after(s.deposit_outcome(user, user, amount));
    assert(d.total_shares == ts + a);
    assert(d.total_assets == ts + a);
    lemma_div_by_multiple(a, ts + a);
    assert(d.shares_of(user) == s.shares_of(user) + a);
}

/// A deposit that would take the user's balance above a set per-user cap is
/// rejected and changes nothing; once the checks before it pass, the error
/// is `CapExceeded`.
pub proof fn lemma_user_cap_enforced(s: VaultState, caller: Address, user: Address, amount: i128)
    requires
        s.inv(),
        s.user_deposit_cap > 0,
        s.balance_of(user) + amount > s.user_deposit_cap,
    ensures
        s.deposit_outcome(caller, user, amount) is Err,
        s.after(s.deposit_outcome(caller, user, amount)) == s,
        s.initialized && caller == user && !s.paused && amount >= MIN_DEPOSIT
            && !s.balance_overflows(user) ==> s.deposit_outcome(caller, user, amount) == Err::<
            VaultState,
            VaultError,
        >(VaultError::CapExceeded),
{
}

/// While the vault is paused (which only an initialized vault can be),
/// deposits, withdrawals and rebalances are rejected and change nothing; an
/// authorized caller is told `Paused`.
pub proof fn lemma_pause_gating(
    s: VaultState,
    caller: Address,
    user: Address,
    amount: i128,
    protocol: String,
    expected_apy: i128,
)
    requires
        s.inv(),
        s.paused,
    ensures
        s.deposit_outcome(caller, user, amount) is Err,
        s.withdraw_outcome(caller, user, amount) is Err,
        s.rebalance_outcome(caller, protocol, expected_apy) is Err,
        s.after(s.deposit_outcome(caller, user, amount)) == s,
        s.after(s.withdraw_outcome(caller, user, amount)) == s,
        s.after(s.rebalance_outcome(caller, protocol, expected_apy)) == s,
        s.initialized,
        caller == user ==> s.deposit_outcome(caller, user, amount) == Err::<
            VaultState,
            VaultError,
        >(VaultError::Paused) && s.withdraw_outcome(caller, user, amount) == Err::<
            VaultState,
            VaultError,
        >(VaultError::Paused),
        caller == s.agent ==> s.rebalance_outcome(caller, protocol, expected_apy)
            == Err::<VaultState, VaultError>(VaultError::Paused),
{
}

/// Deposits and withdrawals reject any caller but the user they are for
/// with `Unauthorized`, in every state, and change nothing.
pub proof fn lemma_self_gated(s: VaultState, caller: Address, user: Address, amount: i128)
    requires
        s.inv(),
        caller != user,
    ensures
        s.deposit_outcome(caller, user, amount) == Err::<VaultState, VaultError>(
            VaultError::Unauthorized,
        ),
        s.withdraw_outcome(caller, user, amount) == Err::<VaultState, VaultError>(
            VaultError::Unauthorized,
        ),
        s.after(s.deposit_outcome(caller, user, amount)) == s,
        s.after(s.withdraw_outcome(caller, user, amount)) == s,
{
}

/// Rebalancing and yield reporting reject any caller but the agent.
pub proof fn lemma_agent_gated(
    s: VaultState,
    caller: Address,
    protocol: String,
    expected_apy: i128,
    new_total: i128,
)
    requires
        s.inv(),
        caller != s.agent,
    ensures
        s.rebalance_outcome(caller, protocol, expected_apy) is Err,
        s.update_total_assets_outcome(caller, new_total) is Err,
        s.after(s.rebalance_outcome(caller, protocol, expected_apy)) == s,
        s.after(s.update_total_assets_outcome(caller, new_total)) == s,
        s.initialized ==> s.rebalance_outcome(caller, protocol, expected_apy) == Err::<
            VaultState,
            VaultError,
        >(VaultError::Unauthorized) && s.update_total_assets_outcome(caller, new_total) == Err::<
            VaultState,
            VaultError,
        >(VaultError::Unauthorized),
{
}

/// Every administrative entry point rejects any caller but the owner.
pub proof fn lemma_owner_gated(
    s: VaultState,
    caller: Address,
    cap: i128,
    min: i128,
    max: i128,
    new_agent: Address,
)
    requires
        s.inv(),
        caller != s.owner,
    ensures
        s.pause_outcome(caller) is Err,
        s.unpause_outcome(caller) is Err,
        s.emergency_pause_outcome(caller) is Err,
        s.set_tvl_cap_outcome(caller, cap) is Err,
        s.set_user_deposit_cap_outcome(caller, cap) is Err,
        s.set_limits_outcome(caller, min, max) is Err,
        s.update_agent_outcome(caller, new_agent) is Err,
        s.initialized ==> {
            &&& s.pause_outcome(caller) == Err::<VaultState, VaultError>(VaultError::Unauthorized)
            &&& s.unpause_outcome(caller) == Err::<VaultState, VaultError>(
                VaultError::Unauthorized,
            )
            &&& s.emergency_pause_outcome(caller) == Err::<VaultState, VaultError>(
                VaultError::Unauthorized,
            )
            &&& s.set_tvl_cap_outcome(caller, cap) == Err::<VaultState, VaultError>(
                VaultError::Unauthorized,
            )
            &&& s.set_user_deposit_cap_outcome(caller, cap) == Err::<VaultState, VaultError>(
                VaultError::Unauthorized,
            )
            &&& s.set_limits_outcome(caller, min, max) == Err::<VaultState, VaultError>(
                VaultError::Unauthorized,
            )
            &&& s.update_agent_outcome(caller, new_agent) == Err::<VaultState, VaultError>(
                VaultError::Unauthorized,
            )
        },
{
}

} // verus!
