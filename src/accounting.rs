//! The share-accounting engine: the pricing formulas, the checked
//! multiply-then-divide they run on, and the sum of per-user balances.
use vstd::prelude::*;

use vstd::arithmetic::div_mod::{lemma_div_by_multiple, lemma_div_is_ordered, lemma_div_pos_is_pos};
use vstd::arithmetic::mul::{lemma_mul_inequality, lemma_mul_is_commutative, lemma_mul_nonnegative};

use crate::types::VaultError;

verus! {

/// Smallest accepted deposit, in the asset's base units.
pub const MIN_DEPOSIT: i128 = 1_000_000;

/// Vault-wide cap set at initialization.
pub const DEFAULT_TVL_CAP: i128 = 100_000_000_000;

/// Per-user cap set at initialization.
pub const DEFAULT_USER_DEPOSIT_CAP: i128 = 10_000_000_000;

/// Version recorded at initialization.
pub const VAULT_VERSION: u32 = 1;

/// Whether a non-negative intermediate value fits in an `i128`.
pub open spec fn fits(x: int) -> bool {
    x <= i128::MAX
}

/// Shares minted for a deposit of `amount`: one for one while no shares
/// exist, else `floor(amount * total_shares / total_assets)`.
pub open spec fn shares_for_deposit(amount: int, total_shares: int, total_assets: int) -> int {
    if total_shares == 0 {
        amount
    } else {
        amount * total_shares / total_assets
    }
}

/// Assets that `shares` are worth: `floor(shares * total_assets / total_shares)`.
pub open spec fn assets_for_shares(shares: int, total_shares: int, total_assets: int) -> int {
    shares * total_assets / total_shares
}

/// Shares burned by a withdrawal request of `amount`:
/// `floor(amount * total_shares / total_assets)`, raised to one when that
/// rounds to zero for a positive request.
pub open spec fn shares_for_withdrawal(amount: int, total_shares: int, total_assets: int) -> int {
    let s = amount * total_shares / total_assets;
    if s == 0 && amount > 0 {
        1
    } else {
        s
    }
}

/// `floor(a * b / c)` on non-negative operands, or `ArithmeticOverflow` when
/// the product does not fit.
pub fn mul_div_floor(a: i128, b: i128, c: i128) -> (r: Result<i128, VaultError>)
    requires
        a >= 0,
        b >= 0,
        c > 0,
    ensures
        r == (if fits(a * b) {
            Ok::<i128, VaultError>((a * b / (c as int)) as i128)
        } else {
            Err::<i128, VaultError>(VaultError::ArithmeticOverflow)
        }),
{
    assert(a * b >= 0) by (nonlinear_arith)
        requires
            a >= 0,
            b >= 0,
    ;
    match a.checked_mul(b) {
        Some(p) => {
            assert(p / c <= p) by (nonlinear_arith)
                requires
                    p >= 0,
                    c > 0,
            ;
            Ok(p / c)
        },
        None => Err(VaultError::ArithmeticOverflow),
    }
}

/// Scaling `t` by a fraction `b / s` of at most one stays within `[0, t]`.
pub proof fn lemma_scaled_within(b: int, t: int, s: int)
    requires
        0 <= b <= s,
        0 < s,
        0 <= t,
    ensures
        0 <= b * t / s <= t,
{
    lemma_mul_inequality(b, s, t);
    lemma_mul_nonnegative(b, t);
    lemma_div_is_ordered(b * t, s * t, s);
    lemma_mul_is_commutative(s, t);
    lemma_div_by_multiple(t, s);
    lemma_div_pos_is_pos(b * t, s);
}

/// The sum of the balances that `m` holds under `keys`.
pub open spec fn share_sum(m: Map<u64, i128>, keys: Set<u64>) -> int
    decreases keys.len(),
{
    if keys.finite() && keys.len() > 0 {
        let k = keys.choose();
        m[k] as int + share_sum(m, keys.remove(k))
    } else {
        0
    }
}

/// The sum of every balance in `m`.
pub open spec fn total_of(m: Map<u64, i128>) -> int {
    share_sum(m, m.dom())
}

/// Whether every balance in `m` is non-negative.
pub open spec fn all_nonneg(m: Map<u64, i128>) -> bool {
    forall|k: u64| m.dom().contains(k) ==> #[trigger] m[k] >= 0
}

/// Any key can be taken out of the sum first.
pub proof fn lemma_share_sum_remove(m: Map<u64, i128>, keys: Set<u64>, k: u64)
    requires
        keys.finite(),
        keys.contains(k),
    ensures
        share_sum(m, keys) == m[k] as int + share_sum(m, keys.remove(k)),
    decreases keys.len(),
{
    let c = keys.choose();
    if c != k {
        lemma_share_sum_remove(m, keys.remove(c), k);
        lemma_share_sum_remove(m, keys.remove(k), c);
        assert(keys.remove(c).remove(k) =~= keys.remove(k).remove(c));
    }
}

/// Two maps that agree on `keys` have the same sum over them.
pub proof fn lemma_share_sum_agree(m1: Map<u64, i128>, m2: Map<u64, i128>, keys: Set<u64>)
    requires
        keys.finite(),
        forall|k: u64| keys.contains(k) ==> m1[k] == m2[k],
    ensures
        share_sum(m1, keys) == share_sum(m2, keys),
    decreases keys.len(),
{
    if keys.len() > 0 {
        let c = keys.choose();
        lemma_share_sum_agree(m1, m2, keys.remove(c));
    }
}

/// A sum of non-negative balances is non-negative.
pub proof fn lemma_share_sum_nonneg(m: Map<u64, i128>, keys: Set<u64>)
    requires
        forall|k: u64| keys.contains(k) ==> m[k] >= 0,
    ensures
        share_sum(m, keys) >= 0,
    decreases keys.len(),
{
    if keys.finite() && keys.len() > 0 {
        let c = keys.choose();
        lemma_share_sum_nonneg(m, keys.remove(c));
    }
}

/// Setting the balance of `k` to `v` moves the total by `v` less the old
/// balance (zero when `k` had none).
pub proof fn lemma_total_of_insert(m: Map<u64, i128>, k: u64, v: i128)
    requires
        m.dom().finite(),
    ensures
        total_of(m.insert(k, v)) == total_of(m) - (if m.dom().contains(k) {
            m[k] as int
        } else {
            0
        }) + v,
{
    let m2 = m.insert(k, v);
    lemma_share_sum_remove(m2, m2.dom(), k);
    assert(m2.dom().remove(k) =~= m.dom().remove(k));
    lemma_share_sum_agree(m2, m, m.dom().remove(k));
    if m.dom().contains(k) {
        lemma_share_sum_remove(m, m.dom(), k);
    } else {
        assert(m.dom().remove(k) =~= m.dom());
    }
}

/// With non-negative balances, two distinct holders together hold no more
/// than the total.
pub proof fn lemma_total_of_pair(m: Map<u64, i128>, a: u64, b: u64)
    requires
        m.dom().finite(),
        all_nonneg(m),
        a != b,
    ensures
        (if m.dom().contains(a) {
            m[a] as int
        } else {
            0
        }) + (if m.dom().contains(b) {
            m[b] as int
        } else {
            0
        }) <= total_of(m),
{
    let d = m.dom();
    if d.contains(a) {
        lemma_share_sum_remove(m, d, a);
        if d.remove(a).contains(b) {
            lemma_share_sum_remove(m, d.remove(a), b);
            lemma_share_sum_nonneg(m, d.remove(a).remove(b));
        } else {
            lemma_share_sum_nonneg(m, d.remove(a));
        }
    } else if d.contains(b) {
        lemma_share_sum_remove(m, d, b);
        lemma_share_sum_nonneg(m, d.remove(b));
    } else {
        lemma_share_sum_nonneg(m, d);
    }
}

} // verus!
