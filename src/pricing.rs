use vstd::prelude::*;
use crate::decimal::{Decimal, pow10, tick_steps, pow10_u128, count_tick_steps, lemma_pow10_monotone};
use crate::decimal::lemma_tick_steps_is_least;

verus! {

/// The nearest whole number to `num / den`; a value exactly halfway goes up,
/// which for these non-negative quantities is away from zero.
pub open spec fn round_half_up(num: nat, den: nat) -> nat {
    if 2 * (num % den) >= den {
        num / den + 1
    } else {
        num / den
    }
}

/// The value `num / 10^e` expressed in units of `10^-n`, rounded to nearest.
pub open spec fn rescaled(num: nat, e: nat, n: nat) -> nat {
    if n <= e {
        round_half_up(num, pow10((e - n) as nat))
    } else {
        num * pow10((n - e) as nat)
    }
}

/// `units / 10^scale` as a `Decimal`, when the units fit in 64 bits.
pub open spec fn fit(units: nat, scale: nat) -> Option<Decimal> {
    if units <= u64::MAX {
        Some(Decimal { units: units as u64, scale: scale as u32 })
    } else {
        None
    }
}

/// A price rounded to the resolution of a tick size.
pub open spec fn rounded_price(price: Decimal, tick: Decimal) -> Option<Decimal> {
    fit(rescaled(price.units as nat, price.scale as nat, tick_steps(tick)), tick_steps(tick))
}

/// `price - tick` (buy) or `price + tick` (sell), scaled by `10^(price.scale + tick.scale)`.
pub open spec fn limit_numerator(price: Decimal, tick: Decimal, is_buy: bool) -> int {
    let a = price.units * pow10(tick.scale as nat);
    let b = tick.units * pow10(price.scale as nat);
    if is_buy {
        a - b
    } else {
        a + b
    }
}

/// The target limit price: one tick inside the quote (below it for a buy,
/// above it for a sell), rounded to the tick's resolution. `None` when that
/// price is negative or too large for a `Decimal`.
pub open spec fn target_limit(price: Decimal, tick: Decimal, is_buy: bool) -> Option<Decimal> {
    let num = limit_numerator(price, tick, is_buy);
    if num < 0 {
        None
    } else {
        fit(
            rescaled(num as nat, (price.scale + tick.scale) as nat, tick_steps(tick)),
            tick_steps(tick),
        )
    }
}

/// `1 - pct/100` (buy) or `1 + pct/100` (sell), scaled by `10^(pct.scale + 2)`.
pub open spec fn stop_loss_factor(pct: Decimal, is_buy: bool) -> int {
    let whole = pow10((pct.scale + 2) as nat);
    if is_buy {
        whole - pct.units
    } else {
        whole + pct.units
    }
}

/// The stop-loss price: the quote moved by `pct` percent in the direction
/// that limits the loss, rounded to the tick's resolution. `None` when the
/// factor is negative, or the scaled product exceeds 128 bits, or the result
/// is too large for a `Decimal`.
pub open spec fn stop_loss(price: Decimal, pct: Decimal, tick: Decimal, is_buy: bool) -> Option<
    Decimal,
> {
    let f = stop_loss_factor(pct, is_buy);
    if f < 0 || price.units * f > u128::MAX {
        None
    } else {
        fit(
            rescaled((price.units * f) as nat, (price.scale + pct.scale + 2) as nat, tick_steps(tick)),
            tick_steps(tick),
        )
    }
}

proof fn lemma_pow10_38()
    ensures
        pow10(38) == 100000000000000000000000000000000000000,
        pow10(18) == 1000000000000000000,
{
    reveal_with_fuel(pow10, 39);
}

/// Rounds `num / 10^e` to `n` decimal places, in units of `10^-n`.
fn round_scaled(num: u128, e: u32, n: u32) -> (r: Option<u64>)
    requires
        e <= 38,
        n <= 38,
    ensures
        r.is_some() == (rescaled(num as nat, e as nat, n as nat) <= u64::MAX),
        r matches Some(v) ==> v == rescaled(num as nat, e as nat, n as nat),
{
    if n <= e {
        let den = pow10_u128(e - n);
        proof {
            crate::decimal::lemma_pow10_positive((e - n) as nat);
        }
        let q = num / den;
        let rem = num % den;
        let rounded: u128 = if rem >= den - rem {
            proof {
                if den == 1 {
                    assert(rem == 0);
                }
                assert(q <= num / 2) by (nonlinear_arith)
                    requires
                        q == num / den,
                        den >= 2,
                ;
            }
            q + 1
        } else {
            q
        };
        if rounded <= u64::MAX as u128 {
            Some(rounded as u64)
        } else {
            None
        }
    } else {
        let f = pow10_u128(n - e);
        match num.checked_mul(f) {
            Some(v) => {
                if v <= u64::MAX as u128 {
                    Some(v as u64)
                } else {
                    None
                }
            },
            None => None,
        }
    }
}

/// Rounds a price to the nearest multiple of `10^-n`, where `n` is the
/// tick's resolution (`count_tick_steps`); halves round away from zero.
/// `None` when the rounded price does not fit in a `Decimal`.
pub fn round_price(price: Decimal, tick: Decimal) -> (r: Option<Decimal>)
    requires
        price.wf(),
        tick.is_tick(),
    ensures
        r == rounded_price(price, tick),
        r matches Some(d) ==> d.wf(),
{
    let n = count_tick_steps(tick);
    match round_scaled(price.units as u128, price.scale, n) {
        Some(units) => Some(Decimal { units, scale: n }),
        None => None,
    }
}

/// The target limit price for a quick order at quote `price`.
pub fn target_limit_price(price: Decimal, tick: Decimal, is_buy: bool) -> (r: Option<Decimal>)
    requires
        price.wf(),
        tick.is_tick(),
    ensures
        r == target_limit(price, tick, is_buy),
        r matches Some(d) ==> d.wf(),
{
    let n = count_tick_steps(tick);
    proof {
        lemma_pow10_38();
        lemma_pow10_monotone(tick.scale as nat, 18);
        lemma_pow10_monotone(price.scale as nat, 18);
        let pt = pow10(tick.scale as nat);
        let pp = pow10(price.scale as nat);
        assert(price.units * pt <= 18446744073709551615 * 1000000000000000000) by (nonlinear_arith)
            requires
                pt <= 1000000000000000000,
                price.units <= 18446744073709551615,
        ;
        assert(tick.units * pp <= 18446744073709551615 * 1000000000000000000) by (nonlinear_arith)
            requires
                pp <= 1000000000000000000,
                tick.units <= 18446744073709551615,
        ;
    }
    let a = price.units as u128 * pow10_u128(tick.scale);
    let b = tick.units as u128 * pow10_u128(price.scale);
    let num: u128 = if is_buy {
        if a < b {
            return None;
        }
        a - b
    } else {
        a + b
    };
    match round_scaled(num, price.scale + tick.scale, n) {
        Some(units) => Some(Decimal { units, scale: n }),
        None => None,
    }
}

/// The stop-loss price for a quick order at quote `price`, `pct` percent
/// away from it.
pub fn stop_loss_price(price: Decimal, pct: Decimal, tick: Decimal, is_buy: bool) -> (r: Option<
    Decimal,
>)
    requires
        price.wf(),
        pct.wf(),
        tick.is_tick(),
    ensures
        r == stop_loss(price, pct, tick, is_buy),
        r matches Some(d) ==> d.wf(),
{
    let n = count_tick_steps(tick);
    proof {
        lemma_pow10_38();
        lemma_pow10_monotone((pct.scale + 2) as nat, 20);
        reveal_with_fuel(pow10, 21);
    }
    let whole = pow10_u128(pct.scale + 2);
    let f: u128 = if is_buy {
        if whole < pct.units as u128 {
            return None;
        }
        whole - pct.units as u128
    } else {
        whole + pct.units as u128
    };
    match (price.units as u128).checked_mul(f) {
        Some(num) => match round_scaled(num, price.scale + pct.scale + 2, n) {
            Some(units) => Some(Decimal { units, scale: n }),
            None => None,
        },
        None => None,
    }
}

/// Rounding is idempotent: a price already rounded at a tick's resolution
/// rounds to itself.
pub proof fn lemma_round_price_idempotent(price: Decimal, tick: Decimal)
    requires
        price.wf(),
        tick.is_tick(),
        rounded_price(price, tick) is Some,
    ensures
        rounded_price(rounded_price(price, tick)->0, tick) == rounded_price(price, tick),
{
    let d = rounded_price(price, tick)->0;
    let n = tick_steps(tick);
    assert(d.scale == n) by {
        lemma_tick_steps_is_least(tick);
    }
    assert(pow10(0) == 1);
    let u = d.units as nat;
    assert(u % 1 == 0 && u / 1 == u) by (nonlinear_arith);
    assert(rescaled(u, n, n) == u);
}

} // verus!
