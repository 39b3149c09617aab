use vstd::prelude::*;

verus! {

/// Largest number of fractional digits a `Decimal` may carry.
pub const MAX_SCALE: u32 = 18;

/// A non-negative fixed-point decimal: its value is `units / 10^scale`.
#[derive(Debug, Clone, Copy, PartialEq, Eq, Structural)]
pub struct Decimal {
    pub units: u64,
    pub scale: u32,
}

/// `10^n`.
pub open spec fn pow10(n: nat) -> nat
    decreases n,
{
    if n == 0 {
        1
    } else {
        10 * pow10((n - 1) as nat)
    }
}

impl Decimal {
    /// The scale stays within `MAX_SCALE`.
    pub open spec fn wf(&self) -> bool {
        self.scale <= MAX_SCALE
    }

    /// A well-formed, strictly positive value: what a tick size must be.
    pub open spec fn is_tick(&self) -> bool {
        self.wf() && self.units > 0
    }

    /// Checks `is_tick`.
    pub fn is_valid_tick(&self) -> (r: bool)
        ensures
            r == self.is_tick(),
    {
        self.scale <= MAX_SCALE && self.units > 0
    }
}

pub proof fn lemma_pow10_positive(n: nat)
    ensures
        pow10(n) >= 1,
    decreases n,
{
    if n > 0 {
        lemma_pow10_positive((n - 1) as nat);
    }
}

pub proof fn lemma_pow10_strictly_increasing(a: nat, b: nat)
    requires
        a < b,
    ensures
        pow10(a) < pow10(b),
    decreases b,
{
    lemma_pow10_positive((b - 1) as nat);
    if a < b - 1 {
        lemma_pow10_strictly_increasing(a, (b - 1) as nat);
    }
}

pub proof fn lemma_pow10_monotone(a: nat, b: nat)
    requires
        a <= b,
    ensures
        pow10(a) <= pow10(b),
{
    if a < b {
        lemma_pow10_strictly_increasing(a, b);
    }
}

/// `10^n` as a 128-bit integer.
pub fn pow10_u128(n: u32) -> (r: u128)
    requires
        n <= 38,
    ensures
        r == pow10(n as nat),
{
    let mut r: u128 = 1;
    let mut i: u32 = 0;
    while i < n
        invariant
            i <= n <= 38,
            r == pow10(i as nat),
        decreases n - i,
    {
        proof {
            lemma_pow10_monotone((i + 1) as nat, 38);
            reveal_with_fuel(pow10, 39);
            assert(pow10(38) == 100000000000000000000000000000000000000);
        }
        r = r * 10;
        i = i + 1;
    }
    r
}

/// Searches for the first `n`, counting up from `n`, at which
/// `units * 10^n` reaches `10^scale`; it never goes past `scale`.
pub open spec fn steps_from(units: nat, scale: nat, n: nat) -> nat
    decreases scale - n,
{
    if n >= scale || units * pow10(n) >= pow10(scale) {
        n
    } else {
        steps_from(units, scale, n + 1)
    }
}

/// The number of decimal places a tick size resolves to: the smallest
/// `n >= 0` with `tick * 10^n >= 1`.
pub open spec fn tick_steps(tick: Decimal) -> nat {
    steps_from(tick.units as nat, tick.scale as nat, 0)
}

proof fn lemma_steps_from_bounds(units: nat, scale: nat, n: nat)
    requires
        units >= 1,
        n <= scale,
    ensures
        n <= steps_from(units, scale, n) <= scale,
        units * pow10(steps_from(units, scale, n)) >= pow10(scale),
        forall|m: nat| n <= m < steps_from(units, scale, n) ==> units * #[trigger] pow10(m) < pow10(scale),
    decreases scale - n,
{
    if n >= scale {
        assert(units * pow10(n) >= pow10(scale)) by (nonlinear_arith)
            requires
                units >= 1,
                n == scale,
        ;
    } else if units * pow10(n) >= pow10(scale) {
    } else {
        lemma_steps_from_bounds(units, scale, n + 1);
    }
}

/// The tick resolution is the least number of places at which the tick
/// reaches one whole unit, and it never exceeds the tick's own scale.
pub proof fn lemma_tick_steps_is_least(tick: Decimal)
    requires
        tick.units > 0,
    ensures
        tick_steps(tick) <= tick.scale,
        tick.units * pow10(tick_steps(tick)) >= pow10(tick.scale as nat),
        forall|m: nat| m < tick_steps(tick) ==> tick.units * #[trigger] pow10(m) < pow10(tick.scale as nat),
{
    lemma_steps_from_bounds(tick.units as nat, tick.scale as nat, 0);
}

/// A tick of `10^-k` resolves to exactly `k` places.
pub proof fn lemma_tick_steps_of_power_of_ten(k: u32)
    ensures
        tick_steps(Decimal { units: 1, scale: k }) == k,
{
    let tick = Decimal { units: 1, scale: k };
    lemma_tick_steps_is_least(tick);
    if tick_steps(tick) < k {
        lemma_pow10_strictly_increasing(tick_steps(tick), k as nat);
        let p = pow10(tick_steps(tick));
        assert(tick.units * p == p) by (nonlinear_arith)
            requires
                tick.units == 1,
        ;
    }
}

/// A tick of at least one whole unit resolves to no places.
pub proof fn lemma_tick_steps_of_whole_tick(tick: Decimal)
    requires
        tick.units >= pow10(tick.scale as nat),
    ensures
        tick_steps(tick) == 0,
{
    assert(pow10(0) == 1);
    assert(tick.units * pow10(0) >= pow10(tick.scale as nat)) by (nonlinear_arith)
        requires
            pow10(0) == 1,
            tick.units >= pow10(tick.scale as nat),
    ;
}

/// Counts the decimal places a tick size resolves to (0.0001 gives 4,
/// anything of at least 1 gives 0).
pub fn count_tick_steps(tick: Decimal) -> (r: u32)
    requires
        tick.is_tick(),
    ensures
        r == tick_steps(tick),
        r <= tick.scale,
{
    proof {
        lemma_steps_from_bounds(tick.units as nat, tick.scale as nat, 0);
        lemma_pow10_monotone(tick.scale as nat, 18);
        reveal_with_fuel(pow10, 19);
        assert(pow10(18) == 1000000000000000000);
    }
    assert(pow10(0) == 1);
    assert(tick.units * pow10(0) == tick.units) by (nonlinear_arith)
        requires
            pow10(0) == 1,
    ;
    let target = pow10_u128(tick.scale);
    let mut scaled: u128 = tick.units as u128;
    let mut count: u32 = 0;
    while scaled < target && count < tick.scale
        invariant
            count <= tick.scale <= MAX_SCALE,
            target == pow10(tick.scale as nat),
            target <= 1000000000000000000,
            scaled == tick.units * pow10(count as nat),
            steps_from(tick.units as nat, tick.scale as nat, count as nat) == tick_steps(tick),
        decreases tick.scale - count,
    {
        proof {
            assert(scaled * 10 < 10000000000000000000) by (nonlinear_arith)
                requires
                    scaled < target,
                    target <= 1000000000000000000,
            ;
            assert(tick.units * pow10((count + 1) as nat) == (tick.units * pow10(count as nat))
                * 10) by (nonlinear_arith)
                requires
                    pow10((count + 1) as nat) == 10 * pow10(count as nat),
            ;
        }
        scaled = scaled * 10;
        count = count + 1;
    }
    count
}

} // verus!
