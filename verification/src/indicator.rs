//! The indicator engine: Wilder's Relative Strength Index over a series of
//! closing prices.
//!
//! Prices are positive integers in arbitrary ticks (the tick size cancels in
//! every ratio the algorithm takes). Percentage gains, smoothed averages and
//! RSI values are fixed-point: a value `v` stands for `v / SCALE`, so the
//! full RSI range `[0, 100]` is `[0, 100 * SCALE]`.

use vstd::prelude::*;

verus! {

use vstd::arithmetic::div_mod::lemma_div_is_ordered;
use vstd::arithmetic::div_mod::lemma_div_multiples_vanish;
use vstd::arithmetic::div_mod::lemma_div_nonincreasing;
use vstd::arithmetic::div_mod::lemma_multiply_divide_le;
use vstd::arithmetic::mul::lemma_mul_increases;
use vstd::arithmetic::mul::lemma_mul_inequality;
use vstd::arithmetic::mul::lemma_mul_is_commutative;
use vstd::arithmetic::mul::lemma_mul_upper_bound;
use vstd::arithmetic::div_mod::lemma_div_by_self;
use vstd::arithmetic::div_mod::lemma_div_of0;

/// Fixed-point scale: one unit of RSI or of percentage gain is `1 / SCALE`.
pub const SCALE: u64 = 1_000_000_000_000;

/// Largest accepted price, in ticks. Prices above it are rejected as invalid
/// input so that every intermediate product fits in 128 bits.
pub const PRICE_LIMIT: u64 = 1_000_000_000;

/// Largest accepted smoothing window, so that every intermediate sum fits in
/// 128 bits.
pub const WINDOW_LIMIT: usize = 100_000;

/// The whole RSI range: `100 * SCALE`, the fixed-point image of 100.
pub const RSI_MAX: u64 = 100_000_000_000_000;

/// The declared neutral RSI for a flat series (average gain and average loss
/// both zero, where the raw formula is 0/0): `50 * SCALE`.
pub const RSI_NEUTRAL: u64 = 50_000_000_000_000;

/// Upper bound on any single percentage gain or loss and on the smoothed
/// averages: `100 * SCALE * PRICE_LIMIT`.
pub const GAIN_CAP: u128 = 100_000_000_000_000_000_000_000;

/// Why the engine rejects an input.
#[derive(Clone, Copy, Debug, PartialEq, Eq)]
pub enum IndicatorError {
    /// The series has fewer than `window_size + 1` bars.
    InsufficientData,
    /// The window is zero, or a price is zero or above `PRICE_LIMIT`.
    InvalidInput,
}

/// A single price the engine accepts: positive and within `PRICE_LIMIT`.
pub open spec fn price_ok(p: u64) -> bool {
    1 <= p <= PRICE_LIMIT
}

/// Every price of the series is acceptable.
pub open spec fn prices_ok(s: Seq<u64>) -> bool {
    forall|i: int| 0 <= i < s.len() ==> price_ok(#[trigger] s[i])
}

/// The fixed-point percentage gain from `prev` to `cur`:
/// `100 * SCALE * (cur - prev) / prev` when the price rose, else 0.
pub open spec fn gain_part(prev: u64, cur: u64) -> int {
    if cur > prev {
        100 * (SCALE as int) * (cur - prev) / (prev as int)
    } else {
        0
    }
}

/// The fixed-point percentage loss from `prev` to `cur`:
/// `100 * SCALE * (prev - cur) / prev` when the price fell, else 0.
pub open spec fn loss_part(prev: u64, cur: u64) -> int {
    if cur < prev {
        100 * (SCALE as int) * (prev - cur) / (prev as int)
    } else {
        0
    }
}

/// Sum of the gains of the first `k` period-over-period changes.
pub open spec fn gains_sum(s: Seq<u64>, k: int) -> int
    decreases k,
{
    if k <= 0 {
        0
    } else {
        gains_sum(s, k - 1) + gain_part(s[k - 1], s[k])
    }
}

/// Sum of the losses of the first `k` period-over-period changes.
pub open spec fn losses_sum(s: Seq<u64>, k: int) -> int
    decreases k,
{
    if k <= 0 {
        0
    } else {
        losses_sum(s, k - 1) + loss_part(s[k - 1], s[k])
    }
}

/// Wilder's smoothed average gain at bar `j`: seeded at bar `w` with the
/// simple average of the first `w` gains, then
/// `(previous * (w - 1) + gain at j) / w` for each later bar.
pub open spec fn avg_gain(s: Seq<u64>, w: int, j: int) -> int
    decreases j when 0 <= w
{
    if j <= w {
        gains_sum(s, w) / w
    } else {
        (avg_gain(s, w, j - 1) * (w - 1) + gain_part(s[j - 1], s[j])) / w
    }
}

/// Wilder's smoothed average loss at bar `j`, seeded and updated as
/// `avg_gain` is.
pub open spec fn avg_loss(s: Seq<u64>, w: int, j: int) -> int
    decreases j when 0 <= w
{
    if j <= w {
        losses_sum(s, w) / w
    } else {
        (avg_loss(s, w, j - 1) * (w - 1) + loss_part(s[j - 1], s[j])) / w
    }
}

/// RSI from an average gain `g` and an average loss `l`. For `l > 0` the
/// value `100 * SCALE * g / (g + l)` equals the textbook
/// `100 - 100 / (1 + g / l)`; for `l == 0` and `g > 0` it is exactly
/// `100 * SCALE`, the clamped boundary; the flat case `0 / 0` is defined as
/// the neutral `50 * SCALE`.
pub open spec fn rsi_from_avgs(g: int, l: int) -> int {
    if g == 0 && l == 0 {
        RSI_NEUTRAL as int
    } else {
        100 * (SCALE as int) * g / (g + l)
    }
}

/// The RSI emitted for bar `j` (defined for `w <= j < s.len()`).
pub open spec fn rsi_at(s: Seq<u64>, w: int, j: int) -> int {
    rsi_from_avgs(avg_gain(s, w, j), avg_loss(s, w, j))
}

/// The full RSI series: one value per bar beyond the seed window, oldest
/// first.
pub open spec fn rsi_series(s: Seq<u64>, w: int) -> Seq<int> {
    Seq::new((s.len() - w) as nat, |k: int| rsi_at(s, w, w + k))
}

/// The series rises at every step.
pub open spec fn strictly_increasing(s: Seq<u64>) -> bool {
    forall|i: int| 1 <= i < s.len() ==> s[i - 1] < #[trigger] s[i]
}

/// The series falls at every step.
pub open spec fn strictly_decreasing(s: Seq<u64>) -> bool {
    forall|i: int| 1 <= i < s.len() ==> s[i - 1] > #[trigger] s[i]
}

/// The series holds one repeated price.
pub open spec fn constant_series(s: Seq<u64>) -> bool {
    forall|i: int| 1 <= i < s.len() ==> s[i - 1] == #[trigger] s[i]
}

/// A price rise never truncates to a zero gain: the scaled numerator is at
/// least the divisor, because prices stay within `PRICE_LIMIT`.
proof fn lemma_gain_part_at_least_one(prev: u64, cur: u64)
    requires
        price_ok(prev),
        prev < cur,
    ensures
        gain_part(prev, cur) >= 1,
{
    lemma_mul_increases(cur - prev, 100 * (SCALE as int));
    lemma_mul_is_commutative(cur - prev, 100 * (SCALE as int));
    lemma_div_is_ordered(prev as int, 100 * (SCALE as int) * (cur - prev), prev as int);
    lemma_div_by_self(prev as int);
}

/// A price fall never truncates to a zero loss.
proof fn lemma_loss_part_at_least_one(prev: u64, cur: u64)
    requires
        price_ok(prev),
        cur < prev,
    ensures
        loss_part(prev, cur) >= 1,
{
    lemma_mul_increases(prev - cur, 100 * (SCALE as int));
    lemma_mul_is_commutative(prev - cur, 100 * (SCALE as int));
    lemma_div_is_ordered(prev as int, 100 * (SCALE as int) * (prev - cur), prev as int);
    lemma_div_by_self(prev as int);
}

proof fn lemma_rising_sums(s: Seq<u64>, k: int)
    requires
        prices_ok(s),
        0 <= k < s.len(),
        strictly_increasing(s),
    ensures
        gains_sum(s, k) >= k,
        losses_sum(s, k) == 0,
    decreases k,
{
    if k > 0 {
        lemma_rising_sums(s, k - 1);
        assert(s[k - 1] < s[k]);
        lemma_gain_part_at_least_one(s[k - 1], s[k]);
    }
}

proof fn lemma_falling_sums(s: Seq<u64>, k: int)
    requires
        prices_ok(s),
        0 <= k < s.len(),
        strictly_decreasing(s),
    ensures
        gains_sum(s, k) == 0,
        losses_sum(s, k) >= k,
    decreases k,
{
    if k > 0 {
        lemma_falling_sums(s, k - 1);
        assert(s[k - 1] > s[k]);
        lemma_loss_part_at_least_one(s[k - 1], s[k]);
    }
}

proof fn lemma_flat_sums(s: Seq<u64>, k: int)
    requires
        0 <= k < s.len(),
        constant_series(s),
    ensures
        gains_sum(s, k) == 0,
        losses_sum(s, k) == 0,
    decreases k,
{
    if k > 0 {
        lemma_flat_sums(s, k - 1);
        assert(s[k - 1] == s[k]);
    }
}

proof fn lemma_rising_avgs(s: Seq<u64>, w: int, j: int)
    requires
        prices_ok(s),
        1 <= w,
        w <= j < s.len(),
        strictly_increasing(s),
    ensures
        avg_gain(s, w, j) >= 1,
        avg_loss(s, w, j) == 0,
    decreases j,
{
    if j == w {
        lemma_rising_sums(s, w);
        lemma_div_is_ordered(w, gains_sum(s, w), w);
        lemma_div_by_self(w);
        lemma_div_of0(w);
    } else {
        lemma_rising_avgs(s, w, j - 1);
        assert(s[j - 1] < s[j]);
        lemma_gain_part_at_least_one(s[j - 1], s[j]);
        lemma_mul_inequality(1, avg_gain(s, w, j - 1), w - 1);
        lemma_div_is_ordered(
            w,
            avg_gain(s, w, j - 1) * (w - 1) + gain_part(s[j - 1], s[j]),
            w,
        );
        lemma_div_by_self(w);
        lemma_div_of0(w);
    }
}

proof fn lemma_falling_avgs(s: Seq<u64>, w: int, j: int)
    requires
        prices_ok(s),
        1 <= w,
        w <= j < s.len(),
        strictly_decreasing(s),
    ensures
        avg_gain(s, w, j) == 0,
        avg_loss(s, w, j) >= 1,
    decreases j,
{
    if j == w {
        lemma_falling_sums(s, w);
        lemma_div_is_ordered(w, losses_sum(s, w), w);
        lemma_div_by_self(w);
        lemma_div_of0(w);
    } else {
        lemma_falling_avgs(s, w, j - 1);
        assert(s[j - 1] > s[j]);
        lemma_loss_part_at_least_one(s[j - 1], s[j]);
        lemma_mul_inequality(1, avg_loss(s, w, j - 1), w - 1);
        lemma_div_is_ordered(
            w,
            avg_loss(s, w, j - 1) * (w - 1) + loss_part(s[j - 1], s[j]),
            w,
        );
        lemma_div_by_self(w);
        lemma_div_of0(w);
    }
}

proof fn lemma_flat_avgs(s: Seq<u64>, w: int, j: int)
    requires
        1 <= w,
        w <= j < s.len(),
        constant_series(s),
    ensures
        avg_gain(s, w, j) == 0,
        avg_loss(s, w, j) == 0,
    decreases j,
{
    if j == w {
        lemma_flat_sums(s, w);
        lemma_div_of0(w);
    } else {
        lemma_flat_avgs(s, w, j - 1);
        assert(s[j - 1] == s[j]);
        lemma_div_of0(w);
    }
}

/// For a strictly rising price series, every period change is a positive
/// gain and no loss, and every RSI of the series is the clamped maximum
/// `100 * SCALE`.
pub proof fn lemma_rising_series_rsi_is_max(s: Seq<u64>, w: int)
    requires
        prices_ok(s),
        1 <= w,
        w + 1 <= s.len(),
        strictly_increasing(s),
    ensures
        forall|i: int|
            1 <= i < s.len() ==> gain_part(s[i - 1], #[trigger] s[i]) >= 1 && loss_part(
                s[i - 1],
                s[i],
            ) == 0,
        forall|k: int|
            0 <= k < rsi_series(s, w).len() ==> rsi_series(s, w)[k] == RSI_MAX as int,
{
    assert forall|i: int|
        1 <= i < s.len() implies gain_part(s[i - 1], #[trigger] s[i]) >= 1 && loss_part(
        s[i - 1],
        s[i],
    ) == 0 by {
        assert(s[i - 1] < s[i]);
        lemma_gain_part_at_least_one(s[i - 1], s[i]);
    }
    assert forall|k: int|
        0 <= k < rsi_series(s, w).len() implies rsi_series(s, w)[k] == RSI_MAX as int by {
        lemma_rising_avgs(s, w, w + k);
        let g = avg_gain(s, w, w + k);
        lemma_div_multiples_vanish(100 * (SCALE as int), g);
    }
}

/// For a strictly falling price series, every RSI of the series is 0.
pub proof fn lemma_falling_series_rsi_is_zero(s: Seq<u64>, w: int)
    requires
        prices_ok(s),
        1 <= w,
        w + 1 <= s.len(),
        strictly_decreasing(s),
    ensures
        forall|k: int| 0 <= k < rsi_series(s, w).len() ==> rsi_series(s, w)[k] == 0,
{
    assert forall|k: int|
        0 <= k < rsi_series(s, w).len() implies rsi_series(s, w)[k] == 0 by {
        lemma_falling_avgs(s, w, w + k);
        let l = avg_loss(s, w, w + k);
        lemma_div_of0(l);
    }
}

/// For a constant price series, every RSI of the series is the declared
/// neutral value `50 * SCALE`.
pub proof fn lemma_flat_series_rsi_is_neutral(s: Seq<u64>, w: int)
    requires
        1 <= w,
        w + 1 <= s.len(),
        constant_series(s),
    ensures
        forall|k: int|
            0 <= k < rsi_series(s, w).len() ==> rsi_series(s, w)[k] == RSI_NEUTRAL as int,
{
    assert forall|k: int|
        0 <= k < rsi_series(s, w).len() implies rsi_series(s, w)[k] == RSI_NEUTRAL as int by {
        lemma_flat_avgs(s, w, w + k);
    }
}

/// RSI of one pair of smoothed averages, in fixed point.
fn rsi_value(g: u128, l: u128) -> (r: u64)
    requires
        g <= GAIN_CAP,
        l <= GAIN_CAP,
    ensures
        r as int == rsi_from_avgs(g as int, l as int),
        r <= RSI_MAX,
{
    if g == 0 && l == 0 {
        RSI_NEUTRAL
    } else {
        let num: u128 = 100 * (SCALE as u128) * g;
        let den: u128 = g + l;
        proof {
            lemma_div_is_ordered(
                100 * (SCALE as int) * (g as int),
                100 * (SCALE as int) * (den as int),
                den as int,
            );
            lemma_div_multiples_vanish(100 * (SCALE as int), den as int);
        }
        (num / den) as u64
    }
}

/// The fixed-point percentage gain and loss from `prev` to `cur`; at most one
/// of the two is nonzero.
fn step_change(prev: u64, cur: u64) -> (r: (u128, u128))
    requires
        price_ok(prev),
        price_ok(cur),
    ensures
        r.0 as int == gain_part(prev, cur),
        r.1 as int == loss_part(prev, cur),
        r.0 <= GAIN_CAP,
        r.1 <= GAIN_CAP,
{
    if cur > prev {
        let g: u128 = 100 * (SCALE as u128) * ((cur - prev) as u128) / (prev as u128);
        proof {
            lemma_div_nonincreasing(100 * (SCALE as int) * (cur - prev), prev as int);
        }
        (g, 0)
    } else if cur < prev {
        let l: u128 = 100 * (SCALE as u128) * ((prev - cur) as u128) / (prev as u128);
        proof {
            lemma_div_nonincreasing(100 * (SCALE as int) * (prev - cur), prev as int);
        }
        (0, l)
    } else {
        (0, 0)
    }
}

/// Computes Wilder's RSI series of `prices` (ordered oldest to newest) with
/// smoothing window `window_size`, in fixed point: an output value `v` stands
/// for the RSI `v / SCALE`. The result holds one value per bar beyond the
/// seed window, oldest first, each within `[0, 100 * SCALE]`.
///
/// A zero window, a zero price or a price above `PRICE_LIMIT` is rejected as
/// `InvalidInput`; a series shorter than `window_size + 1` bars is rejected
/// as `InsufficientData`; every other input succeeds.
pub fn compute_rsi(prices: &Vec<u64>, window_size: usize) -> (r: Result<
    Vec<u64>,
    IndicatorError,
>)
    requires
        window_size <= WINDOW_LIMIT,
    ensures
        (r matches Err(e) && e is InvalidInput) <==> (window_size == 0 || !prices_ok(
            prices@,
        )),
        (r matches Err(e) && e is InsufficientData) <==> (window_size >= 1 && prices_ok(prices@)
            && prices@.len() < window_size + 1),
        r is Ok <==> (window_size >= 1 && prices_ok(prices@) && prices@.len() >= window_size
            + 1),
        (r matches Ok(out) ==> out@.len() == prices@.len() - window_size),
        (r matches Ok(out) ==> forall|k: int|
            0 <= k < out@.len() ==> (#[trigger] out@[k]) as int == rsi_series(
                prices@,
                window_size as int,
            )[k] && out@[k] <= RSI_MAX),
{
    let n: usize = prices.len();
    if window_size == 0 {
        return Err(IndicatorError::InvalidInput);
    }
    let mut v: usize = 0;
    while v < n
        invariant
            v <= n,
            n == prices@.len(),
            forall|i: int| 0 <= i < v ==> price_ok(#[trigger] prices@[i]),
        decreases n - v,
    {
        let p = prices[v];
        if p == 0 || p > PRICE_LIMIT {
            return Err(IndicatorError::InvalidInput);
        }
        v = v + 1;
    }
    if n < window_size + 1 {
        return Err(IndicatorError::InsufficientData);
    }
    let w = window_size;
    let wi: u128 = w as u128;

    let mut gains: u128 = 0;
    let mut losses: u128 = 0;
    let mut i: usize = 1;
    while i <= w
        invariant
            1 <= i <= w + 1,
            1 <= w <= WINDOW_LIMIT,
            w + 1 <= n,
            n == prices@.len(),
            prices_ok(prices@),
            gains as int == gains_sum(prices@, i - 1),
            losses as int == losses_sum(prices@, i - 1),
            gains as int <= (i - 1) * (GAIN_CAP as int),
            losses as int <= (i - 1) * (GAIN_CAP as int),
        decreases w + 1 - i,
    {
        let (g, l) = step_change(prices[i - 1], prices[i]);
        gains = gains + g;
        losses = losses + l;
        i = i + 1;
    }

    let mut avg_g: u128 = gains / wi;
    let mut avg_l: u128 = losses / wi;
    proof {
        lemma_multiply_divide_le(gains as int, w as int, GAIN_CAP as int);
        lemma_multiply_divide_le(losses as int, w as int, GAIN_CAP as int);
    }

    let mut out: Vec<u64> = Vec::new();
    let first = rsi_value(avg_g, avg_l);
    out.push(first);

    let mut j: usize = w + 1;
    while j < n
        invariant
            w + 1 <= j <= n,
            1 <= w <= WINDOW_LIMIT,
            wi == w as u128,
            n == prices@.len(),
            prices_ok(prices@),
            avg_g as int == avg_gain(prices@, w as int, j - 1),
            avg_l as int == avg_loss(prices@, w as int, j - 1),
            avg_g <= GAIN_CAP,
            avg_l <= GAIN_CAP,
            out@.len() == j - w,
            forall|k: int|
                0 <= k < out@.len() ==> (#[trigger] out@[k]) as int == rsi_at(
                    prices@,
                    w as int,
                    w + k,
                ) && out@[k] <= RSI_MAX,
        decreases n - j,
    {
        let (g, l) = step_change(prices[j - 1], prices[j]);
        proof {
            lemma_mul_upper_bound(
                avg_g as int,
                GAIN_CAP as int,
                w - 1,
                WINDOW_LIMIT as int,
            );
            lemma_mul_upper_bound(
                avg_l as int,
                GAIN_CAP as int,
                w - 1,
                WINDOW_LIMIT as int,
            );
            lemma_mul_inequality(avg_g as int, GAIN_CAP as int, w - 1);
            lemma_mul_inequality(avg_l as int, GAIN_CAP as int, w - 1);
        }
        let num_g: u128 = avg_g * (wi - 1) + g;
        let num_l: u128 = avg_l * (wi - 1) + l;
        proof {
            lemma_multiply_divide_le(num_g as int, w as int, GAIN_CAP as int);
            lemma_multiply_divide_le(num_l as int, w as int, GAIN_CAP as int);
        }
        avg_g = num_g / wi;
        avg_l = num_l / wi;
        let r = rsi_value(avg_g, avg_l);
        out.push(r);
        j = j + 1;
    }

    proof {
        assert(forall|k: int|
            0 <= k < out@.len() ==> (#[trigger] out@[k]) as int == rsi_series(
                prices@,
                w as int,
            )[k] && out@[k] <= RSI_MAX);
    }
    Ok(out)
}

} // verus!
