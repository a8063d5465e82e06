use rsi_engine::indicator::{
    compute_rsi, IndicatorError, PRICE_LIMIT, RSI_MAX, RSI_NEUTRAL, SCALE, WINDOW_LIMIT,
};

#[test]
fn rising_series_rsi_is_clamped_to_100() {
    let prices: Vec<u64> = vec![100, 101, 105, 200, 201, 350];
    let out = compute_rsi(&prices, 3).unwrap();
    assert_eq!(out, vec![RSI_MAX, RSI_MAX, RSI_MAX]);
}

#[test]
fn falling_series_rsi_is_0() {
    let prices: Vec<u64> = vec![350, 201, 200, 105, 101, 100];
    let out = compute_rsi(&prices, 3).unwrap();
    assert_eq!(out, vec![0, 0, 0]);
}

#[test]
fn flat_series_rsi_is_neutral() {
    let prices: Vec<u64> = vec![4242; 8];
    let out = compute_rsi(&prices, 4).unwrap();
    assert_eq!(out, vec![RSI_NEUTRAL; 4]);
    assert_eq!(RSI_NEUTRAL, 50 * SCALE);
}

#[test]
fn series_of_window_plus_one_gives_one_value() {
    let prices: Vec<u64> = vec![10, 12, 9, 15, 14, 13];
    let out = compute_rsi(&prices, 5).unwrap();
    assert_eq!(out.len(), 1);
}

#[test]
fn shorter_series_is_insufficient_data() {
    let prices: Vec<u64> = vec![10, 12, 9, 15, 14];
    assert_eq!(compute_rsi(&prices, 5), Err(IndicatorError::InsufficientData));
    let empty: Vec<u64> = vec![];
    assert_eq!(compute_rsi(&empty, 1), Err(IndicatorError::InsufficientData));
    assert_eq!(compute_rsi(&vec![10], 1), Err(IndicatorError::InsufficientData));
}

#[test]
fn zero_window_is_invalid_input() {
    let prices: Vec<u64> = vec![10, 12, 9];
    assert_eq!(compute_rsi(&prices, 0), Err(IndicatorError::InvalidInput));
}

#[test]
fn zero_price_is_invalid_input() {
    let prices: Vec<u64> = vec![10, 0, 9];
    assert_eq!(compute_rsi(&prices, 1), Err(IndicatorError::InvalidInput));
}

#[test]
fn oversized_price_is_invalid_input() {
    let prices: Vec<u64> = vec![10, PRICE_LIMIT + 1, 9];
    assert_eq!(compute_rsi(&prices, 1), Err(IndicatorError::InvalidInput));
}

#[test]
fn invalid_input_wins_over_short_series() {
    // Both faults at once: the price fault is reported.
    let prices: Vec<u64> = vec![0];
    assert_eq!(compute_rsi(&prices, 3), Err(IndicatorError::InvalidInput));
}

#[test]
fn largest_window_is_accepted() {
    let prices: Vec<u64> = vec![7; WINDOW_LIMIT + 1];
    let out = compute_rsi(&prices, WINDOW_LIMIT).unwrap();
    assert_eq!(out, vec![RSI_NEUTRAL]);
}

/// The golden fixture: prices 44, 44.25, 44.5, 43.75, 44.65, 45.12, 45.0
/// (here in ticks of 0.01) over a window of 6 bars give one seeded RSI
/// value, which must match the floating-point formula
/// `100 - 100 / (1 + avg_gain / avg_loss)` to within 1e-9.
#[test]
fn golden_fixture_matches_float_formula() {
    let prices: Vec<u64> = vec![4400, 4425, 4450, 4375, 4465, 4512, 4500];
    let out = compute_rsi(&prices, 6).unwrap();
    assert_eq!(out.len(), 1);
    let got = out[0] as f64 / SCALE as f64;

    let float_prices = [44.0_f64, 44.25, 44.5, 43.75, 44.65, 45.12, 45.0];
    let mut gains_sum = 0.0_f64;
    let mut losses_sum = 0.0_f64;
    for i in 1..7 {
        let gain = 100.0 / float_prices[i - 1] * float_prices[i] - 100.0;
        if gain >= 0.0 {
            gains_sum += gain;
        } else {
            losses_sum += -gain;
        }
    }
    let avg_gain = gains_sum / 6.0;
    let avg_loss = losses_sum / 6.0;
    let expected = 100.0 - 100.0 / (1.0 + avg_gain / avg_loss);
    assert!((got - expected).abs() < 1e-9, "got {got}, expected {expected}");
}

/// The same fixture with a window of 3 exercises the Wilder smoothing
/// updates; the exact fixed-point outputs are pinned down.
#[test]
fn smoothed_series_exact_values() {
    let prices: Vec<u64> = vec![4400, 4425, 4450, 4375, 4465, 4512, 4500];
    let out = compute_rsi(&prices, 3).unwrap();
    assert_eq!(
        out,
        vec![40203467912230, 71454628683280, 79627003376565, 71832951302464]
    );
}

#[test]
fn rsi_values_stay_in_range() {
    let prices: Vec<u64> = vec![1, 1_000_000_000, 1, 1_000_000_000, 1, 2, 1_000_000_000];
    let out = compute_rsi(&prices, 2).unwrap();
    assert_eq!(out.len(), 5);
    for v in out {
        assert!(v <= RSI_MAX);
    }
}
