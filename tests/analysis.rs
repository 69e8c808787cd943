use analytics_service::analysis::{
    calculate_moving_average, calculate_percent_change, calculate_std_dev, detect_anomaly,
    AnomalyKind,
};
use analytics_service::fixed::PRICE_SCALE;

fn scaled(values: &[u64]) -> Vec<u64> {
    values.iter().map(|v| v * PRICE_SCALE).collect()
}

#[test]
fn test_moving_average() {
    let prices = scaled(&[10, 20, 30, 40, 50]);
    assert_eq!(calculate_moving_average(&prices, 5), Some(30 * PRICE_SCALE));
    assert_eq!(calculate_moving_average(&prices, 3), Some(40 * PRICE_SCALE));
    assert_eq!(calculate_moving_average(&prices, 10), None);
}

#[test]
fn test_spike_detection() {
    let prices = scaled(&[100, 100, 100]);

    let result = detect_anomaly(&prices, 110 * PRICE_SCALE, Some(100_000));
    assert!(result.is_some());
    assert_eq!(result.unwrap().anomaly_type, "SPIKE_UP");

    let result = detect_anomaly(&prices, 90 * PRICE_SCALE, Some(-100_000));
    assert!(result.is_some());
    assert_eq!(result.unwrap().anomaly_type, "SPIKE_DOWN");

    let result = detect_anomaly(&prices, 102 * PRICE_SCALE, Some(20_000));
    assert!(result.is_none());
}

#[test]
fn moving_average_of_whole_series_is_its_mean() {
    let prices = scaled(&[3, 5, 7, 9]);
    assert_eq!(calculate_moving_average(&prices, 4), Some(6 * PRICE_SCALE));
    assert_eq!(calculate_moving_average(&prices, 5), None);
    assert_eq!(calculate_moving_average(&[], 1), None);
}

#[test]
fn moving_average_rounds_down() {
    assert_eq!(calculate_moving_average(&[1, 2], 2), Some(1));
    assert_eq!(calculate_moving_average(&[u64::MAX, u64::MAX], 2), Some(u64::MAX));
}

#[test]
fn std_dev_needs_two_prices() {
    assert_eq!(calculate_std_dev(&[]), None);
    assert_eq!(calculate_std_dev(&[100 * PRICE_SCALE]), None);
    assert_eq!(calculate_std_dev(&scaled(&[7, 7])), Some(0));
}

#[test]
fn std_dev_is_population_deviation() {
    let prices = scaled(&[10, 20, 30, 40, 50]);
    let sd = calculate_std_dev(&prices).unwrap();
    // sqrt(200) = 14.1421356...
    assert_eq!(sd, 141_421);
    let as_float = sd as f64 / PRICE_SCALE as f64;
    assert!((as_float - 14.142).abs() < 0.001);
    assert_eq!(calculate_std_dev(&scaled(&[2, 4, 4, 4, 5, 5, 7, 9])), Some(2 * PRICE_SCALE));
}

#[test]
fn percent_change_of_last_two_prices() {
    assert_eq!(calculate_percent_change(&[]), None);
    assert_eq!(calculate_percent_change(&scaled(&[100])), None);
    assert_eq!(calculate_percent_change(&scaled(&[50, 100, 110])), Some(100_000));
    assert_eq!(calculate_percent_change(&scaled(&[100, 90])), Some(-100_000));
    // -1/3 of a part per million rounds toward zero
    assert_eq!(calculate_percent_change(&[3_000_000, 2_999_999]), Some(0));
    assert_eq!(calculate_percent_change(&[3, 1]), Some(-666_666));
}

#[test]
fn spike_messages_report_the_move() {
    let prices = scaled(&[100, 100, 100]);
    let up = detect_anomaly(&prices, 110 * PRICE_SCALE, Some(100_000)).unwrap();
    assert_eq!(up.kind, AnomalyKind::SpikeUp);
    assert_eq!(up.message, "Price spiked up 10.00% in one interval");
    let down = detect_anomaly(&prices, 90 * PRICE_SCALE, Some(-123_456)).unwrap();
    assert_eq!(down.kind, AnomalyKind::SpikeDown);
    assert_eq!(down.message, "Price dropped 12.35% in one interval");
}

#[test]
fn spike_threshold_is_exclusive() {
    let prices = scaled(&[100, 100, 100]);
    assert!(detect_anomaly(&prices, 105 * PRICE_SCALE, Some(50_000)).is_none());
    assert!(detect_anomaly(&prices, 95 * PRICE_SCALE, Some(-50_000)).is_none());
    assert!(detect_anomaly(&prices, 105 * PRICE_SCALE, Some(50_001)).is_some());
    assert!(detect_anomaly(&prices, 100 * PRICE_SCALE, None).is_none());
}

#[test]
fn deviation_from_average_is_an_anomaly() {
    let mut prices = vec![100 * PRICE_SCALE; 20];
    let result = detect_anomaly(&prices, 101 * PRICE_SCALE, Some(10_000)).unwrap();
    assert_eq!(result.kind, AnomalyKind::Deviation);
    assert_eq!(result.anomaly_type, "ANOMALY");
    assert_eq!(
        result.message,
        "Price deviated 1.00 from MA20 (100.00), exceeding 2 std devs (0.00)"
    );
    assert!(detect_anomaly(&prices, 100 * PRICE_SCALE, None).is_none());
    prices.pop();
    assert!(detect_anomaly(&prices, 101 * PRICE_SCALE, None).is_none());
}

#[test]
fn spread_prices_hide_small_deviation() {
    let mut prices = Vec::new();
    for i in 0..20u64 {
        prices.push((90 + i) * PRICE_SCALE);
    }
    // average 99.5, population std dev about 5.77
    assert!(detect_anomaly(&prices, 109 * PRICE_SCALE, None).is_none());
    assert!(detect_anomaly(&prices, 111 * PRICE_SCALE, None).is_none());
    assert!(detect_anomaly(&prices, 112 * PRICE_SCALE, None).is_some());
}
