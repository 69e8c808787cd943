use analytics_service::analysis::{calculate_percent_change, detect_anomaly, AnomalyKind};
use analytics_service::fixed::PRICE_SCALE;
use analytics_service::price_generator::{draw_price_moves, PriceDraws, PriceGenerator};
use analytics_service::window::{PricePoint, RollingWindow};

#[test]
fn test_price_generation() {
    let mut generator = PriceGenerator::new(100 * PRICE_SCALE, 10_000);
    for _ in 0..100 {
        let (price, volume) = generator.next_price();
        assert!(price > 0);
        assert!(volume > 0);
    }
}

#[test]
fn test_price_stays_in_bounds() {
    let mut generator = PriceGenerator::new(100 * PRICE_SCALE, 20_000);
    for _ in 0..1000 {
        let (price, _) = generator.next_price();
        assert!(price >= 70 * PRICE_SCALE && price <= 140 * PRICE_SCALE);
    }
}

#[test]
fn draws_stay_in_their_ranges() {
    for _ in 0..1000 {
        let d = draw_price_moves();
        assert!(d.walk_ppm >= -1_000_000 && d.walk_ppm < 1_000_000);
        assert!(d.news_ppm >= -30_000 && d.news_ppm < 30_000);
        assert!(d.base_volume >= 50_000 && d.base_volume < 2_000_000);
    }
}

#[test]
fn step_applies_walk_and_volume() {
    let mut generator = PriceGenerator::new(100 * PRICE_SCALE, 10_000);
    // walk 0.5 * volatility 1% * 1.5 = 0.75%
    let draws = PriceDraws { walk_ppm: 500_000, news_ppm: 0, base_volume: 100_000 };
    let (price, volume) = generator.apply_draws(draws);
    assert_eq!(price, 1_007_500);
    assert_eq!(generator.current_price(), 1_007_500);
    // 100000 * (1 + 0.0075 * 8)
    assert_eq!(volume, 106_000);
    assert_eq!(generator.base_price(), 100 * PRICE_SCALE);
}

#[test]
fn step_move_is_limited_to_eight_percent() {
    let mut generator = PriceGenerator::new(100 * PRICE_SCALE, 1_000_000);
    let draws = PriceDraws { walk_ppm: 999_999, news_ppm: 29_999, base_volume: 50_000 };
    let (price, volume) = generator.apply_draws(draws);
    assert_eq!(price, 108 * PRICE_SCALE);
    assert_eq!(volume, 82_000);
}

#[test]
fn price_is_held_in_band() {
    let mut generator = PriceGenerator::new(100 * PRICE_SCALE, 1_000_000);
    let down = PriceDraws { walk_ppm: -1_000_000, news_ppm: -30_000, base_volume: 50_000 };
    for _ in 0..20 {
        generator.apply_draws(down);
    }
    assert_eq!(generator.current_price(), 70 * PRICE_SCALE);
    let up = PriceDraws { walk_ppm: 999_999, news_ppm: 29_999, base_volume: 50_000 };
    for _ in 0..40 {
        generator.apply_draws(up);
    }
    assert_eq!(generator.current_price(), 140 * PRICE_SCALE);
}

#[test]
fn mean_reversion_pulls_back_outside_dead_zone() {
    let mut generator = PriceGenerator::new(100 * PRICE_SCALE, 0);
    let up = PriceDraws { walk_ppm: 0, news_ppm: 29_999, base_volume: 50_000 };
    for _ in 0..4 {
        generator.apply_draws(up);
    }
    let above = generator.current_price();
    assert!(above > 110 * PRICE_SCALE);
    let quiet = PriceDraws { walk_ppm: 0, news_ppm: 0, base_volume: 50_000 };
    generator.apply_draws(quiet);
    assert!(generator.current_price() < above);
}

#[test]
fn set_volatility_keeps_price() {
    let mut generator = PriceGenerator::new(250 * PRICE_SCALE, 5_000);
    generator.set_volatility(20_000);
    assert_eq!(generator.current_price(), 250 * PRICE_SCALE);
    let draws = PriceDraws { walk_ppm: 100_000, news_ppm: 0, base_volume: 60_000 };
    // 0.1 * 2% * 1.5 = 0.3%
    assert_eq!(generator.apply_draws(draws).0, 2_507_500);
}

#[test]
fn end_to_end_thousand_ticks() {
    let mut generator = PriceGenerator::new(100 * PRICE_SCALE, 10_000);
    let mut window = RollingWindow::new(100);
    for t in 0..1000i64 {
        let (price, volume) = generator.next_price();
        assert!(price >= 70 * PRICE_SCALE && price <= 140 * PRICE_SCALE);
        assert!(volume > 0);
        window.push(PricePoint { price, volume, timestamp_ms: t });
        let prices = window.prices();
        let pct = calculate_percent_change(&prices);
        let forced = detect_anomaly(&prices, price, Some(100_000)).unwrap();
        assert_eq!(forced.kind, AnomalyKind::SpikeUp);
        if let Some(p) = pct {
            if p > 50_000 {
                assert_eq!(detect_anomaly(&prices, price, pct).unwrap().kind, AnomalyKind::SpikeUp);
            } else if p < -50_000 {
                assert_eq!(detect_anomaly(&prices, price, pct).unwrap().kind, AnomalyKind::SpikeDown);
            }
        }
    }
    assert_eq!(window.len(), 100);
}
