use analytics_service::fixed::PRICE_SCALE;
use analytics_service::simulation::{initial_conditions, str_equals, Instrument, Simulation};
use analytics_service::window::PricePoint;

#[test]
fn seed_table_by_category_and_ticker() {
    assert_eq!(initial_conditions("BTC", "CRYPTO"), (42_000 * PRICE_SCALE, 20_000));
    assert_eq!(initial_conditions("ETH", "CRYPTO"), (2_200 * PRICE_SCALE, 20_000));
    assert_eq!(initial_conditions("SOL", "CRYPTO"), (100 * PRICE_SCALE, 20_000));
    assert_eq!(initial_conditions("DOGE", "CRYPTO"), (50 * PRICE_SCALE, 20_000));
    assert_eq!(initial_conditions("AAPL", "STOCK"), (185 * PRICE_SCALE, 5_000));
    assert_eq!(initial_conditions("GOOGL", "STOCK"), (140 * PRICE_SCALE, 5_000));
    assert_eq!(initial_conditions("MSFT", "STOCK"), (375 * PRICE_SCALE, 5_000));
    assert_eq!(initial_conditions("AMZN", "STOCK"), (155 * PRICE_SCALE, 5_000));
    assert_eq!(initial_conditions("TSLA", "STOCK"), (250 * PRICE_SCALE, 5_000));
    assert_eq!(initial_conditions("IBM", "STOCK"), (100 * PRICE_SCALE, 5_000));
    assert_eq!(initial_conditions("BTC", "FOREX"), (100 * PRICE_SCALE, 5_000));
}

#[test]
fn str_equals_compares_characters() {
    assert!(str_equals("BTC", "BTC"));
    assert!(!str_equals("BTC", "BTCX"));
    assert!(!str_equals("BTC", "ETH"));
    assert!(str_equals("", ""));
}

#[test]
fn tick_reports_every_instrument_in_band() {
    let mut sim = Simulation::new();
    sim.add_instrument("BTC".to_string(), "CRYPTO");
    sim.add_instrument("AAPL".to_string(), "STOCK");
    assert_eq!(sim.len(), 2);
    for round in 1..=30usize {
        let records = sim.tick();
        assert_eq!(records.len(), 2);
        assert_eq!(records[0].ticker, "BTC");
        assert_eq!(records[1].ticker, "AAPL");
        let btc = &records[0];
        assert!(btc.price >= 29_400 * PRICE_SCALE && btc.price <= 58_800 * PRICE_SCALE);
        assert!(btc.volume > 0);
        assert_eq!(btc.moving_average_5.is_some(), round >= 5);
        assert_eq!(btc.moving_average_20.is_some(), round >= 20);
        assert_eq!(btc.percent_change.is_some(), round >= 2);
        assert_eq!(btc.is_anomaly, btc.anomaly_type.is_some());
        assert_eq!(btc.is_anomaly, btc.anomaly_message.is_some());
    }
    let latest = sim.latest_price("AAPL").unwrap();
    assert!(latest.price >= 1_295_000 && latest.price <= 2_590_000);
    assert_eq!(sim.latest_price("MSFT"), None);
}

#[test]
fn re_adding_a_ticker_replaces_it() {
    let mut sim = Simulation::new();
    sim.add_instrument("SOL".to_string(), "CRYPTO");
    sim.tick();
    assert!(sim.latest_price("SOL").is_some());
    sim.add_instrument("SOL".to_string(), "CRYPTO");
    assert_eq!(sim.len(), 1);
    assert_eq!(sim.latest_price("SOL"), None);
    assert_eq!(sim.find("SOL"), Some(0));
    assert_eq!(sim.find("ETH"), None);
}

#[test]
fn instrument_record_reports_analytics() {
    let mut inst = Instrument::new("MSFT".to_string(), "STOCK");
    assert_eq!(inst.ticker(), "MSFT");
    assert_eq!(inst.latest(), None);
    let prices = [375u64, 375, 375, 375, 400];
    let mut last = None;
    for (i, p) in prices.iter().enumerate() {
        let point = PricePoint { price: p * PRICE_SCALE, volume: 1_000, timestamp_ms: i as i64 };
        last = Some(inst.record(point));
    }
    let rec = last.unwrap();
    assert_eq!(rec.price, 400 * PRICE_SCALE);
    assert_eq!(rec.moving_average_5, Some(380 * PRICE_SCALE));
    assert_eq!(rec.moving_average_20, None);
    // 25 / 375 = 6.666...%
    assert_eq!(rec.percent_change, Some(66_666));
    assert!(rec.is_anomaly);
    assert_eq!(rec.anomaly_type.as_deref(), Some("SPIKE_UP"));
    assert_eq!(rec.timestamp_ms, 4);
}

#[test]
fn advance_uses_current_time() {
    let mut inst = Instrument::new("ETH".to_string(), "CRYPTO");
    let rec = inst.advance();
    assert!(rec.timestamp_ms > 1_600_000_000_000);
    assert_eq!(rec.percent_change, None);
    assert_eq!(inst.latest().unwrap().price, rec.price);
}

#[test]
fn snapshot_lists_prices_or_nothing() {
    let mut sim = Simulation::new();
    assert!(sim.snapshot("TSLA").is_empty());
    sim.add_instrument("TSLA".to_string(), "STOCK");
    assert!(sim.snapshot("TSLA").is_empty());
    let mut emitted = Vec::new();
    for _ in 0..120 {
        emitted.push(sim.tick()[0].price);
    }
    let snap = sim.snapshot("TSLA");
    assert_eq!(snap.len(), 100);
    assert_eq!(snap, emitted[20..].to_vec());
    assert!(sim.snapshot("tsla").is_empty());
}

#[test]
fn latest_price_any_case_upper_cases_the_ticker() {
    let mut sim = Simulation::new();
    sim.add_instrument("AAPL".to_string(), "STOCK");
    assert_eq!(sim.latest_price_any_case("aapl"), None);
    let rec = sim.tick();
    let latest = sim.latest_price_any_case("aApl").unwrap();
    assert_eq!(latest.price, rec[0].price);
    assert_eq!(sim.latest_price("aapl"), None);
    assert_eq!(sim.latest_price_any_case("msft"), None);
}

#[test]
fn seeded_instrument_starts_at_base_with_category_volatility() {
    let mut inst = Instrument::new("ETH".to_string(), "CRYPTO");
    let first = inst.advance();
    // a 2% volatility walk moves at most 3% plus a 3% shock per tick
    assert!(first.price >= 2_068 * PRICE_SCALE && first.price <= 2_332 * PRICE_SCALE);
}
