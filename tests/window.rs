use analytics_service::window::{PricePoint, RollingWindow, WINDOW_CAPACITY};

fn point(i: u64) -> PricePoint {
    PricePoint { price: 1_000 + i, volume: 10 * i + 1, timestamp_ms: i as i64 }
}

#[test]
fn window_keeps_most_recent_in_order() {
    let mut window = RollingWindow::new(3);
    for i in 0..4 {
        window.push(point(i));
    }
    assert_eq!(window.len(), 3);
    assert_eq!(window.prices(), vec![1_001, 1_002, 1_003]);
    assert_eq!(window.latest(), Some(point(3)));
}

#[test]
fn window_below_capacity_keeps_everything() {
    let mut window = RollingWindow::new(WINDOW_CAPACITY);
    assert_eq!(window.latest(), None);
    assert_eq!(window.capacity(), 100);
    for i in 0..50 {
        window.push(point(i));
    }
    assert_eq!(window.len(), 50);
    assert_eq!(window.prices()[0], 1_000);
}

#[test]
fn window_of_capacity_one_holds_newest() {
    let mut window = RollingWindow::new(1);
    window.push(point(7));
    window.push(point(8));
    assert_eq!(window.prices(), vec![1_008]);
}

#[test]
fn full_window_evicts_oldest_each_time() {
    let mut window = RollingWindow::new(WINDOW_CAPACITY);
    for i in 0..250 {
        window.push(point(i));
    }
    let prices = window.prices();
    assert_eq!(prices.len(), 100);
    let expected: Vec<u64> = (150..250).map(|i| 1_000 + i).collect();
    assert_eq!(prices, expected);
}
