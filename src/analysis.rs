use vstd::prelude::*;
use crate::fixed::{
    abs, div_toward_zero, floor_sqrt, floor_sqrt_of, trunc_div, MAX_PRICE, MAX_SERIES_LEN, PPM,
};

verus! {

/// Sum of a price series.
pub open spec fn sum(s: Seq<u64>) -> int
    decreases s.len(),
{
    if s.len() == 0 {
        0
    } else {
        sum(s.drop_last()) + s.last()
    }
}

/// The most recent `w` entries of `s`.
pub open spec fn last_n(s: Seq<u64>, w: int) -> Seq<u64> {
    s.subrange(s.len() - w, s.len() as int)
}

/// Mean of the last `w` prices, rounded down; absent while fewer than `w`
/// prices exist.
pub open spec fn moving_average_of(s: Seq<u64>, w: int) -> Option<int> {
    if s.len() < w {
        None
    } else {
        Some(sum(last_n(s, w)) / w)
    }
}

proof fn lemma_sum_bound(s: Seq<u64>, bound: int)
    requires
        forall|i: int| 0 <= i < s.len() ==> s[i] <= bound,
    ensures
        0 <= sum(s) <= s.len() * bound,
    decreases s.len(),
{
    if s.len() > 0 {
        lemma_sum_bound(s.drop_last(), bound);
        assert(sum(s) <= s.len() * bound) by (nonlinear_arith)
            requires
                sum(s) == sum(s.drop_last()) + s.last(),
                sum(s.drop_last()) <= (s.len() - 1) * bound,
                s.last() <= bound,
        ;
    }
}

/// Sum of `s[from..to]`, accumulated in 128 bits.
fn sum_range(s: &[u64], from: usize, to: usize) -> (r: u128)
    requires
        from <= to <= s@.len(),
    ensures
        r == sum(s@.subrange(from as int, to as int)),
{
    let mut acc: u128 = 0;
    let mut i: usize = from;
    while i < to
        invariant
            from <= i <= to <= s@.len(),
            acc == sum(s@.subrange(from as int, i as int)),
            acc <= (i - from) * 0xFFFF_FFFF_FFFF_FFFFu64,
        decreases to - i,
    {
        assert(s@.subrange(from as int, i + 1).drop_last() =~= s@.subrange(from as int, i as int));
        assert(acc + s@[i as int] <= (i + 1 - from) * 0xFFFF_FFFF_FFFF_FFFFu64) by (nonlinear_arith)
            requires
                acc <= (i - from) * 0xFFFF_FFFF_FFFF_FFFFu64,
                s@[i as int] <= 0xFFFF_FFFF_FFFF_FFFFu64,
        ;
        assert((i + 1 - from) * 0xFFFF_FFFF_FFFF_FFFFu64 <= 0xFFFF_FFFF_FFFF_FFFFu64 * 0xFFFF_FFFF_FFFF_FFFFu64) by (nonlinear_arith)
            requires
                i + 1 - from <= 0xFFFF_FFFF_FFFF_FFFFu64,
        ;
        acc = acc + s[i] as u128;
        i = i + 1;
    }
    acc
}

/// Mean of the most recent `window` prices, rounded down to a whole price
/// unit; `None` while fewer than `window` prices exist.
pub fn calculate_moving_average(prices: &[u64], window: usize) -> (r: Option<u64>)
    requires
        window > 0,
    ensures
        opt_int(r) == moving_average_of(prices@, window as int),
{
    if prices.len() < window {
        return None;
    }
    let from: usize = prices.len() - window;
    let total = sum_range(prices, from, prices.len());
    proof {
        lemma_sum_bound(prices@.subrange(from as int, prices@.len() as int), 0xFFFF_FFFF_FFFF_FFFFu64 as int);
        assert(total / (window as u128) <= 0xFFFF_FFFF_FFFF_FFFFu64) by (nonlinear_arith)
            requires
                total <= window * 0xFFFF_FFFF_FFFF_FFFFu64,
                window > 0,
        ;
    }
    Some((total / (window as u128)) as u64)
}

/// Sum over the series of `(n * p - total)^2`: `n^2` times the sum of
/// squared deviations from the mean `total / n`.
pub open spec fn scaled_square_deviations(s: Seq<u64>, n: int, total: int) -> int
    decreases s.len(),
{
    if s.len() == 0 {
        0
    } else {
        scaled_square_deviations(s.drop_last(), n, total) + (n * s.last() - total) * (n * s.last() - total)
    }
}

/// Population variance times `n^3`, where `n` is the length of the series.
pub open spec fn scaled_variance(s: Seq<u64>) -> int {
    scaled_square_deviations(s, s.len() as int, sum(s))
}

/// Population standard deviation, rounded down; absent for fewer than two
/// prices.
pub open spec fn std_dev_of(s: Seq<u64>) -> Option<int> {
    if s.len() < 2 {
        None
    } else {
        Some(floor_sqrt_of(scaled_variance(s) / ((s.len() * s.len() * s.len()) as int)))
    }
}

/// An optional price or rate read as a mathematical integer.
pub open spec fn opt_int(o: Option<u64>) -> Option<int> {
    match o {
        Some(v) => Some(v as int),
        None => None,
    }
}

/// Every price is at most `MAX_PRICE`.
pub open spec fn prices_bounded(s: Seq<u64>) -> bool {
    forall|i: int| 0 <= i < s.len() ==> s[i] <= MAX_PRICE
}

/// Population standard deviation (dividing by `n`) of all prices, rounded
/// down to a whole price unit; `None` for fewer than two prices.
pub fn calculate_std_dev(prices: &[u64]) -> (r: Option<u64>)
    requires
        prices@.len() <= MAX_SERIES_LEN,
        prices_bounded(prices@),
    ensures
        opt_int(r) == std_dev_of(prices@),
{
    let n: usize = prices.len();
    if n < 2 {
        return None;
    }
    let total = sum_range(prices, 0, n);
    proof {
        assert(prices@.subrange(0, n as int) =~= prices@);
        lemma_sum_bound(prices@, MAX_PRICE as int);
        assert(total <= 4096 * MAX_PRICE) by (nonlinear_arith)
            requires
                total <= n * MAX_PRICE,
                n <= 4096,
        ;
    }
    let nn: i128 = n as i128;
    let t: i128 = total as i128;
    let mut acc: u128 = 0;
    let mut i: usize = 0;
    while i < n
        invariant
            n == prices@.len(),
            2 <= n <= MAX_SERIES_LEN,
            nn == n,
            t == sum(prices@),
            0 <= t <= 4096 * MAX_PRICE,
            prices_bounded(prices@),
            i <= n,
            acc == scaled_square_deviations(prices@.subrange(0, i as int), n as int, t as int),
            acc <= i * 0x1_0000_0000_0000_0000_0000_0000_0000int,
        decreases n - i,
    {
        assert(prices@.subrange(0, i + 1).drop_last() =~= prices@.subrange(0, i as int));
        let p: i128 = prices[i] as i128;
        assert(0 <= nn * p <= 4096 * MAX_PRICE) by (nonlinear_arith)
            requires
                0 <= p <= MAX_PRICE,
                2 <= nn <= 4096,
        ;
        let d: i128 = nn * p - t;
        assert(d * d <= 0x1_0000_0000_0000_0000_0000_0000_0000int) by (nonlinear_arith)
            requires
                -4096 * MAX_PRICE <= d <= 4096 * MAX_PRICE,
                MAX_PRICE == 1_099_511_627_776,
        ;
        assert(0 <= d * d) by (nonlinear_arith);
        let sq: u128 = (d * d) as u128;
        assert(acc + sq <= (i + 1) * 0x1_0000_0000_0000_0000_0000_0000_0000int) by (nonlinear_arith)
            requires
                acc <= i * 0x1_0000_0000_0000_0000_0000_0000_0000int,
                sq <= 0x1_0000_0000_0000_0000_0000_0000_0000int,
        ;
        acc = acc + sq;
        i = i + 1;
    }
    assert(prices@.subrange(0, n as int) =~= prices@);
    assert((n as u128) * (n as u128) <= 4096u128 * 4096u128) by (nonlinear_arith)
        requires
            n <= 4096,
    ;
    assert((n as u128) * (n as u128) * (n as u128) <= 4096u128 * 4096u128 * 4096u128) by (nonlinear_arith)
        requires
            n <= 4096,
    ;
    let cube: u128 = (n as u128) * (n as u128) * (n as u128);
    assert(cube >= 8) by (nonlinear_arith)
        requires
            cube == n * n * n,
            n >= 2,
    ;
    let variance: u128 = acc / cube;
    assert(variance <= acc) by (nonlinear_arith)
        requires
            variance == acc / cube,
            cube >= 8,
            acc >= 0,
    ;
    assert(acc <= 0x1000_0000_0000_0000_0000_0000_0000_0000u128) by (nonlinear_arith)
        requires
            acc <= n * 0x1_0000_0000_0000_0000_0000_0000_0000int,
            n <= 4096,
    ;
    Some(floor_sqrt(variance))
}

} // verus!

verus! {

/// Relative change above which (or below whose negation) a single interval
/// counts as a spike, in parts per million (5%).
pub const SPIKE_THRESHOLD_PPM: i64 = 50_000;

/// Number of recent prices the deviation check averages over.
pub const DEVIATION_WINDOW: usize = 20;

/// How many standard deviations from the average count as a deviation.
pub const DEVIATION_MULTIPLIER: u64 = 2;

/// Change from `prev` to `latest` in parts per million of `prev`, rounded
/// toward zero.
pub open spec fn relative_change(prev: int, latest: int) -> int {
    trunc_div((latest - prev) * PPM, prev)
}

/// Change between the last two prices; absent with fewer than two.
pub open spec fn percent_change_of(s: Seq<u64>) -> Option<int> {
    if s.len() < 2 {
        None
    } else {
        Some(relative_change(s[s.len() - 2] as int, s.last() as int))
    }
}

/// An optional signed rate read as a mathematical integer.
pub open spec fn opt_signed(o: Option<i64>) -> Option<int> {
    match o {
        Some(v) => Some(v as int),
        None => None,
    }
}

/// The last two prices are usable as a ratio: both bounded, the earlier one
/// positive.
pub open spec fn change_defined(s: Seq<u64>) -> bool {
    s.len() >= 2 ==> (0 < s[s.len() - 2] <= MAX_PRICE && s.last() <= MAX_PRICE)
}

/// Change between the last two prices in parts per million of the earlier
/// one (10% is `100_000`), rounded toward zero; `None` with fewer than two.
pub fn calculate_percent_change(prices: &[u64]) -> (r: Option<i64>)
    requires
        change_defined(prices@),
    ensures
        opt_signed(r) == percent_change_of(prices@),
{
    let n: usize = prices.len();
    if n < 2 {
        return None;
    }
    let prev: u64 = prices[n - 2];
    let latest: u64 = prices[n - 1];
    let delta: i128 = (latest as i128 - prev as i128) * (PPM as i128);
    assert(-MAX_PRICE * PPM <= delta <= MAX_PRICE * PPM) by (nonlinear_arith)
        requires
            delta == (latest - prev) * PPM,
            0 <= prev <= MAX_PRICE,
            0 <= latest <= MAX_PRICE,
            PPM == 1_000_000,
    ;
    let q: i128 = div_toward_zero(delta, prev as i128);
    assert(abs(q as int) <= abs(delta as int)) by (nonlinear_arith)
        requires
            q == trunc_div(delta as int, prev as int),
            prev >= 1,
    ;
    Some(q as i64)
}

/// The kinds of anomaly a new observation can show.
#[derive(Clone, Copy, Debug, PartialEq, Eq, Structural)]
pub enum AnomalyKind {
    /// The last interval rose by more than the spike threshold.
    SpikeUp,
    /// The last interval fell by more than the spike threshold.
    SpikeDown,
    /// The price lies too many standard deviations from its recent average.
    Deviation,
}

/// The label under which each kind is reported.
pub open spec fn kind_label(k: AnomalyKind) -> Seq<char> {
    match k {
        AnomalyKind::SpikeUp => "SPIKE_UP"@,
        AnomalyKind::SpikeDown => "SPIKE_DOWN"@,
        AnomalyKind::Deviation => "ANOMALY"@,
    }
}

/// First-match classification: spike up, spike down, then deviation from
/// the 20-price average by more than twice the standard deviation.
pub open spec fn classify(s: Seq<u64>, current: int, pct: Option<i64>) -> Option<AnomalyKind> {
    if pct matches Some(p) && p > SPIKE_THRESHOLD_PPM {
        Some(AnomalyKind::SpikeUp)
    } else if pct matches Some(p) && p < -SPIKE_THRESHOLD_PPM {
        Some(AnomalyKind::SpikeDown)
    } else if s.len() >= DEVIATION_WINDOW && abs(
        current - moving_average_of(s, DEVIATION_WINDOW as int).unwrap(),
    ) > DEVIATION_MULTIPLIER * std_dev_of(s).unwrap() {
        Some(AnomalyKind::Deviation)
    } else {
        None
    }
}

/// A classified anomaly with its human-readable description.
#[derive(Debug, Clone)]
pub struct AnomalyResult {
    pub kind: AnomalyKind,
    pub anomaly_type: String,
    pub message: String,
}

/// Text of a spike message: direction, then the size of the move as a
/// percentage with its whole part and hundredths.
pub uninterp spec fn spike_text(direction: Seq<char>, whole: int, hundredths: int) -> Seq<char>;

/// Text of a deviation message: the deviation, the 20-price average and the
/// standard deviation, each as a whole part and hundredths.
pub uninterp spec fn deviation_text(
    dev_whole: int,
    dev_frac: int,
    ma_whole: int,
    ma_frac: int,
    sd_whole: int,
    sd_frac: int,
) -> Seq<char>;

/// Relies on std's `format!` to render a spike description; the text
/// depends on the arguments alone.
#[verifier::external_body]
fn format_spike(direction: &str, whole: u64, hundredths: u64) -> (r: String)
    ensures
        r@ == spike_text(direction@, whole as int, hundredths as int),
{
    format!("Price {} {}.{:02}% in one interval", direction, whole, hundredths)
}

/// Relies on std's `format!` to render a deviation description; the text
/// depends on the arguments alone.
#[verifier::external_body]
fn format_deviation(
    dev_whole: u64,
    dev_frac: u64,
    ma_whole: u64,
    ma_frac: u64,
    sd_whole: u64,
    sd_frac: u64,
) -> (r: String)
    ensures
        r@ == deviation_text(
            dev_whole as int,
            dev_frac as int,
            ma_whole as int,
            ma_frac as int,
            sd_whole as int,
            sd_frac as int,
        ),
{
    format!(
        "Price deviated {}.{:02} from MA20 ({}.{:02}), exceeding 2 std devs ({}.{:02})",
        dev_whole, dev_frac, ma_whole, ma_frac, sd_whole, sd_frac
    )
}

/// A value in hundredths-of-hundredths (price units, or parts per million
/// of a percentage's hundredths) rounded to the nearest hundredth of its
/// unit: the whole part.
pub open spec fn rounded_whole(v: int) -> int {
    (v + 50) / 100 / 100
}

/// The hundredths of `v` rounded to the nearest hundredth of its unit.
pub open spec fn rounded_frac(v: int) -> int {
    (v + 50) / 100 % 100
}

/// The message that accompanies a classification, with every figure
/// rounded to two decimals.
pub open spec fn anomaly_message(
    s: Seq<u64>,
    current: int,
    pct: Option<i64>,
    k: AnomalyKind,
) -> Seq<char> {
    match k {
        AnomalyKind::SpikeUp => spike_text(
            "spiked up"@,
            rounded_whole(pct.unwrap() as int),
            rounded_frac(pct.unwrap() as int),
        ),
        AnomalyKind::SpikeDown => spike_text(
            "dropped"@,
            rounded_whole(-pct.unwrap()),
            rounded_frac(-pct.unwrap()),
        ),
        AnomalyKind::Deviation => {
            let ma = moving_average_of(s, DEVIATION_WINDOW as int).unwrap();
            let sd = std_dev_of(s).unwrap();
            let dev = abs(current - ma);
            deviation_text(
                rounded_whole(dev),
                rounded_frac(dev),
                rounded_whole(ma),
                rounded_frac(ma),
                rounded_whole(sd),
                rounded_frac(sd),
            )
        },
    }
}

/// Splits `v` (ten-thousandths of a unit) into whole units and hundredths,
/// rounded to the nearest hundredth.
fn split_hundredths(v: u64) -> (r: (u64, u64))
    ensures
        r.0 == rounded_whole(v as int),
        r.1 == rounded_frac(v as int),
{
    let h: u128 = (v as u128 + 50) / 100;
    ((h / 100) as u64, (h % 100) as u64)
}

/// Classifies the newest observation of `prices` (whose price is
/// `current_price`, moving by `percent_change` parts per million): a spike
/// when the change passes the threshold either way, otherwise a deviation
/// when at least 20 prices exist and `current_price` lies more than two
/// standard deviations from their 20-price average, otherwise nothing.
pub fn detect_anomaly(prices: &[u64], current_price: u64, percent_change: Option<i64>) -> (r: Option<
    AnomalyResult,
>)
    requires
        prices@.len() <= MAX_SERIES_LEN,
        prices_bounded(prices@),
        current_price <= MAX_PRICE,
    ensures
        r is None <==> classify(prices@, current_price as int, percent_change) is None,
        r matches Some(a) ==> {
            &&& classify(prices@, current_price as int, percent_change) == Some(a.kind)
            &&& a.anomaly_type@ == kind_label(a.kind)
            &&& a.message@ == anomaly_message(prices@, current_price as int, percent_change, a.kind)
        },
{
    if let Some(pct) = percent_change {
        if pct > SPIKE_THRESHOLD_PPM {
            let (whole, frac) = split_hundredths(pct as u64);
            let message = format_spike("spiked up", whole, frac);
            return Some(
                AnomalyResult {
                    kind: AnomalyKind::SpikeUp,
                    anomaly_type: "SPIKE_UP".to_owned(),
                    message,
                },
            );
        }
        if pct < -SPIKE_THRESHOLD_PPM {
            let (whole, frac) = split_hundredths((-(pct as i128)) as u64);
            let message = format_spike("dropped", whole, frac);
            return Some(
                AnomalyResult {
                    kind: AnomalyKind::SpikeDown,
                    anomaly_type: "SPIKE_DOWN".to_owned(),
                    message,
                },
            );
        }
    }
    if prices.len() >= DEVIATION_WINDOW {
        let ma = calculate_moving_average(prices, DEVIATION_WINDOW);
        let sd = calculate_std_dev(prices);
        if let (Some(ma20), Some(std_dev)) = (ma, sd) {
            let deviation: u64 = if current_price >= ma20 {
                current_price - ma20
            } else {
                ma20 - current_price
            };
            if deviation as u128 > (DEVIATION_MULTIPLIER as u128) * (std_dev as u128) {
                let (dw, df) = split_hundredths(deviation);
                let (mw, mf) = split_hundredths(ma20);
                let (sw, sf) = split_hundredths(std_dev);
                let message = format_deviation(dw, df, mw, mf, sw, sf);
                return Some(
                    AnomalyResult {
                        kind: AnomalyKind::Deviation,
                        anomaly_type: "ANOMALY".to_owned(),
                        message,
                    },
                );
            }
        }
    }
    None
}

} // verus!

verus! {

/// With fewer prices than the window there is no moving average; with
/// exactly as many, it is the mean of all of them.
pub proof fn lemma_moving_average_window(s: Seq<u64>, w: int)
    requires
        w > 0,
    ensures
        moving_average_of(s, w) is None <==> s.len() < w,
        s.len() == w ==> moving_average_of(s, w) == Some(sum(s) / (s.len() as int)),
{
    if s.len() == w {
        assert(last_n(s, w) =~= s);
    }
}

/// The standard deviation of fewer than two prices is absent; of two or
/// more it is present.
pub proof fn lemma_std_dev_needs_two(s: Seq<u64>)
    ensures
        s.len() < 2 <==> std_dev_of(s) is None,
{
}

/// Whatever the history and price, a rise past the threshold is a spike up,
/// a fall past it is a spike down, and a change within it leaves only the
/// deviation check, which cannot fire with fewer than 20 prices.
pub proof fn lemma_spike_classification(s: Seq<u64>, current: int, pct: i64)
    ensures
        pct > SPIKE_THRESHOLD_PPM ==> classify(s, current, Some(pct)) == Some(AnomalyKind::SpikeUp),
        pct < -SPIKE_THRESHOLD_PPM ==> classify(s, current, Some(pct)) == Some(
            AnomalyKind::SpikeDown,
        ),
        -SPIKE_THRESHOLD_PPM <= pct <= SPIKE_THRESHOLD_PPM ==> classify(s, current, Some(pct))
            == classify(s, current, None),
        -SPIKE_THRESHOLD_PPM <= pct <= SPIKE_THRESHOLD_PPM && s.len() < DEVIATION_WINDOW ==> classify(
            s,
            current,
            Some(pct),
        ) is None,
{
}

/// Whether the newest price lies more than twice the standard deviation
/// from the 20-price average (only meaningful with at least 20 prices).
pub open spec fn breaches_deviation(s: Seq<u64>, current: int) -> bool {
    s.len() >= DEVIATION_WINDOW && abs(
        current - moving_average_of(s, DEVIATION_WINDOW as int).unwrap(),
    ) > DEVIATION_MULTIPLIER * std_dev_of(s).unwrap()
}

/// Given any history, a 10% rise is a spike up and a 10% fall a spike down;
/// a 2% change is no anomaly unless the price breaches the deviation band.
pub proof fn lemma_ten_and_two_percent(s: Seq<u64>, current: int)
    ensures
        classify(s, current, Some(100_000i64)) == Some(AnomalyKind::SpikeUp),
        kind_label(AnomalyKind::SpikeUp) == "SPIKE_UP"@,
        classify(s, current, Some(-100_000i64)) == Some(AnomalyKind::SpikeDown),
        kind_label(AnomalyKind::SpikeDown) == "SPIKE_DOWN"@,
        !breaches_deviation(s, current) ==> classify(s, current, Some(20_000i64)) is None,
        breaches_deviation(s, current) ==> classify(s, current, Some(20_000i64)) == Some(
            AnomalyKind::Deviation,
        ),
{
}

} // verus!
