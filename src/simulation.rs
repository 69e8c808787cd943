use vstd::prelude::*;
use vstd::string::StrSliceExecFns;
use crate::analysis::{
    anomaly_message, calculate_moving_average, calculate_percent_change, classify, detect_anomaly, kind_label,
    moving_average_of, opt_int, opt_signed, percent_change_of, prices_bounded, change_defined,
};
use crate::fixed::MAX_PRICE;
use crate::price_generator::{
    in_band, stepped_price, MEAN_REVERSION_SPEED_PPM, stepped_volume, total_move, valid_draws, PriceDraws, PriceGenerator,
};
use crate::window::{keep_last, PricePoint, RollingWindow, WINDOW_CAPACITY};

verus! {

/// Volatility of crypto instruments (2%), in parts per million.
pub const CRYPTO_VOLATILITY_PPM: u64 = 20_000;

/// Volatility of every other instrument (0.5%), in parts per million.
pub const DEFAULT_VOLATILITY_PPM: u64 = 5_000;

/// Windows of the short and long moving averages.
pub const SHORT_AVERAGE_WINDOW: usize = 5;

pub const LONG_AVERAGE_WINDOW: usize = 20;

/// Whether two strings hold the same characters.
pub fn str_equals(a: &str, b: &str) -> (r: bool)
    ensures
        r == (a@ == b@),
{
    let n = a.unicode_len();
    if n != b.unicode_len() {
        return false;
    }
    let mut i: usize = 0;
    while i < n
        invariant
            n == a@.len() == b@.len(),
            i <= n,
            forall|j: int| 0 <= j < i ==> a@[j] == b@[j],
        decreases n - i,
    {
        if a.get_char(i) != b.get_char(i) {
            return false;
        }
        i = i + 1;
    }
    assert(a@ =~= b@);
    true
}

/// Starting price (in price units) of an instrument of the given category.
pub open spec fn seed_price(ticker: Seq<char>, symbol_type: Seq<char>) -> int {
    if symbol_type == "CRYPTO"@ {
        if ticker == "BTC"@ {
            420_000_000
        } else if ticker == "ETH"@ {
            22_000_000
        } else if ticker == "SOL"@ {
            1_000_000
        } else {
            500_000
        }
    } else if symbol_type == "STOCK"@ {
        if ticker == "AAPL"@ {
            1_850_000
        } else if ticker == "GOOGL"@ {
            1_400_000
        } else if ticker == "MSFT"@ {
            3_750_000
        } else if ticker == "AMZN"@ {
            1_550_000
        } else if ticker == "TSLA"@ {
            2_500_000
        } else {
            1_000_000
        }
    } else {
        1_000_000
    }
}

/// Volatility (parts per million) of an instrument of the given category.
pub open spec fn seed_volatility(symbol_type: Seq<char>) -> int {
    if symbol_type == "CRYPTO"@ {
        CRYPTO_VOLATILITY_PPM as int
    } else {
        DEFAULT_VOLATILITY_PPM as int
    }
}

/// Starting price (price units) and volatility (parts per million) for an
/// instrument, by its category and ticker.
pub fn initial_conditions(ticker: &str, symbol_type: &str) -> (r: (u64, u64))
    ensures
        r.0 == seed_price(ticker@, symbol_type@),
        r.1 == seed_volatility(symbol_type@),
{
    if str_equals(symbol_type, "CRYPTO") {
        let price: u64 = if str_equals(ticker, "BTC") {
            420_000_000
        } else if str_equals(ticker, "ETH") {
            22_000_000
        } else if str_equals(ticker, "SOL") {
            1_000_000
        } else {
            500_000
        };
        (price, CRYPTO_VOLATILITY_PPM)
    } else if str_equals(symbol_type, "STOCK") {
        let price: u64 = if str_equals(ticker, "AAPL") {
            1_850_000
        } else if str_equals(ticker, "GOOGL") {
            1_400_000
        } else if str_equals(ticker, "MSFT") {
            3_750_000
        } else if str_equals(ticker, "AMZN") {
            1_550_000
        } else if str_equals(ticker, "TSLA") {
            2_500_000
        } else {
            1_000_000
        };
        (price, DEFAULT_VOLATILITY_PPM)
    } else {
        (1_000_000, DEFAULT_VOLATILITY_PPM)
    }
}

/// Upper-case form of a string.
pub uninterp spec fn upper_of(s: Seq<char>) -> Seq<char>;

/// Relies on std's `str::to_uppercase`: the result depends on the
/// characters alone.
#[verifier::external_body]
fn uppercase(s: &str) -> (r: String)
    ensures
        r@ == upper_of(s@),
{
    s.to_uppercase()
}

/// Relies on chrono's `Utc::now().timestamp_millis()`: the current time in
/// milliseconds since the Unix epoch. Nothing is promised of its value.
#[verifier::external_body]
fn now_millis() -> (r: i64) {
    chrono::Utc::now().timestamp_millis()
}

/// What is sent downstream for one instrument on one tick.
#[derive(Debug, Clone)]
pub struct AnalyticsRecord {
    pub ticker: String,
    pub price: u64,
    pub volume: u64,
    pub moving_average_5: Option<u64>,
    pub moving_average_20: Option<u64>,
    pub percent_change: Option<i64>,
    pub timestamp_ms: i64,
    pub is_anomaly: bool,
    pub anomaly_type: Option<String>,
    pub anomaly_message: Option<String>,
}

/// The prices of a history, oldest first.
pub open spec fn price_series(h: Seq<PricePoint>) -> Seq<u64> {
    Seq::new(h.len(), |i: int| h[i].price)
}

/// `rec` reports the newest observation of `history` for `ticker`, with the
/// analytics of the whole history.
pub open spec fn record_describes(rec: AnalyticsRecord, ticker: Seq<char>, history: Seq<PricePoint>) -> bool {
    let prices = price_series(history);
    let k = classify(prices, rec.price as int, rec.percent_change);
    &&& rec.ticker@ == ticker
    &&& history.len() > 0
    &&& rec.price == history.last().price
    &&& rec.volume == history.last().volume
    &&& rec.timestamp_ms == history.last().timestamp_ms
    &&& opt_int(rec.moving_average_5) == moving_average_of(prices, SHORT_AVERAGE_WINDOW as int)
    &&& opt_int(rec.moving_average_20) == moving_average_of(prices, LONG_AVERAGE_WINDOW as int)
    &&& opt_signed(rec.percent_change) == percent_change_of(prices)
    &&& rec.is_anomaly == (k is Some)
    &&& (k is None ==> rec.anomaly_type is None && rec.anomaly_message is None)
    &&& (k matches Some(kind) ==> (rec.anomaly_type matches Some(t) && t@ == kind_label(kind)))
    &&& (k matches Some(kind) ==> (rec.anomaly_message matches Some(m) && m@ == anomaly_message(
        prices,
        rec.price as int,
        rec.percent_change,
        kind,
    )))
}

/// One tracked instrument: its price process and its recent history.
pub struct Instrument {
    ticker: String,
    generator: PriceGenerator,
    history: RollingWindow,
}

impl Instrument {
    pub closed spec fn ticker_view(&self) -> Seq<char> {
        self.ticker@
    }

    pub closed spec fn history_view(&self) -> Seq<PricePoint> {
        self.history@
    }

    pub closed spec fn base(&self) -> int {
        self.generator.base()
    }

    /// Current price of the instrument's price process.
    pub closed spec fn current(&self) -> int {
        self.generator.current()
    }

    /// Volatility in parts per million.
    pub closed spec fn vol(&self) -> int {
        self.generator.vol()
    }

    /// Mean reversion speed in parts per million.
    pub closed spec fn speed(&self) -> int {
        self.generator.speed()
    }

    /// `price` and `volume` are what one step of this instrument's price
    /// process can produce from some valid random draw.
    pub closed spec fn can_step_to(&self, price: int, volume: int) -> bool {
        let g = self.generator;
        exists|d: PriceDraws|
            valid_draws(d) && #[trigger] stepped_price(g.current(), g.base(), g.vol(), g.speed(), d)
                == price && volume == stepped_volume(
                total_move(g.current(), g.base(), g.vol(), g.speed(), d),
                d.base_volume as int,
            )
    }

    pub closed spec fn wf(&self) -> bool {
        &&& self.generator.wf()
        &&& self.history.wf()
        &&& self.history.cap() == WINDOW_CAPACITY
        &&& forall|i: int|
            0 <= i < self.history@.len() ==> in_band(
                #[trigger] self.history@[i].price as int,
                self.generator.base(),
            )
    }

    /// A new instrument seeded from its ticker and category, with an empty
    /// history.
    pub fn new(ticker: String, symbol_type: &str) -> (r: Self)
        ensures
            r.wf(),
            r.ticker_view() == ticker@,
            r.history_view() == Seq::<PricePoint>::empty(),
            r.base() == seed_price(ticker@, symbol_type@),
            r.current() == r.base(),
            r.vol() == seed_volatility(symbol_type@),
            r.speed() == MEAN_REVERSION_SPEED_PPM,
    {
        let (price, volatility) = initial_conditions(ticker.as_str(), symbol_type);
        Instrument {
            ticker,
            generator: PriceGenerator::new(price, volatility),
            history: RollingWindow::new(WINDOW_CAPACITY),
        }
    }

    pub fn ticker(&self) -> (r: &String)
        ensures
            r@ == self.ticker_view(),
    {
        &self.ticker
    }

    /// The newest observation, if any.
    pub fn latest(&self) -> (r: Option<PricePoint>)
        ensures
            r == (if self.history_view().len() == 0 {
                None
            } else {
                Some(self.history_view().last())
            }),
    {
        self.history.latest()
    }

    /// The prices of the history, oldest first.
    pub fn prices(&self) -> (r: Vec<u64>)
        requires
            self.wf(),
        ensures
            r@ == price_series(self.history_view()),
    {
        let r = self.history.prices();
        assert(r@ =~= price_series(self.history@));
        r
    }

    /// Appends `point` to the history and reports it with the analytics of
    /// the updated history.
    pub fn record(&mut self, point: PricePoint) -> (r: AnalyticsRecord)
        requires
            old(self).wf(),
            in_band(point.price as int, old(self).base()),
        ensures
            final(self).wf(),
            final(self).ticker_view() == old(self).ticker_view(),
            final(self).base() == old(self).base(),
            final(self).current() == old(self).current(),
            final(self).vol() == old(self).vol(),
            final(self).speed() == old(self).speed(),
            final(self).history_view() == keep_last(
                old(self).history_view().push(point),
                WINDOW_CAPACITY as int,
            ),
            record_describes(r, final(self).ticker_view(), final(self).history_view()),
    {
        self.history.push(point);
        let prices = self.history.prices();
        let ghost base = self.generator.base();
        assert(prices@ =~= price_series(self.history@));
        assert forall|i: int| 0 <= i < self.history@.len() implies in_band(
            #[trigger] self.history@[i].price as int,
            base,
        ) by {
            let s = old(self).history@.push(point);
            if s.len() > WINDOW_CAPACITY {
                assert(self.history@[i] == s[i + s.len() - WINDOW_CAPACITY]);
            } else {
                assert(self.history@[i] == s[i]);
            }
        }
        proof {
            self.generator.lemma_wf_bounds();
        }
        assert forall|i: int| 0 <= i < prices@.len() implies 0 < #[trigger] prices@[i] <= MAX_PRICE by {
            assert(in_band(self.history@[i].price as int, base));
            assert(prices@[i] == self.history@[i].price);
        }
        assert(prices_bounded(prices@));
        assert(change_defined(prices@));
        let ma5 = calculate_moving_average(prices.as_slice(), SHORT_AVERAGE_WINDOW);
        let ma20 = calculate_moving_average(prices.as_slice(), LONG_AVERAGE_WINDOW);
        let percent_change = calculate_percent_change(prices.as_slice());
        let anomaly = detect_anomaly(prices.as_slice(), point.price, percent_change);
        let (is_anomaly, anomaly_type, anomaly_message) = match anomaly {
            Some(a) => (true, Some(a.anomaly_type), Some(a.message)),
            None => (false, None, None),
        };
        AnalyticsRecord {
            ticker: self.ticker.clone(),
            price: point.price,
            volume: point.volume,
            moving_average_5: ma5,
            moving_average_20: ma20,
            percent_change,
            timestamp_ms: point.timestamp_ms,
            is_anomaly,
            anomaly_type,
            anomaly_message,
        }
    }

    /// Generates the next observation at the current time, appends it and
    /// reports it. The new price stays in the band around the base and the
    /// volume is positive.
    pub fn advance(&mut self) -> (r: AnalyticsRecord)
        requires
            old(self).wf(),
        ensures
            final(self).wf(),
            final(self).ticker_view() == old(self).ticker_view(),
            final(self).base() == old(self).base(),
            final(self).vol() == old(self).vol(),
            final(self).speed() == old(self).speed(),
            final(self).current() == r.price,
            final(self).history_view() == keep_last(
                old(self).history_view().push(final(self).history_view().last()),
                WINDOW_CAPACITY as int,
            ),
            record_describes(r, final(self).ticker_view(), final(self).history_view()),
            in_band(r.price as int, final(self).base()),
            r.volume > 0,
            old(self).can_step_to(r.price as int, r.volume as int),
    {
        let (price, volume) = self.generator.next_price();
        let timestamp_ms = now_millis();
        let point = PricePoint { price, volume, timestamp_ms };
        let r = self.record(point);
        proof {
            let s = old(self).history@.push(point);
            assert(keep_last(s, WINDOW_CAPACITY as int).last() == point);
        }
        r
    }
}

} // verus!

verus! {

/// The table of tracked instruments, swept once per tick.
pub struct Simulation {
    instruments: Vec<Instrument>,
}

impl Simulation {
    pub closed spec fn entries(&self) -> Seq<Instrument> {
        self.instruments@
    }

    /// Every instrument is well formed and tickers are unique.
    pub open spec fn wf(&self) -> bool {
        &&& forall|i: int| 0 <= i < self.entries().len() ==> (#[trigger] self.entries()[i]).wf()
        &&& forall|i: int, j: int|
            0 <= i < self.entries().len() && 0 <= j < self.entries().len() && i != j
                ==> (#[trigger] self.entries()[i]).ticker_view()
                != (#[trigger] self.entries()[j]).ticker_view()
    }

    /// Some instrument has this ticker.
    pub open spec fn tracks(&self, ticker: Seq<char>) -> bool {
        exists|i: int| 0 <= i < self.entries().len() && (#[trigger] self.entries()[i]).ticker_view() == ticker
    }

    /// An empty table.
    pub fn new() -> (r: Self)
        ensures
            r.wf(),
            r.entries() == Seq::<Instrument>::empty(),
    {
        Simulation { instruments: Vec::new() }
    }

    pub fn len(&self) -> (r: usize)
        ensures
            r == self.entries().len(),
    {
        self.instruments.len()
    }

    /// Position of the instrument with this ticker, if tracked.
    pub fn find(&self, ticker: &str) -> (r: Option<usize>)
        ensures
            r matches Some(i) ==> i < self.entries().len() && self.entries()[i as int].ticker_view()
                == ticker@,
            r is None ==> !self.tracks(ticker@),
    {
        let mut i: usize = 0;
        while i < self.instruments.len()
            invariant
                i <= self.instruments@.len(),
                forall|j: int| 0 <= j < i ==> (#[trigger] self.instruments@[j]).ticker_view() != ticker@,
            decreases self.instruments@.len() - i,
        {
            if str_equals(self.instruments[i].ticker().as_str(), ticker) {
                return Some(i);
            }
            i = i + 1;
        }
        None
    }

    /// Starts tracking `ticker`, seeded by its category; an instrument
    /// already tracked under that ticker starts afresh.
    pub fn add_instrument(&mut self, ticker: String, symbol_type: &str)
        requires
            old(self).wf(),
        ensures
            final(self).wf(),
            final(self).entries().len() == old(self).entries().len() + if old(self).tracks(ticker@) {
                0int
            } else {
                1int
            },
            exists|i: int|
                0 <= i < final(self).entries().len() && (#[trigger] final(self).entries()[i]).ticker_view()
                    == ticker@ && final(self).entries()[i].history_view() == Seq::<PricePoint>::empty()
                    && final(self).entries()[i].base() == seed_price(ticker@, symbol_type@)
                    && final(self).entries()[i].current() == final(self).entries()[i].base()
                    && final(self).entries()[i].vol() == seed_volatility(symbol_type@)
                    && final(self).entries()[i].speed() == MEAN_REVERSION_SPEED_PPM,
            forall|j: int|
                0 <= j < old(self).entries().len() && (#[trigger] old(self).entries()[j]).ticker_view()
                    != ticker@ ==> final(self).entries()[j] == old(self).entries()[j],
    {
        let found = self.find(ticker.as_str());
        let ghost t = ticker@;
        let inst = Instrument::new(ticker, symbol_type);
        match found {
            Some(i) => {
                self.instruments.set(i, inst);
                assert(final(self).entries()[i as int].ticker_view() == t);
            },
            None => {
                self.instruments.push(inst);
                let ghost last = (final(self).entries().len() - 1) as int;
                assert(final(self).entries()[last].ticker_view() == t);
            },
        }
    }

    /// The newest observation of the instrument with this ticker; `None`
    /// when it is not tracked or has no history yet.
    pub fn latest_price(&self, ticker: &str) -> (r: Option<PricePoint>)
        requires
            self.wf(),
        ensures
            !self.tracks(ticker@) ==> r is None,
            forall|i: int|
                0 <= i < self.entries().len() && (#[trigger] self.entries()[i]).ticker_view() == ticker@
                    ==> r == (if self.entries()[i].history_view().len() == 0 {
                    None
                } else {
                    Some(self.entries()[i].history_view().last())
                }),
    {
        match self.find(ticker) {
            Some(i) => self.instruments[i].latest(),
            None => None,
        }
    }

    /// The newest observation of the instrument whose ticker is the
    /// upper-case form of `ticker`; `None` when none is tracked or it has
    /// no history yet.
    pub fn latest_price_any_case(&self, ticker: &str) -> (r: Option<PricePoint>)
        requires
            self.wf(),
        ensures
            !self.tracks(upper_of(ticker@)) ==> r is None,
            forall|i: int|
                0 <= i < self.entries().len() && (#[trigger] self.entries()[i]).ticker_view()
                    == upper_of(ticker@) ==> r == (if self.entries()[i].history_view().len() == 0 {
                    None
                } else {
                    Some(self.entries()[i].history_view().last())
                }),
    {
        let upper = uppercase(ticker);
        self.latest_price(upper.as_str())
    }

    /// The price history of the instrument with this ticker, oldest first;
    /// empty when it is not tracked.
    pub fn snapshot(&self, ticker: &str) -> (r: Vec<u64>)
        requires
            self.wf(),
        ensures
            !self.tracks(ticker@) ==> r@.len() == 0,
            forall|i: int|
                0 <= i < self.entries().len() && (#[trigger] self.entries()[i]).ticker_view() == ticker@
                    ==> r@ == price_series(self.entries()[i].history_view()),
    {
        match self.find(ticker) {
            Some(i) => self.instruments[i].prices(),
            None => Vec::new(),
        }
    }

    /// One sweep: every instrument, in table order, draws its next
    /// observation, appends it to its history and is reported with fresh
    /// analytics.
    pub fn tick(&mut self) -> (r: Vec<AnalyticsRecord>)
        requires
            old(self).wf(),
        ensures
            final(self).wf(),
            final(self).entries().len() == old(self).entries().len(),
            r@.len() == old(self).entries().len(),
            forall|i: int|
                0 <= i < r@.len() ==> {
                    let before = #[trigger] old(self).entries()[i];
                    let after = final(self).entries()[i];
                    &&& after.ticker_view() == before.ticker_view()
                    &&& after.base() == before.base()
                    &&& after.vol() == before.vol()
                    &&& after.speed() == before.speed()
                    &&& after.current() == r@[i].price
                    &&& after.history_view() == keep_last(
                        before.history_view().push(after.history_view().last()),
                        WINDOW_CAPACITY as int,
                    )
                    &&& record_describes(r@[i], after.ticker_view(), after.history_view())
                    &&& in_band(r@[i].price as int, after.base())
                    &&& r@[i].volume > 0
                    &&& before.can_step_to(r@[i].price as int, r@[i].volume as int)
                },
    {
        let mut records: Vec<AnalyticsRecord> = Vec::new();
        let mut i: usize = 0;
        let n = self.instruments.len();
        while i < n
            invariant
                n == old(self).entries().len() == self.entries().len(),
                i <= n,
                records@.len() == i,
                forall|j: int| i <= j < n ==> self.entries()[j] == old(self).entries()[j],
                forall|j: int| 0 <= j < n ==> (#[trigger] self.entries()[j]).wf(),
                forall|j: int|
                    0 <= j < n ==> (#[trigger] self.entries()[j]).ticker_view() == old(
                        self,
                    ).entries()[j].ticker_view(),
                old(self).wf(),
                forall|j: int|
                    0 <= j < i ==> {
                        let before = #[trigger] old(self).entries()[j];
                        let after = self.entries()[j];
                        &&& after.base() == before.base()
                        &&& after.vol() == before.vol()
                        &&& after.speed() == before.speed()
                        &&& after.current() == records@[j].price
                        &&& after.history_view() == keep_last(
                            before.history_view().push(after.history_view().last()),
                            WINDOW_CAPACITY as int,
                        )
                        &&& record_describes(records@[j], after.ticker_view(), after.history_view())
                        &&& in_band(records@[j].price as int, after.base())
                        &&& records@[j].volume > 0
                        &&& before.can_step_to(records@[j].price as int, records@[j].volume as int)
                    },
            decreases n - i,
        {
            let rec = self.instruments[i].advance();
            records.push(rec);
            i = i + 1;
        }
        records
    }
}

} // verus!
