use nbp_rates::date::Date;
use nbp_rates::dec::Dec;
use nbp_rates::engine::{FallbackSearchEngine, FallbackSearchResult, FetchOutcome};
use nbp_rates::model::RatesRateEntry;

fn date(y: u16, m: u8, d: u8) -> Date {
    Date::new(y, m, d).expect("valid date")
}

fn dec(mantissa: i128, scale: u32) -> Dec {
    Dec { mantissa, scale }
}

fn entry(no: &str, d: Date, mid: Dec) -> RatesRateEntry {
    RatesRateEntry { no: no.to_string(), effective_date: d, mid }
}

#[test]
fn trading_day_hits_at_once() {
    // Scenario A: the target itself is a trading day: zero fallback hops.
    let target = date(2023, 11, 10);
    let mut engine = FallbackSearchEngine::new("A".to_string(), "EUR".to_string(), target, 7);
    let q = engine.current_query();
    assert_eq!(q.table_name, "A");
    assert_eq!(q.currency_code, "EUR");
    assert_eq!(q.date, target);
    let rec = entry("218/A/NBP/2023", target, dec(44227, 4));
    match engine.on_outcome(FetchOutcome::Found(rec)) {
        Some(FallbackSearchResult::Found(r)) => {
            assert_eq!(r.no, "218/A/NBP/2023");
            assert_eq!(r.effective_date, target);
            assert_eq!(r.mid, dec(44227, 4));
        }
        _ => panic!("expected an accepted record"),
    }
}

#[test]
fn saturday_falls_back_to_friday() {
    // Scenario B: Saturday has no data, Friday has 4.40.
    let saturday = date(2023, 11, 11);
    let friday = date(2023, 11, 10);
    let mut engine = FallbackSearchEngine::new("A".to_string(), "EUR".to_string(), saturday, 7);
    assert_eq!(engine.current_query().date, saturday);
    assert!(engine.on_outcome(FetchOutcome::NotFound).is_none());
    assert_eq!(engine.current_query().date, friday);
    let rec = entry("217/A/NBP/2023", friday, dec(440, 2));
    match engine.on_outcome(FetchOutcome::Found(rec)) {
        Some(FallbackSearchResult::Found(r)) => {
            assert_eq!(r.effective_date, friday);
            assert_eq!(r.mid, dec(440, 2));
        }
        _ => panic!("expected Friday's record"),
    }
}

#[test]
fn single_day_window_exhausts() {
    // Scenario C: the window holds the Saturday alone and it fails.
    let saturday = date(2023, 11, 11);
    let mut engine = FallbackSearchEngine::new("A".to_string(), "EUR".to_string(), saturday, 0);
    match engine.on_outcome(FetchOutcome::NotFound) {
        Some(FallbackSearchResult::WindowExhausted(attempted)) => {
            assert_eq!(attempted, vec![saturday]);
        }
        _ => panic!("expected exhaustion"),
    }
}

#[test]
fn unknown_currency_exhausts_whole_window() {
    // Scenario D: an unknown currency fails on every candidate day.
    let target = date(2023, 11, 10);
    let mut engine = FallbackSearchEngine::new("A".to_string(), "ZZZ".to_string(), target, 2);
    assert!(engine.on_outcome(FetchOutcome::NotFound).is_none());
    assert!(engine.on_outcome(FetchOutcome::NotFound).is_none());
    match engine.on_outcome(FetchOutcome::NotFound) {
        Some(FallbackSearchResult::WindowExhausted(attempted)) => {
            assert_eq!(
                attempted,
                vec![date(2023, 11, 10), date(2023, 11, 9), date(2023, 11, 8)]
            );
        }
        _ => panic!("expected exhaustion"),
    }
}

#[test]
fn window_crosses_leap_day() {
    let target = date(2024, 3, 1);
    let mut engine = FallbackSearchEngine::new("A".to_string(), "EUR".to_string(), target, 2);
    assert!(engine.on_outcome(FetchOutcome::TransportFailure).is_none());
    assert_eq!(engine.current_query().date, date(2024, 2, 29));
    assert!(engine.on_outcome(FetchOutcome::MalformedResponse).is_none());
    match engine.on_outcome(FetchOutcome::NotFound) {
        Some(FallbackSearchResult::WindowExhausted(attempted)) => {
            assert_eq!(
                attempted,
                vec![date(2024, 3, 1), date(2024, 2, 29), date(2024, 2, 28)]
            );
        }
        _ => panic!("expected exhaustion"),
    }
}

#[test]
fn window_crosses_year_boundary() {
    let target = date(2023, 1, 1);
    let mut engine = FallbackSearchEngine::new("A".to_string(), "EUR".to_string(), target, 1);
    assert!(engine.on_outcome(FetchOutcome::NotFound).is_none());
    assert_eq!(engine.current_query().date, date(2022, 12, 31));
}

#[test]
fn future_dated_record_is_rejected() {
    // A record published after the target violates the schema's meaning and
    // is treated as a failure for that day, never returned.
    let target = date(2023, 11, 10);
    let mut engine = FallbackSearchEngine::new("A".to_string(), "EUR".to_string(), target, 0);
    let rec = entry("x", date(2023, 11, 11), dec(1, 0));
    match engine.on_outcome(FetchOutcome::Found(rec)) {
        Some(FallbackSearchResult::WindowExhausted(attempted)) => {
            assert_eq!(attempted, vec![target]);
        }
        _ => panic!("a future-dated record must not be accepted"),
    }
}

#[test]
fn window_stops_at_calendar_floor() {
    let target = date(1, 1, 2);
    let mut engine = FallbackSearchEngine::new("A".to_string(), "EUR".to_string(), target, 5);
    assert!(engine.on_outcome(FetchOutcome::NotFound).is_none());
    match engine.on_outcome(FetchOutcome::NotFound) {
        Some(FallbackSearchResult::WindowExhausted(attempted)) => {
            assert_eq!(attempted, vec![date(1, 1, 2), date(1, 1, 1)]);
        }
        _ => panic!("expected exhaustion at the calendar floor"),
    }
}

#[test]
fn identical_searches_end_identically() {
    // Two searches with identical inputs against one unchanged dataset.
    let target = date(2023, 11, 11);
    let friday = date(2023, 11, 10);
    let run = || {
        let mut engine =
            FallbackSearchEngine::new("A".to_string(), "EUR".to_string(), target, 7);
        engine.on_outcome(FetchOutcome::NotFound);
        match engine.on_outcome(FetchOutcome::Found(entry("217/A/NBP/2023", friday, dec(440, 2))))
        {
            Some(FallbackSearchResult::Found(r)) => (r.no, r.effective_date, r.mid),
            _ => panic!("expected a record"),
        }
    };
    assert_eq!(run(), run());
}
