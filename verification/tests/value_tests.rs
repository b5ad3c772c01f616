use nbp_rates::convert::convert;
use nbp_rates::date::Date;
use nbp_rates::dec::Dec;
use nbp_rates::model::{RatesRateEntry, RatesRequest};
use nbp_rates::render::{date_string, dec_string, details_line, request_path};
use nbp_rates::ErrExt;

fn date(y: u16, m: u8, d: u8) -> Date {
    Date::new(y, m, d).expect("valid date")
}

fn dec(mantissa: i128, scale: u32) -> Dec {
    Dec { mantissa, scale }
}

fn entry(mid: Dec) -> RatesRateEntry {
    RatesRateEntry {
        no: "218/A/NBP/2023".to_string(),
        effective_date: date(2023, 11, 10),
        mid,
    }
}

#[test]
fn conversion_is_exact() {
    // convert({midRate: 4.4227}, 1) = 4.4227 and with 2 = 8.8454, exactly.
    let one = convert(entry(dec(44227, 4)), dec(1, 0)).expect("no overflow");
    assert_eq!(one.converted_value, dec(44227, 4));
    assert_eq!(dec_string(one.converted_value), "4.4227");
    let two = convert(entry(dec(44227, 4)), dec(2, 0)).expect("no overflow");
    assert_eq!(two.converted_value, dec(88454, 4));
    assert_eq!(dec_string(two.converted_value), "8.8454");
}

#[test]
fn conversion_multiplies_scales_exactly() {
    // 4.40 * 2.5 = 11.000 with no drift: mantissas multiply, scales add.
    let o = convert(entry(dec(440, 2)), dec(25, 1)).expect("no overflow");
    assert_eq!(o.converted_value, dec(11000, 3));
    assert_eq!(dec_string(o.converted_value), "11.000");
}

#[test]
fn conversion_accepts_zero_and_negative_amounts() {
    let z = convert(entry(dec(44227, 4)), dec(0, 0)).expect("no overflow");
    assert_eq!(dec_string(z.converted_value), "0.0000");
    let n = convert(entry(dec(44227, 4)), dec(-3, 0)).expect("no overflow");
    assert_eq!(dec_string(n.converted_value), "-13.2681");
}

#[test]
fn decimals_render_with_full_scale() {
    assert_eq!(dec_string(dec(440, 2)), "4.40");
    assert_eq!(dec_string(dec(5, 2)), "0.05");
    assert_eq!(dec_string(dec(0, 0)), "0");
    assert_eq!(dec_string(dec(-5, 1)), "-0.5");
    assert_eq!(dec_string(dec(123, 0)), "123");
}

#[test]
fn dates_validate_and_render() {
    assert!(Date::new(2023, 2, 29).is_none());
    assert!(Date::new(2024, 2, 29).is_some());
    assert!(Date::new(2023, 13, 1).is_none());
    assert!(Date::new(2023, 0, 1).is_none());
    assert!(Date::new(2023, 4, 31).is_none());
    assert_eq!(date_string(date(2023, 11, 10)), "2023-11-10");
    assert_eq!(date_string(date(987, 1, 2)), "0987-01-02");
}

#[test]
fn predecessor_steps_one_day() {
    assert_eq!(date(2024, 3, 1).pred(), Some(date(2024, 2, 29)));
    assert_eq!(date(2023, 3, 1).pred(), Some(date(2023, 2, 28)));
    assert_eq!(date(2023, 1, 1).pred(), Some(date(2022, 12, 31)));
    assert_eq!(date(2023, 11, 10).pred(), Some(date(2023, 11, 9)));
    assert_eq!(date(1, 1, 1).pred(), None);
}

#[test]
fn request_path_is_canonical() {
    let q = RatesRequest::new("A".to_string(), "EUR".to_string(), date(2023, 11, 10));
    assert_eq!(request_path(&q), "/api/exchangerates/rates/A/EUR/2023-11-10");
}

#[test]
fn details_line_renders_the_documented_example() {
    // Scenario A's detailed output.
    let line = details_line(
        dec(1, 0),
        "EUR",
        dec(44227, 4),
        date(2023, 11, 10),
        "A",
        "218/A/NBP/2023",
    );
    assert_eq!(line, "1 EUR = 4.4227 PLN (2023-11-10, tab. A, 218/A/NBP/2023)");
}

#[test]
fn error_context_wraps() {
    let wrapped = "connection refused".to_string().wrap_err("sending request");
    assert_eq!(wrapped, "sending request: connection refused");
}
