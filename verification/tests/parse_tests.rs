use nbp_rates::date::Date;
use nbp_rates::dec::Dec;
use nbp_rates::engine::FetchOutcome;
use nbp_rates::parse::{outcome_from_body, parse_rates_response};

fn date(y: u16, m: u8, d: u8) -> Date {
    Date::new(y, m, d).expect("valid date")
}

const BODY: &str = "{\"table\":\"A\",\"currency\":\"euro\",\"code\":\"EUR\",\"rates\":[{\"no\":\"218/A/NBP/2023\",\"effectiveDate\":\"2023-11-10\",\"mid\":4.4227}]}";

#[test]
fn parses_the_documented_envelope() {
    let resp = parse_rates_response(BODY).expect("parses");
    assert_eq!(resp.table, "A");
    assert_eq!(resp.currency, "euro");
    assert_eq!(resp.code, "EUR");
    assert_eq!(resp.rates.len(), 1);
    let e = resp.first();
    assert_eq!(e.no, "218/A/NBP/2023");
    assert_eq!(e.effective_date, date(2023, 11, 10));
    assert_eq!(e.mid, Dec { mantissa: 44227, scale: 4 });
}

#[test]
fn member_order_does_not_matter() {
    let body = "{\"rates\":[{\"mid\":4.40,\"no\":\"x\",\"effectiveDate\":\"2023-11-10\"}],\"code\":\"EUR\",\"currency\":\"euro\",\"table\":\"A\"}";
    let resp = parse_rates_response(body).expect("parses");
    assert_eq!(resp.first().mid, Dec { mantissa: 440, scale: 2 });
}

#[test]
fn unknown_members_are_tolerated() {
    let body = "{\"table\":\"A\",\"note\":{\"a\":[1,2.5e3,\"s\\u0041\"],\"b\":null,\"c\":true},\"currency\":\"euro\",\"code\":\"EUR\",\"rates\":[{\"no\":\"x\",\"extra\":false,\"effectiveDate\":\"2023-11-10\",\"mid\":4.4227}]}";
    let resp = parse_rates_response(body).expect("parses despite unknown members");
    assert_eq!(resp.first().no, "x");
}

#[test]
fn whitespace_is_tolerated() {
    let body = " {\n \"table\" : \"A\" ,\t\"currency\": \"euro\", \"code\": \"EUR\", \"rates\": [ { \"no\": \"x\", \"effectiveDate\": \"2023-11-10\", \"mid\": 4.4227 } ] }\n";
    assert!(parse_rates_response(body).is_some());
}

#[test]
fn escapes_in_strings_are_decoded() {
    let body = "{\"table\":\"A\",\"currency\":\"a\\\"b\\\\c\\/d\\ne\",\"code\":\"EUR\",\"rates\":[{\"no\":\"x\",\"effectiveDate\":\"2023-11-10\",\"mid\":1}]}";
    let resp = parse_rates_response(body).expect("parses");
    assert_eq!(resp.currency, "a\"b\\c/d\ne");
}

#[test]
fn empty_rates_violates_the_contract() {
    let body = "{\"table\":\"A\",\"currency\":\"euro\",\"code\":\"EUR\",\"rates\":[]}";
    assert!(parse_rates_response(body).is_none());
}

#[test]
fn missing_member_is_rejected() {
    let body = "{\"table\":\"A\",\"currency\":\"euro\",\"rates\":[{\"no\":\"x\",\"effectiveDate\":\"2023-11-10\",\"mid\":1}]}";
    assert!(parse_rates_response(body).is_none());
}

#[test]
fn duplicate_member_is_rejected() {
    let body = "{\"table\":\"A\",\"table\":\"B\",\"currency\":\"euro\",\"code\":\"EUR\",\"rates\":[{\"no\":\"x\",\"effectiveDate\":\"2023-11-10\",\"mid\":1}]}";
    assert!(parse_rates_response(body).is_none());
}

#[test]
fn truncated_body_is_rejected() {
    let body = "{\"table\":\"A\",\"currency\":\"euro\",\"code\":\"EUR\",\"rates\":[{\"no\":\"x\"";
    assert!(parse_rates_response(body).is_none());
}

#[test]
fn trailing_garbage_is_rejected() {
    let body = format!("{} x", BODY);
    assert!(parse_rates_response(&body).is_none());
}

#[test]
fn invalid_date_is_rejected() {
    let body = "{\"table\":\"A\",\"currency\":\"euro\",\"code\":\"EUR\",\"rates\":[{\"no\":\"x\",\"effectiveDate\":\"2023-02-30\",\"mid\":1}]}";
    assert!(parse_rates_response(body).is_none());
}

#[test]
fn mid_keeps_trailing_zeros_exactly() {
    let body = "{\"table\":\"A\",\"currency\":\"euro\",\"code\":\"EUR\",\"rates\":[{\"no\":\"x\",\"effectiveDate\":\"2023-11-10\",\"mid\":4.40}]}";
    let resp = parse_rates_response(body).expect("parses");
    assert_eq!(resp.first().mid, Dec { mantissa: 440, scale: 2 });
}

#[test]
fn negative_and_integer_mids_parse() {
    let body = "{\"table\":\"A\",\"currency\":\"euro\",\"code\":\"EUR\",\"rates\":[{\"no\":\"x\",\"effectiveDate\":\"2023-11-10\",\"mid\":-7}]}";
    let resp = parse_rates_response(body).expect("parses");
    assert_eq!(resp.first().mid, Dec { mantissa: -7, scale: 0 });
}

#[test]
fn successful_body_becomes_a_found_outcome() {
    match outcome_from_body(BODY) {
        FetchOutcome::Found(rec) => {
            assert_eq!(rec.no, "218/A/NBP/2023");
            assert_eq!(rec.effective_date, date(2023, 11, 10));
            assert_eq!(rec.mid, Dec { mantissa: 44227, scale: 4 });
        }
        _ => panic!("expected a record"),
    }
}

#[test]
fn garbage_body_is_malformed() {
    match outcome_from_body("not json at all") {
        FetchOutcome::MalformedResponse => {}
        _ => panic!("expected a malformed-response outcome"),
    }
}

#[test]
fn oversized_mantissa_is_rejected() {
    // One digit beyond the 96-bit mantissa range.
    let body = "{\"table\":\"A\",\"currency\":\"euro\",\"code\":\"EUR\",\"rates\":[{\"no\":\"x\",\"effectiveDate\":\"2023-11-10\",\"mid\":792281625142643375935439503351}]}";
    assert!(parse_rates_response(body).is_none());
}

#[test]
fn more_than_28_fraction_digits_is_rejected() {
    let body = "{\"table\":\"A\",\"currency\":\"euro\",\"code\":\"EUR\",\"rates\":[{\"no\":\"x\",\"effectiveDate\":\"2023-11-10\",\"mid\":1.00000000000000000000000000001}]}";
    assert!(parse_rates_response(body).is_none());
}

#[test]
fn twenty_eight_fraction_digits_parse() {
    let body = "{\"table\":\"A\",\"currency\":\"euro\",\"code\":\"EUR\",\"rates\":[{\"no\":\"x\",\"effectiveDate\":\"2023-11-10\",\"mid\":0.0000000000000000000000000001}]}";
    let resp = parse_rates_response(body).expect("parses");
    assert_eq!(resp.first().mid, Dec { mantissa: 1, scale: 28 });
}
