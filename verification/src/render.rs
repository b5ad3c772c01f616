//! Rendering: request paths, dates, exact decimals, and the detailed
//! output line.

use vstd::prelude::*;
use vstd::string::StringExecFns;
use crate::date::{Date, date_wf};
use crate::dec::Dec;
use crate::model::RatesRequest;

verus! {

/// The digit character for `d` in `0..=9`.
pub open spec fn digit_char(d: int) -> char {
    if d == 0 {
        '0'
    } else if d == 1 {
        '1'
    } else if d == 2 {
        '2'
    } else if d == 3 {
        '3'
    } else if d == 4 {
        '4'
    } else if d == 5 {
        '5'
    } else if d == 6 {
        '6'
    } else if d == 7 {
        '7'
    } else if d == 8 {
        '8'
    } else {
        '9'
    }
}

/// The decimal digits of `n`, most significant first, `"0"` for zero.
pub open spec fn digits_of(n: int) -> Seq<char>
    decreases n,
{
    if n < 10 {
        seq![digit_char(n)]
    } else {
        digits_of(n / 10).push(digit_char(n % 10))
    }
}

/// The digits of `n` with a decimal point placed before the last `s` of
/// them, zero-padded as needed: `scaled_chars(5, 2)` is `"0.05"`.
pub open spec fn scaled_chars(n: int, s: nat) -> Seq<char>
    decreases s,
{
    if s == 0 {
        digits_of(n) + seq!['.']
    } else {
        scaled_chars(n / 10, (s - 1) as nat).push(digit_char(n % 10))
    }
}

/// How a decimal is written: optional minus, then the mantissa digits with
/// the point placed by the scale; the scale's full width is kept, so
/// `Dec { mantissa: 440, scale: 2 }` is written `"4.40"`.
pub open spec fn dec_chars(d: Dec) -> Seq<char> {
    let a = if d.mantissa < 0 {
        -(d.mantissa as int)
    } else {
        d.mantissa as int
    };
    let sign: Seq<char> = if d.mantissa < 0 {
        seq!['-']
    } else {
        Seq::<char>::empty()
    };
    if d.scale == 0 {
        sign + digits_of(a)
    } else {
        sign + scaled_chars(a, d.scale as nat)
    }
}

/// A date written `YYYY-MM-DD`.
pub open spec fn date_chars(d: Date) -> Seq<char> {
    seq![
        digit_char(d.year as int / 1000),
        digit_char(d.year as int / 100 % 10),
        digit_char(d.year as int / 10 % 10),
        digit_char(d.year as int % 10),
        '-',
        digit_char(d.month as int / 10),
        digit_char(d.month as int % 10),
        '-',
        digit_char(d.day as int / 10),
        digit_char(d.day as int % 10),
    ]
}

fn digit_str(d: u8) -> (r: &'static str)
    requires
        d < 10,
    ensures
        r@ =~= seq![digit_char(d as int)],
{
    proof {
        reveal_strlit("0");
        reveal_strlit("1");
        reveal_strlit("2");
        reveal_strlit("3");
        reveal_strlit("4");
        reveal_strlit("5");
        reveal_strlit("6");
        reveal_strlit("7");
        reveal_strlit("8");
        reveal_strlit("9");
    }
    match d {
        0 => "0",
        1 => "1",
        2 => "2",
        3 => "3",
        4 => "4",
        5 => "5",
        6 => "6",
        7 => "7",
        8 => "8",
        _ => "9",
    }
}

fn append_digits(out: &mut String, n: u128)
    ensures
        final(out)@ == old(out)@ + digits_of(n as int),
    decreases n,
{
    if n < 10 {
        out.append(digit_str(n as u8));
        proof {
            assert(out@ =~= old(out)@ + digits_of(n as int));
        }
    } else {
        append_digits(out, n / 10);
        out.append(digit_str((n % 10) as u8));
        proof {
            assert(out@ =~= old(out)@ + digits_of(n as int));
        }
    }
}

fn append_scaled(out: &mut String, n: u128, s: u32)
    ensures
        final(out)@ == old(out)@ + scaled_chars(n as int, s as nat),
    decreases s,
{
    if s == 0 {
        append_digits(out, n);
        out.append(".");
        proof {
            reveal_strlit(".");
            assert(out@ =~= old(out)@ + scaled_chars(n as int, 0));
        }
    } else {
        append_scaled(out, n / 10, s - 1);
        out.append(digit_str((n % 10) as u8));
        proof {
            assert(out@ =~= old(out)@ + scaled_chars(n as int, s as nat));
        }
    }
}

/// Writes a decimal out exactly, keeping the scale's full width.
pub fn dec_string(d: Dec) -> (r: String)
    requires
        d.mantissa > i128::MIN,
    ensures
        r@ == dec_chars(d),
{
    let mut out = String::new();
    if d.mantissa < 0 {
        out.append("-");
        proof {
            reveal_strlit("-");
        }
    }
    let a: u128 = if d.mantissa < 0 {
        (-d.mantissa) as u128
    } else {
        d.mantissa as u128
    };
    if d.scale == 0 {
        append_digits(&mut out, a);
    } else {
        append_scaled(&mut out, a, d.scale);
    }
    proof {
        assert(out@ =~= dec_chars(d));
    }
    out
}

/// Writes a date as `YYYY-MM-DD`.
pub fn date_string(d: Date) -> (r: String)
    requires
        date_wf(d),
    ensures
        r@ == date_chars(d),
{
    let mut out = String::new();
    out.append(digit_str((d.year / 1000) as u8));
    out.append(digit_str(((d.year / 100) % 10) as u8));
    out.append(digit_str(((d.year / 10) % 10) as u8));
    out.append(digit_str((d.year % 10) as u8));
    out.append("-");
    out.append(digit_str(d.month / 10));
    out.append(digit_str(d.month % 10));
    out.append("-");
    out.append(digit_str(d.day / 10));
    out.append(digit_str(d.day % 10));
    proof {
        reveal_strlit("-");
        assert(out@ =~= date_chars(d));
    }
    out
}

/// The canonical request path for one exact-date query.
pub fn request_path(q: &RatesRequest) -> (r: String)
    requires
        date_wf(q.date),
    ensures
        r@ == "/api/exchangerates/rates/"@ + q.table_name@ + "/"@ + q.currency_code@ + "/"@
            + date_chars(q.date),
{
    let mut out = String::new();
    out.append("/api/exchangerates/rates/");
    out.append(q.table_name.as_str());
    out.append("/");
    out.append(q.currency_code.as_str());
    out.append("/");
    let ds = date_string(q.date);
    out.append(ds.as_str());
    proof {
        assert(out@ =~= "/api/exchangerates/rates/"@ + q.table_name@ + "/"@ + q.currency_code@
            + "/"@ + date_chars(q.date));
    }
    out
}

/// The detailed output line:
/// `{amount} {code} = {mid} PLN ({effectiveDate}, tab. {table}, {seriesId})`.
pub fn details_line(
    amount: Dec,
    code: &str,
    mid: Dec,
    effective_date: Date,
    table: &str,
    no: &str,
) -> (r: String)
    requires
        amount.mantissa > i128::MIN,
        mid.mantissa > i128::MIN,
        date_wf(effective_date),
    ensures
        r@ == dec_chars(amount) + " "@ + code@ + " = "@ + dec_chars(mid) + " PLN ("@ + date_chars(
            effective_date,
        ) + ", tab. "@ + table@ + ", "@ + no@ + ")"@,
{
    let mut out = dec_string(amount);
    out.append(" ");
    out.append(code);
    out.append(" = ");
    let ms = dec_string(mid);
    out.append(ms.as_str());
    out.append(" PLN (");
    let ds = date_string(effective_date);
    out.append(ds.as_str());
    out.append(", tab. ");
    out.append(table);
    out.append(", ");
    out.append(no);
    out.append(")");
    proof {
        assert(out@ =~= dec_chars(amount) + " "@ + code@ + " = "@ + dec_chars(mid) + " PLN ("@
            + date_chars(effective_date) + ", tab. "@ + table@ + ", "@ + no@ + ")"@);
    }
    out
}

} // verus!
