//! Validated deserialization of the upstream response body.
//!
//! The body is parsed against the expected envelope schema by an explicit
//! recursive-descent parser: object members may come in any order, unknown
//! members are skipped so that upstream schema additions do not break the
//! client, duplicate members are rejected, and the non-empty-rates invariant
//! is checked. The executable parser is proved equal to a specification
//! parser written over the character sequence of the body.
//!
//! Two deliberate strictnesses against full JSON: captured string values
//! decode the simple escapes only (`\" \\ \/ \b \f \n \r \t`), not `\uXXXX`
//! escapes, and numbers bound to the schema carry no exponent part. Skipped
//! values tolerate both.

use vstd::prelude::*;
use vstd::string::StrSliceExecFns;
use vstd::string::StringExecFns;
use crate::date::{Date, date_wf};
use crate::dec::{Dec, dec_wf};

verus! {

pub open spec fn is_ws(c: char) -> bool {
    c == ' ' || c == '\t' || c == '\n' || c == '\r'
}

/// The first index at or after `i` holding a non-blank character.
pub open spec fn s_ws(s: Seq<char>, i: int) -> int
    decreases s.len() - i,
{
    if 0 <= i && i < s.len() && is_ws(s[i]) {
        s_ws(s, i + 1)
    } else {
        i
    }
}

/// The decimal value of a digit character, `-1` for any other character.
pub open spec fn digit_of(c: char) -> int {
    if c == '0' {
        0
    } else if c == '1' {
        1
    } else if c == '2' {
        2
    } else if c == '3' {
        3
    } else if c == '4' {
        4
    } else if c == '5' {
        5
    } else if c == '6' {
        6
    } else if c == '7' {
        7
    } else if c == '8' {
        8
    } else if c == '9' {
        9
    } else {
        -1
    }
}

pub open spec fn is_digit(c: char) -> bool {
    digit_of(c) >= 0
}

/// The end of the digit run starting at `i`.
pub open spec fn s_digits_end(s: Seq<char>, i: int) -> int
    decreases s.len() - i,
{
    if 0 <= i && i < s.len() && is_digit(s[i]) {
        s_digits_end(s, i + 1)
    } else {
        i
    }
}

/// Characters a skipped numeric value may contain.
pub open spec fn is_num_char(c: char) -> bool {
    is_digit(c) || c == '.' || c == '-' || c == '+' || c == 'e' || c == 'E'
}

/// The end of the lax numeric run starting at `i`.
pub open spec fn s_num_end(s: Seq<char>, i: int) -> int
    decreases s.len() - i,
{
    if 0 <= i && i < s.len() && is_num_char(s[i]) {
        s_num_end(s, i + 1)
    } else {
        i
    }
}

/// Folds the digits of `s[from..to]` onto `acc`, most significant first.
pub open spec fn s_fold(s: Seq<char>, from: int, to: int, acc: int) -> int
    decreases to - from,
{
    if !(0 <= from && from < to && to <= s.len()) {
        acc
    } else {
        s_fold(s, from + 1, to, 10 * acc + digit_of(s[from]))
    }
}

/// What a simple string escape denotes, `None` for any other escape.
pub open spec fn esc_char(c: char) -> Option<char> {
    if c == '"' {
        Some('"')
    } else if c == '\\' {
        Some('\\')
    } else if c == '/' {
        Some('/')
    } else if c == 'b' {
        Some('\u{0008}')
    } else if c == 'f' {
        Some('\u{000C}')
    } else if c == 'n' {
        Some('\n')
    } else if c == 'r' {
        Some('\r')
    } else if c == 't' {
        Some('\t')
    } else {
        None
    }
}

/// The index just past the closing quote of the string whose content starts
/// at `i`; escapes are stepped over without validation.
pub open spec fn s_str_end(s: Seq<char>, i: int) -> Option<int>
    decreases s.len() - i,
{
    if !(0 <= i && i < s.len()) {
        None
    } else if s[i] == '"' {
        Some(i + 1)
    } else if s[i] == '\\' {
        if i + 2 <= s.len() {
            s_str_end(s, i + 2)
        } else {
            None
        }
    } else {
        s_str_end(s, i + 1)
    }
}

/// The decoded content of the string starting at `i` (just after the opening
/// quote), and the index just past the closing quote.
pub open spec fn s_str_val(s: Seq<char>, i: int) -> Option<(Seq<char>, int)>
    decreases s.len() - i,
{
    if !(0 <= i && i < s.len()) {
        None
    } else if s[i] == '"' {
        Some((Seq::empty(), i + 1))
    } else if s[i] == '\\' {
        if i + 1 < s.len() {
            match esc_char(s[i + 1]) {
                Some(e) => match s_str_val(s, i + 2) {
                    Some(p) => Some((seq![e] + p.0, p.1)),
                    None => None,
                },
                None => None,
            }
        } else {
            None
        }
    } else {
        match s_str_val(s, i + 1) {
            Some(p) => Some((seq![s[i]] + p.0, p.1)),
            None => None,
        }
    }
}

/// The literal `t` read at `i`.
pub open spec fn s_expect(s: Seq<char>, i: int, t: Seq<char>) -> Option<int> {
    if 0 <= i && i + t.len() <= s.len() && s.subrange(i, i + t.len()) == t {
        Some(i + t.len())
    } else {
        None
    }
}

/// An exact decimal read at `i`: optional minus, digits, optionally a point
/// and fraction digits; at most 28 fraction digits and a mantissa within
/// the `Dec` range.
pub open spec fn s_dec(s: Seq<char>, i: int) -> Option<(Dec, int)> {
    if !(0 <= i && i <= s.len()) {
        None
    } else {
        let neg = i < s.len() && s[i] == '-';
        let k = if neg {
            i + 1
        } else {
            i
        };
        let k2 = s_digits_end(s, k);
        if !(k < k2 && k2 <= s.len()) {
            None
        } else {
            if k2 < s.len() && s[k2] == '.' {
                let k4 = s_digits_end(s, k2 + 1);
                if !(k2 + 1 < k4 && k4 <= s.len() && k4 - (k2 + 1) <= 28) {
                    None
                } else {
                    let v = s_fold(s, k2 + 1, k4, s_fold(s, k, k2, 0));
                    if v > 79228162514264337593543950335 {
                        None
                    } else {
                        Some(
                            (
                                Dec {
                                    mantissa: (if neg {
                                        -v
                                    } else {
                                        v
                                    }) as i128,
                                    scale: (k4 - (k2 + 1)) as u32,
                                },
                                k4,
                            ),
                        )
                    }
                }
            } else {
                let v = s_fold(s, k, k2, 0);
                if v > 79228162514264337593543950335 {
                    None
                } else {
                    Some(
                        (
                            Dec {
                                mantissa: (if neg {
                                    -v
                                } else {
                                    v
                                }) as i128,
                                scale: 0,
                            },
                            k2,
                        ),
                    )
                }
            }
        }
    }
}

/// A calendar date written `YYYY-MM-DD`.
pub open spec fn s_date_of(v: Seq<char>) -> Option<Date> {
    if v.len() == 10 && is_digit(v[0]) && is_digit(v[1]) && is_digit(v[2]) && is_digit(v[3])
        && v[4] == '-' && is_digit(v[5]) && is_digit(v[6]) && v[7] == '-' && is_digit(v[8])
        && is_digit(v[9]) {
        let y = 1000 * digit_of(v[0]) + 100 * digit_of(v[1]) + 10 * digit_of(v[2]) + digit_of(
            v[3],
        );
        let mo = 10 * digit_of(v[5]) + digit_of(v[6]);
        let d = 10 * digit_of(v[8]) + digit_of(v[9]);
        let dt = Date { year: y as u16, month: mo as u8, day: d as u8 };
        if date_wf(dt) {
            Some(dt)
        } else {
            None
        }
    } else {
        None
    }
}

fn ws_x(c: char) -> (r: bool)
    ensures
        r == is_ws(c),
{
    c == ' ' || c == '\t' || c == '\n' || c == '\r'
}

fn digit_x(c: char) -> (r: Option<u8>)
    ensures
        match r {
            Some(d) => digit_of(c) == d as int,
            None => digit_of(c) == -1,
        },
{
    match c {
        '0' => Some(0),
        '1' => Some(1),
        '2' => Some(2),
        '3' => Some(3),
        '4' => Some(4),
        '5' => Some(5),
        '6' => Some(6),
        '7' => Some(7),
        '8' => Some(8),
        '9' => Some(9),
        _ => None,
    }
}

fn num_char_x(c: char) -> (r: bool)
    ensures
        r == is_num_char(c),
{
    digit_x(c).is_some() || c == '.' || c == '-' || c == '+' || c == 'e' || c == 'E'
}

fn skip_ws(s: &str, n: usize, i: usize) -> (r: usize)
    requires
        n == s@.len(),
        i <= n,
    ensures
        i <= r <= n,
        r as int == s_ws(s@, i as int),
{
    let mut k = i;
    while k < n
        invariant
            n == s@.len(),
            i <= k <= n,
            s_ws(s@, i as int) == s_ws(s@, k as int),
        decreases n - k,
    {
        let c = s.get_char(k);
        if ws_x(c) {
            k = k + 1;
        } else {
            return k;
        }
    }
    k
}

fn digits_end(s: &str, n: usize, i: usize) -> (r: usize)
    requires
        n == s@.len(),
        i <= n,
    ensures
        i <= r <= n,
        r as int == s_digits_end(s@, i as int),
        forall|k: int| i <= k < r ==> is_digit(s@[k]),
{
    let mut k = i;
    while k < n
        invariant
            n == s@.len(),
            i <= k <= n,
            s_digits_end(s@, i as int) == s_digits_end(s@, k as int),
            forall|m: int| i <= m < k ==> is_digit(s@[m]),
        decreases n - k,
    {
        let c = s.get_char(k);
        if digit_x(c).is_some() {
            k = k + 1;
        } else {
            return k;
        }
    }
    k
}

fn num_end(s: &str, n: usize, i: usize) -> (r: usize)
    requires
        n == s@.len(),
        i <= n,
    ensures
        i <= r <= n,
        r as int == s_num_end(s@, i as int),
{
    let mut k = i;
    while k < n
        invariant
            n == s@.len(),
            i <= k <= n,
            s_num_end(s@, i as int) == s_num_end(s@, k as int),
        decreases n - k,
    {
        let c = s.get_char(k);
        if num_char_x(c) {
            k = k + 1;
        } else {
            return k;
        }
    }
    k
}

/// Folding one more digit can only grow a non-negative accumulator.
proof fn lemma_fold_grows(s: Seq<char>, from: int, to: int, acc: int)
    requires
        acc >= 0,
        forall|k: int| from <= k < to ==> is_digit(#[trigger] s[k]),
    ensures
        s_fold(s, from, to, acc) >= acc,
    decreases to - from,
{
    if 0 <= from && from < to && to <= s.len() {
        lemma_fold_grows(s, from + 1, to, 10 * acc + digit_of(s[from]));
    }
}

fn fold_digits(s: &str, n: usize, from: usize, to: usize, acc: i128) -> (r: Option<i128>)
    requires
        n == s@.len(),
        from <= to <= n,
        0 <= acc <= 79228162514264337593543950335i128,
        forall|k: int| from <= k < to ==> is_digit(#[trigger] s@[k]),
    ensures
        match r {
            Some(v) => v == s_fold(s@, from as int, to as int, acc as int) && 0 <= v
                <= 79228162514264337593543950335i128,
            None => s_fold(s@, from as int, to as int, acc as int)
                > 79228162514264337593543950335i128,
        },
{
    let mut k = from;
    let mut a = acc;
    while k < to
        invariant
            n == s@.len(),
            from <= k <= to <= n,
            0 <= a <= 79228162514264337593543950335i128,
            forall|m: int| from <= m < to ==> is_digit(#[trigger] s@[m]),
            s_fold(s@, from as int, to as int, acc as int) == s_fold(s@, k as int, to as int, a as int),
        decreases to - k,
    {
        let c = s.get_char(k);
        let d = match digit_x(c) {
            Some(d) => d,
            None => {
                proof {
                    assert(is_digit(s@[k as int]));
                }
                0
            },
        };
        let next: i128 = 10 * a + d as i128;
        if next > 79228162514264337593543950335i128 {
            proof {
                lemma_fold_grows(s@, k as int + 1, to as int, next as int);
            }
            return None;
        }
        a = next;
        k = k + 1;
    }
    Some(a)
}

} // verus!

use crate::model::{RatesRateEntry, RatesResponse, entry_wf, response_wf};

verus! {

/// Lax skipping of one value of an unknown member, so that upstream schema
/// additions do not break the parse: strings (any escapes), numbers (lax),
/// literals, and nested objects and arrays.
pub open spec fn s_skip_value(s: Seq<char>, i: int) -> Option<int>
    decreases s.len() - i, 0int,
{
    if !(0 <= i && i < s.len()) {
        None
    } else if s[i] == '"' {
        s_str_end(s, i + 1)
    } else if s[i] == '{' {
        s_skip_members(s, i + 1)
    } else if s[i] == '[' {
        s_skip_elems(s, i + 1)
    } else if s[i] == 't' {
        s_expect(s, i, "true"@)
    } else if s[i] == 'f' {
        s_expect(s, i, "false"@)
    } else if s[i] == 'n' {
        s_expect(s, i, "null"@)
    } else if s[i] == '-' || is_digit(s[i]) {
        let j = s_num_end(s, i + 1);
        if i + 1 <= j && j <= s.len() {
            Some(j)
        } else {
            None
        }
    } else {
        None
    }
}

/// Skips the members of an object, from just after `{` or `,` to just
/// after the matching `}`.
pub open spec fn s_skip_members(s: Seq<char>, i: int) -> Option<int>
    decreases s.len() - i, 1int,
{
    if !(0 <= i && i <= s.len()) {
        None
    } else {
        let j = s_ws(s, i);
        if !(i <= j && j < s.len()) {
            None
        } else if s[j] == '}' {
            Some(j + 1)
        } else if s[j] == '"' {
            match s_str_end(s, j + 1) {
                Some(j2) => if !(j + 1 < j2 && j2 <= s.len()) {
                    None
                } else {
                    let j3 = s_ws(s, j2);
                    if !(j2 <= j3 && j3 < s.len() && s[j3] == ':') {
                        None
                    } else {
                        let j4 = s_ws(s, j3 + 1);
                        if !(j3 + 1 <= j4 && j4 <= s.len()) {
                            None
                        } else {
                            match s_skip_value(s, j4) {
                                Some(j5) => if !(j4 < j5 && j5 <= s.len()) {
                                    None
                                } else {
                                    let j6 = s_ws(s, j5);
                                    if !(j5 <= j6 && j6 < s.len()) {
                                        None
                                    } else if s[j6] == ',' {
                                        s_skip_members(s, j6 + 1)
                                    } else if s[j6] == '}' {
                                        Some(j6 + 1)
                                    } else {
                                        None
                                    }
                                },
                                None => None,
                            }
                        }
                    }
                },
                None => None,
            }
        } else {
            None
        }
    }
}

/// Skips the elements of an array, from just after `[` to just after the
/// matching `]`.
pub open spec fn s_skip_elems(s: Seq<char>, i: int) -> Option<int>
    decreases s.len() - i, 1int,
{
    if !(0 <= i && i <= s.len()) {
        None
    } else {
        let j = s_ws(s, i);
        if !(i <= j && j < s.len()) {
            None
        } else if s[j] == ']' {
            Some(j + 1)
        } else {
            match s_skip_value(s, j) {
                Some(j2) => if !(j < j2 && j2 <= s.len()) {
                    None
                } else {
                    let j3 = s_ws(s, j2);
                    if !(j2 <= j3 && j3 < s.len()) {
                        None
                    } else if s[j3] == ',' {
                        s_skip_elems(s, j3 + 1)
                    } else if s[j3] == ']' {
                        Some(j3 + 1)
                    } else {
                        None
                    }
                },
                None => None,
            }
        }
    }
}

fn str_end(s: &str, n: usize, i: usize) -> (r: Option<usize>)
    requires
        n == s@.len(),
        i <= n,
    ensures
        match r {
            Some(j) => s_str_end(s@, i as int) == Some(j as int) && i < j <= n,
            None => s_str_end(s@, i as int) is None,
        },
    decreases n - i,
{
    if i >= n {
        return None;
    }
    let c = s.get_char(i);
    if c == '"' {
        Some(i + 1)
    } else if c == '\\' {
        if i + 1 < n {
            str_end(s, n, i + 2)
        } else {
            None
        }
    } else {
        str_end(s, n, i + 1)
    }
}

fn esc_str(c: char) -> (r: Option<&'static str>)
    ensures
        match r {
            Some(t) => t@.len() == 1 && esc_char(c) == Some(t@[0]),
            None => esc_char(c) is None,
        },
{
    proof {
        reveal_strlit("\"");
        reveal_strlit("\\");
        reveal_strlit("/");
        reveal_strlit("\u{0008}");
        reveal_strlit("\u{000C}");
        reveal_strlit("\n");
        reveal_strlit("\r");
        reveal_strlit("\t");
    }
    match c {
        '"' => Some("\""),
        '\\' => Some("\\"),
        '/' => Some("/"),
        'b' => Some("\u{0008}"),
        'f' => Some("\u{000C}"),
        'n' => Some("\n"),
        'r' => Some("\r"),
        't' => Some("\t"),
        _ => None,
    }
}

fn str_val(s: &str, n: usize, i: usize) -> (r: Option<(String, usize)>)
    requires
        n == s@.len(),
        i <= n,
    ensures
        match r {
            Some(p) => s_str_val(s@, i as int) == Some((p.0@, p.1 as int)) && i < p.1 <= n,
            None => s_str_val(s@, i as int) is None,
        },
    decreases n - i,
{
    if i >= n {
        return None;
    }
    let c = s.get_char(i);
    if c == '"' {
        Some((String::new(), i + 1))
    } else if c == '\\' {
        if i + 1 < n {
            match esc_str(s.get_char(i + 1)) {
                Some(e) => match str_val(s, n, i + 2) {
                    Some(p) => {
                        let (tail, j) = p;
                        let out = String::from_str(e).concat(tail.as_str());
                        proof {
                            assert(out@ =~= seq![e@[0]] + tail@);
                        }
                        Some((out, j))
                    },
                    None => None,
                },
                None => None,
            }
        } else {
            None
        }
    } else {
        match str_val(s, n, i + 1) {
            Some(p) => {
                let (tail, j) = p;
                let head = s.substring_char(i, i + 1);
                let out = String::from_str(head).concat(tail.as_str());
                proof {
                    assert(head@ =~= seq![s@[i as int]]);
                    assert(out@ =~= seq![s@[i as int]] + tail@);
                }
                Some((out, j))
            },
            None => None,
        }
    }
}

fn expect_lit(s: &str, n: usize, i: usize, t: &str) -> (r: Option<usize>)
    requires
        n == s@.len(),
        i <= n,
    ensures
        match r {
            Some(j) => s_expect(s@, i as int, t@) == Some(j as int) && i <= j <= n,
            None => s_expect(s@, i as int, t@) is None,
        },
{
    let tl = t.unicode_len();
    if tl <= n - i {
        let sub = s.substring_char(i, i + tl);
        let a = String::from_str(sub);
        let b = String::from_str(t);
        if a == b {
            Some(i + tl)
        } else {
            None
        }
    } else {
        None
    }
}

fn dec_at(s: &str, n: usize, i: usize) -> (r: Option<(Dec, usize)>)
    requires
        n == s@.len(),
        i <= n,
    ensures
        match r {
            Some(p) => s_dec(s@, i as int) == Some((p.0, p.1 as int)) && i < p.1 <= n && dec_wf(
                p.0,
            ),
            None => s_dec(s@, i as int) is None,
        },
{
    let neg = i < n && s.get_char(i) == '-';
    let k = if neg {
        i + 1
    } else {
        i
    };
    let k2 = digits_end(s, n, k);
    if !(k < k2) {
        return None;
    }
    if k2 < n && s.get_char(k2) == '.' {
        let k4 = digits_end(s, n, k2 + 1);
        if !(k2 + 1 < k4 && k4 - (k2 + 1) <= 28) {
            return None;
        }
        let int_part = match fold_digits(s, n, k, k2, 0) {
            Some(v) => v,
            None => {
                proof {
                    lemma_fold_grows(
                        s@,
                        k2 as int + 1,
                        k4 as int,
                        s_fold(s@, k as int, k2 as int, 0),
                    );
                }
                return None;
            },
        };
        let v = match fold_digits(s, n, k2 + 1, k4, int_part) {
            Some(v) => v,
            None => {
                return None;
            },
        };
        let m: i128 = if neg {
            -v
        } else {
            v
        };
        Some((Dec { mantissa: m, scale: (k4 - (k2 + 1)) as u32 }, k4))
    } else {
        let v = match fold_digits(s, n, k, k2, 0) {
            Some(v) => v,
            None => {
                return None;
            },
        };
        let m: i128 = if neg {
            -v
        } else {
            v
        };
        Some((Dec { mantissa: m, scale: 0 }, k2))
    }
}

fn date_of_str(v: &String) -> (r: Option<Date>)
    ensures
        r == s_date_of(v@),
{
    let s = v.as_str();
    let n = s.unicode_len();
    if n != 10 {
        return None;
    }
    if s.get_char(4) != '-' || s.get_char(7) != '-' {
        return None;
    }
    let d0 = match digit_x(s.get_char(0)) {
        Some(d) => d,
        None => {
            return None;
        },
    };
    let d1 = match digit_x(s.get_char(1)) {
        Some(d) => d,
        None => {
            return None;
        },
    };
    let d2 = match digit_x(s.get_char(2)) {
        Some(d) => d,
        None => {
            return None;
        },
    };
    let d3 = match digit_x(s.get_char(3)) {
        Some(d) => d,
        None => {
            return None;
        },
    };
    let d5 = match digit_x(s.get_char(5)) {
        Some(d) => d,
        None => {
            return None;
        },
    };
    let d6 = match digit_x(s.get_char(6)) {
        Some(d) => d,
        None => {
            return None;
        },
    };
    let d8 = match digit_x(s.get_char(8)) {
        Some(d) => d,
        None => {
            return None;
        },
    };
    let d9 = match digit_x(s.get_char(9)) {
        Some(d) => d,
        None => {
            return None;
        },
    };
    let y: u16 = (d0 as u16) * 1000 + (d1 as u16) * 100 + (d2 as u16) * 10 + (d3 as u16);
    let mo: u8 = d5 * 10 + d6;
    let dd: u8 = d8 * 10 + d9;
    Date::new(y, mo, dd)
}

fn skip_value(s: &str, n: usize, i: usize) -> (r: Option<usize>)
    requires
        n == s@.len(),
        i <= n,
    ensures
        match r {
            Some(j) => s_skip_value(s@, i as int) == Some(j as int) && i < j <= n,
            None => s_skip_value(s@, i as int) is None,
        },
    decreases n - i, 0int,
{
    proof {
        reveal_strlit("true");
        reveal_strlit("false");
        reveal_strlit("null");
    }
    if i >= n {
        return None;
    }
    let c = s.get_char(i);
    if c == '"' {
        str_end(s, n, i + 1)
    } else if c == '{' {
        skip_members(s, n, i + 1)
    } else if c == '[' {
        skip_elems(s, n, i + 1)
    } else if c == 't' {
        expect_lit(s, n, i, "true")
    } else if c == 'f' {
        expect_lit(s, n, i, "false")
    } else if c == 'n' {
        expect_lit(s, n, i, "null")
    } else if c == '-' || digit_x(c).is_some() {
        let j = num_end(s, n, i + 1);
        Some(j)
    } else {
        None
    }
}

fn skip_members(s: &str, n: usize, i: usize) -> (r: Option<usize>)
    requires
        n == s@.len(),
        i <= n,
    ensures
        match r {
            Some(j) => s_skip_members(s@, i as int) == Some(j as int) && i < j <= n,
            None => s_skip_members(s@, i as int) is None,
        },
    decreases n - i, 1int,
{
    let j = skip_ws(s, n, i);
    if j >= n {
        return None;
    }
    let c = s.get_char(j);
    if c == '}' {
        Some(j + 1)
    } else if c == '"' {
        match str_end(s, n, j + 1) {
            Some(j2) => {
                let j3 = skip_ws(s, n, j2);
                if !(j3 < n && s.get_char(j3) == ':') {
                    return None;
                }
                let j4 = skip_ws(s, n, j3 + 1);
                match skip_value(s, n, j4) {
                    Some(j5) => {
                        let j6 = skip_ws(s, n, j5);
                        if j6 >= n {
                            return None;
                        }
                        let c2 = s.get_char(j6);
                        if c2 == ',' {
                            skip_members(s, n, j6 + 1)
                        } else if c2 == '}' {
                            Some(j6 + 1)
                        } else {
                            None
                        }
                    },
                    None => None,
                }
            },
            None => None,
        }
    } else {
        None
    }
}

fn skip_elems(s: &str, n: usize, i: usize) -> (r: Option<usize>)
    requires
        n == s@.len(),
        i <= n,
    ensures
        match r {
            Some(j) => s_skip_elems(s@, i as int) == Some(j as int) && i < j <= n,
            None => s_skip_elems(s@, i as int) is None,
        },
    decreases n - i, 1int,
{
    let j = skip_ws(s, n, i);
    if j >= n {
        return None;
    }
    let c = s.get_char(j);
    if c == ']' {
        Some(j + 1)
    } else {
        match skip_value(s, n, j) {
            Some(j2) => {
                let j3 = skip_ws(s, n, j2);
                if j3 >= n {
                    return None;
                }
                let c2 = s.get_char(j3);
                if c2 == ',' {
                    skip_elems(s, n, j3 + 1)
                } else if c2 == ']' {
                    Some(j3 + 1)
                } else {
                    None
                }
            },
            None => None,
        }
    }
}

} // verus!

use crate::model::{EntryModel, ResponseModel};

verus! {

pub open spec fn opt_str_view(o: Option<String>) -> Option<Seq<char>> {
    match o {
        Some(t) => Some(t@),
        None => None,
    }
}

pub open spec fn opt_rates_view(o: Option<Vec<RatesRateEntry>>) -> Option<Seq<EntryModel>> {
    match o {
        Some(v) => Some(crate::model::entry_views(v@)),
        None => None,
    }
}

/// The members of one rate-entry object, from just after `{` or `,`:
/// `no`, `effectiveDate` and `mid` captured, in any order, duplicates
/// rejected, unknown members skipped; all three must be present.
pub open spec fn s_entry_members(
    s: Seq<char>,
    i: int,
    no: Option<Seq<char>>,
    ed: Option<Date>,
    mid: Option<Dec>,
) -> Option<(EntryModel, int)>
    decreases s.len() - i,
{
    if !(0 <= i && i <= s.len()) {
        None
    } else {
        let j = s_ws(s, i);
        if !(i <= j && j < s.len() && s[j] == '"') {
            None
        } else {
            match s_str_val(s, j + 1) {
                Some(kp) => if !(j + 1 < kp.1 && kp.1 <= s.len()) {
                    None
                } else {
                    let j3 = s_ws(s, kp.1);
                    if !(kp.1 <= j3 && j3 < s.len() && s[j3] == ':') {
                        None
                    } else {
                        let j4 = s_ws(s, j3 + 1);
                        if !(j3 + 1 <= j4 && j4 <= s.len()) {
                            None
                        } else {
                            if kp.0 == "no"@ {
                                if no is Some {
                                    None
                                } else if j4 < s.len() && s[j4] == '"' {
                                    match s_str_val(s, j4 + 1) {
                                        Some(vp) => if !(j4 < vp.1 && vp.1 <= s.len()) {
                                            None
                                        } else {
                                            s_entry_after(s, vp.1, Some(vp.0), ed, mid)
                                        },
                                        None => None,
                                    }
                                } else {
                                    None
                                }
                            } else if kp.0 == "effectiveDate"@ {
                                if ed is Some {
                                    None
                                } else if j4 < s.len() && s[j4] == '"' {
                                    match s_str_val(s, j4 + 1) {
                                        Some(vp) => if !(j4 < vp.1 && vp.1 <= s.len()) {
                                            None
                                        } else {
                                            match s_date_of(vp.0) {
                                                Some(d) => s_entry_after(s, vp.1, no, Some(d), mid),
                                                None => None,
                                            }
                                        },
                                        None => None,
                                    }
                                } else {
                                    None
                                }
                            } else if kp.0 == "mid"@ {
                                if mid is Some {
                                    None
                                } else {
                                    match s_dec(s, j4) {
                                        Some(dp) => if !(j4 < dp.1 && dp.1 <= s.len()) {
                                            None
                                        } else {
                                            s_entry_after(s, dp.1, no, ed, Some(dp.0))
                                        },
                                        None => None,
                                    }
                                }
                            } else {
                                match s_skip_value(s, j4) {
                                    Some(j5) => if !(j4 < j5 && j5 <= s.len()) {
                                        None
                                    } else {
                                        s_entry_after(s, j5, no, ed, mid)
                                    },
                                    None => None,
                                }
                            }
                        }
                    }
                },
                None => None,
            }
        }
    }
}

/// After one entry member: another member follows a comma, or `}` closes
/// the entry, which must by then be complete.
pub open spec fn s_entry_after(
    s: Seq<char>,
    i: int,
    no: Option<Seq<char>>,
    ed: Option<Date>,
    mid: Option<Dec>,
) -> Option<(EntryModel, int)>
    decreases s.len() - i,
{
    if !(0 <= i && i <= s.len()) {
        None
    } else {
        let j = s_ws(s, i);
        if !(i <= j && j < s.len()) {
            None
        } else if s[j] == ',' {
            s_entry_members(s, j + 1, no, ed, mid)
        } else if s[j] == '}' {
            match (no, ed, mid) {
                (Some(n0), Some(e0), Some(m0)) => Some(
                    (EntryModel { no: n0, effective_date: e0, mid: m0 }, j + 1),
                ),
                _ => None,
            }
        } else {
            None
        }
    }
}

/// One element of the rates array: a rate-entry object.
pub open spec fn s_rates_elem(s: Seq<char>, i: int) -> Option<(EntryModel, int)> {
    if 0 <= i && i < s.len() && s[i] == '{' {
        s_entry_members(
            s,
            i + 1,
            Option::<Seq<char>>::None,
            Option::<Date>::None,
            Option::<Dec>::None,
        )
    } else {
        None
    }
}

/// The rest of the rates array after one parsed element.
pub open spec fn s_rates_more(s: Seq<char>, i: int, acc: Seq<EntryModel>) -> Option<
    (Seq<EntryModel>, int),
>
    decreases s.len() - i,
{
    if !(0 <= i && i <= s.len()) {
        None
    } else {
        let j = s_ws(s, i);
        if !(i <= j && j < s.len()) {
            None
        } else if s[j] == ']' {
            Some((acc, j + 1))
        } else if s[j] == ',' {
            let j2 = s_ws(s, j + 1);
            if !(j + 1 <= j2 && j2 <= s.len()) {
                None
            } else {
                match s_rates_elem(s, j2) {
                    Some(p) => if !(j2 < p.1 && p.1 <= s.len()) {
                        None
                    } else {
                        s_rates_more(s, p.1, acc.push(p.0))
                    },
                    None => None,
                }
            }
        } else {
            None
        }
    }
}

/// The whole rates array, read at its `[`.
pub open spec fn s_rates(s: Seq<char>, i: int) -> Option<(Seq<EntryModel>, int)> {
    if !(0 <= i && i < s.len() && s[i] == '[') {
        None
    } else {
        let j = s_ws(s, i + 1);
        if !(i + 1 <= j && j < s.len()) {
            None
        } else if s[j] == ']' {
            Some((Seq::<EntryModel>::empty(), j + 1))
        } else {
            match s_rates_elem(s, j) {
                Some(p) => if !(j < p.1 && p.1 <= s.len()) {
                    None
                } else {
                    s_rates_more(s, p.1, seq![p.0])
                },
                None => None,
            }
        }
    }
}

/// The members of the envelope object, from just after `{` or `,`:
/// `table`, `currency`, `code` and `rates` captured, in any order,
/// duplicates rejected, unknown members skipped; all four must be present.
pub open spec fn s_env_members(
    s: Seq<char>,
    i: int,
    table: Option<Seq<char>>,
    currency: Option<Seq<char>>,
    code: Option<Seq<char>>,
    rates: Option<Seq<EntryModel>>,
) -> Option<(ResponseModel, int)>
    decreases s.len() - i,
{
    if !(0 <= i && i <= s.len()) {
        None
    } else {
        let j = s_ws(s, i);
        if !(i <= j && j < s.len() && s[j] == '"') {
            None
        } else {
            match s_str_val(s, j + 1) {
                Some(kp) => if !(j + 1 < kp.1 && kp.1 <= s.len()) {
                    None
                } else {
                    let j3 = s_ws(s, kp.1);
                    if !(kp.1 <= j3 && j3 < s.len() && s[j3] == ':') {
                        None
                    } else {
                        let j4 = s_ws(s, j3 + 1);
                        if !(j3 + 1 <= j4 && j4 <= s.len()) {
                            None
                        } else {
                            if kp.0 == "table"@ {
                                if table is Some {
                                    None
                                } else if j4 < s.len() && s[j4] == '"' {
                                    match s_str_val(s, j4 + 1) {
                                        Some(vp) => if !(j4 < vp.1 && vp.1 <= s.len()) {
                                            None
                                        } else {
                                            s_env_after(s, vp.1, Some(vp.0), currency, code, rates)
                                        },
                                        None => None,
                                    }
                                } else {
                                    None
                                }
                            } else if kp.0 == "currency"@ {
                                if currency is Some {
                                    None
                                } else if j4 < s.len() && s[j4] == '"' {
                                    match s_str_val(s, j4 + 1) {
                                        Some(vp) => if !(j4 < vp.1 && vp.1 <= s.len()) {
                                            None
                                        } else {
                                            s_env_after(s, vp.1, table, Some(vp.0), code, rates)
                                        },
                                        None => None,
                                    }
                                } else {
                                    None
                                }
                            } else if kp.0 == "code"@ {
                                if code is Some {
                                    None
                                } else if j4 < s.len() && s[j4] == '"' {
                                    match s_str_val(s, j4 + 1) {
                                        Some(vp) => if !(j4 < vp.1 && vp.1 <= s.len()) {
                                            None
                                        } else {
                                            s_env_after(s, vp.1, table, currency, Some(vp.0), rates)
                                        },
                                        None => None,
                                    }
                                } else {
                                    None
                                }
                            } else if kp.0 == "rates"@ {
                                if rates is Some {
                                    None
                                } else {
                                    match s_rates(s, j4) {
                                        Some(rp) => if !(j4 < rp.1 && rp.1 <= s.len()) {
                                            None
                                        } else {
                                            s_env_after(s, rp.1, table, currency, code, Some(rp.0))
                                        },
                                        None => None,
                                    }
                                }
                            } else {
                                match s_skip_value(s, j4) {
                                    Some(j5) => if !(j4 < j5 && j5 <= s.len()) {
                                        None
                                    } else {
                                        s_env_after(s, j5, table, currency, code, rates)
                                    },
                                    None => None,
                                }
                            }
                        }
                    }
                },
                None => None,
            }
        }
    }
}

/// After one envelope member: another follows a comma, or `}` closes the
/// envelope, which must by then be complete.
pub open spec fn s_env_after(
    s: Seq<char>,
    i: int,
    table: Option<Seq<char>>,
    currency: Option<Seq<char>>,
    code: Option<Seq<char>>,
    rates: Option<Seq<EntryModel>>,
) -> Option<(ResponseModel, int)>
    decreases s.len() - i,
{
    if !(0 <= i && i <= s.len()) {
        None
    } else {
        let j = s_ws(s, i);
        if !(i <= j && j < s.len()) {
            None
        } else if s[j] == ',' {
            s_env_members(s, j + 1, table, currency, code, rates)
        } else if s[j] == '}' {
            match (table, currency, code, rates) {
                (Some(t0), Some(cu0), Some(co0), Some(rs0)) => Some(
                    (ResponseModel { table: t0, currency: cu0, code: co0, rates: rs0 }, j + 1),
                ),
                _ => None,
            }
        } else {
            None
        }
    }
}

/// The whole response body: one envelope object with nothing but blanks
/// around it, and a non-empty rates list.
pub open spec fn s_parse_response(s: Seq<char>) -> Option<ResponseModel> {
    let j = s_ws(s, 0);
    if !(0 <= j && j < s.len() && s[j] == '{') {
        None
    } else {
        match s_env_members(
            s,
            j + 1,
            Option::<Seq<char>>::None,
            Option::<Seq<char>>::None,
            Option::<Seq<char>>::None,
            Option::<Seq<EntryModel>>::None,
        ) {
            Some(p) => if !(p.1 <= s.len()) {
                None
            } else {
                let j3 = s_ws(s, p.1);
                if j3 == s.len() && p.0.rates.len() >= 1 {
                    Some(p.0)
                } else {
                    None
                }
            },
            None => None,
        }
    }
}

} // verus!

use crate::model::{entry_views, entries_wf};
use crate::engine::FetchOutcome;

verus! {

fn key_is(k: &String, lit: &str) -> (r: bool)
    ensures
        r == (k@ == lit@),
{
    let l = String::from_str(lit);
    *k == l
}

fn entry_members(
    s: &str,
    n: usize,
    i: usize,
    no: Option<String>,
    ed: Option<Date>,
    mid: Option<Dec>,
) -> (r: Option<(RatesRateEntry, usize)>)
    requires
        n == s@.len(),
        i <= n,
        match ed {
            Some(d) => date_wf(d),
            None => true,
        },
        match mid {
            Some(dv) => dec_wf(dv),
            None => true,
        },
    ensures
        match r {
            Some(p) => s_entry_members(s@, i as int, opt_str_view(no), ed, mid) == Some(
                (p.0@, p.1 as int),
            ) && i < p.1 <= n && crate::model::entry_wf(p.0@),
            None => s_entry_members(s@, i as int, opt_str_view(no), ed, mid) is None,
        },
    decreases n - i,
{
    let j = skip_ws(s, n, i);
    if !(j < n && s.get_char(j) == '"') {
        return None;
    }
    match str_val(s, n, j + 1) {
        Some(kp) => {
            let (key, j2) = kp;
            let j3 = skip_ws(s, n, j2);
            if !(j3 < n && s.get_char(j3) == ':') {
                return None;
            }
            let j4 = skip_ws(s, n, j3 + 1);
            if key_is(&key, "no") {
                if no.is_some() {
                    None
                } else if j4 < n && s.get_char(j4) == '"' {
                    match str_val(s, n, j4 + 1) {
                        Some(vp) => {
                            let (v, j5) = vp;
                            entry_after(s, n, j5, Some(v), ed, mid)
                        },
                        None => None,
                    }
                } else {
                    None
                }
            } else if key_is(&key, "effectiveDate") {
                if ed.is_some() {
                    None
                } else if j4 < n && s.get_char(j4) == '"' {
                    match str_val(s, n, j4 + 1) {
                        Some(vp) => {
                            let (v, j5) = vp;
                            match date_of_str(&v) {
                                Some(d) => entry_after(s, n, j5, no, Some(d), mid),
                                None => None,
                            }
                        },
                        None => None,
                    }
                } else {
                    None
                }
            } else if key_is(&key, "mid") {
                if mid.is_some() {
                    None
                } else {
                    match dec_at(s, n, j4) {
                        Some(dp) => {
                            let (dv, j5) = dp;
                            entry_after(s, n, j5, no, ed, Some(dv))
                        },
                        None => None,
                    }
                }
            } else {
                match skip_value(s, n, j4) {
                    Some(j5) => entry_after(s, n, j5, no, ed, mid),
                    None => None,
                }
            }
        },
        None => None,
    }
}

fn entry_after(
    s: &str,
    n: usize,
    i: usize,
    no: Option<String>,
    ed: Option<Date>,
    mid: Option<Dec>,
) -> (r: Option<(RatesRateEntry, usize)>)
    requires
        n == s@.len(),
        i <= n,
        match ed {
            Some(d) => date_wf(d),
            None => true,
        },
        match mid {
            Some(dv) => dec_wf(dv),
            None => true,
        },
    ensures
        match r {
            Some(p) => s_entry_after(s@, i as int, opt_str_view(no), ed, mid) == Some(
                (p.0@, p.1 as int),
            ) && i < p.1 <= n && crate::model::entry_wf(p.0@),
            None => s_entry_after(s@, i as int, opt_str_view(no), ed, mid) is None,
        },
    decreases n - i,
{
    let j = skip_ws(s, n, i);
    if j >= n {
        return None;
    }
    let c = s.get_char(j);
    if c == ',' {
        entry_members(s, n, j + 1, no, ed, mid)
    } else if c == '}' {
        match (no, ed, mid) {
            (Some(n0), Some(e0), Some(m0)) => Some(
                (RatesRateEntry { no: n0, effective_date: e0, mid: m0 }, j + 1),
            ),
            _ => None,
        }
    } else {
        None
    }
}

fn rates_elem_at(s: &str, n: usize, i: usize) -> (r: Option<(RatesRateEntry, usize)>)
    requires
        n == s@.len(),
        i <= n,
    ensures
        match r {
            Some(p) => s_rates_elem(s@, i as int) == Some((p.0@, p.1 as int)) && i < p.1 <= n
                && crate::model::entry_wf(p.0@),
            None => s_rates_elem(s@, i as int) is None,
        },
{
    if i < n && s.get_char(i) == '{' {
        entry_members(s, n, i + 1, None, None, None)
    } else {
        None
    }
}

fn rates_more(s: &str, n: usize, i: usize, acc: Vec<RatesRateEntry>) -> (r: Option<
    (Vec<RatesRateEntry>, usize),
>)
    requires
        n == s@.len(),
        i <= n,
        entries_wf(entry_views(acc@)),
    ensures
        match r {
            Some(p) => s_rates_more(s@, i as int, entry_views(acc@)) == Some(
                (entry_views(p.0@), p.1 as int),
            ) && i < p.1 <= n && entries_wf(entry_views(p.0@)),
            None => s_rates_more(s@, i as int, entry_views(acc@)) is None,
        },
    decreases n - i,
{
    let j = skip_ws(s, n, i);
    if j >= n {
        return None;
    }
    let c = s.get_char(j);
    if c == ']' {
        Some((acc, j + 1))
    } else if c == ',' {
        let j2 = skip_ws(s, n, j + 1);
        match rates_elem_at(s, n, j2) {
            Some(p) => {
                let (e, j3) = p;
                let mut acc2 = acc;
                let ghost before = acc2@;
                acc2.push(e);
                proof {
                    assert(entry_views(acc2@) =~= entry_views(before).push(e@));
                }
                rates_more(s, n, j3, acc2)
            },
            None => None,
        }
    } else {
        None
    }
}

fn rates_at(s: &str, n: usize, i: usize) -> (r: Option<(Vec<RatesRateEntry>, usize)>)
    requires
        n == s@.len(),
        i <= n,
    ensures
        match r {
            Some(p) => s_rates(s@, i as int) == Some((entry_views(p.0@), p.1 as int)) && i < p.1
                <= n && entries_wf(entry_views(p.0@)),
            None => s_rates(s@, i as int) is None,
        },
{
    if !(i < n && s.get_char(i) == '[') {
        return None;
    }
    let j = skip_ws(s, n, i + 1);
    if j >= n {
        return None;
    }
    if s.get_char(j) == ']' {
        let empty: Vec<RatesRateEntry> = Vec::new();
        proof {
            assert(entry_views(empty@) =~= Seq::<EntryModel>::empty());
        }
        Some((empty, j + 1))
    } else {
        match rates_elem_at(s, n, j) {
            Some(p) => {
                let (e, j2) = p;
                let mut acc: Vec<RatesRateEntry> = Vec::new();
                acc.push(e);
                proof {
                    assert(entry_views(acc@) =~= seq![e@]);
                }
                rates_more(s, n, j2, acc)
            },
            None => None,
        }
    }
}

fn env_members(
    s: &str,
    n: usize,
    i: usize,
    table: Option<String>,
    currency: Option<String>,
    code: Option<String>,
    rates: Option<Vec<RatesRateEntry>>,
) -> (r: Option<(RatesResponse, usize)>)
    requires
        n == s@.len(),
        i <= n,
        match rates {
            Some(v) => entries_wf(entry_views(v@)),
            None => true,
        },
    ensures
        match r {
            Some(p) => s_env_members(
                s@,
                i as int,
                opt_str_view(table),
                opt_str_view(currency),
                opt_str_view(code),
                opt_rates_view(rates),
            ) == Some((p.0@, p.1 as int)) && i < p.1 <= n && entries_wf(p.0@.rates),
            None => s_env_members(
                s@,
                i as int,
                opt_str_view(table),
                opt_str_view(currency),
                opt_str_view(code),
                opt_rates_view(rates),
            ) is None,
        },
    decreases n - i,
{
    let j = skip_ws(s, n, i);
    if !(j < n && s.get_char(j) == '"') {
        return None;
    }
    match str_val(s, n, j + 1) {
        Some(kp) => {
            let (key, j2) = kp;
            let j3 = skip_ws(s, n, j2);
            if !(j3 < n && s.get_char(j3) == ':') {
                return None;
            }
            let j4 = skip_ws(s, n, j3 + 1);
            if key_is(&key, "table") {
                if table.is_some() {
                    None
                } else if j4 < n && s.get_char(j4) == '"' {
                    match str_val(s, n, j4 + 1) {
                        Some(vp) => {
                            let (v, j5) = vp;
                            env_after(s, n, j5, Some(v), currency, code, rates)
                        },
                        None => None,
                    }
                } else {
                    None
                }
            } else if key_is(&key, "currency") {
                if currency.is_some() {
                    None
                } else if j4 < n && s.get_char(j4) == '"' {
                    match str_val(s, n, j4 + 1) {
                        Some(vp) => {
                            let (v, j5) = vp;
                            env_after(s, n, j5, table, Some(v), code, rates)
                        },
                        None => None,
                    }
                } else {
                    None
                }
            } else if key_is(&key, "code") {
                if code.is_some() {
                    None
                } else if j4 < n && s.get_char(j4) == '"' {
                    match str_val(s, n, j4 + 1) {
                        Some(vp) => {
                            let (v, j5) = vp;
                            env_after(s, n, j5, table, currency, Some(v), rates)
                        },
                        None => None,
                    }
                } else {
                    None
                }
            } else if key_is(&key, "rates") {
                if rates.is_some() {
                    None
                } else {
                    match rates_at(s, n, j4) {
                        Some(rp) => {
                            let (rv, j5) = rp;
                            env_after(s, n, j5, table, currency, code, Some(rv))
                        },
                        None => None,
                    }
                }
            } else {
                match skip_value(s, n, j4) {
                    Some(j5) => env_after(s, n, j5, table, currency, code, rates),
                    None => None,
                }
            }
        },
        None => None,
    }
}

fn env_after(
    s: &str,
    n: usize,
    i: usize,
    table: Option<String>,
    currency: Option<String>,
    code: Option<String>,
    rates: Option<Vec<RatesRateEntry>>,
) -> (r: Option<(RatesResponse, usize)>)
    requires
        n == s@.len(),
        i <= n,
        match rates {
            Some(v) => entries_wf(entry_views(v@)),
            None => true,
        },
    ensures
        match r {
            Some(p) => s_env_after(
                s@,
                i as int,
                opt_str_view(table),
                opt_str_view(currency),
                opt_str_view(code),
                opt_rates_view(rates),
            ) == Some((p.0@, p.1 as int)) && i < p.1 <= n && entries_wf(p.0@.rates),
            None => s_env_after(
                s@,
                i as int,
                opt_str_view(table),
                opt_str_view(currency),
                opt_str_view(code),
                opt_rates_view(rates),
            ) is None,
        },
    decreases n - i,
{
    let j = skip_ws(s, n, i);
    if j >= n {
        return None;
    }
    let c = s.get_char(j);
    if c == ',' {
        env_members(s, n, j + 1, table, currency, code, rates)
    } else if c == '}' {
        match (table, currency, code, rates) {
            (Some(t0), Some(cu0), Some(co0), Some(rs0)) => Some(
                (RatesResponse { table: t0, currency: cu0, code: co0, rates: rs0 }, j + 1),
            ),
            _ => None,
        }
    } else {
        None
    }
}

/// Parses and validates one upstream response body against the envelope
/// schema, exactly as the specification parser reads it.
pub fn parse_rates_response(body: &str) -> (r: Option<RatesResponse>)
    ensures
        match r {
            Some(resp) => s_parse_response(body@) == Some(resp@) && response_wf(resp@),
            None => s_parse_response(body@) is None,
        },
{
    let n = body.unicode_len();
    let j = skip_ws(body, n, 0);
    if !(j < n && body.get_char(j) == '{') {
        return None;
    }
    match env_members(body, n, j + 1, None, None, None, None) {
        Some(p) => {
            let (resp, j2) = p;
            let j3 = skip_ws(body, n, j2);
            if j3 == n && resp.rates.len() >= 1 {
                Some(resp)
            } else {
                None
            }
        },
        None => None,
    }
}

/// Parses a whole string as one exact decimal, as the specification
/// decimal grammar reads it.
pub fn parse_dec(s: &str) -> (r: Option<Dec>)
    ensures
        match r {
            Some(d) => s_dec(s@, 0) == Some((d, s@.len() as int)) && dec_wf(d),
            None => match s_dec(s@, 0) {
                Some(p) => p.1 != s@.len(),
                None => true,
            },
        },
{
    let n = s.unicode_len();
    match dec_at(s, n, 0) {
        Some(p) => if p.1 == n {
            Some(p.0)
        } else {
            None
        },
        None => None,
    }
}

/// Classifies a response body that arrived with a success status: the first
/// rate record of a body matching the schema, otherwise a malformed
/// response. The upstream answers one record per exact-date query, so the
/// first entry is the authoritative one.
pub fn outcome_from_body(body: &str) -> (o: FetchOutcome)
    ensures
        match s_parse_response(body@) {
            Some(m) => match o {
                FetchOutcome::Found(rec) => rec@ == m.rates[0],
                _ => false,
            },
            None => o is MalformedResponse,
        },
{
    match parse_rates_response(body) {
        Some(resp) => {
            let e = resp.first().duplicate();
            FetchOutcome::Found(e)
        },
        None => FetchOutcome::MalformedResponse,
    }
}

} // verus!
