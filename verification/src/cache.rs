//! How long clients may keep what the server sends: the `Cache-Control`
//! values of the static files and of the documentation.
use axum::http::header::InvalidHeaderValue;
use axum::http::HeaderValue;
use vstd::prelude::*;

use crate::web::header_value;

verus! {

/// Static files cache duration, in seconds.
pub const STATIC_CACHE_MAX_AGE: usize = 365 * 24 * 60 * 60;

/// Documentation files cache duration, in seconds.
pub const DOCS_CACHE_MAX_AGE: usize = 300;

/// The character of the decimal digit `d`.
pub open spec fn digit(d: nat) -> char
    recommends
        d < 10,
{
    (48 + d) as char
}

/// `n` in decimal notation, without leading zeros.
pub open spec fn decimal(n: nat) -> Seq<char>
    decreases n,
{
    if n < 10 {
        seq![digit(n)]
    } else {
        decimal(n / 10).push(digit(n % 10))
    }
}

/// The number that the decimal digits `s` stand for.
pub open spec fn decimal_value(s: Seq<char>) -> nat
    decreases s.len(),
{
    if s.len() == 0 {
        0
    } else {
        10 * decimal_value(s.drop_last()) + (s.last() as nat - 48) as nat
    }
}

/// The text of a `Cache-Control` header that lets a response be kept for
/// `seconds`.
pub open spec fn max_age_text(seconds: nat) -> Seq<char> {
    "max-age="@ + decimal(seconds)
}

/// Every character of a decimal is a digit.
proof fn lemma_decimal_digits(n: nat)
    ensures
        decimal(n).len() > 0,
        forall|i: int| 0 <= i < decimal(n).len() ==> '0' <= #[trigger] decimal(n)[i] <= '9',
    decreases n,
{
    if n >= 10 {
        lemma_decimal_digits(n / 10);
    }
}

/// Reading a decimal gives the number that was written.
pub proof fn lemma_decimal_reads_back(n: nat)
    ensures
        decimal_value(decimal(n)) == n,
    decreases n,
{
    if n < 10 {
        assert(decimal(n).drop_last() =~= Seq::<char>::empty());
        assert(decimal_value(Seq::<char>::empty()) == 0);
    } else {
        lemma_decimal_reads_back(n / 10);
        assert(decimal(n).drop_last() =~= decimal(n / 10));
    }
}

/// Different durations are written differently: a client that reads a
/// `Cache-Control` value learns the duration that was meant.
pub proof fn lemma_max_age_distinct(a: nat, b: nat)
    requires
        max_age_text(a) == max_age_text(b),
    ensures
        a == b,
{
    let p = "max-age="@;
    assert(max_age_text(a).skip(p.len() as int) =~= decimal(a));
    assert(max_age_text(b).skip(p.len() as int) =~= decimal(b));
    lemma_decimal_reads_back(a);
    lemma_decimal_reads_back(b);
}

/// The text of every duration is one that a header may carry.
pub proof fn lemma_max_age_is_header_text(seconds: nat)
    ensures
        crate::web::is_header_text(max_age_text(seconds)),
{
    reveal_strlit("max-age=");
    let p = "max-age="@;
    lemma_decimal_digits(seconds);
    let s = max_age_text(seconds);
    assert forall|i: int| 0 <= i < s.len() implies crate::web::is_header_char(#[trigger] s[i]) by {
        if i < p.len() {
            assert(s[i] == p[i]);
            assert(p =~= seq!['m', 'a', 'x', '-', 'a', 'g', 'e', '=']);
        } else {
            assert(s[i] == decimal(seconds)[i - p.len()]);
        }
    }
}

/// The decimal digit `d` as text.
fn digit_text(d: usize) -> (text: &'static str)
    requires
        d < 10,
    ensures
        text@ == seq![digit(d as nat)],
{
    proof {
        reveal_strlit("0");
        reveal_strlit("1");
        reveal_strlit("2");
        reveal_strlit("3");
        reveal_strlit("4");
        reveal_strlit("5");
        reveal_strlit("6");
        reveal_strlit("7");
        reveal_strlit("8");
        reveal_strlit("9");
    }
    match d {
        0 => "0",
        1 => "1",
        2 => "2",
        3 => "3",
        4 => "4",
        5 => "5",
        6 => "6",
        7 => "7",
        8 => "8",
        _ => "9",
    }
}

/// Writes `n` in decimal notation.
fn decimal_text(n: usize) -> (text: String)
    ensures
        text@ == decimal(n as nat),
    decreases n,
{
    if n < 10 {
        digit_text(n).to_owned()
    } else {
        let mut text = decimal_text(n / 10);
        text.append(digit_text(n % 10));
        proof {
            assert(text@ =~= decimal(n as nat));
        }
        text
    }
}

/// The text of a `Cache-Control` header that lets a response be kept for
/// `seconds`.
pub fn max_age(seconds: usize) -> (text: String)
    ensures
        text@ == max_age_text(seconds as nat),
{
    let mut text = "max-age=".to_owned();
    let digits = decimal_text(seconds);
    text.append(digits.as_str());
    text
}

/// The value of a `Cache-Control` header that lets a response be kept for
/// `seconds`. It is made for every duration.
pub fn cache_control_value(seconds: usize) -> (value: Result<HeaderValue, InvalidHeaderValue>)
    ensures
        value is Ok,
        crate::web::header_text(value->Ok_0) == max_age_text(seconds as nat),
{
    proof {
        lemma_max_age_is_header_text(seconds as nat);
    }
    header_value(max_age(seconds))
}

} // verus!
