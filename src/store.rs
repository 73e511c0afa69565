//! Text form of the high score kept between runs: one decimal integer.

use vstd::prelude::*;

verus! {

/// An ASCII decimal digit.
pub open spec fn is_digit(c: char) -> bool {
    '0' <= c && c <= '9'
}

/// The number that the decimal digits `s` spell, most significant first.
pub open spec fn digits_value(s: Seq<char>) -> nat
    decreases s.len(),
{
    if s.len() == 0 {
        0
    } else {
        digits_value(s.drop_last()) * 10 + (s.last() as nat - '0' as nat) as nat
    }
}

/// The digit character of `d`, for `d` below ten.
pub open spec fn digit_char(d: nat) -> char {
    (d + '0' as nat) as char
}

/// The decimal digits of `n`, without sign or leading zeros.
pub open spec fn decimal_text(n: nat) -> Seq<char>
    decreases n,
{
    if n < 10 {
        seq![digit_char(n)]
    } else {
        decimal_text(n / 10).push(digit_char(n % 10))
    }
}

/// `s` without a leading `+`, if it has one.
pub open spec fn unsigned_part(s: Seq<char>) -> Seq<char> {
    if s.len() > 0 && s[0] == '+' {
        s.drop_first()
    } else {
        s
    }
}

/// The `u32` that `s` writes: an optional `+`, then one or more ASCII digits
/// whose value fits in `u32`; `None` for any other text.
pub open spec fn u32_of_text(s: Seq<char>) -> Option<u32> {
    let d = unsigned_part(s);
    if d.len() > 0 && (forall|i: int| 0 <= i < d.len() ==> is_digit(#[trigger] d[i]))
        && digits_value(d) <= u32::MAX {
        Some(digits_value(d) as u32)
    } else {
        None
    }
}

/// The high score that the text `t` gives: the number it writes, or zero.
pub open spec fn stored_score(t: Seq<char>) -> u32 {
    match u32_of_text(t) {
        Some(n) => n,
        None => 0,
    }
}

/// What `str::trim` leaves of a text.
pub uninterp spec fn trim_of(s: Seq<char>) -> Seq<char>;

/// Relies on `str::trim`: the text without its leading and trailing whitespace.
#[verifier::external_body]
fn trimmed<'a>(s: &'a str) -> (r: &'a str)
    ensures
        r@ == trim_of(s@),
{
    s.trim()
}

/// Relies on `str::parse::<u32>`: it accepts an optional `+` followed by one
/// or more ASCII digits whose value fits in `u32`, and fails on anything else.
#[verifier::external_body]
fn parse_u32(s: &str) -> (r: Option<u32>)
    ensures
        r == u32_of_text(s@),
{
    s.parse::<u32>().ok()
}

/// Relies on `ToString` for `u32`: the decimal digits, with no sign or leading zeros.
#[verifier::external_body]
fn u32_to_text(n: u32) -> (r: String)
    ensures
        r@ == decimal_text(n as nat),
{
    n.to_string()
}

/// The high score stored as `content`, surrounding whitespace aside; zero
/// when the store is empty or holds no number.
pub fn high_score_from_text(content: &str) -> (r: u32)
    ensures
        r == stored_score(trim_of(content@)),
{
    high_score_from_trimmed(trimmed(content))
}

/// The high score written as `text`, with no surrounding whitespace; zero
/// when the text is empty or holds no number.
pub fn high_score_from_trimmed(text: &str) -> (r: u32)
    ensures
        r == stored_score(text@),
{
    match parse_u32(text) {
        Some(n) => n,
        None => 0,
    }
}

/// The text that stores `score`.
pub fn high_score_text(score: u32) -> (r: String)
    ensures
        r@ == decimal_text(score as nat),
{
    u32_to_text(score)
}

proof fn lemma_decimal_text(n: nat)
    ensures
        decimal_text(n).len() > 0,
        decimal_text(n)[0] != '+',
        forall|i: int| 0 <= i < decimal_text(n).len() ==> is_digit(#[trigger] decimal_text(n)[i]),
        digits_value(decimal_text(n)) == n,
    decreases n,
{
    if n >= 10 {
        lemma_decimal_text(n / 10);
        let t = decimal_text(n);
        assert(t.drop_last() == decimal_text(n / 10));
        assert(t.last() == digit_char(n % 10));
        assert(digit_char(n % 10) as nat == n % 10 + '0' as nat);
        assert(n == (n / 10) * 10 + n % 10);
        assert(digits_value(t) == digits_value(t.drop_last()) * 10 + (t.last() as nat - '0' as nat) as nat);
        assert forall|i: int| 0 <= i < t.len() implies is_digit(#[trigger] t[i]) by {
            if i < t.len() - 1 {
                assert(t[i] == decimal_text(n / 10)[i]);
            }
        }
    } else {
        assert(decimal_text(n).drop_last() =~= Seq::<char>::empty());
        let t = decimal_text(n);
        assert(digit_char(n) as nat == n + '0' as nat);
        assert(t.last() == digit_char(n));
        assert(digits_value(t) == digits_value(t.drop_last()) * 10 + (t.last() as nat - '0' as nat) as nat);
        assert(digits_value(t.drop_last()) == 0);
    }
}

/// A stored score reads back as the same score.
pub proof fn lemma_stored_text_reads_back(score: u32)
    ensures
        stored_score(decimal_text(score as nat)) == score,
{
    lemma_decimal_text(score as nat);
}

} // verus!
