//! Classification of a single page response into a typed outcome.
use vstd::prelude::*;

verus! {

/// What went wrong at the transport level.
#[derive(Clone, Debug, PartialEq, Eq)]
pub enum TransportFailure {
    /// The server answered with a status that the client does not expect.
    Status(u16),
    /// The request never produced a response (connection, timeout, DNS, task failure).
    Network(String),
}

/// The single terminal error of a fetch, one kind per failure.
#[derive(Clone, Debug, PartialEq, Eq)]
pub enum FetchError {
    Unauthorized,
    NotFound,
    /// The rate limit was hit; carries the time (seconds since the epoch) after
    /// which the server accepts requests again, when it said so.
    RateLimited(Option<u64>),
    Transport(TransportFailure),
    Decode(String),
}

/// The ASCII code of `'0'`.
pub const ZERO_DIGIT: u8 = 48;

/// The ASCII code of `'9'`.
pub const NINE_DIGIT: u8 = 57;

pub open spec fn is_digit(b: u8) -> bool {
    ZERO_DIGIT <= b && b <= NINE_DIGIT
}

pub open spec fn all_digits(s: Seq<u8>) -> bool {
    forall|i: int| 0 <= i < s.len() ==> is_digit(#[trigger] s[i])
}

/// The number that a string of decimal digits denotes.
pub open spec fn decimal_value(s: Seq<u8>) -> nat
    decreases s.len(),
{
    if s.len() == 0 {
        0
    } else {
        decimal_value(s.drop_last()) * 10 + (s.last() - ZERO_DIGIT) as nat
    }
}

/// The timestamp that an `X-Retry-After` header value denotes: one or more
/// decimal digits whose value fits in a `u64`.
pub open spec fn retry_after_value(s: Seq<u8>) -> Option<u64> {
    if s.len() > 0 && all_digits(s) && decimal_value(s) <= u64::MAX {
        Some(decimal_value(s) as u64)
    } else {
        None
    }
}

/// A longer string of digits never denotes a smaller number.
proof fn lemma_decimal_value_prefix(s: Seq<u8>, k: int)
    requires
        0 <= k <= s.len(),
        all_digits(s),
    ensures
        decimal_value(s.subrange(0, k)) <= decimal_value(s),
    decreases s.len() - k,
{
    if k < s.len() {
        lemma_decimal_value_prefix(s, k + 1);
        let p = s.subrange(0, k + 1);
        assert(p.drop_last() =~= s.subrange(0, k));
        assert(is_digit(s[k]));
    } else {
        assert(s.subrange(0, k) =~= s);
    }
}

/// Reads the value of an `X-Retry-After` header: a unix timestamp written in
/// decimal digits. Anything else, or a number too large for a `u64`, gives `None`.
pub fn parse_retry_after(bytes: &[u8]) -> (r: Option<u64>)
    ensures
        r == retry_after_value(bytes@),
{
    if bytes.len() == 0 {
        return None;
    }
    let mut acc: u64 = 0;
    let mut i: usize = 0;
    while i < bytes.len()
        invariant
            0 <= i <= bytes@.len(),
            all_digits(bytes@.subrange(0, i as int)),
            acc as nat == decimal_value(bytes@.subrange(0, i as int)),
        decreases bytes@.len() - i,
    {
        let b = bytes[i];
        if b < ZERO_DIGIT || b > NINE_DIGIT {
            assert(!all_digits(bytes@));
            return None;
        }
        let ghost next = bytes@.subrange(0, i + 1);
        assert(next.drop_last() =~= bytes@.subrange(0, i as int));
        match acc.checked_mul(10) {
            None => {
                proof {
                    if all_digits(bytes@) {
                        lemma_decimal_value_prefix(bytes@, i + 1);
                    }
                }
                return None;
            }
            Some(tens) => match tens.checked_add((b - ZERO_DIGIT) as u64) {
                None => {
                    proof {
                        if all_digits(bytes@) {
                            lemma_decimal_value_prefix(bytes@, i + 1);
                        }
                    }
                    return None;
                }
                Some(v) => {
                    acc = v;
                }
            },
        }
        i = i + 1;
    }
    assert(bytes@.subrange(0, bytes@.len() as int) =~= bytes@);
    Some(acc)
}

/// The outcome of a response status, before its body is read: `None` for a
/// status whose body holds the page (200 or 201), else the error it stands for.
pub open spec fn status_error(status: u16, retry_after: Option<Seq<u8>>) -> Option<FetchError> {
    if status == 200 || status == 201 {
        None
    } else if status == 401 {
        Some(FetchError::Unauthorized)
    } else if status == 404 {
        Some(FetchError::NotFound)
    } else if status == 429 {
        Some(
            FetchError::RateLimited(
                match retry_after {
                    Some(v) => retry_after_value(v),
                    None => None,
                },
            ),
        )
    } else {
        Some(FetchError::Transport(TransportFailure::Status(status)))
    }
}

/// Classifies the status of a page response. `retry_after` is the raw value
/// of the `X-Retry-After` header, if the response carries one. `None` means
/// the body is to be decoded as a page.
pub fn classify_status(status: u16, retry_after: Option<&[u8]>) -> (r: Option<FetchError>)
    ensures
        r == status_error(
            status,
            match retry_after {
                Some(v) => Some(v@),
                None => None,
            },
        ),
{
    if status == 200 || status == 201 {
        None
    } else if status == 401 {
        Some(FetchError::Unauthorized)
    } else if status == 404 {
        Some(FetchError::NotFound)
    } else if status == 429 {
        let at = match retry_after {
            Some(v) => parse_retry_after(v),
            None => None,
        };
        Some(FetchError::RateLimited(at))
    } else {
        Some(FetchError::Transport(TransportFailure::Status(status)))
    }
}

} // verus!

verus! {

/// The character of a decimal digit.
pub open spec fn digit_char(d: nat) -> char
    recommends
        d < 10,
{
    if d == 0 {
        '0'
    } else if d == 1 {
        '1'
    } else if d == 2 {
        '2'
    } else if d == 3 {
        '3'
    } else if d == 4 {
        '4'
    } else if d == 5 {
        '5'
    } else if d == 6 {
        '6'
    } else if d == 7 {
        '7'
    } else if d == 8 {
        '8'
    } else {
        '9'
    }
}

/// `n` written in decimal, without leading zeros.
pub open spec fn decimal_text(n: nat) -> Seq<char>
    decreases n,
{
    if n < 10 {
        seq![digit_char(n)]
    } else {
        decimal_text(n / 10).push(digit_char(n % 10))
    }
}

fn digit_str(d: u64) -> (r: &'static str)
    requires
        d < 10,
    ensures
        r@ == seq![digit_char(d as nat)],
{
    proof {
        reveal_strlit("0");
        reveal_strlit("1");
        reveal_strlit("2");
        reveal_strlit("3");
        reveal_strlit("4");
        reveal_strlit("5");
        reveal_strlit("6");
        reveal_strlit("7");
        reveal_strlit("8");
        reveal_strlit("9");
    }
    if d == 0 {
        "0"
    } else if d == 1 {
        "1"
    } else if d == 2 {
        "2"
    } else if d == 3 {
        "3"
    } else if d == 4 {
        "4"
    } else if d == 5 {
        "5"
    } else if d == 6 {
        "6"
    } else if d == 7 {
        "7"
    } else if d == 8 {
        "8"
    } else {
        "9"
    }
}

/// Appends `n`, written in decimal, to `text`.
pub fn push_decimal(text: &mut String, n: u64)
    ensures
        final(text)@ == old(text)@ + decimal_text(n as nat),
    decreases n,
{
    if n >= 10 {
        push_decimal(text, n / 10);
    }
    text.append(digit_str(n % 10));
    assert(final(text)@ =~= old(text)@ + decimal_text(n as nat));
}

/// The message that tells a user what went wrong.
pub open spec fn error_message(e: FetchError) -> Seq<char> {
    match e {
        FetchError::Unauthorized => "provided client is not authorized"@,
        FetchError::NotFound => "the requested resource was not found"@,
        FetchError::RateLimited(Some(at)) => "available requests exhausted, please try again after "@
            + decimal_text(at as nat),
        FetchError::RateLimited(None) => "too many requests sent to the server"@,
        FetchError::Transport(TransportFailure::Status(code)) => "request failed with status code "@
            + decimal_text(code as nat),
        FetchError::Transport(TransportFailure::Network(detail)) => "failed with error "@
            + detail@,
        FetchError::Decode(detail) => "parsing the response failed: "@ + detail@,
    }
}

impl FetchError {
    /// What went wrong, in words for the user; a rate limit names the time
    /// after which requests are accepted again, when the server gave it.
    pub fn message(&self) -> (r: String)
        ensures
            r@ == error_message(*self),
    {
        match self {
            FetchError::Unauthorized => String::from_str("provided client is not authorized"),
            FetchError::NotFound => String::from_str("the requested resource was not found"),
            FetchError::RateLimited(Some(at)) => {
                let mut text = String::from_str(
                    "available requests exhausted, please try again after ",
                );
                push_decimal(&mut text, *at);
                text
            },
            FetchError::RateLimited(None) => String::from_str("too many requests sent to the server"),
            FetchError::Transport(TransportFailure::Status(code)) => {
                let mut text = String::from_str("request failed with status code ");
                push_decimal(&mut text, *code as u64);
                text
            },
            FetchError::Transport(TransportFailure::Network(detail)) => {
                let mut text = String::from_str("failed with error ");
                text.append(detail.as_str());
                text
            },
            FetchError::Decode(detail) => {
                let mut text = String::from_str("parsing the response failed: ");
                text.append(detail.as_str());
                text
            },
        }
    }
}

} // verus!
