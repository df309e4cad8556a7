//! Wall-clock time and the payment-quote expiry.

use vstd::prelude::*;

use crate::text::push_char;

verus! {

/// Earliest and latest instants `time::OffsetDateTime` represents (years
/// -9999 to 9999), in whole seconds since the Unix epoch.
pub open spec fn min_unix_seconds() -> int {
    -377705116800
}

pub open spec fn max_unix_seconds() -> int {
    253402300799
}

/// An instant, in nanoseconds since the epoch, that `OffsetDateTime`
/// represents.
pub open spec fn representable_nanos(n: int) -> bool {
    min_unix_seconds() * 1_000_000_000 <= n < (max_unix_seconds() + 1) * 1_000_000_000
}

/// RFC 3339 text of a UTC instant, as `time`'s `Rfc3339` writes it:
/// `YYYY-MM-DDTHH:MM:SS`, a fraction only when the nanoseconds are not
/// zero, then `Z`.
pub uninterp spec fn rfc3339_utc(unix_nanos: i128) -> Seq<char>;

/// Calls `time::OffsetDateTime::now_utc().unix_timestamp_nanos()`. The value
/// depends on the clock; all that is claimed is that it is an instant
/// `OffsetDateTime` represents.
#[verifier::external_body]
pub(crate) fn now_unix_nanos() -> (r: i128)
    ensures
        representable_nanos(r as int),
{
    time::OffsetDateTime::now_utc().unix_timestamp_nanos()
}

/// Calls `OffsetDateTime::from_unix_timestamp_nanos(n)` and formats it with
/// `well_known::Rfc3339`. The claim: it succeeds exactly for instants in
/// years 0 through 9999 (the crate refuses years outside four digits), and
/// the text is `rfc3339_utc(n)`.
#[verifier::external_body]
pub(crate) fn format_rfc3339_utc(unix_nanos: i128) -> (r: Option<String>)
    ensures
        r is Some <==> (-62167219200 * 1_000_000_000 <= unix_nanos < 253402300800 * 1_000_000_000),
        r matches Some(s) ==> s@ == rfc3339_utc(unix_nanos),
{
    let t = time::OffsetDateTime::from_unix_timestamp_nanos(unix_nanos).ok()?;
    t.format(&time::format_description::well_known::Rfc3339).ok()
}

pub open spec fn digit_char(d: int) -> char {
    ((48 + d) as u32) as char
}

/// Decimal digits of a natural number, most significant first.
pub open spec fn decimal_nat(n: nat) -> Seq<char>
    decreases n,
{
    if n < 10 {
        seq![digit_char(n as int)]
    } else {
        decimal_nat(n / 10).push(digit_char((n % 10) as int))
    }
}

/// Decimal text of an integer, with a leading `-` when negative.
pub open spec fn decimal(n: int) -> Seq<char> {
    if n < 0 {
        seq!['-'] + decimal_nat((-n) as nat)
    } else {
        decimal_nat(n as nat)
    }
}

fn decimal_digits(n: u128) -> (r: String)
    ensures
        r@ == decimal_nat(n as nat),
{
    let mut rev: Vec<char> = Vec::new();
    let mut m: u128 = n;
    while m >= 10
        invariant
            decimal_nat(n as nat) == decimal_nat(m as nat) + rev@.reverse(),
        decreases m,
    {
        let d = (m % 10) as u8;
        let ghost before = rev@;
        rev.push(((48u8 + d) as char));
        assert(rev@.reverse() =~= seq![digit_char((m % 10) as int)] + before.reverse());
        assert(decimal_nat(m as nat) == decimal_nat((m / 10) as nat).push(digit_char((m % 10) as int)));
        assert(decimal_nat(m as nat) + before.reverse() =~= decimal_nat((m / 10) as nat) + rev@.reverse());
        m = m / 10;
    }
    let ghost before = rev@;
    rev.push(((48u8 + (m as u8)) as char));
    assert(rev@.reverse() =~= seq![digit_char(m as int)] + before.reverse());
    assert(decimal_nat(n as nat) =~= rev@.reverse());
    let mut out = String::new();
    let mut i: usize = rev.len();
    while i > 0
        invariant
            i <= rev@.len(),
            out@ == rev@.reverse().take(rev@.len() - i),
        decreases i,
    {
        push_char(&mut out, rev[i - 1]);
        i = i - 1;
        assert(out@ =~= rev@.reverse().take(rev@.len() - i));
    }
    assert(rev@.reverse().take(rev@.len() as int) =~= rev@.reverse());
    out
}

/// Decimal text of a signed integer.
pub fn decimal_string(n: i64) -> (r: String)
    ensures
        r@ == decimal(n as int),
{
    if n < 0 {
        let magnitude: u128 = (0i128 - (n as i128)) as u128;
        let digits = decimal_digits(magnitude);
        let mut out = String::new();
        push_char(&mut out, '-');
        out.append(digits.as_str());
        out
    } else {
        decimal_digits(n as u128)
    }
}

/// Whole seconds of an instant in nanoseconds, rounded down (as
/// `OffsetDateTime::unix_timestamp` gives them).
pub fn floor_seconds(n: i128) -> (r: i64)
    requires
        representable_nanos(n as int),
    ensures
        r as int == (n as int) / 1_000_000_000,
{
    if n >= 0 {
        let q: u128 = (n as u128) / 1_000_000_000u128;
        assert(q as int == (n as int) / 1_000_000_000);
        q as i64
    } else {
        let a: u128 = (0i128 - n) as u128;
        let q: u128 = a / 1_000_000_000u128;
        let rem: u128 = a % 1_000_000_000u128;
        assert(a == q * 1_000_000_000 + rem);
        if rem == 0 {
            assert((n as int) == -(q as int) * 1_000_000_000);
            assert((n as int) / 1_000_000_000 == -(q as int)) by (nonlinear_arith)
                requires
                    (n as int) == -(q as int) * 1_000_000_000,
            ;
            0i64 - (q as i64)
        } else {
            assert((n as int) == (-(q as int) - 1) * 1_000_000_000 + (1_000_000_000 - rem as int));
            assert((n as int) / 1_000_000_000 == -(q as int) - 1) by (nonlinear_arith)
                requires
                    (n as int) == (-(q as int) - 1) * 1_000_000_000 + (1_000_000_000 - rem as int),
                    0 < rem < 1_000_000_000,
            ;
            0i64 - (q as i64) - 1
        }
    }
}

/// How long a quoted payment stays valid: five minutes.
pub const PAYMENT_EXPIRY_SECS: i64 = 300;

/// The expiry quoted with a payment request: `now` plus five minutes, in
/// RFC 3339; when that cannot be written in RFC 3339 (a year before 0),
/// `now` in whole Unix seconds instead.
pub open spec fn payment_expiry(now_nanos: i128) -> Seq<char> {
    let expiry = (now_nanos + 300_000_000_000) as i128;
    if -62167219200 * 1_000_000_000 <= expiry < 253402300800 * 1_000_000_000 {
        rfc3339_utc(expiry)
    } else {
        decimal((now_nanos as int) / 1_000_000_000)
    }
}

/// The payment expiry for the instant `now_nanos`. Five minutes past the
/// latest representable instant has no expiry; `requires` leaves those
/// instants out.
pub fn payment_expiry_at(now_nanos: i128) -> (r: String)
    requires
        representable_nanos(now_nanos as int),
        representable_nanos(now_nanos + 300_000_000_000),
    ensures
        r@ == payment_expiry(now_nanos),
{
    let expiry: i128 = now_nanos + 300_000_000_000i128;
    match format_rfc3339_utc(expiry) {
        Some(s) => s,
        None => decimal_string(floor_seconds(now_nanos)),
    }
}

/// Both `now_nanos` and five minutes later are instants the clock type
/// represents, so an expiry can be quoted at `now_nanos`.
pub open spec fn quotable_instant(now_nanos: i128) -> bool {
    representable_nanos(now_nanos as int) && representable_nanos(now_nanos + 300_000_000_000)
}

/// Whether an expiry can be quoted at `now_nanos`.
pub fn is_quotable_instant(now_nanos: i128) -> (r: bool)
    ensures
        r == quotable_instant(now_nanos),
{
    let min: i128 = -377705116800i128 * 1_000_000_000i128;
    let end: i128 = 253402300800i128 * 1_000_000_000i128;
    min <= now_nanos && now_nanos < end && now_nanos <= i128::MAX - 300_000_000_000i128
        && now_nanos + 300_000_000_000i128 < end
}

/// The payment expiry for the instant `now_nanos`, or `None` when five
/// minutes later (or `now_nanos` itself) is an instant the clock type does
/// not represent.
pub fn payment_expiry_checked(now_nanos: i128) -> (r: Option<String>)
    ensures
        r is None <==> !quotable_instant(now_nanos),
        r matches Some(s) ==> s@ == payment_expiry(now_nanos),
{
    if is_quotable_instant(now_nanos) {
        Some(payment_expiry_at(now_nanos))
    } else {
        None
    }
}

/// The payment expiry for the current instant of the system clock; `None`
/// when five minutes past now is beyond the last instant the clock type
/// represents. Whatever instant the clock gave, the answer is
/// `payment_expiry_checked` of it.
pub fn payment_expiry_rfc3339() -> (r: Option<String>)
    ensures
        exists|now: i128|
            #![trigger quotable_instant(now)]
            representable_nanos(now as int) && (r is None <==> !quotable_instant(now)) && (r matches Some(s)
                ==> s@ == payment_expiry(now)),
{
    let now = now_unix_nanos();
    let r = payment_expiry_checked(now);
    assert(representable_nanos(now as int) && (r is None <==> !quotable_instant(now)));
    r
}
} // verus!
