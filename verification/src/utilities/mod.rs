//! Parsing of the durations used by auto-sync intervals and timeouts.

pub mod mihomo_api;

use vstd::prelude::*;

use crate::text::{
    all_digits, alphabetic, char_is_alphabetic, chars_of, digits_value, is_ascii_char, is_ascii_digit, is_ascii_letter,
    lemma_trim_last, parse_u64, parse_unsigned, string_of, trim, trim_chars, unsigned_digits,
};

verus! {

/// Why a duration was refused.
#[derive(Debug, PartialEq, Eq)]
pub enum DurationError {
    /// The text has no unit, a negative or zero amount: holds the input.
    Invalid(String),
    /// The amount before the unit is not an unsigned integer: holds why.
    Number(AmountError),
    /// The unit is none of `y`, `d`, `m`, `s`: holds the unit.
    InvalidSuffix(String),
}

/// What a `DurationError` holds, as character sequences.
pub enum DurationFault {
    Invalid(Seq<char>),
    Number(AmountError),
    InvalidSuffix(Seq<char>),
}

impl View for DurationError {
    type V = DurationFault;

    open spec fn view(&self) -> DurationFault {
        match self {
            DurationError::Invalid(s) => DurationFault::Invalid(s@),
            DurationError::Number(a) => DurationFault::Number(*a),
            DurationError::InvalidSuffix(s) => DurationFault::InvalidSuffix(s@),
        }
    }
}

impl DurationError {
    /// The message that describes the error.
    pub fn message(&self) -> (m: String)
        ensures
            m@ == duration_error_message(self@),
    {
        let mut m = String::new();
        match self {
            DurationError::Invalid(s) => {
                m.append("invalid duration: ");
                m.append(s.as_str());
            }
            DurationError::Number(a) => {
                m.append(a.text());
            }
            DurationError::InvalidSuffix(s) => {
                m.append("invalid duration suffix: ");
                m.append(s.as_str());
            }
        }
        m
    }
}

pub open spec fn duration_error_message(e: DurationFault) -> Seq<char> {
    match e {
        DurationFault::Invalid(s) => "invalid duration: "@ + s,
        DurationFault::Number(a) => amount_error_text(a),
        DurationFault::InvalidSuffix(s) => "invalid duration suffix: "@ + s,
    }
}

/// Why an amount is not an unsigned 64-bit integer, as `u64::from_str`
/// reports it.
#[derive(Debug, PartialEq, Eq, Structural, Clone, Copy)]
pub enum AmountError {
    /// The amount is empty.
    Empty,
    /// A character that is no digit, or a sign and nothing after it.
    InvalidDigit,
    /// The digits read so far exceed `u64::MAX`.
    PosOverflow,
}

/// The message of each `AmountError`, the text std gives its integer
/// parse errors.
pub open spec fn amount_error_text(a: AmountError) -> Seq<char> {
    match a {
        AmountError::Empty => "cannot parse integer from empty string"@,
        AmountError::InvalidDigit => "invalid digit found in string"@,
        AmountError::PosOverflow => "number too large to fit in target type"@,
    }
}

impl AmountError {
    /// See `amount_error_text`.
    pub fn text(&self) -> (r: &'static str)
        ensures
            r@ == amount_error_text(*self),
    {
        match self {
            AmountError::Empty => "cannot parse integer from empty string",
            AmountError::InvalidDigit => "invalid digit found in string",
            AmountError::PosOverflow => "number too large to fit in target type",
        }
    }
}

/// The first fault met reading the digits `d[i..]` left to right: a
/// character that is no digit, or a prefix whose value exceeds `u64::MAX`.
/// Running off the end (no digit at all) is an invalid digit too.
pub open spec fn digits_fault(d: Seq<char>, i: int) -> AmountError
    decreases d.len() - i,
{
    if i < 0 || i >= d.len() {
        AmountError::InvalidDigit
    } else if !is_ascii_digit(d[i]) {
        AmountError::InvalidDigit
    } else if digits_value(d.take(i + 1)) > u64::MAX {
        AmountError::PosOverflow
    } else {
        digits_fault(d, i + 1)
    }
}

/// Why `u64::from_str` refuses `s`, where it does (see `parse_unsigned`):
/// an empty text, else the first fault in its digits after an optional `+`.
pub open spec fn amount_error(s: Seq<char>) -> AmountError {
    if s.len() == 0 {
        AmountError::Empty
    } else {
        digits_fault(unsigned_digits(s), 0)
    }
}

/// See `amount_error`.
fn amount_error_of(s: &[char]) -> (r: AmountError)
    ensures
        r == amount_error(s@),
{
    if s.len() == 0 {
        return AmountError::Empty;
    }
    let start: usize = if s[0] == '+' { 1 } else { 0 };
    let ghost d = unsigned_digits(s@);
    assert(d =~= s@.skip(start as int));
    let mut value: u64 = 0;
    let mut i: usize = start;
    while i < s.len()
        invariant
            start <= i <= s@.len(),
            d == s@.skip(start as int),
            d == unsigned_digits(s@),
            digits_fault(d, 0) == digits_fault(d, i - start),
            value == digits_value(d.take(i - start)),
        decreases s@.len() - i,
    {
        let c = s[i];
        if !('0' <= c && c <= '9') {
            return AmountError::InvalidDigit;
        }
        let digit: u64 = (c as u32 - 48) as u64;
        assert(d.take(i + 1 - start).drop_last() =~= d.take(i - start));
        assert(d.take(i + 1 - start).last() == c);
        let next = match value.checked_mul(10) {
            Some(m) => m.checked_add(digit),
            None => None,
        };
        match next {
            Some(v) => {
                value = v;
            }
            None => {
                return AmountError::PosOverflow;
            }
        }
        i = i + 1;
    }
    AmountError::InvalidDigit
}

/// Number of alphabetic characters at the end of `s`.
pub open spec fn alpha_suffix_len(s: Seq<char>) -> nat
    decreases s.len(),
{
    if s.len() > 0 && alphabetic(s.last()) {
        alpha_suffix_len(s.drop_last()) + 1
    } else {
        0
    }
}

/// The unit of a duration: its trailing alphabetic characters.
pub open spec fn duration_unit(s: Seq<char>) -> Seq<char> {
    s.skip(s.len() - alpha_suffix_len(s))
}

/// The amount of a duration: what precedes the unit, trimmed.
pub open spec fn duration_amount(s: Seq<char>) -> Seq<char> {
    trim(s.take(s.len() - alpha_suffix_len(s)))
}

/// Seconds in one of each accepted unit: `y` (365 days), `d`, `m`, `s`.
pub open spec fn unit_seconds(unit: Seq<char>) -> Option<nat> {
    if unit == seq!['y'] {
        Some(31536000)
    } else if unit == seq!['d'] {
        Some(86400)
    } else if unit == seq!['m'] {
        Some(60)
    } else if unit == seq!['s'] {
        Some(1)
    } else {
        None
    }
}

/// `a * b`, held at `u64::MAX`.
pub open spec fn saturating_product(a: nat, b: nat) -> nat {
    if a * b > u64::MAX {
        u64::MAX as nat
    } else {
        a * b
    }
}

/// What `parse_duration` gives for `s`: the number of seconds, or the error.
pub open spec fn duration_result(s: Seq<char>) -> Result<nat, DurationFault> {
    let unit = duration_unit(s);
    let amount = duration_amount(s);
    if unit.len() == 0 {
        Err(DurationFault::Invalid(s))
    } else if amount.len() > 0 && amount[0] == '-' {
        Err(DurationFault::Invalid(s))
    } else {
        match parse_unsigned(amount, u64::MAX as nat) {
            None => Err(DurationFault::Number(amount_error(amount))),
            Some(v) => if v == 0 {
                Err(DurationFault::Invalid(s))
            } else {
                match unit_seconds(unit) {
                    Some(k) => Ok(saturating_product(v, k)),
                    None => Err(DurationFault::InvalidSuffix(unit)),
                }
            },
        }
    }
}

proof fn lemma_alpha_suffix(s: Seq<char>, k: int)
    requires
        0 <= k <= s.len(),
        forall|t: int| s.len() - k <= t < s.len() ==> alphabetic(#[trigger] s[t]),
        k == s.len() || !alphabetic(s[s.len() - k - 1]),
    ensures
        alpha_suffix_len(s) == k,
    decreases k,
{
    if k > 0 {
        assert(s.drop_last().len() == s.len() - 1);
        assert forall|t: int| s.drop_last().len() - (k - 1) <= t < s.drop_last().len() implies alphabetic(#[trigger] s.drop_last()[t]) by {
            assert(s.drop_last()[t] == s[t]);
        }
        lemma_alpha_suffix(s.drop_last(), k - 1);
    }
}

proof fn lemma_alpha_suffix_shape(s: Seq<char>)
    ensures
        alpha_suffix_len(s) <= s.len(),
        forall|t: int| s.len() - alpha_suffix_len(s) <= t < s.len() ==> alphabetic(#[trigger] s[t]),
        alpha_suffix_len(s) < s.len() ==> !alphabetic(s[s.len() - alpha_suffix_len(s) - 1]),
    decreases s.len(),
{
    if s.len() > 0 && alphabetic(s.last()) {
        lemma_alpha_suffix_shape(s.drop_last());
        assert forall|t: int| s.len() - alpha_suffix_len(s) <= t < s.len() implies alphabetic(#[trigger] s[t]) by {
            if t < s.len() - 1 {
                assert(s.drop_last()[t] == s[t]);
            }
        }
        if alpha_suffix_len(s) < s.len() {
            assert(s.drop_last()[s.len() - alpha_suffix_len(s) - 1] == s[s.len() - alpha_suffix_len(s) - 1]);
        }
    }
}

/// What `parse_duration` decides. The input is its amount text followed by
/// its unit, the longest run of alphabetic characters that ends it. It is
/// accepted exactly where the unit is one of `y`, `d`, `m`, `s` and the
/// trimmed amount is an unsigned 64-bit integer of at least 1, and then
/// gives that amount times the unit's seconds, held at `u64::MAX`. It is
/// invalid where the unit is empty, the amount starts with `-` or is 0;
/// an amount that is no integer gives std's reason; a recognised amount
/// with another unit gives the unit.
pub proof fn lemma_duration_result(s: Seq<char>)
    ensures
        ({
            let unit = duration_unit(s);
            let head = s.take(s.len() - unit.len());
            let amount = duration_amount(s);
            &&& s == head + unit
            &&& amount == trim(head)
            &&& forall|t: int| 0 <= t < unit.len() ==> alphabetic(#[trigger] unit[t])
            &&& head.len() > 0 ==> !alphabetic(head.last())
            &&& (duration_result(s) is Ok <==> (unit_seconds(unit) is Some
                && parse_unsigned(amount, u64::MAX as nat) is Some && parse_unsigned(amount, u64::MAX as nat)->Some_0 >= 1))
            &&& duration_result(s) matches Ok(n) ==> n == saturating_product(
                parse_unsigned(amount, u64::MAX as nat)->Some_0, unit_seconds(unit)->Some_0)
            &&& (duration_result(s) == Err::<nat, DurationFault>(DurationFault::Invalid(s)) <==> (unit.len() == 0
                || (amount.len() > 0 && amount[0] == '-')
                || parse_unsigned(amount, u64::MAX as nat) == Some(0nat)))
            &&& (duration_result(s) is Err && duration_result(s)->Err_0 is Number <==> (unit.len() > 0
                && !(amount.len() > 0 && amount[0] == '-') && parse_unsigned(amount, u64::MAX as nat) is None))
            &&& duration_result(s) matches Err(DurationFault::Number(e)) ==> e == amount_error(amount)
            &&& (duration_result(s) == Err::<nat, DurationFault>(DurationFault::InvalidSuffix(unit)) <==> (unit.len() > 0
                && parse_unsigned(amount, u64::MAX as nat) is Some && parse_unsigned(amount, u64::MAX as nat)->Some_0 >= 1 && unit_seconds(unit) is None))
        }),
{
    lemma_alpha_suffix_shape(s);
    let k = alpha_suffix_len(s);
    let unit = duration_unit(s);
    let head = s.take(s.len() - unit.len());
    assert(unit.len() == k);
    assert(s =~= head + unit);
    assert forall|t: int| 0 <= t < unit.len() implies alphabetic(#[trigger] unit[t]) by {
        assert(unit[t] == s[s.len() - k + t]);
    }
    if head.len() > 0 {
        assert(head.last() == s[s.len() - k - 1]);
    }
}

/// Whether `p` followed by `u` is an accepted duration: `u` is one of the
/// units and `p`, trimmed, is an unsigned 64-bit integer of at least 1.
pub open spec fn accepted_split(p: Seq<char>, u: Seq<char>) -> bool {
    &&& unit_seconds(u) is Some
    &&& parse_unsigned(trim(p), u64::MAX as nat) is Some
    &&& parse_unsigned(trim(p), u64::MAX as nat)->Some_0 >= 1
}

/// An input split into an amount `p` and a unit `u` as `accepted_split`
/// asks is accepted, as the amount times the unit's seconds, held at
/// `u64::MAX`.
pub proof fn lemma_duration_of_split(s: Seq<char>, p: Seq<char>, u: Seq<char>)
    requires
        s == p + u,
        accepted_split(p, u),
    ensures
        duration_result(s) == Ok::<nat, DurationFault>(saturating_product(
            parse_unsigned(trim(p), u64::MAX as nat)->Some_0,
            unit_seconds(u)->Some_0,
        )),
{
    let a = trim(p);
    let d = unsigned_digits(a);
    assert(d.len() > 0 && all_digits(d));
    assert(a.len() > 0);
    assert(d.last() == a.last());
    assert(is_ascii_digit(d[d.len() - 1]));
    lemma_trim_last(p);
    assert(!alphabetic(p.last()));
    assert(u.len() == 1 && is_ascii_letter(u[0]) && is_ascii_char(u[0]));
    assert(s[s.len() - 1] == u[0]);
    assert(s[s.len() - 2] == p.last());
    lemma_alpha_suffix(s, 1);
    assert(duration_unit(s) =~= u);
    assert(s.take(s.len() - 1) =~= p);
    if a.len() > 0 && a[0] == '-' {
        assert(d[0] == '-');
    }
}

/// `parse_duration` accepts exactly the inputs that are an amount followed
/// by a unit as `accepted_split` asks (see `lemma_duration_of_split` for
/// the value).
pub proof fn lemma_duration_accepts(s: Seq<char>)
    ensures
        duration_result(s) is Ok <==> exists|p: Seq<char>, u: Seq<char>| s == p + u && #[trigger] accepted_split(p, u),
{
    lemma_duration_result(s);
    if duration_result(s) is Ok {
        let unit = duration_unit(s);
        let head = s.take(s.len() - unit.len());
        assert(accepted_split(head, unit));
    }
    if exists|p: Seq<char>, u: Seq<char>| s == p + u && #[trigger] accepted_split(p, u) {
        let (p, u) = choose|p: Seq<char>, u: Seq<char>| s == p + u && #[trigger] accepted_split(p, u);
        lemma_duration_of_split(s, p, u);
    }
}

fn unit_seconds_of(unit: &Vec<char>) -> (r: Option<u64>)
    ensures
        r matches Some(k) ==> unit_seconds(unit@) == Some(k as nat),
        r is None ==> unit_seconds(unit@) is None,
{
    if unit.len() == 1 {
        let c = unit[0];
        assert(unit@ =~= seq![c]);
        if c == 'y' {
            Some(31536000)
        } else if c == 'd' {
            Some(86400)
        } else if c == 'm' {
            Some(60)
        } else if c == 's' {
            Some(1)
        } else {
            None
        }
    } else {
        None
    }
}

/// Parses a duration such as `30s`, `5m`, `1d` or `1y` into seconds: an
/// unsigned, non-zero amount followed by one unit letter. The product is
/// held at `u64::MAX`.
pub fn parse_duration(input: &str) -> (r: Result<u64, DurationError>)
    ensures
        match r {
            Ok(v) => duration_result(input@) == Ok::<nat, DurationFault>(v as nat),
            Err(e) => duration_result(input@) == Err::<nat, DurationFault>(e@),
        },
{
    let s = chars_of(input);
    let mut k: usize = 0;
    while k < s.len() && char_is_alphabetic(s[s.len() - 1 - k])
        invariant
            k <= s@.len(),
            s@ == input@,
            forall|t: int| s@.len() - k <= t < s@.len() ==> alphabetic(#[trigger] s@[t]),
        decreases s@.len() - k,
    {
        k = k + 1;
    }
    proof {
        lemma_alpha_suffix(s@, k as int);
    }
    let cut = s.len() - k;
    let mut unit: Vec<char> = Vec::new();
    let mut head: Vec<char> = Vec::new();
    let mut t: usize = 0;
    while t < s.len()
        invariant
            t <= s@.len(),
            cut <= s@.len(),
            t <= cut ==> head@ == s@.take(t as int) && unit@.len() == 0,
            t > cut ==> head@ == s@.take(cut as int) && unit@ == s@.subrange(cut as int, t as int),
        decreases s@.len() - t,
    {
        if t < cut {
            head.push(s[t]);
            assert(head@ =~= s@.take(t + 1));
        } else {
            unit.push(s[t]);
            assert(unit@ =~= s@.subrange(cut as int, t + 1));
        }
        t = t + 1;
    }
    assert(head@ =~= s@.take(cut as int));
    assert(unit@ =~= s@.skip(cut as int));
    if unit.len() == 0 {
        return Err(DurationError::Invalid(string_of(s.as_slice())));
    }
    let amount = trim_chars(head.as_slice());
    if amount.len() > 0 && amount[0] == '-' {
        return Err(DurationError::Invalid(string_of(s.as_slice())));
    }
    let value = match parse_u64(amount.as_slice()) {
        Some(v) => v,
        None => {
            return Err(DurationError::Number(amount_error_of(amount.as_slice())));
        }
    };
    if value == 0 {
        return Err(DurationError::Invalid(string_of(s.as_slice())));
    }
    match unit_seconds_of(&unit) {
        Some(factor) => {
            let secs = match value.checked_mul(factor) {
                Some(p) => p,
                None => u64::MAX,
            };
            Ok(secs)
        }
        None => Err(DurationError::InvalidSuffix(string_of(unit.as_slice()))),
    }
}

/// The auto-sync interval to use: the interval, or the timeout where that
/// is longer. Either text may fail to parse; the interval is parsed first.
pub fn effective_auto_sync_duration(auto_sync: &str, timeout: Option<&str>) -> (r: Result<u64, DurationError>)
    ensures
        match (duration_result(auto_sync@), timeout) {
            (Err(e), _) => r is Err && r->Err_0@ == e,
            (Ok(a), None) => r == Ok::<u64, DurationError>(a as u64),
            (Ok(a), Some(t)) => match duration_result(t@) {
                Err(e) => r is Err && r->Err_0@ == e,
                Ok(b) => r == Ok::<u64, DurationError>(if a >= b { a as u64 } else { b as u64 }),
            },
        },
{
    let auto_sync_secs = parse_duration(auto_sync)?;
    match timeout {
        None => Ok(auto_sync_secs),
        Some(t) => {
            let timeout_secs = parse_duration(t)?;
            if auto_sync_secs >= timeout_secs {
                Ok(auto_sync_secs)
            } else {
                Ok(timeout_secs)
            }
        }
    }
}

/// Checks an auto-sync interval and timeout given together. Either may be
/// absent; a present one must parse (the interval is checked first). The
/// result says whether a warning is due: both are present and the interval
/// is shorter than the timeout, so the timeout will be used as the interval.
pub fn validate_auto_sync_timeout(auto_sync: Option<&str>, timeout: Option<&str>) -> (r: Result<bool, DurationError>)
    ensures
        match auto_sync {
            Some(a) if duration_result(a@) is Err => r is Err && r->Err_0@ == duration_result(a@)->Err_0,
            _ => match timeout {
                Some(t) if duration_result(t@) is Err => r is Err && r->Err_0@ == duration_result(t@)->Err_0,
                _ => r == Ok::<bool, DurationError>(
                    match (auto_sync, timeout) {
                        (Some(a), Some(t)) => duration_result(a@)->Ok_0 < duration_result(t@)->Ok_0,
                        _ => false,
                    },
                ),
            },
        },
{
    let auto_sync_secs = match auto_sync {
        Some(a) => Some(parse_duration(a)?),
        None => None,
    };
    let timeout_secs = match timeout {
        Some(t) => Some(parse_duration(t)?),
        None => None,
    };
    match (auto_sync_secs, timeout_secs) {
        (Some(a), Some(t)) => Ok(a < t),
        _ => Ok(false),
    }
}

} // verus!
