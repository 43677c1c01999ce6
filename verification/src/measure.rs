//! Fractional readings: scores and thresholds, and elapsed time, with the text shown for each.
use crate::json::{JsonNumber, JsonV};
use vstd::prelude::*;

verus! {

/// The text of a number with two digits after the point.
pub uninterp spec fn two_decimals_of(n: JsonNumber) -> Seq<char>;

/// The shortest text of a number as a fraction.
pub uninterp spec fn shown_number(n: JsonNumber) -> Seq<char>;

/// The first number is the greater one.
pub uninterp spec fn number_exceeds(n: JsonNumber, limit: JsonNumber) -> bool;

/// The text of a length of time in seconds with two digits after the point.
pub uninterp spec fn seconds_of(secs: u64, nanos: u32) -> Seq<char>;

/// `serde_json::Number::as_f64`, written with two digits after the point.
#[verifier::external_body]
pub(crate) fn two_decimals(n: &JsonNumber) -> (r: String)
    ensures
        r@ == two_decimals_of(*n),
{
    let n = match n {
        JsonNumber::Unsigned(u) => serde_json::Number::from(*u),
        JsonNumber::Negative(i) => serde_json::Number::from(*i),
        JsonNumber::Other(n) => n.clone(),
    };
    format!("{:.2}", n.as_f64().unwrap_or_default())
}

/// `serde_json::Number::as_f64`, written in its shortest form.
#[verifier::external_body]
fn show_number(n: &JsonNumber) -> (r: String)
    ensures
        r@ == shown_number(*n),
{
    let n = match n {
        JsonNumber::Unsigned(u) => serde_json::Number::from(*u),
        JsonNumber::Negative(i) => serde_json::Number::from(*i),
        JsonNumber::Other(n) => n.clone(),
    };
    format!("{}", n.as_f64().unwrap_or_default())
}

/// `serde_json::Number::as_f64` of both numbers, compared. No number is above itself, and
/// integers that a fraction holds exactly compare as integers do.
#[verifier::external_body]
fn exceeds(n: &JsonNumber, limit: &JsonNumber) -> (r: bool)
    ensures
        r == number_exceeds(*n, *limit),
        *n == *limit ==> !r,
        (n matches JsonNumber::Unsigned(a) && limit matches JsonNumber::Unsigned(b) && a
            <= 0x20_0000_0000_0000 && b <= 0x20_0000_0000_0000) ==> r == (n->Unsigned_0
            > limit->Unsigned_0),
{
    let n = match n {
        JsonNumber::Unsigned(u) => serde_json::Number::from(*u),
        JsonNumber::Negative(i) => serde_json::Number::from(*i),
        JsonNumber::Other(n) => n.clone(),
    };
    let limit = match limit {
        JsonNumber::Unsigned(u) => serde_json::Number::from(*u),
        JsonNumber::Negative(i) => serde_json::Number::from(*i),
        JsonNumber::Other(n) => n.clone(),
    };
    n.as_f64() > limit.as_f64()
}

/// `Duration::as_secs_f64`, written with two digits after the point.
#[verifier::external_body]
fn show_seconds(secs: u64, nanos: u32) -> (r: String)
    requires
        nanos < 1_000_000_000,
    ensures
        r@ == seconds_of(secs, nanos),
{
    format!("{:.2}", std::time::Duration::new(secs, nanos).as_secs_f64())
}

/// The number that an optional value is.
pub open spec fn number_in(v: Option<JsonV>) -> Option<JsonNumber> {
    match v {
        Some(JsonV::Number(n)) => Some(n),
        _ => None,
    }
}

/// A bound that a reading is held against.
#[derive(Debug)]
pub enum Threshold {
    /// A finite number.
    Finite(JsonNumber),
    /// Above every number.
    Infinite,
    /// Below every number.
    NegativeInfinite,
    /// Comparable with no number.
    NotANumber,
}

/// The reading `n` is above the bound.
pub open spec fn above(n: JsonNumber, t: Threshold) -> bool {
    match t {
        Threshold::Finite(limit) => number_exceeds(n, limit),
        Threshold::Infinite => false,
        Threshold::NegativeInfinite => true,
        Threshold::NotANumber => false,
    }
}

/// The text shown for a bound.
pub open spec fn shown_threshold(t: Threshold) -> Seq<char> {
    match t {
        Threshold::Finite(limit) => shown_number(limit),
        Threshold::Infinite => "inf"@,
        Threshold::NegativeInfinite => "-inf"@,
        Threshold::NotANumber => "NaN"@,
    }
}

/// The text shown for a reading that may be missing.
pub open spec fn shown_reading(n: Option<JsonNumber>) -> Seq<char> {
    match n {
        Some(n) => two_decimals_of(n),
        None => "n/a"@,
    }
}

/// The text of a reading: two digits after the point, or `n/a`.
pub fn fmt_opt(n: &Option<JsonNumber>) -> (r: String)
    ensures
        r@ == shown_reading(*n),
{
    match n {
        Some(n) => two_decimals(n),
        None => "n/a".to_owned(),
    }
}

impl Threshold {
    /// Whether the reading `n` is above this bound.
    pub fn is_below(&self, n: &JsonNumber) -> (r: bool)
        ensures
            r == above(*n, *self),
            *self == Threshold::Finite(*n) ==> !r,
    {
        match self {
            Threshold::Finite(limit) => exceeds(n, limit),
            Threshold::Infinite => false,
            Threshold::NegativeInfinite => true,
            Threshold::NotANumber => false,
        }
    }

    /// The text shown for this bound.
    pub fn show(&self) -> (r: String)
        ensures
            r@ == shown_threshold(*self),
    {
        match self {
            Threshold::Finite(limit) => show_number(limit),
            Threshold::Infinite => "inf".to_owned(),
            Threshold::NegativeInfinite => "-inf".to_owned(),
            Threshold::NotANumber => "NaN".to_owned(),
        }
    }
}

impl Clone for Threshold {
    fn clone(&self) -> (r: Self)
        ensures
            r == *self,
    {
        match self {
            Threshold::Finite(limit) => Threshold::Finite(limit.clone()),
            Threshold::Infinite => Threshold::Infinite,
            Threshold::NegativeInfinite => Threshold::NegativeInfinite,
            Threshold::NotANumber => Threshold::NotANumber,
        }
    }
}

/// A length of time: whole seconds, and nanoseconds below one second.
#[derive(Debug, Clone, Copy, PartialEq, Eq)]
pub struct Elapsed {
    secs: u64,
    nanos: u32,
}

impl Elapsed {
    #[verifier::type_invariant]
    spec fn wf(self) -> bool {
        self.nanos < 1_000_000_000
    }

    pub closed spec fn secs(self) -> u64 {
        self.secs
    }

    pub closed spec fn nanos(self) -> u32 {
        self.nanos
    }

    /// The whole milliseconds, as far as 64 bits hold them.
    pub open spec fn spec_millis(self) -> int {
        (self.secs() * 1000 + self.nanos() / 1_000_000) % 0x1_0000_0000_0000_0000
    }

    /// The text of this length of time in seconds.
    pub open spec fn shown(self) -> Seq<char> {
        seconds_of(self.secs(), self.nanos())
    }

    /// A length of time of `secs` seconds and `nanos` nanoseconds, which are below one second.
    pub fn new(secs: u64, nanos: u32) -> (r: Option<Elapsed>)
        ensures
            r is Some <==> nanos < 1_000_000_000,
            r matches Some(e) ==> e.secs() == secs && e.nanos() == nanos,
    {
        if nanos < 1_000_000_000 {
            Some(Elapsed { secs, nanos })
        } else {
            None
        }
    }

    /// No time at all.
    pub fn zero() -> (r: Elapsed)
        ensures
            r.secs() == 0,
            r.nanos() == 0,
    {
        Elapsed { secs: 0, nanos: 0 }
    }

    /// The whole milliseconds, as far as 64 bits hold them.
    pub fn millis(self) -> (r: u64)
        ensures
            r == self.spec_millis(),
    {
        proof {
            use_type_invariant(&self);
        }
        let ms: u128 = self.secs as u128 * 1000 + (self.nanos / 1_000_000) as u128;
        (ms % 0x1_0000_0000_0000_0000) as u64
    }

    /// The text of this length of time in seconds, with two digits after the point.
    pub fn show(self) -> (r: String)
        ensures
            r@ == self.shown(),
    {
        proof {
            use_type_invariant(&self);
        }
        show_seconds(self.secs, self.nanos)
    }
}

/// A length of time has a thousand milliseconds for each second, and one for each million of
/// nanoseconds, as long as 64 bits hold them.
pub proof fn law_milliseconds(e: Elapsed)
    requires
        e.secs() * 1000 + e.nanos() / 1_000_000 <= u64::MAX,
    ensures
        e.spec_millis() == e.secs() * 1000 + e.nanos() / 1_000_000,
{
}

/// A bound beyond the numbers lets every number through or none.
pub proof fn law_bounds_beyond_the_numbers(n: JsonNumber)
    ensures
        !above(n, Threshold::Infinite),
        above(n, Threshold::NegativeInfinite),
        !above(n, Threshold::NotANumber),
{
}

} // verus!
