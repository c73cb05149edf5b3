//! Instants recorded in histories and the spans that separate them.

use vstd::prelude::*;
use vstd::string::*;

verus! {

/// First second of the representable range: midnight of 1 January of the year -262143.
pub const MIN_SECS: i64 = -8_334_601_228_800;

/// Last second of the representable range: the end of 31 December of the year 262142.
pub const MAX_SECS: i64 = 8_210_266_876_799;

/// Longest span in whole seconds: `i64::MAX` milliseconds.
pub const MAX_SPAN_SECS: u64 = 9_223_372_036_854_775;

/// Nanoseconds that may follow [`MAX_SPAN_SECS`].
pub const MAX_SPAN_NANOS: u32 = 807_000_000;

/// Whether a second and a sub-second part denote an instant. A part of one second or more denotes
/// a leap second, which only follows the last second of a minute.
pub open spec fn representable(secs: int, nanos: int) -> bool {
    &&& MIN_SECS <= secs <= MAX_SECS
    &&& 0 <= nanos < 2_000_000_000
    &&& nanos >= 1_000_000_000 ==> secs % 60 == 59
}

/// The instant reached from `(secs, nanos)` after a span, without regard to the range. An instant
/// inside a leap second stays in it until the span leaves it.
pub open spec fn moved(secs: int, nanos: int, span_secs: int, span_nanos: int) -> (int, int) {
    if nanos >= 1_000_000_000 && span_secs == 0 && nanos + span_nanos < 2_000_000_000 {
        (secs, nanos + span_nanos)
    } else {
        let total = nanos % 1_000_000_000 + span_nanos;
        if total >= 1_000_000_000 {
            (secs + span_secs + 1, total - 1_000_000_000)
        } else {
            (secs + span_secs, total)
        }
    }
}

/// Calls `chrono::DateTime::<Utc>::from_timestamp`: it yields an instant exactly for the pairs
/// that are representable, and that instant reads back as the same pair.
#[verifier::external_body]
fn instant_from_parts(secs: i64, nanos: u32) -> (parts: Option<(i64, u32)>)
    ensures
        parts is Some <==> representable(secs as int, nanos as int),
        parts matches Some(p) ==> p == (secs, nanos),
{
    chrono::DateTime::from_timestamp(secs, nanos).map(
        |instant| (instant.timestamp(), instant.timestamp_subsec_nanos()),
    )
}

/// Calls `chrono::Duration::from_std`: a standard duration is accepted when it is at most
/// `i64::MAX` milliseconds, and keeps its seconds and nanoseconds.
#[verifier::external_body]
fn signed_span(secs: u64, nanos: u32) -> (span: Option<(i64, u32)>)
    requires
        nanos < 1_000_000_000,
    ensures
        span is Some <==> (secs < MAX_SPAN_SECS || (secs == MAX_SPAN_SECS && nanos
            <= MAX_SPAN_NANOS)),
        span matches Some(s) ==> s.0 == secs && s.1 == nanos,
{
    let span = chrono::Duration::from_std(std::time::Duration::new(secs, nanos)).ok()?;
    Some((span.num_seconds(), span.subsec_nanos() as u32))
}

/// Calls `chrono::DateTime::<Utc>::checked_add_signed` with a span that is not negative: the sum
/// is the instant that many nanoseconds later, and there is none when its second lies behind the
/// representable range.
#[verifier::external_body]
fn instant_after(secs: i64, nanos: u32, span_secs: i64, span_nanos: u32) -> (sum: Option<
    (i64, u32),
>)
    requires
        representable(secs as int, nanos as int),
        0 <= span_secs <= MAX_SPAN_SECS,
        span_nanos < 1_000_000_000,
        span_secs == MAX_SPAN_SECS ==> span_nanos <= MAX_SPAN_NANOS,
    ensures
        sum is Some <==> moved(
            secs as int,
            nanos as int,
            span_secs as int,
            span_nanos as int,
        ).0 <= MAX_SECS,
        sum matches Some(s) ==> (s.0 as int, s.1 as int) == moved(
            secs as int,
            nanos as int,
            span_secs as int,
            span_nanos as int,
        ),
{
    let start = chrono::DateTime::from_timestamp(secs, nanos)?;
    let sum = start.checked_add_signed(chrono::Duration::new(span_secs, span_nanos)?)?;
    Some((sum.timestamp(), sum.timestamp_subsec_nanos()))
}

/// What `chrono::DateTime::<Utc>::to_rfc3339` writes for an instant.
pub uninterp spec fn rfc3339_text(secs: int, nanos: int) -> Seq<char>;

/// Calls `chrono::DateTime::<Utc>::to_rfc3339`: the text depends on the instant alone.
#[verifier::external_body]
fn rfc3339(secs: i64, nanos: u32) -> (text: String)
    requires
        representable(secs as int, nanos as int),
    ensures
        text@ == rfc3339_text(secs as int, nanos as int),
{
    chrono::DateTime::from_timestamp(secs, nanos).unwrap_or_default().to_rfc3339()
}

/// What `<chrono::DateTime<Utc> as Debug>::fmt` writes for an instant.
pub uninterp spec fn instant_label(secs: int, nanos: int) -> Seq<char>;

/// Calls `<chrono::DateTime<Utc> as Debug>::fmt`: what it writes depends on the instant alone.
#[verifier::external_body]
fn labelled_instant(secs: i64, nanos: u32) -> (label: String)
    requires
        representable(secs as int, nanos as int),
    ensures
        label@ == instant_label(secs as int, nanos as int),
{
    format!("{:?}", chrono::DateTime::from_timestamp(secs, nanos).unwrap_or_default())
}

/// A length of time that is not negative.
#[derive(Clone, Copy, Debug, PartialEq, Eq, Structural)]
pub struct Span {
    pub(crate) secs: u64,
    pub(crate) nanos: u32,
}

impl Span {
    #[verifier::type_invariant]
    spec fn normal(self) -> bool {
        self.nanos < 1_000_000_000
    }

    /// Whole seconds of the span.
    pub closed spec fn whole_secs(self) -> int {
        self.secs as int
    }

    /// Nanoseconds behind the whole seconds.
    pub closed spec fn sub_nanos(self) -> int {
        self.nanos as int
    }

    /// A span of whole seconds.
    pub fn from_secs(secs: u64) -> (span: Self)
        ensures
            span.whole_secs() == secs,
            span.sub_nanos() == 0,
    {
        Span { secs, nanos: 0 }
    }

    /// A span of milliseconds.
    pub fn from_millis(millis: u64) -> (span: Self)
        ensures
            span.whole_secs() == millis as int / 1000,
            span.sub_nanos() == (millis as int % 1000) * 1_000_000,
    {
        Span { secs: millis / 1000, nanos: ((millis % 1000) as u32) * 1_000_000 }
    }

    /// A span of seconds and nanoseconds; there is none with a second or more of nanoseconds.
    pub fn from_parts(secs: u64, nanos: u32) -> (span: Option<Self>)
        ensures
            span is Some <==> nanos < 1_000_000_000,
            span matches Some(s) ==> s.whole_secs() == secs && s.sub_nanos() == nanos,
    {
        if nanos < 1_000_000_000 {
            Some(Span { secs, nanos })
        } else {
            None
        }
    }

    /// Whether the span is empty.
    pub fn is_zero(&self) -> (zero: bool)
        ensures
            zero == (self.whole_secs() == 0 && self.sub_nanos() == 0),
    {
        self.secs == 0 && self.nanos == 0
    }

    /// Whole milliseconds of the span, at most `u64::MAX`.
    pub fn as_millis_saturating(&self) -> (millis: u64)
        ensures
            millis == self.whole_millis(),
    {
        proof {
            use_type_invariant(self);
        }
        let millis: u128 = self.secs as u128 * 1000 + (self.nanos / 1_000_000) as u128;
        if millis <= u64::MAX as u128 {
            millis as u64
        } else {
            u64::MAX
        }
    }

    /// Whole milliseconds of the span, at most `u64::MAX`.
    pub open spec fn whole_millis(self) -> int {
        let millis = self.whole_secs() * 1000 + self.sub_nanos() / 1_000_000;
        if millis <= u64::MAX {
            millis
        } else {
            u64::MAX as int
        }
    }
}

/// Why no instant lies a given span behind another.
#[derive(Clone, Copy, Debug, PartialEq, Eq, Structural)]
pub enum SpanError {
    /// The span is longer than the representable spans.
    SpanOutOfRange,
    /// The sum lies behind the last representable instant.
    InstantOutOfRange,
}

/// An instant of universal time.
#[derive(Clone, Copy, Debug, PartialEq, Eq, Structural, Hash)]
pub struct Timestamp {
    pub(crate) secs: i64,
    pub(crate) nanos: u32,
}

impl Timestamp {
    #[verifier::type_invariant]
    spec fn in_range(self) -> bool {
        representable(self.secs as int, self.nanos as int)
    }

    /// Seconds since the start of 1970.
    pub closed spec fn seconds(self) -> int {
        self.secs as int
    }

    /// Nanoseconds behind the second.
    pub closed spec fn subsec_nanos(self) -> int {
        self.nanos as int
    }

    /// `self` is no later than `other`.
    pub open spec fn at_most(self, other: Self) -> bool {
        self.seconds() < other.seconds() || (self.seconds() == other.seconds()
            && self.subsec_nanos() <= other.subsec_nanos())
    }

    /// The start of 1970.
    pub fn unix_epoch() -> (instant: Self)
        ensures
            instant.seconds() == 0,
            instant.subsec_nanos() == 0,
    {
        Timestamp { secs: 0, nanos: 0 }
    }

    /// The instant `nanos` nanoseconds behind the second `secs`, where it is representable.
    pub fn from_timestamp(secs: i64, nanos: u32) -> (instant: Option<Self>)
        ensures
            instant is Some <==> representable(secs as int, nanos as int),
            instant matches Some(t) ==> t.seconds() == secs && t.subsec_nanos() == nanos,
    {
        match instant_from_parts(secs, nanos) {
            Some((secs, nanos)) => Some(Timestamp { secs, nanos }),
            None => None,
        }
    }

    /// Seconds since the start of 1970.
    pub fn timestamp(&self) -> (secs: i64)
        ensures
            secs == self.seconds(),
    {
        self.secs
    }

    /// Nanoseconds behind the second.
    pub fn timestamp_subsec_nanos(&self) -> (nanos: u32)
        ensures
            nanos == self.subsec_nanos(),
    {
        self.nanos
    }

    /// Whether `self` is no later than `other`.
    pub fn not_after(&self, other: &Self) -> (not_after: bool)
        ensures
            not_after == self.at_most(*other),
    {
        self.secs < other.secs || (self.secs == other.secs && self.nanos <= other.nanos)
    }

    /// The outcome of adding a span to this instant.
    pub open spec fn after_spec(self, span: Span) -> Result<(int, int), SpanError> {
        let sum = moved(
            self.seconds(),
            self.subsec_nanos(),
            span.whole_secs(),
            span.sub_nanos(),
        );
        if span.whole_secs() > MAX_SPAN_SECS || (span.whole_secs() == MAX_SPAN_SECS
            && span.sub_nanos() > MAX_SPAN_NANOS) {
            Err(SpanError::SpanOutOfRange)
        } else if sum.0 > MAX_SECS {
            Err(SpanError::InstantOutOfRange)
        } else {
            Ok(sum)
        }
    }

    /// The instant `span` behind this one.
    pub fn after(&self, span: Span) -> (sum: Result<Self, SpanError>)
        ensures
            match self.after_spec(span) {
                Ok(parts) => sum matches Ok(t) && (t.seconds(), t.subsec_nanos()) == parts,
                Err(error) => sum == Err::<Self, SpanError>(error),
            },
    {
        proof {
            use_type_invariant(self);
            use_type_invariant(&span);
        }
        let parts = match signed_span(span.secs, span.nanos) {
            Some(parts) => parts,
            None => {
                return Err(SpanError::SpanOutOfRange);
            },
        };
        match instant_after(self.secs, self.nanos, parts.0, parts.1) {
            Some((secs, nanos)) => Ok(Timestamp { secs, nanos }),
            None => Err(SpanError::InstantOutOfRange),
        }
    }

    /// The RFC 3339 text of the instant.
    pub fn to_rfc3339(&self) -> (text: String)
        ensures
            text@ == rfc3339_text(self.seconds(), self.subsec_nanos()),
    {
        proof {
            use_type_invariant(self);
        }
        rfc3339(self.secs, self.nanos)
    }

    /// Text of the instant in messages.
    pub open spec fn label(self) -> Seq<char> {
        instant_label(self.seconds(), self.subsec_nanos())
    }

    /// Text of the instant in messages.
    pub fn to_label(&self) -> (text: String)
        ensures
            text@ == self.label(),
    {
        proof {
            use_type_invariant(self);
        }
        labelled_instant(self.secs, self.nanos)
    }
}

/// The order of instants is total, transitive and antisymmetric.
pub proof fn timestamp_order(a: Timestamp, b: Timestamp, c: Timestamp)
    ensures
        a.at_most(b) || b.at_most(a),
        a.at_most(b) && b.at_most(c) ==> a.at_most(c),
        a.at_most(b) && b.at_most(a) ==> a == b,
{
}

/// An instant is given by its seconds and nanoseconds.
pub proof fn timestamp_by_parts(a: Timestamp, b: Timestamp)
    requires
        a.seconds() == b.seconds(),
        a.subsec_nanos() == b.subsec_nanos(),
    ensures
        a == b,
{
}

/// The instant at a whole second since the start of 1970.
pub closed spec fn whole_second(secs: i64) -> Timestamp {
    Timestamp { secs, nanos: 0 }
}

/// The parts of the instant at a whole second.
pub proof fn whole_second_parts(secs: i64)
    ensures
        whole_second(secs).seconds() == secs,
        whole_second(secs).subsec_nanos() == 0,
{
}

/// Instants are ordered by time: `a` is no later than `b` exactly when no more nanoseconds lie before
/// it, where every second has room for a leap second.
pub proof fn instants_are_ordered_by_time(a: Timestamp, b: Timestamp)
    requires
        0 <= a.subsec_nanos() < 2_000_000_000,
        0 <= b.subsec_nanos() < 2_000_000_000,
    ensures
        a.at_most(b) <==> a.seconds() * 2_000_000_000 + a.subsec_nanos() <= b.seconds()
            * 2_000_000_000 + b.subsec_nanos(),
{
}

/// The instant behind a span lies as many nanoseconds later as the span is long, unless the start is
/// inside a leap second; it is refused only for a span that is too long or a sum that is too late.
pub proof fn spans_are_added_to_instants(start: Timestamp, span: Span)
    requires
        0 <= start.subsec_nanos() < 1_000_000_000,
        0 <= span.sub_nanos() < 1_000_000_000,
    ensures
        match start.after_spec(span) {
            Ok((secs, nanos)) => {
                &&& secs * 1_000_000_000 + nanos == start.seconds() * 1_000_000_000
                    + start.subsec_nanos() + span.whole_secs() * 1_000_000_000 + span.sub_nanos()
                &&& 0 <= nanos < 1_000_000_000
                &&& secs <= MAX_SECS
            },
            Err(SpanError::SpanOutOfRange) => span.whole_secs() * 1_000_000_000 + span.sub_nanos()
                > MAX_SPAN_SECS * 1_000_000_000 + MAX_SPAN_NANOS,
            Err(SpanError::InstantOutOfRange) => start.seconds() * 1_000_000_000
                + start.subsec_nanos() + span.whole_secs() * 1_000_000_000 + span.sub_nanos()
                >= (MAX_SECS + 1) * 1_000_000_000,
        },
{
}

/// The whole milliseconds of a span are the most that fit into it, as far as they can be counted.
pub proof fn spans_are_rounded_down_to_milliseconds(span: Span)
    requires
        0 <= span.whole_secs(),
        0 <= span.sub_nanos() < 1_000_000_000,
    ensures
        ({
            let nanos = span.whole_secs() * 1_000_000_000 + span.sub_nanos();
            let millis = span.whole_millis();
            &&& 0 <= millis <= u64::MAX
            &&& millis * 1_000_000 <= nanos
            &&& millis < u64::MAX ==> nanos < (millis + 1) * 1_000_000
        }),
{
}

} // verus!
