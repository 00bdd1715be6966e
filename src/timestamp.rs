//! Points in time, held as whole seconds since the Unix epoch (UTC).

use vstd::prelude::*;

verus! {

/// First second of the year 0000, in seconds since the Unix epoch.
pub const MIN_UNIX_SECONDS: i64 = -62167219200;

/// Last second of the year 9999, in seconds since the Unix epoch.
pub const MAX_UNIX_SECONDS: i64 = 253402300799;

/// Layout of a timestamp inside a serialized snapshot: `2023-05-12T18:00:00Z`.
pub const WIRE_LAYOUT: &'static str = "%Y-%m-%dT%H:%M:%SZ";

/// Layout that `Display` gives a UTC date and time: `2023-05-12 18:00:00 UTC`.
pub const DISPLAY_LAYOUT: &'static str = "%Y-%m-%d %H:%M:%S UTC";

/// RFC 3339 layout of a UTC date and time: `2023-05-12T18:00:00+00:00`.
pub const RFC3339_LAYOUT: &'static str = "%Y-%m-%dT%H:%M:%S+00:00";

/// Layout of a range bound in a read request path: `2023-05-12-18-00-00`.
pub const PATH_LAYOUT: &'static str = "%Y-%m-%d-%H-%M-%S";

/// The layouts this library formats with.
pub open spec fn is_known_layout(layout: Seq<char>) -> bool {
    layout == WIRE_LAYOUT@ || layout == DISPLAY_LAYOUT@ || layout == RFC3339_LAYOUT@
        || layout == PATH_LAYOUT@
}

/// The text that chrono writes for the UTC second `secs` in `layout`.
pub uninterp spec fn formatted_utc(secs: int, layout: Seq<char>) -> Seq<char>;

/// What chrono reads from `text` in `layout`, as seconds since the Unix epoch,
/// taking the date and time read as UTC; `None` where the text does not fit the layout.
pub uninterp spec fn parsed_utc(text: Seq<char>, layout: Seq<char>) -> Option<int>;

/// Relies on `chrono::DateTime::<Utc>::from_timestamp` (always `Some` on this range) and on
/// `DateTime::format`, rendered with `to_string`: the text depends on the second and the layout alone.
#[verifier::external_body]
fn format_utc(secs: i64, layout: &str) -> (r: String)
    requires
        MIN_UNIX_SECONDS <= secs <= MAX_UNIX_SECONDS,
        is_known_layout(layout@),
    ensures
        r@ == formatted_utc(secs as int, layout@),
{
    chrono::DateTime::<chrono::Utc>::from_timestamp(secs, 0).unwrap().format(layout).to_string()
}

/// Relies on `chrono::NaiveDateTime::parse_from_str`, read as UTC through `and_utc().timestamp()`:
/// the result depends on the text and the layout alone.
#[verifier::external_body]
fn parse_utc(text: &str, layout: &str) -> (r: Option<i64>)
    ensures
        r matches Some(s) ==> parsed_utc(text@, layout@) == Some(s as int),
        r is None ==> parsed_utc(text@, layout@) is None,
{
    chrono::NaiveDateTime::parse_from_str(text, layout).ok().map(|d| d.and_utc().timestamp())
}

/// A second in the years 0000 to 9999, UTC.
#[derive(Clone, Copy, Debug, PartialEq, Eq, Hash, PartialOrd, Ord)]
pub struct Timestamp {
    secs: i64,
}

impl View for Timestamp {
    type V = int;

    closed spec fn view(&self) -> int {
        self.secs as int
    }
}

/// Whether `secs` lies in the span a `Timestamp` may take.
pub open spec fn in_span(secs: int) -> bool {
    MIN_UNIX_SECONDS <= secs <= MAX_UNIX_SECONDS
}

impl Timestamp {
    #[verifier::type_invariant]
    spec fn inv(self) -> bool {
        in_span(self.secs as int)
    }

    /// The timestamp `secs` seconds after the Unix epoch, if it lies in the span.
    pub fn from_unix_seconds(secs: i64) -> (r: Option<Timestamp>)
        ensures
            r matches Some(t) ==> t@ == secs as int,
            r is Some <==> in_span(secs as int),
    {
        if MIN_UNIX_SECONDS <= secs && secs <= MAX_UNIX_SECONDS {
            Some(Timestamp { secs })
        } else {
            None
        }
    }

    /// Seconds since the Unix epoch.
    pub fn unix_seconds(&self) -> (r: i64)
        ensures
            r as int == self@,
            in_span(r as int),
    {
        proof {
            use_type_invariant(self);
        }
        self.secs
    }

    /// Whether `self` is no later than `other`.
    pub fn is_at_or_before(&self, other: &Timestamp) -> (r: bool)
        ensures
            r == (self@ <= other@),
    {
        self.secs <= other.secs
    }

    /// This timestamp `delta` seconds later (earlier where negative), if that lies in the span.
    pub fn offset_by(&self, delta: i64) -> (r: Option<Timestamp>)
        ensures
            r matches Some(t) ==> t@ == self@ + delta,
            r is Some <==> in_span(self@ + delta),
    {
        proof {
            use_type_invariant(self);
        }
        if delta > 0 && self.secs > MAX_UNIX_SECONDS - delta {
            None
        } else if delta < 0 && self.secs < MIN_UNIX_SECONDS - delta {
            None
        } else {
            Timestamp::from_unix_seconds(self.secs + delta)
        }
    }

    fn render(&self, layout: &str) -> (r: String)
        requires
            is_known_layout(layout@),
        ensures
            r@ == formatted_utc(self@, layout@),
    {
        proof {
            use_type_invariant(self);
        }
        format_utc(self.secs, layout)
    }

    /// The text of this timestamp inside a serialized snapshot.
    pub fn to_wire_text(&self) -> (r: String)
        ensures
            r@ == formatted_utc(self@, WIRE_LAYOUT@),
    {
        self.render(WIRE_LAYOUT)
    }

    /// The display text of this timestamp, as used in storage keys and file names.
    pub fn to_display_text(&self) -> (r: String)
        ensures
            r@ == formatted_utc(self@, DISPLAY_LAYOUT@),
    {
        self.render(DISPLAY_LAYOUT)
    }

    /// The RFC 3339 text of this timestamp.
    pub fn to_rfc3339(&self) -> (r: String)
        ensures
            r@ == formatted_utc(self@, RFC3339_LAYOUT@),
    {
        self.render(RFC3339_LAYOUT)
    }

    fn read(text: &str, layout: &str) -> (r: Option<Timestamp>)
        ensures
            r matches Some(t) ==> parsed_utc(text@, layout@) == Some(t@),
            r is Some <==> (parsed_utc(text@, layout@) matches Some(s) && in_span(s)),
    {
        match parse_utc(text, layout) {
            Some(secs) => Timestamp::from_unix_seconds(secs),
            None => None,
        }
    }

    /// Reads a timestamp written in the serialized-snapshot layout.
    pub fn from_wire_text(text: &str) -> (r: Option<Timestamp>)
        ensures
            r matches Some(t) ==> parsed_utc(text@, WIRE_LAYOUT@) == Some(t@),
            r is Some <==> (parsed_utc(text@, WIRE_LAYOUT@) matches Some(s) && in_span(s)),
    {
        Timestamp::read(text, WIRE_LAYOUT)
    }

    /// Reads a range bound of a read request, `YYYY-MM-DD-HH-MM-SS`, taken as UTC.
    pub fn from_path_segment(text: &str) -> (r: Option<Timestamp>)
        ensures
            r matches Some(t) ==> parsed_utc(text@, PATH_LAYOUT@) == Some(t@),
            r is Some <==> (parsed_utc(text@, PATH_LAYOUT@) matches Some(s) && in_span(s)),
    {
        Timestamp::read(text, PATH_LAYOUT)
    }
}

} // verus!
