use vstd::prelude::*;
use crate::log::level::Level;
use crate::log::json::JsonValue;

verus! {

/// Whether chrono represents the instant `secs` seconds and `nanos` nanoseconds after the
/// Unix epoch, that is, whether `chrono::DateTime::from_timestamp` answers with `Some`: the
/// day lies within chrono's dates (from -262143-01-01 to +262142-12-31), and the
/// nanoseconds are below two billion, and at or above one billion only in the last second
/// of a minute, where they stand for a leap second.
pub open spec fn chrono_accepts(secs: i64, nanos: u32) -> bool {
    let day = secs as int / 86_400;
    let second = secs as int % 86_400;
    &&& -96_465_292 <= day <= 95_026_236
    &&& nanos < 2_000_000_000
    &&& (nanos < 1_000_000_000 || second % 60 == 59)
}

/// The text that chrono's `%+` format item (RFC 3339 with the fraction of a second)
/// gives for the instant `secs` seconds and `nanos` nanoseconds after the Unix epoch.
pub uninterp spec fn chrono_rfc3339(secs: i64, nanos: u32) -> Seq<char>;

/// Whether chrono represents the given instant.
///
/// Trusted: calls `chrono::DateTime::from_timestamp`, whose answer `chrono_accepts` states:
/// the range of days that its dates cover and its rule for the nanoseconds of a time.
#[verifier::external_body]
fn chrono_represents(secs: i64, nanos: u32) -> (r: bool)
    ensures
        r == chrono_accepts(secs, nanos),
{
    chrono::DateTime::from_timestamp(secs, nanos).is_some()
}

/// Formats an instant with chrono's `%+` format item.
///
/// Trusted: builds the instant with `chrono::DateTime::from_timestamp` (which answers
/// `Some` here, by `requires`) and formats it with `DateTime::format("%+")`; the text is
/// named by `chrono_rfc3339`.
#[verifier::external_body]
fn chrono_format_rfc3339(secs: i64, nanos: u32) -> (r: String)
    requires
        chrono_accepts(secs, nanos),
    ensures
        r@ == chrono_rfc3339(secs, nanos),
{
    match chrono::DateTime::from_timestamp(secs, nanos) {
        Some(t) => t.format("%+").to_string(),
        None => String::new(),
    }
}

/// An instant in UTC, as whole seconds and nanoseconds since the Unix epoch.
#[derive(Copy, Clone, Debug)]
pub struct Timestamp {
    secs: i64,
    nanos: u32,
}

impl Timestamp {
    #[verifier::type_invariant]
    spec fn represented(self) -> bool {
        chrono_accepts(self.secs, self.nanos)
    }

    /// Whole seconds since the Unix epoch.
    pub closed spec fn spec_secs(self) -> i64 {
        self.secs
    }

    /// Nanoseconds past the whole second (above a billion during a leap second).
    pub closed spec fn spec_nanos(self) -> u32 {
        self.nanos
    }

    /// The instant `secs` seconds and `nanos` nanoseconds after the Unix epoch, when
    /// chrono represents it.
    pub fn from_parts(secs: i64, nanos: u32) -> (r: Option<Self>)
        ensures
            r is Some <==> chrono_accepts(secs, nanos),
            r matches Some(t) ==> t.spec_secs() == secs && t.spec_nanos() == nanos,
    {
        if chrono_represents(secs, nanos) {
            Some(Timestamp { secs, nanos })
        } else {
            None
        }
    }

    /// Whole seconds since the Unix epoch.
    pub fn secs(&self) -> (r: i64)
        ensures
            r == self.spec_secs(),
    {
        self.secs
    }

    /// Nanoseconds past the whole second.
    pub fn nanos(&self) -> (r: u32)
        ensures
            r == self.spec_nanos(),
    {
        self.nanos
    }

    /// The instant in RFC 3339 form with the fraction of a second, as chrono's `%+` gives it.
    pub fn rfc3339(&self) -> (r: String)
        ensures
            r@ == chrono_rfc3339(self.spec_secs(), self.spec_nanos()),
    {
        proof {
            use_type_invariant(self);
        }
        chrono_format_rfc3339(self.secs, self.nanos)
    }
}

/// A named piece of structured data attached to an event.
#[derive(Debug)]
pub struct Field {
    pub name: &'static str,
    pub value: JsonValue,
}

/// One log record: when, how severe, from which thread and module, what, and with which data.
#[derive(Debug)]
pub struct Event {
    pub timestamp: Timestamp,
    pub verbosity: Level,
    pub thread_id: usize,
    pub module: &'static str,
    pub message: String,
    pub fields: Vec<Field>,
}

impl Event {
    /// An event stamped with the instant `timestamp` (the time at which it was raised).
    pub fn new(
        verbosity: Level,
        module: &'static str,
        message: String,
        fields: Vec<Field>,
        timestamp: Timestamp,
        thread_id: usize,
    ) -> (r: Self)
        ensures
            r.timestamp == timestamp,
            r.verbosity == verbosity,
            r.module == module,
            r.message == message,
            r.fields == fields,
            r.thread_id == thread_id,
    {
        Event { timestamp, verbosity, thread_id, module, message, fields }
    }
}

} // verus!
