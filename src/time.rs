use vstd::prelude::*;

verus! {

/// A point in time, as microseconds since the Unix epoch in UTC.
///
/// Stored timestamps carry no zone; they are always read as UTC, so the same
/// value serves as the storage form and the wire form.
#[derive(Clone, Copy, Debug, PartialEq, Eq, Structural)]
pub struct Timestamp {
    pub micros: i64,
}

impl Timestamp {
    pub fn from_micros(micros: i64) -> (r: Timestamp)
        ensures
            r.micros == micros,
    {
        Timestamp { micros }
    }

    /// Whether `self` lies strictly after `other`.
    pub open spec fn spec_is_after(self, other: Timestamp) -> bool {
        self.micros > other.micros
    }

    pub fn is_after(&self, other: &Timestamp) -> (r: bool)
        ensures
            r == self.spec_is_after(*other),
    {
        self.micros > other.micros
    }
}

/// Reads the system clock through std's `SystemTime::now` and turns the time
/// since the epoch into a UTC date with chrono's `DateTime::from_timestamp`.
/// Gives `None` when the clock reads a time before the epoch or one outside
/// chrono's range; nothing else is known of the value it returns.
#[verifier::external_body]
pub(crate) fn now() -> (r: Option<Timestamp>) {
    let since = std::time::SystemTime::now().duration_since(std::time::UNIX_EPOCH).ok()?;
    chrono::DateTime::from_timestamp(since.as_secs() as i64, since.subsec_nanos())
        .map(|d| Timestamp { micros: d.timestamp_micros() })
}

} // verus!
