use vstd::prelude::*;

verus! {

/// A UTC instant with nanosecond precision, counted from the Unix epoch.
///
/// The repositories never interpret an instant beyond comparing it, so the
/// model keeps the single signed nanosecond count that the database stores
/// as a BIGINT column.
#[derive(Clone, Copy, Debug, PartialEq, Eq, Hash, Structural)]
pub struct Timestamp {
    pub epoch_nanos: i64,
}

impl Timestamp {
    /// `self` is at or before `other`.
    pub open spec fn le(self, other: Timestamp) -> bool {
        self.epoch_nanos <= other.epoch_nanos
    }

    pub fn new(epoch_nanos: i64) -> (r: Timestamp)
        ensures
            r.epoch_nanos == epoch_nanos,
    {
        Timestamp { epoch_nanos }
    }
}

/// The fixed sentinel instant (1970-01-01T00:00:00Z) used as a structural
/// default when a timestamp field is omitted from deserialized input.
pub fn default_datetime() -> (r: Timestamp)
    ensures
        r.epoch_nanos == 0,
{
    Timestamp { epoch_nanos: 0 }
}

/// Reports whether an instant equals the sentinel produced by
/// `default_datetime`: zero seconds and zero sub-second component.
pub fn check_is_default_datetime(datetime: Timestamp) -> (r: bool)
    ensures
        r == (datetime.epoch_nanos == 0),
{
    datetime.epoch_nanos == 0
}

/// Relies on std's `SystemTime::now` for the current wall-clock instant,
/// read as the duration since the Unix epoch. Nothing is assumed of the
/// clock's value; a clock set before the epoch, or an instant beyond the
/// nanosecond-representable range, falls back to the sentinel instead of
/// panicking.
#[verifier::external_body]
pub(crate) fn now_timestamp() -> (r: Timestamp) {
    let nanos = match std::time::SystemTime::now().duration_since(std::time::UNIX_EPOCH) {
        Ok(d) => i64::try_from(d.as_nanos()).unwrap_or(0),
        Err(_) => 0,
    };
    Timestamp { epoch_nanos: nanos }
}

} // verus!
