use vstd::prelude::*;

use crate::rate::Rate;

verus! {

/// Relies on chrono's `Utc::now` and `DateTime::timestamp_micros`: the
/// current UTC time in microseconds since the Unix epoch. `Utc::now` panics
/// rather than return a time before the epoch, so what comes back is never
/// negative; nothing else is known of it.
#[verifier::external_body]
pub(crate) fn clock_micros() -> (r: i64)
    ensures
        r >= 0,
{
    chrono::Utc::now().timestamp_micros()
}

/// A tracked currency: its code, its latest known rate, and when that rate
/// last changed (microseconds since the Unix epoch, UTC).
#[derive(Debug)]
pub struct Currency {
    pub iso_code: String,
    pub value: Rate,
    pub updated: i64,
}

impl Currency {
    /// A new record, stamped with the current time.
    pub fn new(iso_code: String, value: Rate) -> (r: Currency)
        ensures
            r.iso_code == iso_code,
            r.value == value,
            r.updated >= 0,
    {
        let now = clock_micros();
        Currency { iso_code, value, updated: now }
    }

    /// Sets the rate and stamps the record with the given time.
    pub fn update_at(&mut self, new_value: Rate, now: i64)
        ensures
            final(self).iso_code == old(self).iso_code,
            final(self).value == new_value,
            final(self).updated == now,
    {
        self.value = new_value;
        self.updated = now;
    }

    /// Sets the rate and stamps the record with the current time.
    pub fn update(&mut self, new_value: Rate)
        ensures
            final(self).iso_code == old(self).iso_code,
            final(self).value == new_value,
            final(self).updated >= 0,
    {
        let now = clock_micros();
        self.update_at(new_value, now);
    }
}

} // verus!
