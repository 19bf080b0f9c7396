//! The health probe's verified half: the report record and how its fields
//! are derived from a probe response. Issuing the HTTP HEAD request and
//! timing it belong to the surrounding program.

use vstd::prelude::*;

verus! {

/// The outcome of probing the upstream feed once.
pub struct HealthReport {
    pub url: String,
    pub response_code: u16,
    pub response_type: String,
    pub response_time: u64,
    pub health: bool,
}

impl HealthReport {
    /// A fresh report for `url`, before any response has been seen.
    pub fn new(url: String) -> (h: HealthReport)
        ensures
            h.url@ == url@,
            h.response_code == 0,
            h.response_type@ == Seq::<char>::empty(),
            h.response_time == 0,
            h.health == false,
    {
        HealthReport {
            url,
            response_code: 0,
            response_type: String::new(),
            response_time: 0,
            health: false,
        }
    }

    /// Records the probe response: healthy means a status class below the
    /// error classes, that is a code under 400.
    pub fn set_response(&mut self, status: u16, content_type: &str)
        ensures
            final(self).response_code == status,
            final(self).response_type@ == content_type@,
            final(self).health == (status / 100 < 4),
            final(self).url == old(self).url,
            final(self).response_time == old(self).response_time,
    {
        self.response_code = status;
        self.response_type = content_type.to_owned();
        self.health = (self.response_code / 100) < 4;
    }

    /// Records how long the probe took, from the elapsed duration's whole
    /// seconds and its leftover milliseconds. The bounds only keep the
    /// millisecond total inside its type.
    pub fn set_time_since(&mut self, elapsed_secs: u64, elapsed_subsec_millis: u32)
        requires
            elapsed_secs <= (u64::MAX - 1000) / 1000,
            elapsed_subsec_millis < 1000,
        ensures
            final(self).response_time == elapsed_secs * 1000 + elapsed_subsec_millis,
            final(self).url == old(self).url,
            final(self).response_code == old(self).response_code,
            final(self).response_type == old(self).response_type,
            final(self).health == old(self).health,
    {
        self.response_time = elapsed_secs * 1000 + (elapsed_subsec_millis as u64);
    }
}

} // verus!
