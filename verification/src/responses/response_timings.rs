use vstd::prelude::*;

verus! {

/// When a request started and ended, in microseconds since the Unix epoch.
#[derive(Debug, Clone)]
pub struct ResponseTimings {
    pub start_time: Option<i64>,
    pub end_time: Option<i64>,
    pub name: String,
}

/// The current time: `chrono::Utc::now()` as microseconds since the Unix epoch.
/// The result depends on the clock, so nothing is stated of it.
#[verifier::external_body]
pub(crate) fn utc_now_micros() -> i64 {
    chrono::Utc::now().timestamp_micros()
}

impl ResponseTimings {
    /// Timings that started now and have not ended yet.
    pub fn new(name: String) -> (r: ResponseTimings)
        ensures
            r.start_time is Some,
            r.end_time is None,
            r.name@ == name@,
    {
        let now = utc_now_micros();
        ResponseTimings { start_time: Some(now), end_time: None, name }
    }

    /// Timings with the given start and end.
    pub fn from(name: String, start_time: i64, end_time: i64) -> (r: ResponseTimings)
        ensures
            r.start_time == Some(start_time),
            r.end_time == Some(end_time),
            r.name@ == name@,
    {
        ResponseTimings { start_time: Some(start_time), end_time: Some(end_time), name }
    }
}

} // verus!
