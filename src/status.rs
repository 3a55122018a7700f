//! The status plugin: backend health from the responses it sees.
use vstd::prelude::*;

use crate::gateway::IP_UNSPECIFIED;

verus! {

#[derive(Clone, Copy, PartialEq, Eq, Structural, Debug)]
pub enum BackendStatus {
    Good,
    Minor,
    Major,
}

pub struct SgFilterStatusConfig {
    pub host: String,
    pub port: u16,
    pub title: String,
    /// Server errors within a window from which a backend is unhealthy.
    pub unhealthy_threshold: u16,
    /// Seconds.
    pub interval: u64,
    pub status_cache_key: String,
    pub window_cache_key: String,
}

impl SgFilterStatusConfig {
    pub fn new() -> (r: Self)
        ensures
            r.host@ == IP_UNSPECIFIED@,
            r.port == 8110,
            r.title@ == "System Status"@,
            r.unhealthy_threshold == 3,
            r.interval == 5,
            r.status_cache_key@ == "spacegate:cache:plugin:status"@,
            r.window_cache_key@ == "sg:plugin:filter:window:key"@,
    {
        SgFilterStatusConfig {
            host: String::from_str(IP_UNSPECIFIED),
            port: 8110,
            title: String::from_str("System Status"),
            unhealthy_threshold: 3,
            interval: 5,
            status_cache_key: String::from_str("spacegate:cache:plugin:status"),
            window_cache_key: String::from_str("sg:plugin:filter:window:key"),
        }
    }
}

pub open spec fn is_server_error(code: u16) -> bool {
    500 <= code <= 599
}

/// The status to record for a backend after a response with `code`.
/// `window_count` is the number of server errors in the current window,
/// this one included; `current` is the recorded status. `None` leaves the
/// record as it is.
pub fn status_after_response(code: u16, window_count: u64, threshold: u16, current: Option<BackendStatus>) -> (r: Option<
    BackendStatus,
>)
    ensures
        is_server_error(code) && window_count >= threshold ==> r == Some(BackendStatus::Major),
        is_server_error(code) && window_count < threshold ==> r == Some(BackendStatus::Minor),
        !is_server_error(code) ==> r == match current {
            Some(s) => if s != BackendStatus::Good {
                Some(BackendStatus::Good)
            } else {
                None
            },
            None => None,
        },
{
    if 500 <= code && code <= 599 {
        if window_count >= threshold as u64 {
            Some(BackendStatus::Major)
        } else {
            Some(BackendStatus::Minor)
        }
    } else {
        match current {
            Some(s) => if s != BackendStatus::Good {
                Some(BackendStatus::Good)
            } else {
                None
            },
            None => None,
        }
    }
}

} // verus!
