//! The settings of the ingestion layer.

use vstd::prelude::*;
use core::time::Duration;

verus! {

/// The duration of a number of whole seconds.
pub uninterp spec fn seconds(secs: u64) -> Duration;

/// Relies on core::time::Duration::from_secs: a duration of whole seconds,
/// the same for the same count.
pub assume_specification[ core::time::Duration::from_secs ](secs: u64) -> (r: Duration)
    ensures
        r == seconds(secs),
;

pub struct AisConfig {
    /// The `host:port` of each feed.
    pub endpoints: Vec<String>,
    /// How many failures in a row an endpoint may have before it is given up.
    pub max_reconnect_attempts: usize,
    pub reconnect_delay: Duration,
    pub read_timeout: Duration,
    /// How many outcomes the fan-in channel holds before senders wait.
    pub channel_capacity: usize,
}

impl Clone for AisConfig {
    fn clone(&self) -> (r: Self)
        ensures
            r.endpoints@.len() == self.endpoints@.len(),
            forall|i: int| 0 <= i < r.endpoints@.len() ==> #[trigger] r.endpoints@[i]@ == self.endpoints@[i]@,
            r.max_reconnect_attempts == self.max_reconnect_attempts,
            r.reconnect_delay == self.reconnect_delay,
            r.read_timeout == self.read_timeout,
            r.channel_capacity == self.channel_capacity,
    {
        let mut endpoints: Vec<String> = Vec::new();
        let mut i: usize = 0;
        while i < self.endpoints.len()
            invariant
                i <= self.endpoints@.len(),
                endpoints@.len() == i,
                forall|k: int| 0 <= k < i ==> #[trigger] endpoints@[k]@ == self.endpoints@[k]@,
            decreases self.endpoints@.len() - i,
        {
            endpoints.push(self.endpoints[i].clone());
            i += 1;
        }
        AisConfig {
            endpoints,
            max_reconnect_attempts: self.max_reconnect_attempts,
            reconnect_delay: self.reconnect_delay,
            read_timeout: self.read_timeout,
            channel_capacity: self.channel_capacity,
        }
    }
}

impl Default for AisConfig {
    fn default() -> (r: Self)
        ensures
            r.endpoints@.len() == 4,
            r.endpoints@[0]@ == "192.168.55.161:4712"@,
            r.endpoints@[1]@ == "192.168.52.162:4712"@,
            r.endpoints@[2]@ == "192.168.61.162:4712"@,
            r.endpoints@[3]@ == "192.168.6.162:4712"@,
            r.max_reconnect_attempts == 5,
            r.reconnect_delay == seconds(5),
            r.read_timeout == seconds(30),
            r.channel_capacity == 100,
    {
        AisConfig {
            endpoints: vec![
                "192.168.55.161:4712".to_owned(),
                "192.168.52.162:4712".to_owned(),
                "192.168.61.162:4712".to_owned(),
                "192.168.6.162:4712".to_owned(),
            ],
            max_reconnect_attempts: 5,
            reconnect_delay: Duration::from_secs(5),
            read_timeout: Duration::from_secs(30),
            channel_capacity: 100,
        }
    }
}

} // verus!
