use vstd::prelude::*;

use crate::datetime::Date;
use crate::datetime::DateTime;
use crate::datetime::Time;

verus! {

/// Credentials for the remote service, already validated by the caller.
pub struct AuthConfig {
    pub api_key: String,
    pub auth_token: String,
}

/// What is being sought: a venue, a day, a lower bound on the start
/// time, and a party size. Copied into each attempt; never mutated.
#[derive(Clone, Copy)]
pub struct ReserveReqs {
    pub venue_id: i32,
    pub date: Date,
    pub earliest_time: Time,
    pub party_size: i32,
}

impl ReserveReqs {
    pub open spec fn wf(self) -> bool {
        self.date.wf() && self.earliest_time.wf()
    }
}

/// Retry cadence: how long to wait between attempt launches, and how
/// many attempts to launch in all.
#[derive(Clone, Copy, PartialEq, Eq, Structural, Debug)]
pub struct RetryConfig {
    pub millisecs_between: u64,
    pub max_num_attempts: usize,
}

/// Everything one orchestration run needs, as plain validated values.
pub struct Config {
    pub auth: AuthConfig,
    pub reqs: ReserveReqs,
    pub wait_till: DateTime,
    pub retry: RetryConfig,
}

impl Config {
    pub open spec fn wf(self) -> bool {
        self.reqs.wf() && self.wait_till.wf()
    }
}

} // verus!
