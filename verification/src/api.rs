//! The configuration as its file states it, before intervals are worked out.

use vstd::prelude::*;
use vstd::string::StringExecFns;
use crate::github;

verus! {

/// The settings of a configuration file. A setting that the file leaves out
/// has the value of the function named after it.
pub struct Config {
    pub github: github::Config,
    pub cherries_per_check: usize,
    pub data_path: String,
    pub credentials_path: String,
    pub pr_check_minutes: u64,
    pub state_update_days: i64,
    pub send_bonus_delay_seconds: u64,
    pub notify_send_user: Option<String>,
}

/// Seconds to wait after each reward that is sent.
pub fn send_bonus_delay_seconds_default() -> (seconds: u64)
    ensures
        seconds == 60,
{
    60
}

/// Days after which the directory of the rewards platform is fetched anew.
pub fn state_update_days_default() -> (days: i64)
    ensures
        days == 7,
{
    7
}

/// Minutes between two looks at the review platform.
pub fn pr_check_minutes_default() -> (minutes: u64)
    ensures
        minutes == 15,
{
    15
}

/// The reward for one approval.
pub fn cherries_per_check_default() -> (amount: usize)
    ensures
        amount == 1,
{
    1
}

/// Where the credentials are read from, relative to the configuration file.
pub fn credentials_path_default() -> (path: String)
    ensures
        path@ == "credentials.toml"@,
{
    String::from_str("credentials.toml")
}

/// Where the state is kept.
pub fn data_path_default() -> (path: String)
    ensures
        path@ == "/var/lib/cherries-4-prs"@,
{
    String::from_str("/var/lib/cherries-4-prs")
}

} // verus!
