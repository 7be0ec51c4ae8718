//! User preferences.
use vstd::prelude::*;

use crate::status::{is_unavailable, Status};

verus! {

/// The preferences that `config.toml` sets.
#[derive(Clone, Copy, Debug, PartialEq, Eq, Structural)]
pub struct Config {
    pub poll_interval_seconds: u64,
    pub show_rates: bool,
    pub show_connection_name: bool,
}

impl Default for Config {
    fn default() -> (c: Self)
        ensures
            c.poll_interval_seconds == 5,
            !c.show_rates,
            !c.show_connection_name,
    {
        Config { poll_interval_seconds: 5, show_rates: false, show_connection_name: false }
    }
}

/// A polling interval that a configuration may set: 2 to 300 seconds.
pub open spec fn interval_accepted(seconds: u64) -> bool {
    2 <= seconds <= 300
}

/// The longest gap between two samples over which a transfer rate is still measured:
/// three polling intervals, and at least 30 seconds.
pub open spec fn gap_limit(seconds: u64) -> int {
    if 3 * seconds > 30 {
        3 * seconds
    } else {
        30
    }
}

impl Config {
    /// Accepts a parsed configuration whose polling interval lies in the accepted
    /// range; refuses any other with "config_invalid".
    pub fn validated(self) -> (r: Result<Config, &'static str>)
        ensures
            interval_accepted(self.poll_interval_seconds) ==> r == Ok::<Config, &'static str>(self),
            !interval_accepted(self.poll_interval_seconds) ==> (r matches Err(e) && e@
                == "config_invalid"@),
    {
        if 2 <= self.poll_interval_seconds && self.poll_interval_seconds <= 300 {
            Ok(self)
        } else {
            Err("config_invalid")
        }
    }

    /// The longest gap, in seconds, over which a transfer rate is measured.
    pub fn max_gap_seconds(&self) -> (r: u64)
        requires
            3 * self.poll_interval_seconds <= u64::MAX,
        ensures
            r == gap_limit(self.poll_interval_seconds),
    {
        let three = self.poll_interval_seconds * 3;
        if three > 30 {
            three
        } else {
            30
        }
    }
}

/// What one polling cycle runs with: the configuration (the default where loading
/// failed), the code of the loading failure, and the gap limit in seconds.
#[derive(Clone, Copy, Debug)]
pub struct Settings {
    pub config: Config,
    pub failure: Option<&'static str>,
    pub max_gap_seconds: u64,
}

impl Settings {
    /// The settings for a cycle whose configuration loaded as `loaded`: where it failed,
    /// the cycle reports the failure and runs with the default configuration.
    pub fn resolve(loaded: Result<Config, &'static str>) -> (s: Settings)
        requires
            loaded matches Ok(c) ==> 3 * c.poll_interval_seconds <= u64::MAX,
        ensures
            loaded matches Ok(c) ==> s.config == c && s.failure is None,
            loaded matches Err(e) ==> s.failure == Some(e) && s.config.poll_interval_seconds == 5
                && !s.config.show_rates && !s.config.show_connection_name,
            s.max_gap_seconds == gap_limit(s.config.poll_interval_seconds),
    {
        let (config, failure) = match loaded {
            Ok(c) => (c, None),
            Err(e) => (Config::default(), Some(e)),
        };
        Settings { config, failure, max_gap_seconds: config.max_gap_seconds() }
    }

    /// What the cycle does next: probe the VPN where the configuration loaded, else
    /// report the loading failure without probing.
    pub fn next_step(&self) -> (step: Step)
        ensures
            self.failure is None ==> step is Probe,
            self.failure matches Some(e) ==> (step matches Step::Report(s) && is_unavailable(
                s,
                e@,
            )),
    {
        match self.failure {
            None => Step::Probe,
            Some(e) => Step::Report(Status::unavailable(e)),
        }
    }
}

/// What a polling cycle does once its settings are known.
pub enum Step {
    /// Run the status commands and classify their output.
    Probe,
    /// Report this status without running the commands.
    Report(Status),
}

} // verus!

verus! {

/// The default configuration is itself an accepted one, and the gap limit of any
/// interval covers three intervals and at least 30 seconds.
pub proof fn law_defaults_are_valid(seconds: u64)
    ensures
        interval_accepted(5),
        gap_limit(seconds) >= 30,
        gap_limit(seconds) >= 3 * seconds,
{
}

} // verus!

verus! {

/// A configuration is accepted exactly when its interval lies from 2 to 300 seconds, and
/// the gap limit is the larger of 30 seconds and three intervals.
pub proof fn law_interval_range_and_gap(seconds: u64)
    ensures
        interval_accepted(seconds) == (2 <= seconds && seconds <= 300),
        gap_limit(seconds) == 30 || gap_limit(seconds) == 3 * seconds,
        gap_limit(seconds) >= 30 && gap_limit(seconds) >= 3 * seconds,
{
}

} // verus!
