use vstd::prelude::*;

verus! {

/// Threshold used when comparison is switched on and no threshold is given.
pub const DEFAULT_SENSITIVITY: u32 = 100;

/// Seconds between two ticks when no interval is given.
pub const DEFAULT_INTERVAL_SECONDS: u64 = 1;

/// The options that control a recording session.
#[derive(Debug, Clone)]
pub struct AppArgs {
    /// Time in seconds between screenshots.
    pub time: Option<u64>,
    /// Whether diagnostic messages are wanted.
    pub verbose: bool,
    /// Directory that receives the pictures.
    pub dir: Option<String>,
    /// Only keep a screenshot if the screen has changed.
    pub motion_triggered: bool,
    /// Smallest difference that counts as a change.
    pub sensitivity: Option<u32>,
}

impl AppArgs {
    /// The tick interval that these options ask for.
    pub open spec fn spec_interval_seconds(&self) -> u64 {
        match self.time {
            Some(t) => t,
            None => DEFAULT_INTERVAL_SECONDS,
        }
    }

    /// The threshold that these options ask for: zero, which keeps every
    /// capture, unless comparison is switched on.
    pub open spec fn spec_threshold(&self) -> u32 {
        if !self.motion_triggered {
            0
        } else {
            match self.sensitivity {
                Some(s) => s,
                None => DEFAULT_SENSITIVITY,
            }
        }
    }

    /// Seconds to wait between two ticks.
    pub fn interval_seconds(&self) -> (seconds: u64)
        ensures
            seconds == self.spec_interval_seconds(),
    {
        match self.time {
            Some(t) => t,
            None => DEFAULT_INTERVAL_SECONDS,
        }
    }

    /// The threshold handed to the retention engine.
    pub fn threshold(&self) -> (threshold: u32)
        ensures
            threshold == self.spec_threshold(),
            !self.motion_triggered ==> threshold == 0,
    {
        if !self.motion_triggered {
            0
        } else {
            match self.sensitivity {
                Some(s) => s,
                None => DEFAULT_SENSITIVITY,
            }
        }
    }
}

} // verus!
