//! Observability preferences.
//!
//! The engine reports outcomes to its caller; whether the caller logs
//! them, raises toast notifications, both or neither is a preference the
//! engine only carries.  The switches toggle, so a builder chain can turn
//! each channel on from the default-off state.

use vstd::prelude::*;

verus! {

/// Which observability channels are on.
#[derive(Debug, Copy, Clone, PartialEq, Eq, Structural)]
pub struct Config {
    /// Emit log records.
    pub log: bool,
    /// Raise toast notifications.
    pub notify: bool,
}

impl Default for Config {
    fn default() -> (r: Self)
        ensures
            r == (Config { log: false, notify: false }),
    {
        Config { log: false, notify: false }
    }
}

impl Config {
    /// Toggle the logging channel.
    pub fn log(self) -> (r: Self)
        ensures
            r.log == !self.log,
            r.notify == self.notify,
    {
        Config { log: !self.log, ..self }
    }

    /// Toggle the notification channel.
    pub fn notify(self) -> (r: Self)
        ensures
            r.notify == !self.notify,
            r.log == self.log,
    {
        Config { notify: !self.notify, ..self }
    }
}

} // verus!
