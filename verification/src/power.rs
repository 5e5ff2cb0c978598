//! The sleep-inhibition decision.
//!
//! While monitors are active and the user has enabled the feature, the
//! system should be kept from idling into sleep. The operating-system
//! call that holds or releases the assertion is the embedding's, a
//! best-effort hook taking the decision made here.

use vstd::prelude::*;

verus! {

/// Whether the supervisor currently asks the system to stay awake.
pub struct SleepState {
    prevented: bool,
}

impl View for SleepState {
    type V = bool;

    closed spec fn view(&self) -> bool {
        self.prevented
    }
}

impl SleepState {
    /// Initially the system may sleep.
    pub fn new() -> (r: Self)
        ensures
            !r@,
    {
        SleepState { prevented: false }
    }

    /// Ask the system to stay awake. Idempotent.
    pub fn prevent_sleep(&mut self) -> (r: Result<(), String>)
        ensures
            final(self)@,
            r is Ok,
    {
        self.prevented = true;
        Result::Ok(())
    }

    /// Let the system sleep again. Idempotent.
    pub fn allow_sleep(&mut self) -> (r: Result<(), String>)
        ensures
            !final(self)@,
            r is Ok,
    {
        self.prevented = false;
        Result::Ok(())
    }

    /// Whether sleep is currently being held off.
    pub fn is_sleep_prevented(&self) -> (r: bool)
        ensures
            r == self@,
    {
        self.prevented
    }

    /// The decision: hold sleep off exactly while the feature is enabled
    /// and at least one monitor is active. Returns the new state so the
    /// embedding can mirror it with its best-effort system call.
    pub fn update_sleep_state(&mut self, active_monitors: i32, feature_enabled: bool) -> (r: bool)
        ensures
            final(self)@ == (feature_enabled && active_monitors > 0),
            r == final(self)@,
    {
        if feature_enabled && active_monitors > 0 {
            self.prevented = true;
        } else {
            self.prevented = false;
        }
        self.prevented
    }
}

} // verus!
