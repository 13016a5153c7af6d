use vstd::prelude::*;
use crate::error_handler::HardwareError;

verus! {

/// Debounce window a new controller starts with, in milliseconds.
pub const DEFAULT_DEBOUNCE_MS: u32 = 50;

/// Pause between two polls while waiting for a transition, in milliseconds.
pub const WAIT_POLL_MS: u32 = 10;

/// Whether a poll that reads `level` reports a change, after last observing
/// `last`.
pub open spec fn poll_report(last: bool, level: bool) -> bool {
    level != last
}

/// What a poll reports for each raw level in `levels`, starting from the last
/// observed level `last`: `true` exactly where the level differs from the one
/// before it.
pub open spec fn poll_reports(last: bool, levels: Seq<bool>) -> Seq<bool>
    decreases levels.len(),
{
    if levels.len() == 0 {
        Seq::empty()
    } else {
        seq![poll_report(last, levels[0])] + poll_reports(levels[0], levels.drop_first())
    }
}

/// Outcome of one round of waiting for a button transition.
#[derive(Clone, Copy, Debug, PartialEq, Eq, Structural)]
pub enum WaitStep {
    /// The poll saw a transition: the wait is over.
    Transition,
    /// No transition, and more than the timeout has passed: give up.
    TimedOut,
    /// No transition yet: sleep briefly and poll again.
    Continue,
}

/// Debounced push button, tracked by single-sample hysteresis: a level is
/// reported once, when it first differs from the last observed level.
/// A raw level of `true` means pressed.
pub struct ButtonController {
    last_state: bool,
    debounce_time: u32,
}

impl ButtonController {
    /// The last level observed by a successful poll.
    pub closed spec fn last_level(&self) -> bool {
        self.last_state
    }

    pub closed spec fn debounce(&self) -> u32 {
        self.debounce_time
    }

    /// A controller that has seen the button released, with the default
    /// debounce window.
    pub fn new() -> (r: Self)
        ensures
            r.last_level() == false,
            r.debounce() == DEFAULT_DEBOUNCE_MS,
    {
        ButtonController { last_state: false, debounce_time: DEFAULT_DEBOUNCE_MS }
    }

    /// Feeds one raw reading of the pin. Reports `Ok(true)` when the level
    /// differs from the last observed one (which it then becomes) and
    /// `Ok(false)` when it is unchanged. A failed read is passed on and
    /// leaves the observed level as it was.
    pub fn is_pressed(&mut self, reading: Result<bool, HardwareError>) -> (r: Result<bool, HardwareError>)
        ensures
            final(self).debounce() == old(self).debounce(),
            match reading {
                Ok(level) => r == Ok::<bool, HardwareError>(poll_report(old(self).last_level(), level))
                    && final(self).last_level() == level,
                Err(e) => r == Err::<bool, HardwareError>(e) && final(self).last_level() == old(self).last_level(),
            },
    {
        match reading {
            Ok(level) => {
                if level != self.last_state {
                    self.last_state = level;
                    Ok(true)
                } else {
                    Ok(false)
                }
            },
            Err(e) => Err(e),
        }
    }

    /// Feeds the raw samples `levels` in order, one `is_pressed` poll each,
    /// and returns what each poll reported. The last sample becomes the
    /// observed level.
    pub fn poll_samples(&mut self, levels: &Vec<bool>) -> (r: Vec<bool>)
        ensures
            final(self).debounce() == old(self).debounce(),
            r@ == poll_reports(old(self).last_level(), levels@),
            levels@.len() > 0 ==> final(self).last_level() == levels@.last(),
            levels@.len() == 0 ==> final(self).last_level() == old(self).last_level(),
    {
        let mut reports: Vec<bool> = Vec::new();
        let mut i: usize = 0;
        proof {
            assert(levels@.skip(0) =~= levels@);
            assert(reports@ + poll_reports(self.last_level(), levels@) =~= poll_reports(self.last_level(), levels@));
        }
        while i < levels.len()
            invariant
                i <= levels@.len(),
                self.debounce() == old(self).debounce(),
                i > 0 ==> self.last_level() == levels@[i - 1],
                i == 0 ==> self.last_level() == old(self).last_level(),
                poll_reports(old(self).last_level(), levels@) == reports@ + poll_reports(
                    self.last_level(),
                    levels@.skip(i as int),
                ),
            decreases levels@.len() - i,
        {
            let ghost last = self.last_level();
            let level = levels[i];
            let reported = self.is_pressed(Ok(level));
            let changed = match reported {
                Ok(c) => c,
                Err(_) => false,
            };
            proof {
                let rest = levels@.skip(i as int);
                assert(rest.drop_first() =~= levels@.skip(i + 1));
                assert(poll_reports(last, rest) == seq![poll_report(last, level)] + poll_reports(
                    level,
                    levels@.skip(i + 1),
                ));
            }
            reports.push(changed);
            proof {
                assert(reports@ + poll_reports(self.last_level(), levels@.skip(i + 1)) =~= (reports@.drop_last() + seq![changed]) + poll_reports(self.last_level(), levels@.skip(i + 1)));
            }
            i = i + 1;
        }
        proof {
            assert(levels@.skip(i as int) =~= Seq::<bool>::empty());
            assert(reports@ + Seq::<bool>::empty() =~= reports@);
        }
        reports
    }

    /// One round of waiting for a transition: polls with `reading`, then
    /// gives up when more than `timeout_ms` have passed since the wait began
    /// (`elapsed_ms`). A failed read ends the wait with that error.
    pub fn wait_for_press_step(
        &mut self,
        reading: Result<bool, HardwareError>,
        elapsed_ms: u64,
        timeout_ms: u32,
    ) -> (r: Result<WaitStep, HardwareError>)
        ensures
            final(self).debounce() == old(self).debounce(),
            match reading {
                Ok(level) => {
                    &&& final(self).last_level() == level
                    &&& r == Ok::<WaitStep, HardwareError>(
                        if level != old(self).last_level() {
                            WaitStep::Transition
                        } else if elapsed_ms > timeout_ms {
                            WaitStep::TimedOut
                        } else {
                            WaitStep::Continue
                        },
                    )
                },
                Err(e) => r == Err::<WaitStep, HardwareError>(e) && final(self).last_level()
                    == old(self).last_level(),
            },
    {
        match self.is_pressed(reading) {
            Ok(true) => Ok(WaitStep::Transition),
            Ok(false) => {
                if elapsed_ms > timeout_ms as u64 {
                    Ok(WaitStep::TimedOut)
                } else {
                    Ok(WaitStep::Continue)
                }
            },
            Err(e) => Err(e),
        }
    }

    /// The last level observed by a successful poll.
    pub fn last_state(&self) -> (r: bool)
        ensures
            r == self.last_level(),
    {
        self.last_state
    }

    /// Sets the debounce window in milliseconds. The window is recorded only:
    /// polling reports each change of level once, whatever its timing.
    pub fn set_debounce_time(&mut self, time_ms: u32)
        ensures
            final(self).debounce() == time_ms,
            final(self).last_level() == old(self).last_level(),
    {
        self.debounce_time = time_ms;
    }

    /// The debounce window in milliseconds.
    pub fn get_debounce_time(&self) -> (r: u32)
        ensures
            r == self.debounce(),
    {
        self.debounce_time
    }
}

/// A run of identical raw levels is reported as a change at most once, on
/// its first sample, and as no change on every sample after it.
pub proof fn lemma_repeated_level_reported_once(last: bool, levels: Seq<bool>, level: bool)
    requires
        forall|i: int| 0 <= i < levels.len() ==> levels[i] == level,
    ensures
        poll_reports(last, levels).len() == levels.len(),
        forall|i: int|
            0 <= i < levels.len() ==> poll_reports(last, levels)[i] == (i == 0 && level != last),
    decreases levels.len(),
{
    if levels.len() > 0 {
        let rest = levels.drop_first();
        lemma_repeated_level_reported_once(levels[0], rest, level);
        assert forall|i: int| 0 <= i < levels.len() implies poll_reports(last, levels)[i] == (i
            == 0 && level != last) by {
            if i > 0 {
                assert(poll_reports(last, levels)[i] == poll_reports(levels[0], rest)[i - 1]);
            }
        }
    }
}

} // verus!
