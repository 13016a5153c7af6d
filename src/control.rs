use vstd::prelude::*;
use crate::button::ButtonController;
use crate::error_handler::HardwareError;
use crate::led::{LedController, set_all_done, LED_COUNT};

verus! {

/// Pause between two iterations of the control loop, in milliseconds.
pub const LOOP_PERIOD_MS: u32 = 50;

/// What one iteration of the control loop did, for the caller to log.
#[derive(Clone, Copy, Debug, PartialEq, Eq, Structural)]
pub enum StepReport {
    /// No press was detected; nothing was written.
    NoChange,
    /// Reading the button failed; treated as no change.
    ReadFailed(HardwareError),
    /// A press flipped the toggle to this level and all LEDs now show it.
    Switched(bool),
    /// A press flipped the toggle to this level, but driving the LEDs failed.
    SwitchFailed(bool, HardwareError),
}

/// A reading that is a press following a released button.
pub open spec fn is_press_edge(last_level: bool, reading: Result<bool, HardwareError>) -> bool {
    match reading {
        Ok(level) => level && !last_level,
        Err(_) => false,
    }
}

/// The polling loop: each press of the button flips a toggle, and the LEDs
/// are driven to the toggle's level.
pub struct ControlLoop {
    button: ButtonController,
    leds: LedController,
    toggle_state: bool,
}

impl ControlLoop {
    pub closed spec fn toggle(&self) -> bool {
        self.toggle_state
    }

    pub closed spec fn input(&self) -> ButtonController {
        self.button
    }

    pub closed spec fn outputs(&self) -> LedController {
        self.leds
    }

    pub open spec fn wf(&self) -> bool {
        self.outputs().wf()
    }

    /// A loop over `button` and `leds`, with the toggle off.
    pub fn new(button: ButtonController, leds: LedController) -> (r: Self)
        requires
            leds.wf(),
        ensures
            r.wf(),
            r.toggle() == false,
            r.input() == button,
            r.outputs() == leds,
    {
        ControlLoop { button, leds, toggle_state: false }
    }

    /// One iteration: feeds the button `reading`; on a press following a
    /// release, flips the toggle and drives every LED to it through `write`.
    /// A failed read counts as no change. A failed write leaves the toggle
    /// flipped, so the desired level may differ from the LEDs until the next
    /// successful write.
    pub fn step<W>(&mut self, reading: Result<bool, HardwareError>, write: &mut W) -> (r: StepReport)
        where
            W: FnMut(usize, bool) -> Result<(), HardwareError>,
        requires
            old(self).wf(),
            forall|w: W, i: usize, l: bool| w.requires((i, l)),
        ensures
            final(self).wf(),
            final(self).input().debounce() == old(self).input().debounce(),
            final(self).input().last_level() == match reading {
                Ok(level) => level,
                Err(_) => old(self).input().last_level(),
            },
            is_press_edge(old(self).input().last_level(), reading) ==> final(self).toggle()
                == !old(self).toggle(),
            is_press_edge(old(self).input().last_level(), reading) ==> (r == StepReport::Switched(
                !old(self).toggle(),
            ) || r == StepReport::SwitchFailed(!old(self).toggle(), r->SwitchFailed_1)),
            is_press_edge(old(self).input().last_level(), reading) && r is Switched
                ==> set_all_done::<W>(old(self).outputs(), final(self).outputs(), final(self).toggle(), Ok(())),
            is_press_edge(old(self).input().last_level(), reading) && r is Switched ==> forall|i: int|
                0 <= i < LED_COUNT ==> #[trigger] final(self).outputs().commanded()[i]
                    == final(self).toggle(),
            is_press_edge(old(self).input().last_level(), reading) && r is SwitchFailed
                ==> set_all_done::<W>(
                old(self).outputs(),
                final(self).outputs(),
                final(self).toggle(),
                Err(r->SwitchFailed_1),
            ),
            !is_press_edge(old(self).input().last_level(), reading) ==> {
                &&& final(self).toggle() == old(self).toggle()
                &&& final(self).outputs() == old(self).outputs()
                &&& r == match reading {
                    Ok(_) => StepReport::NoChange,
                    Err(e) => StepReport::ReadFailed(e),
                }
            },
    {
        match self.button.is_pressed(reading) {
            Err(e) => StepReport::ReadFailed(e),
            Ok(changed) => {
                if changed && self.button.last_state() {
                    self.toggle_state = !self.toggle_state;
                    match self.leds.set_state(self.toggle_state, write) {
                        Ok(()) => StepReport::Switched(self.toggle_state),
                        Err(e) => StepReport::SwitchFailed(self.toggle_state, e),
                    }
                } else {
                    StepReport::NoChange
                }
            },
        }
    }

    /// Sets the button's debounce window, in milliseconds.
    pub fn set_debounce_time(&mut self, time_ms: u32)
        ensures
            final(self).input().debounce() == time_ms,
            final(self).input().last_level() == old(self).input().last_level(),
            final(self).toggle() == old(self).toggle(),
            final(self).outputs() == old(self).outputs(),
    {
        self.button.set_debounce_time(time_ms);
    }

    /// The level the LEDs are meant to show.
    pub fn toggle_state(&self) -> (r: bool)
        ensures
            r == self.toggle(),
    {
        self.toggle_state
    }

    /// The button's debounce state.
    pub fn button(&self) -> (r: &ButtonController)
        ensures
            *r == self.input(),
    {
        &self.button
    }

    /// The LEDs' commanded state.
    pub fn leds(&self) -> (r: &LedController)
        ensures
            *r == self.outputs(),
    {
        &self.leds
    }
}

} // verus!
