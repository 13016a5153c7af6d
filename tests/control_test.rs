use esp32_template::button::ButtonController;
use esp32_template::control::{ControlLoop, StepReport};
use esp32_template::error_handler::HardwareError;
use esp32_template::led::LedController;
use esp32_template::wifi::{connect_step, ConnectStep, LinkStatus};

#[test]
fn press_toggles_leds_end_to_end() {
    let mut pins = [false, false];
    let mut control = ControlLoop::new(ButtonController::new(), LedController::new());
    assert!(!control.toggle_state());
    let mut write = |i: usize, level: bool| -> Result<(), HardwareError> {
        pins[i] = level;
        Ok(())
    };
    assert_eq!(control.step(Ok(false), &mut write), StepReport::NoChange);
    assert_eq!(control.step(Ok(true), &mut write), StepReport::Switched(true));
    assert_eq!(control.step(Ok(true), &mut write), StepReport::NoChange);
    assert_eq!(control.step(Ok(false), &mut write), StepReport::NoChange);
    drop(write);
    assert_eq!(pins, [true, true]);
    assert!(control.toggle_state());
    let mut write = |i: usize, level: bool| -> Result<(), HardwareError> {
        pins[i] = level;
        Ok(())
    };
    assert_eq!(control.step(Ok(true), &mut write), StepReport::Switched(false));
    drop(write);
    assert_eq!(pins, [false, false]);
    assert!(!control.toggle_state());
}

#[test]
fn read_failure_is_no_change() {
    let mut control = ControlLoop::new(ButtonController::new(), LedController::new());
    let mut writes = 0;
    let mut write = |_: usize, _: bool| -> Result<(), HardwareError> {
        writes += 1;
        Ok(())
    };
    assert_eq!(control.step(Err(HardwareError::Read), &mut write), StepReport::ReadFailed(HardwareError::Read));
    drop(write);
    assert_eq!(writes, 0);
    assert!(!control.toggle_state());
}

#[test]
fn write_failure_leaves_toggle_flipped() {
    let mut control = ControlLoop::new(ButtonController::new(), LedController::new());
    let mut write = |i: usize, _: bool| -> Result<(), HardwareError> {
        if i == 1 { Err(HardwareError::Write) } else { Ok(()) }
    };
    assert_eq!(
        control.step(Ok(true), &mut write),
        StepReport::SwitchFailed(true, HardwareError::Write)
    );
    assert!(control.toggle_state());
    assert!(control.leds().commanded_level(0));
    assert!(!control.leds().commanded_level(1));
}

#[test]
fn set_state_stops_at_first_failure() {
    let mut leds = LedController::new();
    let mut calls = Vec::new();
    let mut write = |i: usize, level: bool| -> Result<(), HardwareError> {
        calls.push((i, level));
        Err(HardwareError::Write)
    };
    assert_eq!(leds.set_state(true, &mut write), Err(HardwareError::Write));
    drop(write);
    assert_eq!(calls, vec![(0, true)]);
    assert!(!leds.commanded_level(0));
}

#[test]
fn toggles_follow_commanded_level() {
    let mut leds = LedController::new();
    let mut pins = [false, false];
    let mut write = |i: usize, level: bool| -> Result<(), HardwareError> {
        pins[i] = level;
        Ok(())
    };
    assert!(leds.toggle_led1(&mut write).is_ok());
    assert!(leds.toggle_led2(&mut write).is_ok());
    assert!(leds.toggle_led2(&mut write).is_ok());
    assert!(leds.set_led2(true, &mut write).is_ok());
    assert!(leds.set_led1(false, &mut write).is_ok());
    drop(write);
    assert_eq!(pins, [false, true]);
    assert!(!leds.commanded_level(0));
    assert!(leds.commanded_level(1));
}

#[test]
fn connect_steps() {
    assert_eq!(connect_step(LinkStatus::Stopped), ConnectStep::Wait);
    assert_eq!(connect_step(LinkStatus::Started), ConnectStep::Wait);
    assert_eq!(connect_step(LinkStatus::Connected), ConnectStep::Done);
    assert_eq!(connect_step(LinkStatus::Failed), ConnectStep::Fail);
}

#[test]
fn single_led_writes_touch_one_output() {
    let mut leds = LedController::new();
    let mut calls = Vec::new();
    let mut write = |i: usize, level: bool| -> Result<(), HardwareError> {
        calls.push((i, level));
        Ok(())
    };
    assert!(leds.set_led1(true, &mut write).is_ok());
    assert!(leds.set_led2(true, &mut write).is_ok());
    assert!(leds.toggle_led2(&mut write).is_ok());
    assert!(leds.toggle_led2(&mut write).is_ok());
    drop(write);
    assert_eq!(calls, vec![(0, true), (1, true), (1, false), (1, true)]);
    assert!(leds.commanded_level(0) && leds.commanded_level(1));
}

#[test]
fn set_state_writes_in_index_order() {
    let mut leds = LedController::new();
    let mut calls = Vec::new();
    let mut write = |i: usize, level: bool| -> Result<(), HardwareError> {
        calls.push((i, level));
        if calls.len() == 4 { Err(HardwareError::Write) } else { Ok(()) }
    };
    assert_eq!(leds.set_state(true, &mut write), Ok(()));
    assert_eq!(leds.set_state(false, &mut write), Err(HardwareError::Write));
    drop(write);
    assert_eq!(calls, vec![(0, true), (1, true), (0, false), (1, false)]);
    assert!(!leds.commanded_level(0));
    assert!(leds.commanded_level(1));
}
