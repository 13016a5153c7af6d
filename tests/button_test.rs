use esp32_template::button::{ButtonController, WaitStep};
use esp32_template::error_handler::HardwareError;

#[test]
fn edge_detection_reports_each_change_once() {
    let mut button = ButtonController::new();
    // The first sample sets the baseline: released, as the controller starts.
    assert_eq!(button.is_pressed(Ok(false)), Ok(false));
    let mut reports = Vec::new();
    for level in [true, true, false, true] {
        reports.push(button.is_pressed(Ok(level)).unwrap());
    }
    assert_eq!(reports, vec![true, false, true, true]);
}

#[test]
fn repeated_level_reported_once() {
    let mut button = ButtonController::new();
    let reports: Vec<bool> = (0..5).map(|_| button.is_pressed(Ok(true)).unwrap()).collect();
    assert_eq!(reports, vec![true, false, false, false, false]);
    let reports: Vec<bool> = (0..3).map(|_| button.is_pressed(Ok(true)).unwrap()).collect();
    assert_eq!(reports, vec![false, false, false]);
}

#[test]
fn read_error_keeps_last_level() {
    let mut button = ButtonController::new();
    assert_eq!(button.is_pressed(Ok(true)), Ok(true));
    assert_eq!(button.is_pressed(Err(HardwareError::Read)), Err(HardwareError::Read));
    assert!(button.last_state());
    assert_eq!(button.is_pressed(Ok(true)), Ok(false));
}

#[test]
fn debounce_time_is_recorded() {
    let mut button = ButtonController::new();
    button.set_debounce_time(20);
    assert_eq!(button.get_debounce_time(), 20);
}

#[test]
fn wait_step_outcomes() {
    let mut button = ButtonController::new();
    assert_eq!(button.wait_for_press_step(Ok(false), 5, 100), Ok(WaitStep::Continue));
    assert_eq!(button.wait_for_press_step(Ok(false), 100, 100), Ok(WaitStep::Continue));
    assert_eq!(button.wait_for_press_step(Ok(false), 101, 100), Ok(WaitStep::TimedOut));
    assert_eq!(button.wait_for_press_step(Ok(true), 500, 100), Ok(WaitStep::Transition));
    assert_eq!(
        button.wait_for_press_step(Err(HardwareError::Read), 0, 100),
        Err(HardwareError::Read)
    );
}

#[test]
fn poll_samples_reports_each_change() {
    let mut button = ButtonController::new();
    let reports = button.poll_samples(&vec![false, true, true, false, true]);
    assert_eq!(reports, vec![false, true, false, true, true]);
    assert!(button.last_state());
    let reports = button.poll_samples(&vec![true, true, true]);
    assert_eq!(reports, vec![false, false, false]);
}
