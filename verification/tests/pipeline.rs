use evdev_accel::acquire_gate;
use evdev_accel::device_valid;
use evdev_accel::parse_usize;
use evdev_accel::select_choice;
use evdev_accel::select_named;
use evdev_accel::EventClass;
use evdev_accel::Frame;
use evdev_accel::PipelineError;
use evdev_accel::RawEvent;
use evdev_accel::SelectError;
use evdev_accel::EV_REL;
use evdev_accel::EV_SYN;
use evdev_accel::REL_X;
use evdev_accel::REL_Y;
use evdev_accel::SYN_REPORT;

fn ev(event_type: u16, code: u16, value: i32) -> RawEvent {
    RawEvent { event_type, code, value }
}

#[test]
fn classify_motion_and_marker() {
    assert_eq!(ev(EV_REL, REL_X, 5).classify(), EventClass::MotionX);
    assert_eq!(ev(EV_REL, REL_Y, -3).classify(), EventClass::MotionY);
    assert_eq!(ev(EV_SYN, SYN_REPORT, 0).classify(), EventClass::SyncMarker);
}

#[test]
fn classify_passthrough_kinds() {
    // A wheel event is relative motion, but not on the X or Y axis.
    assert_eq!(ev(EV_REL, 8, 1).classify(), EventClass::Passthrough);
    // A key press.
    assert_eq!(ev(1, 272, 1).classify(), EventClass::Passthrough);
    // A synchronization event other than the frame-closing report.
    assert_eq!(ev(EV_SYN, 3, 0).classify(), EventClass::Passthrough);
    // A miscellaneous event.
    assert_eq!(ev(4, 4, 458756).classify(), EventClass::Passthrough);
}

#[test]
fn fresh_frame_is_empty() {
    let f = Frame::new();
    assert_eq!(f.sum_x(), 0);
    assert_eq!(f.sum_y(), 0);
    assert!(!f.is_complete());
}

#[test]
fn absorb_sums_motion_per_axis() {
    let mut f = Frame::new();
    f.absorb(ev(EV_REL, REL_X, 3));
    f.absorb(ev(EV_REL, REL_X, -1));
    f.absorb(ev(EV_REL, REL_Y, 7));
    assert_eq!(f.sum_x(), 2);
    assert_eq!(f.sum_y(), 7);
    assert!(!f.is_complete());
}

#[test]
fn absorb_marker_completes_frame() {
    let mut f = Frame::new();
    f.absorb(ev(EV_SYN, SYN_REPORT, 0));
    assert!(f.is_complete());
    assert_eq!(f.sum_x(), 0);
    assert_eq!(f.sum_y(), 0);
}

#[test]
fn absorb_wraps_on_overflow() {
    let mut f = Frame::new();
    f.absorb(ev(EV_REL, REL_X, i32::MAX));
    f.absorb(ev(EV_REL, REL_X, 1));
    assert_eq!(f.sum_x(), i32::MIN);
}

#[test]
fn passthrough_keeps_order_and_bytes() {
    let mut f = Frame::new();
    let key_down = ev(1, 30, 1);
    let misc = ev(4, 4, 458756);
    let wheel = ev(EV_REL, 8, -1);
    let batch = vec![
        key_down,
        ev(EV_REL, REL_X, 2),
        misc,
        ev(EV_REL, REL_Y, 1),
        wheel,
        ev(EV_SYN, SYN_REPORT, 0),
    ];
    f.absorb_batch(&batch);
    assert!(f.is_complete());
    assert_eq!(f.sum_x(), 2);
    assert_eq!(f.sum_y(), 1);

    let out = f.flush(2, 1);
    assert_eq!(out[0], key_down);
    assert_eq!(out[1], misc);
    assert_eq!(out[2], wheel);
    assert_eq!(out[3], ev(EV_REL, REL_X, 2));
    assert_eq!(out[4], ev(EV_REL, REL_Y, 1));
    assert_eq!(out.len(), 5);
}

#[test]
fn flush_emits_both_axes() {
    let mut f = Frame::new();
    f.absorb_batch(&vec![
        ev(EV_REL, REL_X, 3),
        ev(EV_REL, REL_Y, 2),
        ev(EV_SYN, SYN_REPORT, 0),
    ]);
    assert_eq!(f.sum_x(), 3);
    assert_eq!(f.sum_y(), 2);
    let out = f.flush(3, 2);
    assert_eq!(out, vec![ev(EV_REL, REL_X, 3), ev(EV_REL, REL_Y, 2)]);
}

#[test]
fn frame_not_complete_without_marker() {
    let mut f = Frame::new();
    f.absorb_batch(&vec![ev(EV_REL, REL_X, 1), ev(1, 30, 1)]);
    assert!(!f.is_complete());
    assert_eq!(f.sum_x(), 1);
}

#[test]
fn flush_emits_single_axis_delta() {
    let mut f = Frame::new();
    f.absorb_batch(&vec![ev(EV_REL, REL_X, 10), ev(EV_SYN, SYN_REPORT, 0)]);
    assert_eq!(f.sum_x(), 10);
    assert_eq!(f.sum_y(), 0);
    let out = f.flush(30, 0);
    assert_eq!(out, vec![ev(EV_REL, REL_X, 30)]);
}

#[test]
fn flush_suppresses_zero_deltas() {
    let mut f = Frame::new();
    f.absorb_batch(&vec![ev(EV_REL, REL_X, 1), ev(EV_SYN, SYN_REPORT, 0)]);
    let out = f.flush(0, 0);
    assert!(out.is_empty());
}

#[test]
fn flush_suppresses_one_zero_axis() {
    let mut f = Frame::new();
    let key_up = ev(1, 30, 0);
    f.absorb_batch(&vec![
        key_up,
        ev(EV_REL, REL_X, 1),
        ev(EV_REL, REL_Y, 4),
        ev(EV_SYN, SYN_REPORT, 0),
    ]);
    let out = f.flush(0, 12);
    assert_eq!(out, vec![key_up, ev(EV_REL, REL_Y, 12)]);
}

#[test]
fn flush_resets_frame() {
    let mut f = Frame::new();
    f.absorb_batch(&vec![
        ev(1, 30, 1),
        ev(EV_REL, REL_X, 9),
        ev(EV_SYN, SYN_REPORT, 0),
    ]);
    let _ = f.flush(9, 0);
    assert_eq!(f.sum_x(), 0);
    assert_eq!(f.sum_y(), 0);
    assert!(!f.is_complete());
    // The next frame starts from scratch.
    f.absorb(ev(EV_SYN, SYN_REPORT, 0));
    let out = f.flush(0, 0);
    assert!(out.is_empty());
}

#[test]
fn device_valid_needs_both_axes() {
    assert!(device_valid(&Some(vec![REL_X, REL_Y, 8])));
    assert!(device_valid(&Some(vec![REL_Y, REL_X])));
    assert!(!device_valid(&Some(vec![REL_X])));
    assert!(!device_valid(&Some(vec![REL_Y, 8])));
    assert!(!device_valid(&Some(vec![])));
    assert!(!device_valid(&None));
}

#[test]
fn select_named_picks_first_match() {
    let names = vec![
        Some(String::from("trackball")),
        Some(String::from("mouse")),
        Some(String::from("mouse")),
    ];
    assert_eq!(select_named(&names, &String::from("mouse")), Ok(1));
}

#[test]
fn select_named_skips_unnamed_devices() {
    let names = vec![None, Some(String::from("mouse"))];
    assert_eq!(select_named(&names, &String::from("mouse")), Ok(1));
}

#[test]
fn select_named_reports_missing_name() {
    let names = vec![Some(String::from("trackball")), None];
    assert_eq!(
        select_named(&names, &String::from("mouse")),
        Err(SelectError::NameNotFound)
    );
}

#[test]
fn select_named_reports_no_devices() {
    let names: Vec<Option<String>> = Vec::new();
    assert_eq!(
        select_named(&names, &String::from("mouse")),
        Err(SelectError::NoDevices)
    );
}

#[test]
fn select_choice_accepts_listed_index() {
    assert_eq!(select_choice(3, Some(0)), Ok(0));
    assert_eq!(select_choice(3, Some(2)), Ok(2));
}

#[test]
fn select_choice_rejects_out_of_range() {
    assert_eq!(select_choice(3, Some(3)), Err(SelectError::InvalidChoice));
    assert_eq!(select_choice(3, None), Err(SelectError::InvalidChoice));
}

#[test]
fn select_choice_reports_no_devices() {
    assert_eq!(select_choice(0, Some(0)), Err(SelectError::NoDevices));
    assert_eq!(select_choice(0, None), Err(SelectError::NoDevices));
}

#[test]
fn parse_usize_reads_plain_digits() {
    assert_eq!(parse_usize(&b"0".to_vec()), Some(0));
    assert_eq!(parse_usize(&b"42".to_vec()), Some(42));
    assert_eq!(parse_usize(&b"007".to_vec()), Some(7));
}

#[test]
fn parse_usize_accepts_one_leading_plus() {
    assert_eq!(parse_usize(&b"+42".to_vec()), Some(42));
    assert_eq!(parse_usize(&b"++42".to_vec()), None);
    assert_eq!(parse_usize(&b"+".to_vec()), None);
}

#[test]
fn parse_usize_rejects_malformed_text() {
    assert_eq!(parse_usize(&b"".to_vec()), None);
    assert_eq!(parse_usize(&b"4a2".to_vec()), None);
    assert_eq!(parse_usize(&b" 42".to_vec()), None);
    assert_eq!(parse_usize(&b"-1".to_vec()), None);
}

#[test]
fn parse_usize_rejects_overflow() {
    let max = format!("{}", usize::MAX);
    assert_eq!(parse_usize(&max.as_bytes().to_vec()), Some(usize::MAX));
    let over = format!("{}9", usize::MAX);
    assert_eq!(parse_usize(&over.as_bytes().to_vec()), None);
}

#[test]
fn failed_grab_aborts_with_acquisition_error() {
    assert_eq!(acquire_gate(false), Err(PipelineError::Acquisition));
    assert_eq!(acquire_gate(true), Ok(()));
}
