use aspect::components::overlay;
use aspect::components::Action;
use aspect::data::FileSort;
use aspect::support::{ErrToString, EventLoop, ToNone};

#[test]
fn a_new_loop_needs_an_update() {
    let event_loop = EventLoop::new(250);
    assert!(event_loop.ui_needs_update);
    assert_eq!(event_loop.last_update, 250);
}

#[test]
fn the_loop_waits_for_the_rest_of_the_frame() {
    let event_loop = EventLoop::new(1_000);
    assert_eq!(event_loop.frame_wait(None, 1_000), 16);
    assert_eq!(event_loop.frame_wait(None, 1_010), 6);
    assert_eq!(event_loop.frame_wait(None, 1_016), 0);
    assert_eq!(event_loop.frame_wait(None, 5_000), 0);
    assert_eq!(event_loop.frame_wait(None, 900), 16);
    assert_eq!(event_loop.frame_wait(Some(100), 1_004), 12);
    assert_eq!(event_loop.frame_wait(Some(16), 1_004), 12);
    assert_eq!(event_loop.frame_wait(Some(5), 1_004), 1);
    assert_eq!(event_loop.frame_wait(Some(5), 1_005), 0);
    assert_eq!(event_loop.frame_wait(Some(0), 1_000), 0);
}

#[test]
fn yielding_clears_the_need_for_an_update() {
    let mut event_loop = EventLoop::new(0);
    event_loop.next(40);
    assert!(!event_loop.ui_needs_update);
    assert_eq!(event_loop.last_update, 40);
    event_loop.needs_update();
    assert!(event_loop.ui_needs_update);
    assert_eq!(event_loop.last_update, 40);
}

#[test]
fn actions_carry_their_values() {
    let action = Action::Sort(FileSort::Random);
    assert!(matches!(action.clone(), Action::Sort(FileSort::Random)));
    let action = Action::LoadImage(String::from("/d/a.png"));
    assert!(matches!(&action, Action::LoadImage(path) if path == "/d/a.png"));
    let action = overlay::Action::Select(3);
    let copy = action;
    assert!(matches!(copy, overlay::Action::Select(3)));
    assert!(matches!(action, overlay::Action::Select(3)));
}

#[test]
fn errors_turn_into_their_text() {
    let parsed: Result<u8, std::num::ParseIntError> = "300".parse::<u8>();
    let expected = format!("{}", parsed.clone().unwrap_err());
    assert_eq!(parsed.err_to_string(), Err(expected));
    let parsed: Result<u8, std::num::ParseIntError> = "30".parse::<u8>();
    assert_eq!(parsed.err_to_string(), Ok(30));
    let failed: Result<(), &str> = Err("not a file");
    assert_eq!(failed.err_to_string(), Err(String::from("not a file")));
}

#[test]
fn the_unit_value_stands_for_none() {
    let nothing: Option<u32> = ().none();
    assert!(nothing.is_none());
    let nothing: Option<String> = ().none();
    assert_eq!(nothing, None);
}
