use er::input::{typed_char, Event, KeyCode};
use er::screen::{
    cross_mode_event_handling, execute_command, new_state, typing_events, update_and_render, Execution, Update,
};
use er::widgets::{Draw, Size, UIContext};
use rand::{Rng, SeedableRng, StdRng};

fn size() -> Size {
    Size { width: 80, height: 30 }
}

fn press(key: KeyCode) -> Event {
    Event::KeyPressed { key, ctrl: false, shift: false }
}

fn press_shift(key: KeyCode) -> Event {
    Event::KeyPressed { key, ctrl: false, shift: true }
}

fn release(key: KeyCode) -> Event {
    Event::KeyReleased { key, ctrl: false, shift: false }
}

fn print(x: i32, y: i32, text: &str) -> Draw {
    Draw::Print { x, y, text: text.to_string() }
}

#[test]
fn a_new_state_is_empty() {
    let state = new_state(size(), 42);
    assert_eq!(state.size, size());
    assert_eq!(state.prompt, "> ");
    assert_eq!(state.command, "");
    assert_eq!(state.output, "");
    assert!(!state.left_mouse_pressed);
    assert!(!state.left_mouse_released);
    assert_eq!(state.ui_context, UIContext { hot: 0, active: 0, next_hot: 0 });
}

#[test]
fn the_generator_of_a_new_state_comes_from_the_seed() {
    let mut state = new_state(size(), 42);
    let seed: &[usize] = &[42];
    let mut expected: StdRng = SeedableRng::from_seed(seed);
    for _ in 0..16 {
        assert_eq!(state.rng.next_u64(), expected.next_u64());
    }
    let mut a = new_state(size(), 1);
    let mut b = new_state(size(), 2);
    let first: Vec<u64> = (0..4).map(|_| a.rng.next_u64()).collect();
    let second: Vec<u64> = (0..4).map(|_| b.rng.next_u64()).collect();
    assert_ne!(first, second);
}

#[test]
fn letters_are_typed_in_lower_and_upper_case() {
    assert_eq!(typed_char(KeyCode::A, false), Some('a'));
    assert_eq!(typed_char(KeyCode::A, true), Some('A'));
    assert_eq!(typed_char(KeyCode::Z, false), Some('z'));
    assert_eq!(typed_char(KeyCode::Z, true), Some('Z'));
    assert_eq!(typed_char(KeyCode::R, true), Some('R'));
}

#[test]
fn the_number_row_types_digits_and_symbols() {
    let keys = [
        KeyCode::Row1, KeyCode::Row2, KeyCode::Row3, KeyCode::Row4, KeyCode::Row5,
        KeyCode::Row6, KeyCode::Row7, KeyCode::Row8, KeyCode::Row9, KeyCode::Row0,
    ];
    let plain: String = keys.iter().map(|k| typed_char(*k, false).unwrap()).collect();
    let shifted: String = keys.iter().map(|k| typed_char(*k, true).unwrap()).collect();
    assert_eq!(plain, "1234567890");
    assert_eq!(shifted, "!@#$%^&*()");
}

#[test]
fn punctuation_keys_type_the_same_with_and_without_shift() {
    let keys = [
        KeyCode::Minus, KeyCode::Equals, KeyCode::LeftBracket, KeyCode::RightBracket, KeyCode::Backslash,
        KeyCode::Semicolon, KeyCode::Apostrophe, KeyCode::Comma, KeyCode::Period, KeyCode::Slash,
    ];
    let plain: String = keys.iter().map(|k| typed_char(*k, false).unwrap()).collect();
    let shifted: String = keys.iter().map(|k| typed_char(*k, true).unwrap()).collect();
    assert_eq!(plain, "-=[]\\;',./");
    assert_eq!(shifted, "-=[]\\;',./");
    assert_eq!(typed_char(KeyCode::Space, false), Some(' '));
    assert_eq!(typed_char(KeyCode::Space, true), Some(' '));
}

#[test]
fn the_backquote_key_types_nothing_with_shift() {
    assert_eq!(typed_char(KeyCode::Grave, false), Some('`'));
    assert_eq!(typed_char(KeyCode::Grave, true), None);
}

#[test]
fn other_keys_type_nothing() {
    for key in [
        KeyCode::F1, KeyCode::Enter, KeyCode::Escape, KeyCode::Tab, KeyCode::Backspace, KeyCode::Up,
        KeyCode::Num1, KeyCode::NumPlus, KeyCode::MouseLeft, KeyCode::Delete,
    ] {
        assert_eq!(typed_char(key, false), None);
        assert_eq!(typed_char(key, true), None);
    }
}

#[test]
fn typing_adds_to_the_command_line() {
    let mut state = new_state(size(), 42);
    for event in [press(KeyCode::L), press(KeyCode::S), press(KeyCode::Space), press(KeyCode::Minus), press_shift(KeyCode::L)] {
        typing_events(&mut state, &event);
    }
    assert_eq!(state.command, "ls -L");
    assert_eq!(state.output, "");
    assert_eq!(state.prompt, "> ");
}

#[test]
fn backspace_takes_the_last_character_away() {
    let mut state = new_state(size(), 42);
    typing_events(&mut state, &press(KeyCode::Backspace));
    assert_eq!(state.command, "");
    typing_events(&mut state, &press(KeyCode::A));
    typing_events(&mut state, &press(KeyCode::B));
    typing_events(&mut state, &press_shift(KeyCode::Backspace));
    assert_eq!(state.command, "a");
}

#[test]
fn releases_and_other_events_type_nothing() {
    let mut state = new_state(size(), 42);
    for event in [release(KeyCode::A), Event::Close, Event::ShiftPressed, Event::MouseMove { x: 1, y: 2 }, press(KeyCode::F5)] {
        typing_events(&mut state, &event);
    }
    assert_eq!(state.command, "");
}

#[test]
fn control_r_resets_the_state() {
    let mut state = new_state(size(), 42);
    state.command.push_str("abc");
    state.output.push_str("out");
    state.ui_context.hot = 3;
    let other = Size { width: 10, height: 5 };
    cross_mode_event_handling(&mut state, &press(KeyCode::R), other, 7);
    assert_eq!(state.command, "abc");
    cross_mode_event_handling(&mut state, &Event::KeyReleased { key: KeyCode::R, ctrl: true, shift: false }, other, 7);
    assert_eq!(state.command, "abc");
    cross_mode_event_handling(&mut state, &Event::KeyPressed { key: KeyCode::R, ctrl: true, shift: false }, other, 7);
    assert_eq!(state.command, "");
    assert_eq!(state.output, "");
    assert_eq!(state.size, other);
    assert_eq!(state.ui_context, UIContext { hot: 0, active: 0, next_hot: 0 });
}

#[test]
fn a_frame_draws_prompt_command_and_output() {
    let mut state = new_state(size(), 42);
    state.output.push_str("done");
    let events = vec![press(KeyCode::L), press(KeyCode::S)];
    let update = update_and_render(&mut state, &events, 0, size(), 42);
    assert_eq!(update, Update::Frame { draws: vec![print(0, 0, "> "), print(2, 0, "ls"), print(0, 1, "done")] });
    assert_eq!(state.command, "ls");
}

#[test]
fn the_command_is_drawn_behind_the_bytes_of_the_prompt() {
    let mut state = new_state(size(), 42);
    state.prompt = "é> ".to_string();
    let update = update_and_render(&mut state, &vec![], 0, size(), 42);
    assert_eq!(update, Update::Frame { draws: vec![print(0, 0, "é> "), print(4, 0, ""), print(0, 1, "")] });
}

#[test]
fn a_frame_starts_the_widgets() {
    let mut state = new_state(size(), 42);
    state.ui_context = UIContext { hot: 1, active: 0, next_hot: 2 };
    update_and_render(&mut state, &vec![], 0, size(), 42);
    assert_eq!(state.ui_context, UIContext { hot: 2, active: 0, next_hot: 0 });
    state.ui_context = UIContext { hot: 1, active: 1, next_hot: 2 };
    update_and_render(&mut state, &vec![], 0, size(), 42);
    assert_eq!(state.ui_context, UIContext { hot: 1, active: 1, next_hot: 0 });
}

#[test]
fn the_mouse_button_is_noted_for_one_update() {
    let mut state = new_state(size(), 42);
    update_and_render(&mut state, &vec![press(KeyCode::MouseLeft)], 0, size(), 42);
    assert!(state.left_mouse_pressed);
    assert!(!state.left_mouse_released);
    update_and_render(&mut state, &vec![release(KeyCode::MouseLeft)], 0, size(), 42);
    assert!(!state.left_mouse_pressed);
    assert!(state.left_mouse_released);
    update_and_render(&mut state, &vec![], 0, size(), 42);
    assert!(!state.left_mouse_pressed);
    assert!(!state.left_mouse_released);
}

#[test]
fn closing_the_window_or_escape_quits() {
    let mut state = new_state(size(), 42);
    assert_eq!(update_and_render(&mut state, &vec![press(KeyCode::A), Event::Close, press(KeyCode::B)], 0, size(), 42), Update::Quit);
    assert_eq!(state.command, "a");
    assert_eq!(update_and_render(&mut state, &vec![press(KeyCode::Escape)], 0, size(), 42), Update::Quit);
    let update = update_and_render(&mut state, &vec![release(KeyCode::Escape)], 0, size(), 42);
    assert!(matches!(update, Update::Frame { .. }));
}

#[test]
fn releasing_enter_asks_to_run_the_command_and_the_update_resumes() {
    let mut state = new_state(size(), 42);
    let events = vec![press(KeyCode::L), press(KeyCode::S), press(KeyCode::Enter), release(KeyCode::Enter), press(KeyCode::X)];
    let update = update_and_render(&mut state, &events, 0, size(), 42);
    assert_eq!(update, Update::Execute { resume: 4 });
    assert_eq!(state.command, "ls");
    execute_command(&mut state, &Execution::Ran { program: "\"/bin/ls\"".to_string(), output: "a\nb\n".to_string() });
    let update = update_and_render(&mut state, &events, 4, size(), 42);
    assert_eq!(
        update,
        Update::Frame { draws: vec![print(0, 0, "> "), print(2, 0, "lsx"), print(0, 1, "\"/bin/ls\" \na\nb\n")] }
    );
}

#[test]
fn resuming_keeps_the_mouse_button_noted() {
    let mut state = new_state(size(), 42);
    let events = vec![press(KeyCode::MouseLeft), release(KeyCode::Enter)];
    assert_eq!(update_and_render(&mut state, &events, 0, size(), 42), Update::Execute { resume: 2 });
    update_and_render(&mut state, &events, 2, size(), 42);
    assert!(state.left_mouse_pressed);
}

#[test]
fn control_r_with_shift_types_into_the_new_state() {
    let mut state = new_state(size(), 42);
    state.command.push_str("abc");
    let events = vec![Event::KeyPressed { key: KeyCode::R, ctrl: true, shift: true }];
    update_and_render(&mut state, &events, 0, size(), 42);
    assert_eq!(state.command, "R");
}

#[test]
fn a_command_that_ran_is_put_out_with_its_arguments_and_output() {
    let mut state = new_state(size(), 42);
    state.command.push_str("ls -l /tmp");
    state.output.push_str("before ");
    execute_command(&mut state, &Execution::Ran { program: "\"/bin/ls\"".to_string(), output: "x\n".to_string() });
    assert_eq!(state.output, "before \"/bin/ls\"  -l /tmp\nx\n");
    assert_eq!(state.command, "ls -l /tmp");
}

#[test]
fn a_command_that_was_not_found_is_named() {
    let mut state = new_state(size(), 42);
    state.command.push_str("nope -x");
    execute_command(&mut state, &Execution::NotFound);
    assert_eq!(state.output, "Could not find \"nope\"!");
    execute_command(&mut state, &Execution::NotFound);
    assert_eq!(state.output, "Could not find \"nope\"!Could not find \"nope\"!");
}
