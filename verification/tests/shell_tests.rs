use modal_shell::event::{InputEvent, KeyInput};
use modal_shell::shell::{Shell, ShellEffect, WindowMode, WindowUpdate, status_label};

#[test]
fn new_shell_starts_in_navigate() {
    let shell: Shell<u32> = Shell::new(7);
    assert_eq!(shell.windows.len(), 1);
    assert_eq!(shell.mode, WindowMode::Navigate);
    assert!(shell.redraw);
    assert!(shell.is_running());
}

#[test]
fn take_redraw_consumes_the_flag() {
    let mut shell: Shell<u32> = Shell::new(7);
    assert!(shell.take_redraw());
    assert!(!shell.take_redraw());
}

#[test]
fn stack_balance_push_then_close() {
    let mut shell: Shell<u32> = Shell::new(0);
    for i in 1..=5u32 {
        let effect = shell.apply_update(WindowUpdate::New(i));
        assert_eq!(effect, ShellEffect::Silent);
    }
    assert_eq!(shell.windows.len(), 6);
    for _ in 0..5 {
        let effect = shell.apply_update(WindowUpdate::Close);
        assert_eq!(effect, ShellEffect::ClearScreen);
    }
    assert_eq!(shell.windows.len(), 1);
    assert_eq!(shell.windows[0], 0);
    assert!(shell.is_running());
    let effect = shell.apply_update(WindowUpdate::Close);
    assert_eq!(effect, ShellEffect::ClearScreen);
    assert!(!shell.is_running());
}

#[test]
fn apply_update_draw_and_idle() {
    let mut shell: Shell<u32> = Shell::new(0);
    let _ = shell.take_redraw();
    assert_eq!(shell.apply_update(WindowUpdate::Draw), ShellEffect::DrawNow);
    assert!(!shell.redraw);
    assert_eq!(shell.apply_update(WindowUpdate::Idle), ShellEffect::Silent);
    assert!(!shell.redraw);
    assert_eq!(shell.apply_update(WindowUpdate::New(1)), ShellEffect::Silent);
    assert!(shell.redraw);
}

#[test]
fn navigate_q_and_backspace_pop() {
    let mut shell: Shell<u32> = Shell::new(0);
    shell.push_window(1);
    shell.push_window(2);
    let effect = shell.on_event(&InputEvent::Key(KeyInput::Char('q')));
    assert_eq!(effect, ShellEffect::ClearScreen);
    assert_eq!(shell.windows.len(), 2);
    assert_eq!(shell.mode, WindowMode::Navigate);
    let effect = shell.on_event(&InputEvent::Key(KeyInput::Backspace));
    assert_eq!(effect, ShellEffect::ClearScreen);
    assert_eq!(shell.windows.len(), 1);
}

#[test]
fn navigate_i_and_insert_enter_insert_mode() {
    let mut shell: Shell<u32> = Shell::new(0);
    let effect = shell.on_event(&InputEvent::Key(KeyInput::Char('i')));
    assert_eq!(effect, ShellEffect::Silent);
    assert_eq!(shell.mode, WindowMode::Insert);

    let mut shell: Shell<u32> = Shell::new(0);
    let effect = shell.on_event(&InputEvent::Key(KeyInput::Insert));
    assert_eq!(effect, ShellEffect::Silent);
    assert_eq!(shell.mode, WindowMode::Insert);
}

#[test]
fn navigate_f_and_space_open_search() {
    let mut shell: Shell<u32> = Shell::new(0);
    let effect = shell.on_event(&InputEvent::Key(KeyInput::Char('f')));
    assert_eq!(effect, ShellEffect::OpenSpotlight);
    assert_eq!(shell.mode, WindowMode::Search);
    assert_eq!(shell.windows.len(), 1);
    shell.push_window(9);
    assert_eq!(shell.windows.len(), 2);

    let mut shell: Shell<u32> = Shell::new(0);
    let effect = shell.on_event(&InputEvent::Key(KeyInput::Char(' ')));
    assert_eq!(effect, ShellEffect::OpenSpotlight);
    assert_eq!(shell.mode, WindowMode::Search);
}

#[test]
fn navigate_other_keys_do_nothing() {
    let mut shell: Shell<u32> = Shell::new(0);
    let _ = shell.take_redraw();
    let effect = shell.on_event(&InputEvent::Key(KeyInput::Char('x')));
    assert_eq!(effect, ShellEffect::Silent);
    assert_eq!(shell.mode, WindowMode::Navigate);
    assert_eq!(shell.windows.len(), 1);
    assert!(!shell.redraw);
    let effect = shell.on_event(&InputEvent::Key(KeyInput::Esc));
    assert_eq!(effect, ShellEffect::Silent);
    assert_eq!(shell.mode, WindowMode::Navigate);
}

#[test]
fn insert_passthrough_except_esc() {
    let mut shell: Shell<u32> = Shell::new(0);
    let _ = shell.on_event(&InputEvent::Key(KeyInput::Char('i')));
    assert_eq!(shell.mode, WindowMode::Insert);
    let _ = shell.take_redraw();
    for key in [
        KeyInput::Char('q'),
        KeyInput::Char('f'),
        KeyInput::Backspace,
        KeyInput::Insert,
        KeyInput::F(1),
        KeyInput::Other,
    ] {
        let effect = shell.on_event(&InputEvent::Key(key));
        assert_eq!(effect, ShellEffect::Forward);
        assert_eq!(shell.mode, WindowMode::Insert);
        assert_eq!(shell.windows.len(), 1);
        assert!(!shell.redraw);
    }
    let effect = shell.on_event(&InputEvent::Key(KeyInput::Esc));
    assert_eq!(effect, ShellEffect::Silent);
    assert_eq!(shell.mode, WindowMode::Navigate);
    assert!(shell.redraw);
}

#[test]
fn esc_in_search_pops_the_dialog() {
    let mut shell: Shell<u32> = Shell::new(0);
    let _ = shell.on_event(&InputEvent::Key(KeyInput::Char('f')));
    shell.push_window(9);
    let effect = shell.on_event(&InputEvent::Key(KeyInput::Esc));
    assert_eq!(effect, ShellEffect::ClearScreen);
    assert_eq!(shell.mode, WindowMode::Navigate);
    assert_eq!(shell.windows.len(), 1);
    assert_eq!(shell.windows[0], 0);
}

#[test]
fn search_forwards_other_keys() {
    let mut shell: Shell<u32> = Shell::new(0);
    let _ = shell.on_event(&InputEvent::Key(KeyInput::Char('f')));
    shell.push_window(9);
    let effect = shell.on_event(&InputEvent::Key(KeyInput::Char('q')));
    assert_eq!(effect, ShellEffect::Forward);
    assert_eq!(shell.windows.len(), 2);
    assert_eq!(shell.mode, WindowMode::Search);
}

#[test]
fn resize_forces_redraw_in_every_mode() {
    let mut shell: Shell<u32> = Shell::new(0);
    let _ = shell.take_redraw();
    let effect = shell.on_event(&InputEvent::Resize);
    assert_eq!(effect, ShellEffect::Silent);
    assert!(shell.redraw);

    let _ = shell.on_event(&InputEvent::Key(KeyInput::Char('i')));
    let _ = shell.take_redraw();
    let effect = shell.on_event(&InputEvent::Resize);
    assert_eq!(effect, ShellEffect::Forward);
    assert!(shell.redraw);
}

#[test]
fn other_events_are_forwarded_only_outside_navigate() {
    let mut shell: Shell<u32> = Shell::new(0);
    let _ = shell.take_redraw();
    assert_eq!(shell.on_event(&InputEvent::Other), ShellEffect::Silent);
    assert!(!shell.redraw);
    let _ = shell.on_event(&InputEvent::Key(KeyInput::Char('i')));
    let _ = shell.take_redraw();
    assert_eq!(shell.on_event(&InputEvent::Other), ShellEffect::Forward);
    assert!(!shell.redraw);
}

#[test]
fn status_labels_name_each_mode() {
    assert_eq!(status_label(WindowMode::Navigate), " Navigate");
    assert_eq!(status_label(WindowMode::Search), " Search");
    assert_eq!(status_label(WindowMode::Insert), " Insert");
}
