use modal_shell::event::{InputEvent, KeyInput};
use modal_shell::login::LoginWindow;
use modal_shell::shell::{Shell, ShellEffect, WindowMode, WindowUpdate};
use modal_shell::spotlight::{SpotlightDialog, SpotlightEntry};

fn entry(category: &str, title: &str) -> SpotlightEntry {
    SpotlightEntry { category: category.to_owned(), title: title.to_owned() }
}

fn type_str(dialog: &mut SpotlightDialog, text: &str) {
    for c in text.chars() {
        let update: WindowUpdate<u32> = dialog.handle(&InputEvent::Key(KeyInput::Char(c)));
        assert!(matches!(update, WindowUpdate::Draw));
    }
}

#[test]
fn score_basic() {
    let e = entry("Windows", "Login");
    assert_eq!(e.matches("log win"), 2);
    assert_eq!(e.matches("xyz"), 0);
    assert_eq!(e.matches(""), 1);
}

#[test]
fn score_is_case_insensitive() {
    let e = entry("Windows", "Login");
    assert_eq!(e.matches("LOGIN"), 1);
    assert_eq!(e.matches("WiNdOwS"), 1);
    assert_eq!(e.matches("LOG WIN"), 2);
}

#[test]
fn score_counts_each_token_once() {
    let e = entry("Windows", "Login");
    assert_eq!(e.matches("in in in"), 3);
    assert_eq!(e.matches("windows login"), 2);
    assert_eq!(e.matches("o"), 1);
}

#[test]
fn matches_checked_agrees_with_matches() {
    let e = entry("Windows", "Login");
    assert_eq!(e.matches_checked("log win"), Some(2));
    assert_eq!(e.matches_checked(""), Some(1));
    assert_eq!(e.matches_checked("xyz"), Some(0));
}

#[test]
fn entry_from_title_uses_the_fixed_category() {
    let e = SpotlightEntry::from_title("Login".to_owned());
    assert_eq!(e.category, "Windows");
    assert_eq!(e.title, "Login");
}

#[test]
fn new_dialog_is_empty() {
    let d = SpotlightDialog::new(vec![entry("Windows", "Login")]);
    assert_eq!(d.input_text(), "");
    assert_eq!(d.get_title(), "Spotlight");
    assert_eq!(d.entries.len(), 1);
}

#[test]
fn default_dialog_has_nothing() {
    let d = SpotlightDialog::default();
    assert_eq!(d.input_text(), "");
    assert_eq!(d.entries.len(), 0);
    assert_eq!(d.ranked_lines().len(), 0);
}

#[test]
fn backspace_on_empty_input_stays_empty() {
    let mut d = *SpotlightDialog::new(vec![entry("Windows", "Login")]);
    for _ in 0..4 {
        let update: WindowUpdate<u32> = d.handle(&InputEvent::Key(KeyInput::Backspace));
        assert!(matches!(update, WindowUpdate::Draw));
        assert_eq!(d.input_text(), "");
    }
}

#[test]
fn editing_appends_and_removes_characters() {
    let mut d = *SpotlightDialog::new(vec![]);
    type_str(&mut d, "ab");
    assert_eq!(d.input_text(), "ab");
    let update: WindowUpdate<u32> = d.handle(&InputEvent::Key(KeyInput::Backspace));
    assert!(matches!(update, WindowUpdate::Draw));
    assert_eq!(d.input_text(), "a");
    let update: WindowUpdate<u32> = d.handle(&InputEvent::Key(KeyInput::Esc));
    assert!(matches!(update, WindowUpdate::Draw));
    assert_eq!(d.input_text(), "a");
    let update: WindowUpdate<u32> = d.handle(&InputEvent::Resize);
    assert!(matches!(update, WindowUpdate::Idle));
    assert_eq!(d.input_text(), "a");
}

#[test]
fn empty_query_shows_every_entry_in_order() {
    let d = *SpotlightDialog::new(vec![
        entry("Windows", "Login"),
        entry("Windows", "Settings"),
        entry("Tools", "Console"),
    ]);
    assert_eq!(d.ranked_indices(), vec![0, 1, 2]);
    assert_eq!(
        d.ranked_lines(),
        vec!["Windows > Login", "Windows > Settings", "Tools > Console"]
    );
}

#[test]
fn nonempty_query_drops_zero_scores() {
    let mut d = *SpotlightDialog::new(vec![
        entry("Windows", "Login"),
        entry("Windows", "Settings"),
        entry("Tools", "Console"),
    ]);
    type_str(&mut d, "log");
    assert_eq!(d.ranked_indices(), vec![0]);
    assert_eq!(d.ranked_lines(), vec!["Windows > Login"]);
}

#[test]
fn higher_scores_rank_first() {
    let mut d = *SpotlightDialog::new(vec![
        entry("Windows", "alpha"),
        entry("Windows", "alpha beta"),
    ]);
    type_str(&mut d, "alpha beta");
    assert_eq!(d.ranked_indices(), vec![1, 0]);
}

#[test]
fn equal_scores_keep_their_order() {
    let mut d = *SpotlightDialog::new(vec![
        entry("Windows", "alpha"),
        entry("Windows", "beta"),
        entry("Windows", "gamma"),
    ]);
    for query in ["", "windows", "a", "windows a"] {
        while d.input_text() != "" {
            let _: WindowUpdate<u32> = d.handle(&InputEvent::Key(KeyInput::Backspace));
        }
        type_str(&mut d, query);
        let idxs = d.ranked_indices();
        assert_eq!(idxs, vec![0, 1, 2], "query {:?}", query);
    }
}

#[test]
fn whitespace_only_query_has_no_tokens() {
    let mut d = *SpotlightDialog::new(vec![entry("Windows", "Login")]);
    type_str(&mut d, "  ");
    assert_eq!(d.ranked_indices(), Vec::<usize>::new());
}

#[test]
fn login_window_switches_tabs() {
    let mut w = *LoginWindow::new();
    assert_eq!(w.current_tab, 0);
    assert_eq!(w.get_title(), "Login");
    let update: WindowUpdate<u32> = w.handle(&InputEvent::Key(KeyInput::F(2)));
    assert!(matches!(update, WindowUpdate::Draw));
    assert_eq!(w.current_tab, 1);
    let update: WindowUpdate<u32> = w.handle(&InputEvent::Key(KeyInput::F(1)));
    assert!(matches!(update, WindowUpdate::Draw));
    assert_eq!(w.current_tab, 0);
    let update: WindowUpdate<u32> = w.handle(&InputEvent::Key(KeyInput::F(5)));
    assert!(matches!(update, WindowUpdate::Draw));
    assert_eq!(w.current_tab, 0);
    let update: WindowUpdate<u32> = w.handle(&InputEvent::Key(KeyInput::Char('x')));
    assert!(matches!(update, WindowUpdate::Draw));
    assert_eq!(w.current_tab, 0);
    let update: WindowUpdate<u32> = w.handle(&InputEvent::Resize);
    assert!(matches!(update, WindowUpdate::Idle));
}

enum TestWin {
    Login(Box<LoginWindow>),
    Spot(Box<SpotlightDialog>),
}

impl TestWin {
    fn title(&self) -> String {
        match self {
            TestWin::Login(w) => w.get_title(),
            TestWin::Spot(d) => d.get_title(),
        }
    }
}

#[test]
fn mode_and_stack_pair_on_the_happy_path() {
    let mut shell: Shell<TestWin> = Shell::new(TestWin::Login(LoginWindow::new()));
    assert_eq!(shell.mode, WindowMode::Navigate);

    let effect = shell.on_event(&InputEvent::Key(KeyInput::Char('f')));
    assert_eq!(effect, ShellEffect::OpenSpotlight);
    assert_eq!(shell.mode, WindowMode::Search);

    let entries: Vec<SpotlightEntry> = shell
        .windows
        .iter()
        .map(|w| SpotlightEntry::from_title(w.title()))
        .collect();
    shell.push_window(TestWin::Spot(SpotlightDialog::new(entries)));
    assert_eq!(shell.windows.len(), 2);
    assert_eq!(shell.windows[1].title(), "Spotlight");

    let event = InputEvent::Key(KeyInput::Char('l'));
    let effect = shell.on_event(&event);
    assert_eq!(effect, ShellEffect::Forward);
    let update: WindowUpdate<TestWin> = match shell.windows.last_mut().unwrap() {
        TestWin::Spot(d) => d.handle(&event),
        TestWin::Login(w) => w.handle(&event),
    };
    assert!(matches!(update, WindowUpdate::Draw));
    let effect = shell.apply_update(update);
    assert_eq!(effect, ShellEffect::DrawNow);
    if let TestWin::Spot(d) = shell.windows.last().unwrap() {
        assert_eq!(d.input_text(), "l");
        assert_eq!(d.ranked_lines()[0], "Windows > Login");
    } else {
        panic!("the spotlight dialog is focused");
    }

    let effect = shell.on_event(&InputEvent::Key(KeyInput::Esc));
    assert_eq!(effect, ShellEffect::ClearScreen);
    assert_eq!(shell.mode, WindowMode::Navigate);
    assert_eq!(shell.windows.len(), 1);
    assert_eq!(shell.windows[0].title(), "Login");
}
