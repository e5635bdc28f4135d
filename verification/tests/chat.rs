use std::collections::VecDeque;
use walkie::chat::{handle_main_key, handle_main_key_at, InputMode, MainEffects, MainState};
use walkie::history::MAX_LOG_LINES;
use walkie::key::{KeyCode, KeyEvent, KeyKind};
use walkie::ptt::PttState;

struct Screen {
    state: MainState,
    log: VecDeque<String>,
    pending: bool,
}

impl Screen {
    fn new() -> Screen {
        Screen { state: MainState::new(), log: VecDeque::new(), pending: true }
    }

    fn key(&mut self, key: KeyEvent) -> MainEffects {
        handle_main_key_at(key, 1_000, &mut self.state, &mut self.log, &mut self.pending)
    }

    fn press(&mut self, code: KeyCode) -> MainEffects {
        self.key(KeyEvent { code, kind: KeyKind::Press, control: false })
    }

    fn type_text(&mut self, text: &str) {
        for c in text.chars() {
            self.press(KeyCode::Char(c));
        }
    }
}

#[test]
fn message_is_trimmed_sent_and_logged() {
    let mut screen = Screen::new();
    screen.press(KeyCode::Tab);
    assert_eq!(screen.state.input_mode, InputMode::Message);
    screen.type_text("  hello q ");
    let effects = screen.press(KeyCode::Enter);
    assert_eq!(effects.sent.as_deref(), Some("hello q"));
    assert!(!effects.quit);
    assert_eq!(screen.log, VecDeque::from(vec!["[you] hello q".to_string()]));
    assert_eq!(screen.state.chat_input, "");
}

#[test]
fn blank_message_is_not_sent() {
    let mut screen = Screen::new();
    screen.press(KeyCode::Tab);
    screen.type_text("   ");
    assert_eq!(screen.press(KeyCode::Enter).sent, None);
    assert!(screen.log.is_empty());
    assert_eq!(screen.state.chat_input, "   ");
}

#[test]
fn chat_log_is_bounded() {
    let mut screen = Screen::new();
    screen.press(KeyCode::Tab);
    for n in 0..MAX_LOG_LINES + 3 {
        screen.type_text(&format!("{}", n));
        screen.press(KeyCode::Enter);
    }
    assert_eq!(screen.log.len(), 200);
    assert_eq!(screen.log[0], "[you] 3");
    assert_eq!(screen.log[199], "[you] 202");
}

#[test]
fn backspace_takes_back_a_letter() {
    let mut screen = Screen::new();
    screen.press(KeyCode::Tab);
    screen.type_text("hé");
    screen.press(KeyCode::Backspace);
    assert_eq!(screen.state.chat_input, "h");
    screen.press(KeyCode::Backspace);
    screen.press(KeyCode::Backspace);
    assert_eq!(screen.state.chat_input, "");
}

#[test]
fn tab_toggles_the_mode() {
    let mut screen = Screen::new();
    screen.press(KeyCode::Tab);
    screen.press(KeyCode::Tab);
    assert_eq!(screen.state.input_mode, InputMode::Ptt);
    let release = KeyEvent { code: KeyCode::Tab, kind: KeyKind::Release, control: false };
    screen.key(release);
    assert_eq!(screen.state.input_mode, InputMode::Ptt);
}

#[test]
fn space_talks_while_held() {
    let mut screen = Screen::new();
    let pressed = screen.press(KeyCode::Char(' '));
    assert_eq!(pressed.ptt, Some(PttState { active: true, last_ms: 1_000 }));
    let repeat = KeyEvent { code: KeyCode::Char(' '), kind: KeyKind::Repeat, control: false };
    assert_eq!(screen.key(repeat).ptt, Some(PttState { active: true, last_ms: 1_000 }));
    let release = KeyEvent { code: KeyCode::Char(' '), kind: KeyKind::Release, control: false };
    assert_eq!(screen.key(release).ptt, Some(PttState { active: false, last_ms: 0 }));
}

#[test]
fn space_is_a_letter_in_message_mode() {
    let mut screen = Screen::new();
    screen.press(KeyCode::Tab);
    assert_eq!(screen.press(KeyCode::Char(' ')).ptt, None);
    assert_eq!(screen.state.chat_input, " ");
}

#[test]
fn talk_key_carries_the_time() {
    let mut screen = Screen::new();
    let key = KeyEvent { code: KeyCode::Char(' '), kind: KeyKind::Press, control: false };
    let effects =
        handle_main_key(key, &mut screen.state, &mut screen.log, &mut screen.pending);
    let ptt = effects.ptt.unwrap();
    assert!(ptt.active);
    assert!(ptt.last_ms > 1_600_000_000_000);
}

#[test]
fn q_quits_in_talk_mode_only() {
    let mut screen = Screen::new();
    screen.press(KeyCode::Tab);
    assert!(!screen.press(KeyCode::Char('q')).quit);
    assert_eq!(screen.state.chat_input, "q");
    screen.press(KeyCode::Tab);
    let effects = screen.press(KeyCode::Char('q'));
    assert!(effects.quit && effects.shutdown);
    assert!(!screen.pending);
    let again = screen.press(KeyCode::Char('q'));
    assert!(again.quit && !again.shutdown);
}

#[test]
fn interrupt_quits_in_both_modes() {
    let interrupt = KeyEvent { code: KeyCode::Char('c'), kind: KeyKind::Press, control: true };
    let mut talking = Screen::new();
    assert!(talking.key(interrupt).quit);
    let mut writing = Screen::new();
    writing.press(KeyCode::Tab);
    let effects = writing.key(interrupt);
    assert!(effects.quit && effects.shutdown);
    let mut released = Screen::new();
    let up = KeyEvent { kind: KeyKind::Release, ..interrupt };
    assert!(!released.key(up).quit);
    assert!(!Screen::new().press(KeyCode::Char('c')).quit);
}
