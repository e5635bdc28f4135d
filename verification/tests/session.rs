use std::collections::VecDeque;
use walkie::connect::{PeerChoice, Screen};
use walkie::key::{KeyCode, KeyEvent, KeyKind};
use walkie::session::Session;

fn press(code: KeyCode) -> Option<KeyEvent> {
    Some(KeyEvent { code, kind: KeyKind::Press, control: false })
}

#[test]
fn session_listens_talks_and_quits() {
    let mut session = Session::new();
    let mut log = VecDeque::new();
    let contacts = vec![];
    let first = session.turn_at(press(KeyCode::Enter), 1, true, &contacts, &mut log);
    assert!(matches!(first.reply, Some(PeerChoice::Listen)));
    assert!(!first.stop);
    assert_eq!(session.connect.screen, Screen::Main);
    let talk = session.turn_at(press(KeyCode::Char(' ')), 77, true, &contacts, &mut log);
    assert_eq!(talk.ptt.map(|p| (p.active, p.last_ms)), Some((true, 77)));
    session.turn_at(press(KeyCode::Tab), 78, true, &contacts, &mut log);
    session.turn_at(press(KeyCode::Char('h')), 79, true, &contacts, &mut log);
    let sent = session.turn_at(press(KeyCode::Enter), 80, true, &contacts, &mut log);
    assert_eq!(sent.sent.as_deref(), Some("h"));
    assert!(sent.reply.is_none());
    assert_eq!(log[0], "[you] h");
    session.turn_at(press(KeyCode::Tab), 81, true, &contacts, &mut log);
    let last = session.turn_at(press(KeyCode::Char('q')), 82, true, &contacts, &mut log);
    assert!(last.stop && last.shutdown);
}

#[test]
fn session_is_stopped_from_the_connect_screen() {
    let mut session = Session::new();
    let key = KeyEvent { code: KeyCode::Char('c'), kind: KeyKind::Press, control: true };
    let effects = session.turn(Some(key), true, &vec![], &mut VecDeque::new());
    assert!(effects.stop && effects.shutdown);
    assert!(matches!(effects.reply, Some(PeerChoice::Listen)));
}

#[test]
fn session_ends_with_the_program() {
    let mut session = Session::new();
    let mut log = VecDeque::new();
    assert!(!session.turn(None, true, &vec![], &mut log).stop);
    let effects = session.turn(None, false, &vec![], &mut log);
    assert!(effects.stop && !effects.shutdown);
    let with_key = session.turn(press(KeyCode::Char('a')), false, &vec![], &mut log);
    assert!(with_key.stop);
    assert_eq!(session.connect.node_id_input, "a");
}

#[test]
fn session_hands_on_each_notice_once() {
    let mut session = Session::new();
    let mut log = VecDeque::new();
    let keys = [
        KeyCode::Char('q'),
        KeyCode::Backspace,
        KeyCode::Enter,
        KeyCode::Enter,
        KeyCode::Tab,
        KeyCode::Char('q'),
        KeyCode::Enter,
        KeyCode::Tab,
        KeyCode::Char('q'),
        KeyCode::Char('q'),
    ];
    let mut replies = vec![];
    let mut shutdowns = vec![];
    for (i, code) in keys.into_iter().enumerate() {
        let effects = session.turn_at(press(code), i as u64, true, &vec![], &mut log);
        if effects.reply.is_some() {
            replies.push(i);
        }
        if effects.shutdown {
            shutdowns.push(i);
        }
    }
    assert_eq!(replies, vec![2]);
    assert_eq!(shutdowns, vec![8]);
}
