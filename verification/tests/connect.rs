use walkie::connect::{
    handle_connect_key, ConnectEffects, ConnectFocus, ConnectState, ConnectTab, Contact, PeerChoice,
    Screen,
};
use walkie::identity::shared_text;
use walkie::key::{KeyCode, KeyEvent, KeyKind};

const HEX_ID: &str = "ae58ff8833241ac82d6ff7611046ed67b5072d142c588d0063e942d9a75502b6";
const BASE32_ID: &str = "vzmp7cbteqnmqllp65qrarxnm62qoliufrmi2add5fbntj2vak3a";

fn press(code: KeyCode) -> KeyEvent {
    KeyEvent { code, kind: KeyKind::Press, control: false }
}

fn interrupt() -> KeyEvent {
    KeyEvent { code: KeyCode::Char('c'), kind: KeyKind::Press, control: true }
}

fn contact(alias: &str, node_id: &str) -> Contact {
    Contact { alias: alias.to_string(), node_id: node_id.to_string() }
}

fn type_text(state: &mut ConnectState, text: &str) {
    for c in text.chars() {
        let effects = handle_connect_key(press(KeyCode::Char(c)), state, &vec![]);
        assert!(is_quiet(&effects));
    }
}

fn is_quiet(effects: &ConnectEffects) -> bool {
    effects.reply.is_none() && !effects.shutdown
}

fn node_id_bytes() -> [u8; 32] {
    *HEX_ID.parse::<iroh_base::NodeId>().unwrap().as_bytes()
}

#[test]
fn typed_id_and_enter_dial() {
    for text in [HEX_ID, BASE32_ID] {
        let mut state = ConnectState::new();
        type_text(&mut state, text);
        assert_eq!(state.node_id_input, text);
        let effects = handle_connect_key(press(KeyCode::Enter), &mut state, &vec![]);
        match effects.reply {
            Some(PeerChoice::Dial { node_id, alias }) => {
                assert_eq!(node_id, node_id_bytes());
                assert_eq!(alias, None);
            }
            other => panic!("{:?}", other),
        }
        assert!(!effects.shutdown);
        assert_eq!(state.screen, Screen::Main);
        assert_eq!(state.node_id_input, "");
        assert!(!state.peer_pending);
    }
}

#[test]
fn shared_text_can_be_dialed() {
    let text = shared_text(node_id_bytes()).unwrap();
    let mut state = ConnectState::new();
    type_text(&mut state, &format!(" {} ", text));
    let effects = handle_connect_key(press(KeyCode::Enter), &mut state, &vec![]);
    assert!(matches!(
        effects.reply,
        Some(PeerChoice::Dial { node_id, .. }) if node_id == node_id_bytes()
    ));
}

#[test]
fn alias_is_trimmed_and_handed_on() {
    let mut state = ConnectState::new();
    type_text(&mut state, HEX_ID);
    handle_connect_key(press(KeyCode::Down), &mut state, &vec![]);
    assert_eq!(state.focus, ConnectFocus::Alias);
    type_text(&mut state, " bob ");
    let effects = handle_connect_key(press(KeyCode::Enter), &mut state, &vec![]);
    assert!(matches!(
        effects.reply,
        Some(PeerChoice::Dial { alias: Some(a), .. }) if a == "bob"
    ));
    assert_eq!(state.alias_input, "");
}

#[test]
fn enter_on_empty_field_listens() {
    for text in ["", "  "] {
        let mut state = ConnectState::new();
        type_text(&mut state, text);
        let effects = handle_connect_key(press(KeyCode::Enter), &mut state, &vec![]);
        assert!(matches!(effects.reply, Some(PeerChoice::Listen)));
        assert_eq!(state.screen, Screen::Main);
    }
}

#[test]
fn enter_on_listen_tab_listens() {
    let mut state = ConnectState::new();
    handle_connect_key(press(KeyCode::Tab), &mut state, &vec![]);
    assert_eq!(state.tab, ConnectTab::Listen);
    handle_connect_key(press(KeyCode::Char('x')), &mut state, &vec![]);
    assert_eq!(state.node_id_input, "");
    let effects = handle_connect_key(press(KeyCode::Enter), &mut state, &vec![]);
    assert!(matches!(effects.reply, Some(PeerChoice::Listen)));
}

#[test]
fn bad_id_is_told_and_kept() {
    let mut state = ConnectState::new();
    type_text(&mut state, "nonsense");
    let effects = handle_connect_key(press(KeyCode::Enter), &mut state, &vec![]);
    assert!(is_quiet(&effects));
    assert_eq!(
        state.error.as_deref(),
        Some("not a valid node ID (expected 52-char base32)")
    );
    assert_eq!(state.node_id_input, "nonsense");
    assert_eq!(state.screen, Screen::Connect);
    assert!(state.peer_pending);
    handle_connect_key(press(KeyCode::Backspace), &mut state, &vec![]);
    assert_eq!(state.error, None);
    assert_eq!(state.node_id_input, "nonsens");
}

#[test]
fn parse_result_decides_on_submit() {
    let mut state = ConnectState::new();
    assert!(is_quiet(&state.submit(None)));
    assert!(state.error.is_some());
    let effects = state.submit(Some([5; 32]));
    assert!(matches!(
        effects.reply,
        Some(PeerChoice::Dial { node_id: [5, ..], alias: None })
    ));
    assert_eq!(state.error, None);
    let again = state.submit(Some([6; 32]));
    assert!(again.reply.is_none());
}

#[test]
fn contact_fills_fields_and_is_dialed() {
    let contacts = vec![contact("ann", "x"), contact("bob", HEX_ID)];
    let mut state = ConnectState::new();
    for _ in 0..3 {
        handle_connect_key(press(KeyCode::Down), &mut state, &contacts);
    }
    assert_eq!(state.focus, ConnectFocus::Contacts);
    assert_eq!(state.contact_selected, 1);
    handle_connect_key(press(KeyCode::Down), &mut state, &contacts);
    assert_eq!(state.contact_selected, 1);
    handle_connect_key(press(KeyCode::Char('z')), &mut state, &contacts);
    assert!(is_quiet(&handle_connect_key(press(KeyCode::Enter), &mut state, &contacts)));
    assert_eq!(state.node_id_input, HEX_ID);
    assert_eq!(state.alias_input, "bob");
    assert_eq!(state.focus, ConnectFocus::NodeId);
    let effects = handle_connect_key(press(KeyCode::Enter), &mut state, &contacts);
    assert!(matches!(
        effects.reply,
        Some(PeerChoice::Dial { node_id, alias: Some(a) }) if node_id == node_id_bytes() && a == "bob"
    ));
}

#[test]
fn up_leads_back_to_the_peer_id() {
    let contacts = vec![contact("a", "1"), contact("b", "2")];
    let mut state = ConnectState::new();
    for _ in 0..3 {
        handle_connect_key(press(KeyCode::Down), &mut state, &contacts);
    }
    handle_connect_key(press(KeyCode::Up), &mut state, &contacts);
    assert_eq!((state.focus, state.contact_selected), (ConnectFocus::Contacts, 0));
    handle_connect_key(press(KeyCode::Up), &mut state, &contacts);
    assert_eq!(state.focus, ConnectFocus::Alias);
    handle_connect_key(press(KeyCode::Up), &mut state, &contacts);
    handle_connect_key(press(KeyCode::Up), &mut state, &contacts);
    assert_eq!(state.focus, ConnectFocus::NodeId);
}

#[test]
fn down_skips_an_empty_list() {
    let mut state = ConnectState::new();
    for _ in 0..4 {
        handle_connect_key(press(KeyCode::Down), &mut state, &vec![]);
    }
    assert_eq!(state.focus, ConnectFocus::Alias);
}

#[test]
fn selection_is_moved_into_a_shorter_list() {
    let mut state = ConnectState::new();
    state.contact_selected = 7;
    let release = KeyEvent { code: KeyCode::Enter, kind: KeyKind::Release, control: false };
    let effects = handle_connect_key(release, &mut state, &vec![contact("a", "1")]);
    assert!(is_quiet(&effects));
    assert_eq!(state.contact_selected, 0);
    assert_eq!(state.screen, Screen::Connect);
}

#[test]
fn tab_twice_leads_back() {
    let mut state = ConnectState::new();
    handle_connect_key(press(KeyCode::Down), &mut state, &vec![]);
    handle_connect_key(press(KeyCode::Tab), &mut state, &vec![]);
    handle_connect_key(press(KeyCode::Tab), &mut state, &vec![]);
    assert_eq!((state.tab, state.focus), (ConnectTab::Dial, ConnectFocus::NodeId));
}

#[test]
fn interrupt_hands_on_both_notices_once() {
    let mut state = ConnectState::new();
    let effects = handle_connect_key(interrupt(), &mut state, &vec![]);
    assert!(matches!(effects.reply, Some(PeerChoice::Listen)));
    assert!(effects.shutdown);
    assert!(!state.peer_pending && !state.shutdown_pending);
    assert!(is_quiet(&handle_connect_key(interrupt(), &mut state, &vec![])));
    assert!(is_quiet(&handle_connect_key(press(KeyCode::Enter), &mut state, &vec![])));
}

#[test]
fn control_keys_type_nothing() {
    let mut state = ConnectState::new();
    let key = KeyEvent { code: KeyCode::Char('x'), kind: KeyKind::Press, control: true };
    assert!(is_quiet(&handle_connect_key(key, &mut state, &vec![])));
    assert!(is_quiet(&handle_connect_key(press(KeyCode::Other), &mut state, &vec![])));
    assert_eq!(state.node_id_input, "");
    handle_connect_key(press(KeyCode::Char('c')), &mut state, &vec![]);
    assert_eq!(state.node_id_input, "c");
}

#[test]
fn release_does_nothing() {
    let mut state = ConnectState::new();
    for code in [KeyCode::Enter, KeyCode::Tab, KeyCode::Down, KeyCode::Char('x')] {
        let key = KeyEvent { code, kind: KeyKind::Release, control: false };
        assert!(is_quiet(&handle_connect_key(key, &mut state, &vec![])));
    }
    assert!(state.screen == Screen::Connect);
    assert!(state.tab == ConnectTab::Dial);
    assert!(state.focus == ConnectFocus::NodeId);
    assert_eq!(state.node_id_input, "");
}
