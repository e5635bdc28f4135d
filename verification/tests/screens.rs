use std::collections::VecDeque;
use walkie::chat::{InputMode, MainState};
use walkie::connect::{ConnectFocus, ConnectState, ConnectTab, Contact};
use walkie::connect_view::draw_connect;
use walkie::layout::{centered_rect, main_areas, Area};
use walkie::main_view::draw_main;
use walkie::styled::{Color, Line};

const SCREEN: Area = Area { x: 0, y: 0, width: 100, height: 40 };

fn text(line: &Line) -> String {
    line.spans.iter().map(|s| s.text.as_str()).collect()
}

fn contacts(n: usize) -> Vec<Contact> {
    (0..n)
        .map(|i| Contact {
            alias: format!("peer{}", i),
            node_id: format!("{:020}", i),
        })
        .collect()
}

fn is_inside(inner: Area, outer: Area) -> bool {
    inner.x >= outer.x
        && inner.y >= outer.y
        && inner.x.saturating_add(inner.width) <= outer.x.saturating_add(outer.width)
        && inner.y.saturating_add(inner.height) <= outer.y.saturating_add(outer.height)
}

#[test]
fn popup_is_in_the_middle() {
    let popup = centered_rect(SCREEN, 72, 14);
    assert_eq!(popup, Area { x: 14, y: 13, width: 72, height: 14 });
}

/// `percent` hundredths of `room`, rounded to the nearest.
fn share(percent: u32, room: u16) -> u16 {
    ((percent * room as u32 + 50) / 100) as u16
}

#[test]
fn popup_has_its_size_where_it_fits() {
    let sizes: Vec<u16> = (0..260).chain([1_000, 4_097, 32_768, 65_535]).collect();
    for &n in &sizes {
        for origin in [0u16, 7] {
            let room = n.min(65_535 - origin);
            let area = Area { x: origin, y: origin, width: n, height: n };
            for width_pct in [0u16, 1, 33, 50, 72, 99, 100] {
                let side = (100 - width_pct as u32) / 2;
                let popup = centered_rect(area, width_pct, 9);
                assert_eq!(popup.x, origin + share(side, room));
                assert_eq!(popup.x + popup.width, origin + share(side + width_pct as u32, room));
            }
            for height in [0u16, 1, 9, 13, 14, 18, 200] {
                if room >= height + 2 {
                    let popup = centered_rect(area, 72, height);
                    assert_eq!(popup.height, height);
                    let above = popup.y - origin;
                    let below = origin + room - (popup.y + height);
                    assert!(above >= 1 && below >= 1 && above.abs_diff(below) <= 1);
                }
            }
        }
    }
}

#[test]
fn call_screen_has_its_rows_where_they_fit() {
    for n in (19u16..400).chain([1_000, 4_097, 32_768, 65_535]) {
        for origin in [0u16, 7] {
            let rows = n.min(65_535 - origin);
            let parts = main_areas(Area { x: origin, y: origin, width: 80, height: n });
            assert_eq!((parts.chat.y, parts.chat.height), (origin, rows - 14));
            assert_eq!((parts.mic.y, parts.mic.height), (origin + rows - 14, 5));
            assert_eq!((parts.audio.y, parts.audio.height), (origin + rows - 9, 5));
            assert_eq!((parts.status.y, parts.status.height), (origin + rows - 4, 4));
            assert_eq!((parts.messages.y, parts.messages.height), (origin + 1, rows - 18));
            assert_eq!((parts.separator.y, parts.separator.height), (origin + rows - 17, 1));
            assert_eq!((parts.input.y, parts.input.height), (origin + rows - 16, 1));
            assert_eq!((parts.separator.x, parts.separator.width), (origin + 1, 78));
        }
    }
}

#[test]
fn border_takes_a_cell_on_each_side() {
    for height in 0..24u16 {
        for width in 0..6u16 {
            let parts = main_areas(Area { x: 65_533, y: 2, width, height });
            let right = 65_533u16.saturating_add(width);
            assert_eq!(parts.messages.x, 65_534u16.min(right));
            assert_eq!(parts.messages.width, width.saturating_sub(2));
        }
    }
}

#[test]
fn parts_stay_inside_whatever_the_size() {
    for width in [0u16, 1, 2, 3, 10, 81, 300, 65_535] {
        for height in [0u16, 1, 2, 5, 7, 13, 19, 24, 200, 65_535] {
            for origin in [0u16, 3, 65_530] {
                let area = Area { x: origin, y: origin, width, height };
                assert!(is_inside(centered_rect(area, 72, 18), area));
                let parts = main_areas(area);
                for part in [parts.chat, parts.mic, parts.audio, parts.status] {
                    assert!(is_inside(part, area));
                    assert_eq!((part.x, part.width), (area.x, area.width));
                }
                for part in [parts.messages, parts.separator, parts.input] {
                    assert!(is_inside(part, parts.chat));
                }
            }
        }
    }
}

#[test]
fn call_screen_is_split_in_rows() {
    let parts = main_areas(SCREEN);
    assert_eq!(parts.chat, Area { x: 0, y: 0, width: 100, height: 26 });
    assert_eq!(parts.mic, Area { x: 0, y: 26, width: 100, height: 5 });
    assert_eq!(parts.audio, Area { x: 0, y: 31, width: 100, height: 5 });
    assert_eq!(parts.status, Area { x: 0, y: 36, width: 100, height: 4 });
    assert_eq!(parts.messages, Area { x: 1, y: 1, width: 98, height: 22 });
    assert_eq!(parts.separator, Area { x: 1, y: 23, width: 98, height: 1 });
    assert_eq!(parts.input, Area { x: 1, y: 24, width: 98, height: 1 });
}

#[test]
fn dial_tab_shows_fields() {
    let mut state = ConnectState::new();
    state.node_id_input = "abc".to_string();
    let view = draw_connect(SCREEN, &state, "me", &vec![]);
    let lines: Vec<String> = view.lines.iter().map(text).collect();
    assert_eq!(
        lines,
        vec![
            "  Connect   │   Listen                 Tab to switch",
            "  ─────────────────────────────────────────────",
            "  Peer ID:",
            "  > abc█",
            "",
            "  Save as:",
            "  (optional)",
            "",
            "  ↑↓: switch field   Enter: dial",
        ]
    );
    assert_eq!(view.popup.height, 13);
    assert_eq!(view.lines[0].spans[1].style.color, Color::Yellow);
    assert!(view.lines[0].spans[1].style.bold && view.lines[0].spans[1].style.underlined);
    assert_eq!(view.lines[0].spans[3].style.color, Color::DarkGray);
    assert!(view.lines[4].spans.is_empty());
}

#[test]
fn dial_tab_shows_error_and_alias_cursor() {
    let mut state = ConnectState::new();
    state.error = Some("bad".to_string());
    state.focus = ConnectFocus::Alias;
    state.alias_input = "bob".to_string();
    let view = draw_connect(SCREEN, &state, "me", &vec![]);
    assert_eq!(text(&view.lines[2]), "  Error: bad");
    assert_eq!(view.lines[2].spans[0].style.color, Color::Red);
    assert_eq!(text(&view.lines[3]), "  ");
    assert_eq!(view.lines[3].spans[0].style.color, Color::DarkGray);
    assert_eq!(text(&view.lines[6]), "  > bob█");
    state.focus = ConnectFocus::NodeId;
    assert_eq!(text(&draw_connect(SCREEN, &state, "me", &vec![]).lines[6]), "  bob");
}

#[test]
fn contacts_scroll_to_the_selected_one() {
    let mut state = ConnectState::new();
    state.focus = ConnectFocus::Contacts;
    state.contact_selected = 5;
    let view = draw_connect(SCREEN, &state, "me", &contacts(7));
    let lines: Vec<String> = view.lines.iter().skip(9).map(text).collect();
    assert_eq!(
        lines,
        vec![
            "  ─────────────────────────────────────────────  saved",
            "  peer2        0000000000000000…",
            "  peer3        0000000000000000…",
            "  peer4        0000000000000000…",
            "▶ peer5        0000000000000000…",
        ]
    );
    assert!(view.lines[13].spans[0].style.bold);
    assert_eq!(view.lines[12].spans[0].style.color, Color::White);
    assert_eq!(view.popup.height, 18);
}

#[test]
fn few_contacts_are_shown_from_the_first() {
    let mut state = ConnectState::new();
    state.contact_selected = 1;
    let view = draw_connect(SCREEN, &state, "me", &contacts(2));
    assert_eq!(view.lines.len(), 12);
    assert_eq!(text(&view.lines[10]), "  peer0        0000000000000000…");
    assert_eq!(text(&view.lines[11]), "  peer1        0000000000000000…");
    assert_eq!(view.popup.height, 16);
}

#[test]
fn listen_tab_shows_the_own_id() {
    let mut state = ConnectState::new();
    state.tab = ConnectTab::Listen;
    let view = draw_connect(SCREEN, &state, "me", &contacts(3));
    let lines: Vec<String> = view.lines.iter().skip(2).map(text).collect();
    assert_eq!(lines, vec!["", "  Your ID: me", "", "  Press Enter to start listening."]);
    assert_eq!(view.lines[3].spans[1].style.color, Color::Cyan);
    assert_eq!(view.popup.height, 9);
    assert_eq!(view.title, " walkie ");
}

#[test]
fn call_screen_shows_newest_messages_and_status() {
    let log: VecDeque<String> = (0..30).map(|n| format!("line {}", n)).collect();
    let view = draw_main(
        SCREEN,
        &log,
        &MainState::new(),
        false,
        &VecDeque::from(vec![3, 1, 2]),
        &VecDeque::from(vec![9, 8]),
        "me",
        0,
        "",
    );
    assert_eq!(view.title, " Chat [PTT] ");
    assert_eq!(view.messages.len(), 22);
    assert_eq!(view.messages[0], "line 8");
    assert_eq!(view.messages[21], "line 29");
    assert_eq!(text(&view.separator), "─".repeat(98));
    assert_eq!(view.separator.spans[0].style.color, Color::DarkGray);
    assert_eq!((view.mic.title.as_str(), view.mic.color), (" Mic ", Color::Green));
    assert_eq!(view.mic.bars, vec![3, 1, 2]);
    assert_eq!((view.audio.title.as_str(), view.audio.color), (" Audio ", Color::Yellow));
    assert_eq!(view.audio.bars, vec![9, 8]);
    assert_eq!(view.status_title, " Status ");
    assert_eq!(text(&view.input), "> Tab: enter message mode");
    assert_eq!(
        text(&view.status[0]),
        "Tab: message mode   SPACE: push to talk   q / ctrl+c: quit"
    );
    assert_eq!(text(&view.status[1]), "● LISTENING  │  Node: me  │  Ping: --");
    assert_eq!(view.status[1].spans[0].style.color, Color::Green);
    assert_eq!(view.status[1].spans[2].style.color, Color::DarkGray);
}

#[test]
fn call_screen_shows_message_mode_and_ping() {
    let mut state = MainState::new();
    state.input_mode = InputMode::Message;
    state.chat_input = "hey".to_string();
    let log = VecDeque::from(vec!["only".to_string()]);
    let view = draw_main(SCREEN, &log, &state, true, &VecDeque::new(), &VecDeque::new(), "me", 12_340, "12.3");
    assert_eq!(view.title, " Chat [MSG] ");
    assert_eq!(view.messages, vec!["only"]);
    assert_eq!(text(&view.input), "> hey█");
    assert_eq!(text(&view.status[0]), "Tab: PTT mode   Enter: send   ctrl+c: quit");
    assert_eq!(text(&view.status[1]), "● TRANSMITTING  │  Node: me  │  Ping: 12.3ms");
    assert!(view.status[1].spans[0].style.bold);
    assert_eq!(view.status[1].spans[2].style.color, Color::Cyan);
}
