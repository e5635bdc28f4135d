//! What the connect screen shows.
use crate::connect::{
    lemma_key_keeps_well_formed, ConnectFocus, ConnectModel, ConnectState, ConnectTab, Contact,
};
use crate::identity::{hex_lower, lemma_hex_is_unspaced, node_id_of};
use crate::key::KeyEvent;
use crate::layout::{centered_rect, is_centered, is_middle, Area};
use crate::styled::{
    blank, bold, bold_span, colored, line_models, line_of, plain, push_line, span, with_span, Color,
    Line, Span, SpanModel, Style,
};
use crate::text::{
    join, lemma_padding_keeps_text, lemma_shortening_keeps_start, pad, padded, shorten, shortened,
    text_of, trimmed,
};
use vstd::prelude::*;

verus! {

/// The contacts that are shown at a time.
pub const CONTACT_ROWS: usize = 4;

/// The columns of an alias in the list.
pub const ALIAS_WIDTH: usize = 12;

/// The characters of a node ID in the list.
pub const SHORT_ID_LEN: usize = 16;

/// The hundredths of the terminal's width that the popup takes.
pub const POPUP_WIDTH_PCT: u16 = 72;

/// How many contacts are shown: only the dial tab shows any.
pub open spec fn visible_contacts(tab: ConnectTab, count: nat) -> nat {
    if tab == ConnectTab::Listen {
        0
    } else if count < CONTACT_ROWS {
        count
    } else {
        CONTACT_ROWS as nat
    }
}

/// The first contact that is shown: the list scrolls so that the selected one is the last shown,
/// once it is past the first rows.
pub open spec fn first_contact(selected: int) -> int {
    if selected >= CONTACT_ROWS {
        selected - (CONTACT_ROWS - 1)
    } else {
        0
    }
}

/// The rows of the popup, with its border.
pub open spec fn popup_height(tab: ConnectTab, count: nat) -> int {
    match tab {
        ConnectTab::Dial => if count > 0 {
            14 + visible_contacts(tab, count) as int
        } else {
            13
        },
        ConnectTab::Listen => 9,
    }
}

/// The label of a tab.
pub open spec fn tab_label(name: Seq<char>, current: bool) -> SpanModel {
    if current {
        SpanModel {
            text: name,
            style: Style { color: Color::Yellow, bold: true, underlined: true },
        }
    } else {
        colored(Color::DarkGray, name)
    }
}

/// The line with both tabs.
pub open spec fn tab_bar(tab: ConnectTab) -> Seq<SpanModel> {
    seq![
        plain("  "@),
        tab_label("Connect"@, tab == ConnectTab::Dial),
        colored(Color::DarkGray, "   │   "@),
        tab_label("Listen"@, tab == ConnectTab::Listen),
        colored(Color::DarkGray, "                 Tab to switch"@),
    ]
}

/// The rule between the parts of the popup.
pub open spec fn rule() -> Seq<char> {
    "  ─────────────────────────────────────────────"@
}

/// The label over the peer ID, or the error in its place.
pub open spec fn peer_label(error: Option<Seq<char>>) -> Seq<SpanModel> {
    match error {
        Some(text) => seq![colored(Color::Red, "  Error: "@), plain(text)],
        None => seq![colored(Color::White, "  Peer ID:"@)],
    }
}

/// A field with the cursor in it.
pub open spec fn focused_field(text: Seq<char>) -> Seq<SpanModel> {
    seq![colored(Color::Yellow, "  > "@), plain(text), colored(Color::Yellow, "█"@)]
}

/// The peer ID field.
pub open spec fn peer_field(text: Seq<char>, focused: bool) -> Seq<SpanModel> {
    if focused {
        focused_field(text)
    } else {
        seq![
            colored(
                if text.len() == 0 {
                    Color::DarkGray
                } else {
                    Color::White
                },
                "  "@ + text,
            ),
        ]
    }
}

/// The alias field.
pub open spec fn alias_field(text: Seq<char>, focused: bool) -> Seq<SpanModel> {
    if focused {
        focused_field(text)
    } else if text.len() == 0 {
        seq![colored(Color::DarkGray, "  (optional)"@)]
    } else {
        seq![plain("  "@ + text)]
    }
}

/// The line of a contact: its alias in a column, and the start of its node ID.
pub open spec fn contact_line(contact: Contact, selected: bool) -> Seq<SpanModel> {
    let entry = padded(contact.alias@, ALIAS_WIDTH as nat) + " "@ + shortened(
        contact.node_id@,
        SHORT_ID_LEN as nat,
    ) + "…"@;
    if selected {
        seq![bold(Color::Yellow, "▶ "@ + entry)]
    } else {
        seq![colored(Color::White, "  "@ + entry)]
    }
}

/// The lines of the contacts that are shown; one is marked while the list has the focus.
pub open spec fn contact_lines(state: ConnectModel, contacts: Seq<Contact>) -> Seq<Seq<SpanModel>> {
    let first = first_contact(state.selected);
    Seq::new(
        visible_contacts(state.tab, contacts.len()),
        |i: int|
            contact_line(
                contacts[first + i],
                state.focus == ConnectFocus::Contacts && first + i == state.selected,
            ),
    )
}

/// The lines of the dial tab above the contacts.
pub open spec fn dial_lines(state: ConnectModel) -> Seq<Seq<SpanModel>> {
    seq![
        peer_label(state.error),
        peer_field(state.node_id, state.focus == ConnectFocus::NodeId),
        Seq::empty(),
        seq![colored(Color::White, "  Save as:"@)],
        alias_field(state.alias, state.focus == ConnectFocus::Alias),
        Seq::empty(),
        seq![colored(Color::DarkGray, "  ↑↓: switch field   Enter: dial"@)],
    ]
}

/// The lines of the contacts, with a rule above them, where there are any.
pub open spec fn saved_lines(state: ConnectModel, contacts: Seq<Contact>) -> Seq<Seq<SpanModel>> {
    if visible_contacts(state.tab, contacts.len()) > 0 {
        seq![seq![colored(Color::DarkGray, rule() + "  saved"@)]] + contact_lines(state, contacts)
    } else {
        Seq::empty()
    }
}

/// The lines of the listen tab.
pub open spec fn listen_lines(own_id: Seq<char>) -> Seq<Seq<SpanModel>> {
    seq![
        Seq::empty(),
        seq![colored(Color::DarkGray, "  Your ID: "@), colored(Color::Cyan, own_id)],
        Seq::empty(),
        seq![colored(Color::DarkGray, "  Press Enter to start listening."@)],
    ]
}

/// The lines of the connect screen.
pub open spec fn connect_lines(
    state: ConnectModel,
    own_id: Seq<char>,
    contacts: Seq<Contact>,
) -> Seq<Seq<SpanModel>> {
    seq![tab_bar(state.tab), seq![colored(Color::DarkGray, rule())]] + match state.tab {
        ConnectTab::Dial => dial_lines(state) + saved_lines(state, contacts),
        ConnectTab::Listen => listen_lines(own_id),
    }
}

/// Whether the selection is such that the contacts it scrolls to exist.
pub open spec fn is_showable(state: ConnectModel, count: nat) -> bool {
    state.tab == ConnectTab::Dial && count > 0 && state.selected >= CONTACT_ROWS ==> state.selected
        < count
}

fn make_tab_label(name: &str, current: bool) -> (r: Span)
    ensures
        r@ == tab_label(name@, current),
{
    if current {
        bold_span(Color::Yellow, true, name)
    } else {
        span(Color::DarkGray, name)
    }
}

fn make_tab_bar(tab: ConnectTab) -> (r: Line)
    ensures
        r@ == tab_bar(tab),
{
    let line = line_of(span(Color::Plain, "  "));
    let line = with_span(line, make_tab_label("Connect", tab == ConnectTab::Dial));
    let line = with_span(line, span(Color::DarkGray, "   │   "));
    let line = with_span(line, make_tab_label("Listen", tab == ConnectTab::Listen));
    let line = with_span(line, span(Color::DarkGray, "                 Tab to switch"));
    assert(line@ =~= tab_bar(tab));
    line
}

fn make_focused_field(text: &str) -> (r: Line)
    ensures
        r@ == focused_field(text@),
{
    let line = line_of(span(Color::Yellow, "  > "));
    let line = with_span(line, span(Color::Plain, text));
    let line = with_span(line, span(Color::Yellow, "█"));
    assert(line@ =~= focused_field(text@));
    line
}

fn make_peer_label(error: &Option<String>) -> (r: Line)
    ensures
        r@ == peer_label(text_of(*error)),
{
    match error {
        Some(text) => {
            let line = line_of(span(Color::Red, "  Error: "));
            let line = with_span(line, span(Color::Plain, text.as_str()));
            assert(line@ =~= peer_label(Some(text@)));
            line
        },
        None => line_of(span(Color::White, "  Peer ID:")),
    }
}

fn make_peer_field(text: &str, focused: bool) -> (r: Line)
    ensures
        r@ == peer_field(text@, focused),
{
    if focused {
        make_focused_field(text)
    } else {
        let shown = join("  ", text);
        let color = if text.is_empty() {
            Color::DarkGray
        } else {
            Color::White
        };
        line_of(span(color, shown.as_str()))
    }
}

fn make_alias_field(text: &str, focused: bool) -> (r: Line)
    ensures
        r@ == alias_field(text@, focused),
{
    if focused {
        make_focused_field(text)
    } else if text.is_empty() {
        line_of(span(Color::DarkGray, "  (optional)"))
    } else {
        let shown = join("  ", text);
        line_of(span(Color::Plain, shown.as_str()))
    }
}

fn make_contact_line(contact: &Contact, selected: bool) -> (r: Line)
    ensures
        r@ == contact_line(*contact, selected),
{
    let alias = pad(contact.alias.as_str(), ALIAS_WIDTH);
    let id = shorten(contact.node_id.as_str(), SHORT_ID_LEN);
    let entry = join(alias.as_str(), " ");
    let entry = join(entry.as_str(), id.as_str());
    let entry = join(entry.as_str(), "…");
    if selected {
        let shown = join("▶ ", entry.as_str());
        line_of(bold_span(Color::Yellow, false, shown.as_str()))
    } else {
        let shown = join("  ", entry.as_str());
        line_of(span(Color::White, shown.as_str()))
    }
}

fn push_dial_lines(lines: &mut Vec<Line>, state: &ConnectState)
    ensures
        line_models(final(lines)@) == line_models(old(lines)@) + dial_lines(state@),
{
    push_line(lines, make_peer_label(&state.error));
    push_line(
        lines,
        make_peer_field(state.node_id_input.as_str(), state.focus == ConnectFocus::NodeId),
    );
    push_line(lines, blank());
    push_line(lines, line_of(span(Color::White, "  Save as:")));
    push_line(
        lines,
        make_alias_field(state.alias_input.as_str(), state.focus == ConnectFocus::Alias),
    );
    push_line(lines, blank());
    push_line(lines, line_of(span(Color::DarkGray, "  ↑↓: switch field   Enter: dial")));
    assert(line_models(lines@) =~= line_models(old(lines)@) + dial_lines(state@));
}

fn push_saved_lines(lines: &mut Vec<Line>, state: &ConnectState, contacts: &Vec<Contact>)
    requires
        state.tab == ConnectTab::Dial,
        is_showable(state@, contacts@.len()),
    ensures
        line_models(final(lines)@) == line_models(old(lines)@) + saved_lines(state@, contacts@),
{
    let visible: usize = if contacts.len() < CONTACT_ROWS {
        contacts.len()
    } else {
        CONTACT_ROWS
    };
    let ghost before = line_models(lines@);
    if visible > 0 {
        let title = join("  ─────────────────────────────────────────────", "  saved");
        push_line(lines, line_of(span(Color::DarkGray, title.as_str())));
        let first: usize = if state.contact_selected >= CONTACT_ROWS {
            state.contact_selected - (CONTACT_ROWS - 1)
        } else {
            0
        };
        let ghost titled = line_models(lines@);
        let mut i: usize = 0;
        while i < visible
            invariant
                i <= visible,
                visible == visible_contacts(state.tab, contacts@.len()),
                first == first_contact(state@.selected),
                first + visible <= contacts@.len(),
                line_models(lines@) == titled + contact_lines(state@, contacts@).take(i as int),
            decreases visible - i,
        {
            let at: usize = first + i;
            let selected = state.focus == ConnectFocus::Contacts && at == state.contact_selected;
            push_line(lines, make_contact_line(&contacts[at], selected));
            i = i + 1;
            assert(line_models(lines@) =~= titled + contact_lines(state@, contacts@).take(
                i as int,
            ));
        }
        assert(line_models(lines@) =~= before + saved_lines(state@, contacts@));
    } else {
        assert(line_models(lines@) =~= before + saved_lines(state@, contacts@));
    }
}

fn push_listen_lines(lines: &mut Vec<Line>, own_id: &str)
    ensures
        line_models(final(lines)@) == line_models(old(lines)@) + listen_lines(own_id@),
{
    push_line(lines, blank());
    let line = line_of(span(Color::DarkGray, "  Your ID: "));
    let line = with_span(line, span(Color::Cyan, own_id));
    assert(line@ =~= listen_lines(own_id@)[1]);
    push_line(lines, line);
    push_line(lines, blank());
    push_line(lines, line_of(span(Color::DarkGray, "  Press Enter to start listening.")));
    assert(line_models(lines@) =~= line_models(old(lines)@) + listen_lines(own_id@));
}

/// What to draw of the connect screen: the popup, a bordered box with a title, and the lines in it.
#[derive(Debug)]
pub struct ConnectView {
    pub popup: Area,
    pub title: String,
    pub lines: Vec<Line>,
}

/// Lays out the connect screen on `area`.
pub fn draw_connect(area: Area, state: &ConnectState, own_id: &str, contacts: &Vec<Contact>) -> (r:
    ConnectView)
    requires
        is_showable(state@, contacts@.len()),
    ensures
        r.title@ == " walkie "@,
        line_models(r.lines@) == connect_lines(state@, own_id@, contacts@),
        is_centered(
            area,
            POPUP_WIDTH_PCT,
            popup_height(state.tab, contacts@.len()) as u16,
            r.popup,
        ),
        is_middle(
            area,
            POPUP_WIDTH_PCT,
            popup_height(state.tab, contacts@.len()) as u16,
            r.popup,
        ),
        is_middle(
            area,
            72,
            (if state.tab == ConnectTab::Listen {
                9int
            } else if contacts@.len() == 0 {
                13
            } else if contacts@.len() < 4 {
                14 + contacts@.len() as int
            } else {
                18
            }) as u16,
            r.popup,
        ),
        r.popup.within(area),
{
    let mut lines: Vec<Line> = Vec::new();
    push_line(&mut lines, make_tab_bar(state.tab));
    push_line(
        &mut lines,
        line_of(span(Color::DarkGray, "  ─────────────────────────────────────────────")),
    );
    let height: u16 = match state.tab {
        ConnectTab::Dial => {
            push_dial_lines(&mut lines, state);
            push_saved_lines(&mut lines, state, contacts);
            if contacts.len() == 0 {
                13
            } else if contacts.len() < CONTACT_ROWS {
                14 + contacts.len() as u16
            } else {
                14 + CONTACT_ROWS as u16
            }
        },
        ConnectTab::Listen => {
            push_listen_lines(&mut lines, own_id);
            9
        },
    };
    assert(line_models(lines@) =~= connect_lines(state@, own_id@, contacts@));
    let popup = centered_rect(area, POPUP_WIDTH_PCT, height);
    ConnectView { popup, title: " walkie ".to_owned(), lines }
}

/// The lines fit into the popup, with its border.
pub proof fn lemma_lines_fit_popup(state: ConnectModel, own_id: Seq<char>, contacts: Seq<Contact>)
    ensures
        connect_lines(state, own_id, contacts).len() + 2 <= popup_height(
            state.tab,
            contacts.len(),
        ),
{
}

/// While the list has the focus, the selected contact is shown, and it alone is marked.
pub proof fn lemma_selected_contact_is_shown(state: ConnectModel, contacts: Seq<Contact>)
    requires
        state.tab == ConnectTab::Dial,
        state.focus == ConnectFocus::Contacts,
        0 <= state.selected < contacts.len(),
    ensures
        ({
            let row = state.selected - first_contact(state.selected);
            let lines = contact_lines(state, contacts);
            &&& 0 <= row < lines.len()
            &&& lines[row] == contact_line(contacts[state.selected], true)
            &&& forall|i: int|
                0 <= i < lines.len() && i != row ==> #[trigger] lines[i] == contact_line(
                    contacts[first_contact(state.selected) + i],
                    false,
                )
        }),
{
}

/// The connect screen can be shown when the client starts, and after every key, with the contacts
/// as they were for the key.
pub proof fn lemma_keys_keep_screen_showable(
    state: ConnectModel,
    key: KeyEvent,
    contacts: Seq<Contact>,
)
    requires
        state.well_formed(),
    ensures
        is_showable(ConnectModel::initial(), contacts.len()),
        is_showable(state.after_key(key, contacts).state, contacts.len()),
{
    lemma_key_keeps_well_formed(state, key, contacts);
}

/// The listen tab shows the own ID in full, in a span of its own, whatever it is: what a user reads
/// off the screen is what others dial.
pub proof fn lemma_listen_tab_shows_own_id(
    state: ConnectModel,
    own_id: Seq<char>,
    contacts: Seq<Contact>,
)
    requires
        state.tab == ConnectTab::Listen,
    ensures
        ({
            let lines = connect_lines(state, own_id, contacts);
            &&& lines.len() == 6
            &&& lines[3].len() == 2
            &&& lines[3][0].text == "  Your ID: "@
            &&& lines[3][1].text == own_id
            &&& lines[5].len() == 1
            &&& lines[5][0].text == "  Press Enter to start listening."@
            &&& lines[2].len() == 0 && lines[4].len() == 0
            &&& lines[3][1].style.color == Color::Cyan
            &&& lines[3][0].style.color == Color::DarkGray
            &&& lines[5][0].style.color == Color::DarkGray
            &&& lines[0][3].style.color == Color::Yellow && lines[0][1].style.color
                == Color::DarkGray
        }),
{
}

/// What the listen tab shows as the own ID dials this node: read as a node ID, as the dial tab does,
/// it gives the node's bytes.
pub proof fn lemma_shown_id_dials_this_node(
    state: ConnectModel,
    id: Seq<u8>,
    contacts: Seq<Contact>,
)
    requires
        state.tab == ConnectTab::Listen,
        node_id_of(hex_lower(id)) == Some(id),
    ensures
        exists|i: int, j: int|
            #![trigger connect_lines(state, hex_lower(id), contacts)[i][j]]
            0 <= i < connect_lines(state, hex_lower(id), contacts).len() && 0 <= j < connect_lines(
                state,
                hex_lower(id),
                contacts,
            )[i].len() && node_id_of(
                trimmed(connect_lines(state, hex_lower(id), contacts)[i][j].text),
            ) == Some(id),
{
    lemma_hex_is_unspaced(id);
    lemma_listen_tab_shows_own_id(state, hex_lower(id), contacts);
    let lines = connect_lines(state, hex_lower(id), contacts);
    assert(node_id_of(trimmed(lines[3][1].text)) == Some(id));
}

/// The dial tab shows both fields in full, as they were typed. The field in focus has the cursor
/// after its text; the other one has none, and says that the alias is optional where it is empty.
pub proof fn lemma_dial_tab_shows_fields_in_full(
    state: ConnectModel,
    own_id: Seq<char>,
    contacts: Seq<Contact>,
)
    requires
        state.tab == ConnectTab::Dial,
    ensures
        ({
            let lines = connect_lines(state, own_id, contacts);
            let peer = lines[3];
            let alias = lines[6];
            &&& lines.len() >= 9
            &&& state.focus == ConnectFocus::NodeId ==> {
                &&& peer.len() == 3
                &&& peer[0].text == "  > "@ && peer[1].text == state.node_id && peer[2].text == "█"@
            }
            &&& state.focus != ConnectFocus::NodeId ==> peer.len() == 1 && peer[0].text == "  "@
                + state.node_id
            &&& state.focus == ConnectFocus::Alias ==> {
                &&& alias.len() == 3
                &&& alias[0].text == "  > "@ && alias[1].text == state.alias && alias[2].text
                    == "█"@
            }
            &&& state.focus != ConnectFocus::Alias && state.alias.len() > 0 ==> alias.len() == 1
                && alias[0].text == "  "@ + state.alias
            &&& state.focus != ConnectFocus::Alias && state.alias.len() == 0 ==> alias.len() == 1
                && alias[0].text == "  (optional)"@
        }),
{
}

/// The dial tab tells an error in full, marked as one, in place of the label of the peer ID, and the
/// label where there is no error; the other lines are the same for all states.
pub proof fn lemma_dial_tab_tells_errors(
    state: ConnectModel,
    own_id: Seq<char>,
    contacts: Seq<Contact>,
)
    requires
        state.tab == ConnectTab::Dial,
    ensures
        ({
            let lines = connect_lines(state, own_id, contacts);
            &&& state.error matches Some(text) ==> lines[2].len() == 2 && lines[2][0].text
                == "  Error: "@ && lines[2][0].style.color == Color::Red && lines[2][1].text == text
            &&& state.error is None ==> lines[2].len() == 1 && lines[2][0].text == "  Peer ID:"@
            &&& lines[4].len() == 0 && lines[7].len() == 0
            &&& lines[5].len() == 1 && lines[5][0].text == "  Save as:"@
            &&& lines[8].len() == 1 && lines[8][0].text == "  ↑↓: switch field   Enter: dial"@
        }),
{
}

/// Both tabs are named on the first line, and the current one alone is marked.
pub proof fn lemma_current_tab_is_marked(
    state: ConnectModel,
    own_id: Seq<char>,
    contacts: Seq<Contact>,
)
    ensures
        ({
            let bar = connect_lines(state, own_id, contacts)[0];
            &&& bar.len() == 5
            &&& bar[1].text == "Connect"@ && bar[3].text == "Listen"@
            &&& bar[1].style.bold == (state.tab == ConnectTab::Dial)
            &&& bar[1].style.underlined == (state.tab == ConnectTab::Dial)
            &&& bar[3].style.bold == (state.tab == ConnectTab::Listen)
            &&& bar[3].style.underlined == (state.tab == ConnectTab::Listen)
            &&& bar[1].style.color != bar[3].style.color
            &&& bar[4].text == "                 Tab to switch"@
        }),
{
}

/// The dial tab lists contacts that follow each other, four or as many as there are; the last of
/// them is the selected one where that is the fifth or a later one. Each line has the alias in
/// full, then a space at the latest after twelve characters, and then the start of the node ID:
/// sixteen characters or all of it. The line of the selected contact is marked while the list has
/// the focus, and no other line is.
pub proof fn lemma_contacts_are_listed_in_order(
    state: ConnectModel,
    own_id: Seq<char>,
    contacts: Seq<Contact>,
    row: int,
)
    requires
        state.tab == ConnectTab::Dial,
        0 <= row < 4,
        row < contacts.len(),
        0 <= state.selected,
    ensures
        ({
            let lines = connect_lines(state, own_id, contacts);
            let line = lines[10 + row];
            let i = row + (if state.selected >= 4 {
                state.selected - 3
            } else {
                0
            });
            let alias = contacts[i].alias@;
            let id = contacts[i].node_id@;
            let column = if alias.len() < 12 {
                12
            } else {
                alias.len() as int
            };
            let shown = if id.len() < 16 {
                id.len() as int
            } else {
                16
            };
            let marked = state.focus == ConnectFocus::Contacts && i == state.selected;
            let text = line[0].text;
            &&& lines.len() == 10 + if contacts.len() < 4 {
                contacts.len() as int
            } else {
                4
            }
            &&& line.len() == 1
            &&& text.len() == 2 + column + 1 + shown + 1
            &&& text.subrange(2, 2 + alias.len() as int) == alias
            &&& text.subrange(2 + column + 1, 2 + column + 1 + shown) == id.take(shown)
            &&& forall|k: int| 2 + alias.len() <= k <= 2 + column ==> #[trigger] text[k] == ' '
            &&& text.last() == '…'
            &&& text[0] == (if marked {
                '▶'
            } else {
                ' '
            }) && text[1] == ' '
            &&& line[0].style.bold == marked
            &&& line[0].style.color == if marked {
                Color::Yellow
            } else {
                Color::White
            }
        }),
{
    reveal_strlit(" ");
    reveal_strlit("  ");
    reveal_strlit("▶ ");
    reveal_strlit("…");
    let i = row + first_contact(state.selected);
    let alias = contacts[i].alias@;
    let id = contacts[i].node_id@;
    lemma_padding_keeps_text(alias, 12);
    lemma_shortening_keeps_start(id, 16);
    let lines = connect_lines(state, own_id, contacts);
    let line = lines[10 + row];
    let marked = state.focus == ConnectFocus::Contacts && i == state.selected;
    assert(contact_lines(state, contacts)[row] == contact_line(contacts[i], marked));
    assert(line == contact_line(contacts[i], marked));
    let text = line[0].text;
    let pad_alias = padded(alias, 12);
    let short_id = shortened(id, 16);
    let column = pad_alias.len() as int;
    let start = if marked {
        "▶ "@
    } else {
        "  "@
    };
    assert(text =~= start + (pad_alias + " "@ + short_id + "…"@));
    assert(text.subrange(2, 2 + alias.len() as int) =~= pad_alias.take(alias.len() as int));
    assert(text.subrange(2 + column + 1, 2 + column + 1 + short_id.len()) =~= short_id);
    assert forall|k: int| 2 + alias.len() <= k <= 2 + column implies #[trigger] text[k] == ' ' by {
        if k < 2 + column {
            assert(text[k] == pad_alias[k - 2]);
        }
    }
}

/// Without contacts the dial tab has no list.
pub proof fn lemma_no_list_without_contacts(state: ConnectModel, own_id: Seq<char>)
    requires
        state.tab == ConnectTab::Dial,
    ensures
        connect_lines(state, own_id, Seq::empty()).len() == 9,
{
}

/// The colors of the dial tab: what is in focus and the current tab are yellow, labels are white,
/// hints and rules are dark gray, and what was typed has the terminal's own color, or white where
/// it is the peer ID out of focus.
pub proof fn lemma_dial_tab_colors(state: ConnectModel, own_id: Seq<char>, contacts: Seq<Contact>)
    requires
        state.tab == ConnectTab::Dial,
    ensures
        ({
            let lines = connect_lines(state, own_id, contacts);
            let peer = lines[3];
            let alias = lines[6];
            &&& lines[0][1].style.color == Color::Yellow && lines[0][3].style.color
                == Color::DarkGray
            &&& lines[0][2].style.color == Color::DarkGray && lines[0][4].style.color
                == Color::DarkGray
            &&& lines[1].len() == 1 && lines[1][0].style.color == Color::DarkGray
            &&& state.error is None ==> lines[2][0].style.color == Color::White
            &&& state.error is Some ==> lines[2][1].style.color == Color::Plain
            &&& state.focus == ConnectFocus::NodeId ==> peer[0].style.color == Color::Yellow
                && peer[1].style.color == Color::Plain && peer[2].style.color == Color::Yellow
            &&& state.focus != ConnectFocus::NodeId ==> peer[0].style.color == if
                state.node_id.len() == 0 {
                Color::DarkGray
            } else {
                Color::White
            }
            &&& lines[5][0].style.color == Color::White
            &&& state.focus == ConnectFocus::Alias ==> alias[0].style.color == Color::Yellow
                && alias[1].style.color == Color::Plain && alias[2].style.color == Color::Yellow
            &&& state.focus != ConnectFocus::Alias ==> alias[0].style.color == if state.alias.len()
                == 0 {
                Color::DarkGray
            } else {
                Color::Plain
            }
            &&& lines[8][0].style.color == Color::DarkGray
            &&& contacts.len() > 0 ==> lines[9].len() == 1 && lines[9][0].style.color
                == Color::DarkGray && lines[9][0].text == lines[1][0].text + "  saved"@
        }),
{
}

} // verus!
