//! The connect screen: whom to call, or to wait for a call.
use crate::identity::{node_id_of, parse_node_id};
use crate::key::{KeyCode, KeyEvent, KeyKind};
use crate::text::{lemma_trimmed_to_nothing, text_of, trim, trimmed, white_space};
use vstd::prelude::*;

verus! {

/// The screens of the client.
#[derive(Clone, Copy, Debug, PartialEq, Eq, Structural)]
pub enum Screen {
    Connect,
    Main,
}

/// The tabs of the connect screen.
#[derive(Clone, Copy, Debug, PartialEq, Eq, Structural)]
pub enum ConnectTab {
    Dial,
    Listen,
}

/// The part of the dial tab that has the input focus.
#[derive(Clone, Copy, Debug, PartialEq, Eq, Structural)]
pub enum ConnectFocus {
    NodeId,
    Alias,
    Contacts,
}

/// A saved peer.
#[derive(Debug)]
pub struct Contact {
    pub alias: String,
    pub node_id: String,
}

/// What was decided on the connect screen.
#[derive(Debug)]
pub enum PeerChoice {
    /// Wait for incoming calls.
    Listen,
    /// Call the node, and remember it under the alias if there is one.
    Dial { node_id: [u8; 32], alias: Option<String> },
}

/// A `PeerChoice` by its contents.
pub enum PeerModel {
    Listen,
    Dial { node_id: Seq<u8>, alias: Option<Seq<char>> },
}

impl PeerChoice {
    /// This choice by its contents.
    pub open spec fn model(self) -> PeerModel {
        match self {
            PeerChoice::Listen => PeerModel::Listen,
            PeerChoice::Dial { node_id, alias } => PeerModel::Dial {
                node_id: node_id@,
                alias: text_of(alias),
            },
        }
    }
}

/// The state of the connect screen. `peer_pending` and `shutdown_pending` say whether the choice
/// of the peer and the request to stop are still to be handed on: each is handed on once.
#[derive(Debug)]
pub struct ConnectState {
    pub node_id_input: String,
    pub alias_input: String,
    pub focus: ConnectFocus,
    pub tab: ConnectTab,
    pub error: Option<String>,
    pub contact_selected: usize,
    pub peer_pending: bool,
    pub shutdown_pending: bool,
    pub screen: Screen,
}

/// A `ConnectState` by its contents.
pub struct ConnectModel {
    pub node_id: Seq<char>,
    pub alias: Seq<char>,
    pub focus: ConnectFocus,
    pub tab: ConnectTab,
    pub error: Option<Seq<char>>,
    pub selected: int,
    pub peer_pending: bool,
    pub shutdown_pending: bool,
    pub screen: Screen,
}

impl View for ConnectState {
    type V = ConnectModel;

    open spec fn view(&self) -> ConnectModel {
        ConnectModel {
            node_id: self.node_id_input@,
            alias: self.alias_input@,
            focus: self.focus,
            tab: self.tab,
            error: text_of(self.error),
            selected: self.contact_selected as int,
            peer_pending: self.peer_pending,
            shutdown_pending: self.shutdown_pending,
            screen: self.screen,
        }
    }
}

/// What a key on the connect screen asks the program to do: hand on the choice of the peer, and
/// hand on the request to stop.
#[derive(Debug)]
pub struct ConnectEffects {
    pub reply: Option<PeerChoice>,
    pub shutdown: bool,
}

/// The state after a key, and what the key asks for.
pub struct ConnectStep {
    pub state: ConnectModel,
    pub reply: Option<PeerModel>,
    pub shutdown: bool,
}

/// The message for a peer ID that is none.
pub open spec fn bad_node_id() -> Seq<char> {
    "not a valid node ID (expected 52-char base32)"@
}

/// The state after a key and what the key asked for, by their contents.
pub open spec fn step_of(state: ConnectState, effects: ConnectEffects) -> ConnectStep {
    ConnectStep {
        state: state@,
        reply: match effects.reply {
            Some(choice) => Some(choice.model()),
            None => None,
        },
        shutdown: effects.shutdown,
    }
}

impl ConnectModel {
    /// The screen as it is when the client starts.
    pub open spec fn initial() -> ConnectModel {
        ConnectModel {
            node_id: Seq::empty(),
            alias: Seq::empty(),
            focus: ConnectFocus::NodeId,
            tab: ConnectTab::Dial,
            error: None,
            selected: 0,
            peer_pending: true,
            shutdown_pending: true,
            screen: Screen::Connect,
        }
    }

    /// This state, with nothing asked for.
    pub open spec fn quietly(self) -> ConnectStep {
        ConnectStep { state: self, reply: None, shutdown: false }
    }

    /// The selection moved into a list of `count` contacts, if there are any.
    pub open spec fn clamped(self, count: nat) -> ConnectModel {
        if 0 < count <= self.selected {
            ConnectModel { selected: count - 1, ..self }
        } else {
            self
        }
    }

    /// The other tab; the dial tab starts in the peer ID field.
    pub open spec fn tab_switched(self) -> ConnectModel {
        match self.tab {
            ConnectTab::Dial => ConnectModel { tab: ConnectTab::Listen, ..self },
            ConnectTab::Listen => ConnectModel {
                tab: ConnectTab::Dial,
                focus: ConnectFocus::NodeId,
                ..self
            },
        }
    }

    /// One place up: through the contacts, then to the alias, then to the peer ID.
    pub open spec fn moved_up(self) -> ConnectModel {
        match self.focus {
            ConnectFocus::Contacts => if self.selected > 0 {
                ConnectModel { selected: self.selected - 1, ..self }
            } else {
                ConnectModel { focus: ConnectFocus::Alias, ..self }
            },
            _ => ConnectModel { focus: ConnectFocus::NodeId, ..self },
        }
    }

    /// One place down: from the peer ID to the alias, then through `count` contacts.
    pub open spec fn moved_down(self, count: nat) -> ConnectModel {
        match self.focus {
            ConnectFocus::NodeId => ConnectModel { focus: ConnectFocus::Alias, ..self },
            ConnectFocus::Alias => if count > 0 {
                ConnectModel { focus: ConnectFocus::Contacts, ..self }
            } else {
                self
            },
            ConnectFocus::Contacts => if self.selected + 1 < count {
                ConnectModel { selected: self.selected + 1, ..self }
            } else {
                self
            },
        }
    }

    /// The text of the field in focus replaced by what `edit` makes of it, and no error shown.
    pub open spec fn edited(self, edit: spec_fn(Seq<char>) -> Seq<char>) -> ConnectModel {
        match self.focus {
            ConnectFocus::NodeId => ConnectModel {
                node_id: edit(self.node_id),
                error: None,
                ..self
            },
            ConnectFocus::Alias => ConnectModel { alias: edit(self.alias), error: None, ..self },
            ConnectFocus::Contacts => ConnectModel { error: None, ..self },
        }
    }

    /// The call screen, with `choice` handed on unless one was handed on before.
    pub open spec fn chosen(self, choice: PeerModel) -> ConnectStep {
        ConnectStep {
            state: ConnectModel { peer_pending: false, screen: Screen::Main, ..self },
            reply: if self.peer_pending {
                Some(choice)
            } else {
                None
            },
            shutdown: false,
        }
    }

    /// The fields filled in from a contact.
    pub open spec fn filled_from(self, contact: Contact) -> ConnectModel {
        ConnectModel {
            node_id: contact.node_id@,
            alias: contact.alias@,
            focus: ConnectFocus::NodeId,
            ..self
        }
    }

    /// The alias to save the peer under: the alias field without white space around it, unless
    /// nothing is left.
    pub open spec fn alias_choice(self) -> Option<Seq<char>> {
        if trimmed(self.alias).len() == 0 {
            None
        } else {
            Some(trimmed(self.alias))
        }
    }

    /// What follows once the peer ID field was read as the node `parsed`, or as none.
    pub open spec fn submitted(self, parsed: Option<Seq<u8>>) -> ConnectStep {
        match parsed {
            Some(node_id) => ConnectModel {
                error: None,
                node_id: Seq::empty(),
                alias: Seq::empty(),
                ..self
            }.chosen(PeerModel::Dial { node_id, alias: self.alias_choice() }),
            None => ConnectModel { error: Some(bad_node_id()), ..self }.quietly(),
        }
    }

    /// What Enter does: on the listen tab, and for an empty peer ID, wait for calls; on a contact,
    /// fill in the fields; else dial.
    pub open spec fn entered(self, contacts: Seq<Contact>) -> ConnectStep {
        if self.tab == ConnectTab::Listen {
            self.chosen(PeerModel::Listen)
        } else if self.focus == ConnectFocus::Contacts {
            if self.selected < contacts.len() {
                self.filled_from(contacts[self.selected]).quietly()
            } else {
                self.quietly()
            }
        } else if trimmed(self.node_id).len() == 0 {
            self.chosen(PeerModel::Listen)
        } else {
            self.submitted(node_id_of(trimmed(self.node_id)))
        }
    }

    /// The program is to stop: both notices are handed on unless they were before.
    pub open spec fn interrupted(self) -> ConnectStep {
        ConnectStep {
            state: ConnectModel { peer_pending: false, shutdown_pending: false, ..self },
            reply: if self.peer_pending {
                Some(PeerModel::Listen)
            } else {
                None
            },
            shutdown: self.shutdown_pending,
        }
    }

    /// What the keys do that move around and edit the fields; on the listen tab there is nothing
    /// to move or edit.
    pub open spec fn moved_or_edited(self, key: KeyEvent, count: nat) -> ConnectModel {
        let dialing = self.tab == ConnectTab::Dial;
        match key.code {
            KeyCode::Tab => self.tab_switched(),
            KeyCode::Up if dialing => self.moved_up(),
            KeyCode::Down if dialing => self.moved_down(count),
            KeyCode::Backspace if dialing => self.edited(
                |text: Seq<char>|
                    if text.len() > 0 {
                        text.drop_last()
                    } else {
                        text
                    },
            ),
            KeyCode::Char(c) if dialing && !key.control => self.edited(
                |text: Seq<char>| text.push(c),
            ),
            _ => self,
        }
    }

    /// What a key does on the connect screen.
    pub open spec fn after_key(self, key: KeyEvent, contacts: Seq<Contact>) -> ConnectStep {
        let state = self.clamped(contacts.len());
        if key.kind == KeyKind::Release {
            state.quietly()
        } else if key.is_interrupt() {
            state.interrupted()
        } else if key.code == KeyCode::Enter {
            state.entered(contacts)
        } else {
            state.moved_or_edited(key, contacts.len()).quietly()
        }
    }
}

impl ConnectState {
    /// The connect screen of a client that starts.
    pub fn new() -> (r: ConnectState)
        ensures
            r@ == ConnectModel::initial(),
            r.node_id_input@.len() == 0 && r.alias_input@.len() == 0 && r.error is None,
            r.focus == ConnectFocus::NodeId && r.tab == ConnectTab::Dial,
            r.contact_selected == 0 && r.screen == Screen::Connect,
            r.peer_pending && r.shutdown_pending,
    {
        ConnectState {
            node_id_input: String::new(),
            alias_input: String::new(),
            focus: ConnectFocus::NodeId,
            tab: ConnectTab::Dial,
            error: None,
            contact_selected: 0,
            peer_pending: true,
            shutdown_pending: true,
            screen: Screen::Connect,
        }
    }

    /// Hands on the choice of the peer, unless one was handed on before, and goes to the call
    /// screen.
    fn settle(&mut self, choice: PeerChoice) -> (r: ConnectEffects)
        ensures
            step_of(*final(self), r) == old(self)@.chosen(choice.model()),
    {
        let reply = if self.peer_pending {
            Some(choice)
        } else {
            None
        };
        self.peer_pending = false;
        self.screen = Screen::Main;
        ConnectEffects { reply, shutdown: false }
    }

    /// Goes on once the peer ID field was read: dials the node, or shows that it is none.
    pub fn submit(&mut self, parsed: Option<[u8; 32]>) -> (r: ConnectEffects)
        ensures
            step_of(*final(self), r) == old(self)@.submitted(
                match parsed {
                    Some(id) => Some(id@),
                    None => None,
                },
            ),
    {
        match parsed {
            Some(node_id) => {
                let a = trim(self.alias_input.as_str());
                let alias = if a.as_str().is_empty() {
                    None
                } else {
                    Some(a)
                };
                self.error = None;
                self.node_id_input.clear();
                self.alias_input.clear();
                self.settle(PeerChoice::Dial { node_id, alias })
            },
            None => {
                self.error = Some("not a valid node ID (expected 52-char base32)".to_owned());
                ConnectEffects { reply: None, shutdown: false }
            },
        }
    }

    /// Handles Enter.
    fn enter(&mut self, contacts: &Vec<Contact>) -> (r: ConnectEffects)
        ensures
            step_of(*final(self), r) == old(self)@.entered(contacts@),
    {
        match self.tab {
            ConnectTab::Listen => self.settle(PeerChoice::Listen),
            ConnectTab::Dial => match self.focus {
                ConnectFocus::Contacts => {
                    if self.contact_selected < contacts.len() {
                        self.node_id_input = contacts[self.contact_selected].node_id.clone();
                        self.alias_input = contacts[self.contact_selected].alias.clone();
                        self.focus = ConnectFocus::NodeId;
                    }
                    ConnectEffects { reply: None, shutdown: false }
                },
                _ => {
                    let id = trim(self.node_id_input.as_str());
                    if id.as_str().is_empty() {
                        self.settle(PeerChoice::Listen)
                    } else {
                        match parse_node_id(id.as_str()) {
                            Ok(bytes) => self.submit(Some(bytes)),
                            Err(_) => self.submit(None),
                        }
                    }
                },
            },
        }
    }

    /// Hands on that the program is to stop.
    fn interrupt(&mut self) -> (r: ConnectEffects)
        ensures
            step_of(*final(self), r) == old(self)@.interrupted(),
    {
        let reply = if self.peer_pending {
            Some(PeerChoice::Listen)
        } else {
            None
        };
        let shutdown = self.shutdown_pending;
        self.peer_pending = false;
        self.shutdown_pending = false;
        ConnectEffects { reply, shutdown }
    }

    /// Moves the focus one place up.
    fn move_up(&mut self)
        ensures
            final(self)@ == old(self)@.moved_up(),
    {
        match self.focus {
            ConnectFocus::Contacts => {
                if self.contact_selected > 0 {
                    self.contact_selected = self.contact_selected - 1;
                } else {
                    self.focus = ConnectFocus::Alias;
                }
            },
            ConnectFocus::Alias => {
                self.focus = ConnectFocus::NodeId;
            },
            ConnectFocus::NodeId => {},
        }
    }

    /// Moves the focus one place down.
    fn move_down(&mut self, count: usize)
        ensures
            final(self)@ == old(self)@.moved_down(count as nat),
    {
        match self.focus {
            ConnectFocus::NodeId => {
                self.focus = ConnectFocus::Alias;
            },
            ConnectFocus::Alias => {
                if count > 0 {
                    self.focus = ConnectFocus::Contacts;
                }
            },
            ConnectFocus::Contacts => {
                if count > 0 && self.contact_selected < count - 1 {
                    self.contact_selected = self.contact_selected + 1;
                }
            },
        }
    }

    /// Goes to the other tab.
    fn switch_tab(&mut self)
        ensures
            final(self)@ == old(self)@.tab_switched(),
    {
        if self.tab == ConnectTab::Dial {
            self.tab = ConnectTab::Listen;
        } else {
            self.focus = ConnectFocus::NodeId;
            self.tab = ConnectTab::Dial;
        }
    }

    /// Moves around the screen or edits the field in focus.
    fn move_or_edit(&mut self, key: KeyEvent, count: usize)
        ensures
            final(self)@ == old(self)@.moved_or_edited(key, count as nat),
    {
        if key.code == KeyCode::Tab {
            self.switch_tab();
        } else if self.tab == ConnectTab::Dial {
            match key.code {
                KeyCode::Up => {
                    self.move_up();
                },
                KeyCode::Down => {
                    self.move_down(count);
                },
                KeyCode::Backspace => {
                    match self.focus {
                        ConnectFocus::NodeId => {
                            self.node_id_input.pop();
                        },
                        ConnectFocus::Alias => {
                            self.alias_input.pop();
                        },
                        ConnectFocus::Contacts => {},
                    }
                    self.error = None;
                },
                KeyCode::Char(c) => {
                    if !key.control {
                        match self.focus {
                            ConnectFocus::NodeId => {
                                self.node_id_input.push(c);
                            },
                            ConnectFocus::Alias => {
                                self.alias_input.push(c);
                            },
                            ConnectFocus::Contacts => {},
                        }
                        self.error = None;
                    }
                },
                _ => {},
            }
        }
    }
}

/// Handles a key on the connect screen.
pub fn handle_connect_key(
    key: KeyEvent,
    state: &mut ConnectState,
    contacts: &Vec<Contact>,
) -> (r: ConnectEffects)
    ensures
        step_of(*final(state), r) == old(state)@.after_key(key, contacts@),
{
    if contacts.len() > 0 && state.contact_selected >= contacts.len() {
        state.contact_selected = contacts.len() - 1;
    }
    if key.kind == KeyKind::Release {
        ConnectEffects { reply: None, shutdown: false }
    } else if key.code == KeyCode::Char('c') && key.control {
        state.interrupt()
    } else if key.code == KeyCode::Enter {
        state.enter(contacts)
    } else {
        state.move_or_edit(key, contacts.len());
        ConnectEffects { reply: None, shutdown: false }
    }
}

impl ConnectModel {
    /// The choice of the peer is pending for as long as the connect screen is shown and nobody
    /// asked the program to stop; the selection is a position.
    pub open spec fn well_formed(self) -> bool {
        &&& self.selected >= 0
        &&& self.peer_pending == (self.screen == Screen::Connect && self.shutdown_pending)
    }

    /// The state that `keys` lead to, each with the contacts as they are then.
    pub open spec fn after_keys(self, keys: Seq<(KeyEvent, Seq<Contact>)>) -> ConnectModel
        decreases keys.len(),
    {
        if keys.len() == 0 {
            self
        } else {
            self.after_key(keys.first().0, keys.first().1).state.after_keys(keys.drop_first())
        }
    }

    /// How many choices of a peer `keys` hand on.
    pub open spec fn replies(self, keys: Seq<(KeyEvent, Seq<Contact>)>) -> nat
        decreases keys.len(),
    {
        if keys.len() == 0 {
            0
        } else {
            let step = self.after_key(keys.first().0, keys.first().1);
            let rest = step.state.replies(keys.drop_first());
            if step.reply is Some {
                rest + 1
            } else {
                rest
            }
        }
    }

    /// How many requests to stop `keys` hand on.
    pub open spec fn shutdowns(self, keys: Seq<(KeyEvent, Seq<Contact>)>) -> nat
        decreases keys.len(),
    {
        if keys.len() == 0 {
            0
        } else {
            let step = self.after_key(keys.first().0, keys.first().1);
            let rest = step.state.shutdowns(keys.drop_first());
            if step.shutdown {
                rest + 1
            } else {
                rest
            }
        }
    }
}

/// The connect screen starts well-formed.
pub proof fn lemma_initial_is_well_formed()
    ensures
        ConnectModel::initial().well_formed(),
{
}

/// Every key keeps the connect screen well-formed, and moves the selection into the list of
/// contacts where there is one.
pub proof fn lemma_key_keeps_well_formed(
    state: ConnectModel,
    key: KeyEvent,
    contacts: Seq<Contact>,
)
    requires
        state.well_formed(),
    ensures
        state.after_key(key, contacts).state.well_formed(),
        contacts.len() > 0 ==> state.after_key(key, contacts).state.selected < contacts.len(),
{
}

/// Whatever is typed, the choice of a peer is handed on as often as it stops being pending: once
/// at most, and once if the keys lead to the call screen. The same holds of the request to stop.
pub proof fn lemma_handed_on_once(
    state: ConnectModel,
    keys: Seq<(KeyEvent, Seq<Contact>)>,
)
    requires
        state.well_formed(),
    ensures
        state.after_keys(keys).well_formed(),
        state.replies(keys) == (if state.peer_pending && !state.after_keys(keys).peer_pending {
            1nat
        } else {
            0nat
        }),
        state.shutdowns(keys) == (if state.shutdown_pending && !state.after_keys(
            keys,
        ).shutdown_pending {
            1nat
        } else {
            0nat
        }),
    decreases keys.len(),
{
    if keys.len() > 0 {
        let step = state.after_key(keys.first().0, keys.first().1);
        lemma_key_keeps_well_formed(state, keys.first().0, keys.first().1);
        lemma_handed_on_once(step.state, keys.drop_first());
        lemma_nothing_is_pending_again(step.state, keys.drop_first());
    }
}

/// What was handed on is not pending again.
pub proof fn lemma_nothing_is_pending_again(
    state: ConnectModel,
    keys: Seq<(KeyEvent, Seq<Contact>)>,
)
    ensures
        !state.peer_pending ==> !state.after_keys(keys).peer_pending,
        !state.shutdown_pending ==> !state.after_keys(keys).shutdown_pending,
    decreases keys.len(),
{
    if keys.len() > 0 {
        lemma_nothing_is_pending_again(
            state.after_key(keys.first().0, keys.first().1).state,
            keys.drop_first(),
        );
    }
}

/// Enter with an empty peer ID, or on the listen tab, waits for incoming calls.
pub proof fn lemma_enter_without_peer_listens(
    state: ConnectModel,
    key: KeyEvent,
    contacts: Seq<Contact>,
)
    requires
        state.peer_pending,
        key.code == KeyCode::Enter,
        key.kind != KeyKind::Release,
        state.tab == ConnectTab::Listen || (state.focus != ConnectFocus::Contacts && trimmed(
            state.node_id,
        ).len() == 0),
    ensures
        state.after_key(key, contacts).reply == Some(PeerModel::Listen),
        state.after_key(key, contacts).state.screen == Screen::Main,
{
}

/// Enter on the text of a node ID dials that node, under the alias that was typed, and forgets
/// both fields; Enter on any other text shows an error, and stays with the fields as they are.
pub proof fn lemma_enter_dials(state: ConnectModel, key: KeyEvent, contacts: Seq<Contact>)
    requires
        state.peer_pending,
        state.screen == Screen::Connect,
        key.code == KeyCode::Enter,
        key.kind != KeyKind::Release,
        state.tab == ConnectTab::Dial,
        state.focus != ConnectFocus::Contacts,
        trimmed(state.node_id).len() > 0,
    ensures
        ({
            let step = state.after_key(key, contacts);
            match node_id_of(trimmed(state.node_id)) {
                Some(node_id) => {
                    &&& step.reply == Some(PeerModel::Dial { node_id, alias: state.alias_choice() })
                    &&& step.state.screen == Screen::Main
                    &&& step.state.node_id.len() == 0
                    &&& step.state.alias.len() == 0
                    &&& step.state.error is None
                },
                None => {
                    &&& step.reply is None
                    &&& step.state.screen == Screen::Connect
                    &&& step.state.node_id == state.node_id
                    &&& step.state.alias == state.alias
                    &&& step.state.error == Some(bad_node_id())
                },
            }
        }),
{
}

/// Enter on a contact and Enter again calls the contact.
pub proof fn lemma_enter_twice_calls_contact(
    state: ConnectModel,
    key: KeyEvent,
    contacts: Seq<Contact>,
    node_id: Seq<u8>,
)
    requires
        state.peer_pending,
        key.code == KeyCode::Enter,
        key.kind != KeyKind::Release,
        state.tab == ConnectTab::Dial,
        state.focus == ConnectFocus::Contacts,
        0 <= state.selected < contacts.len(),
        trimmed(contacts[state.selected].node_id@).len() > 0,
        node_id_of(trimmed(contacts[state.selected].node_id@)) == Some(node_id),
    ensures
        state.after_key(key, contacts).reply is None,
        ({
            let alias = trimmed(contacts[state.selected].alias@);
            state.after_key(key, contacts).state.after_key(key, contacts).reply == Some(
                PeerModel::Dial {
                    node_id,
                    alias: if alias.len() == 0 {
                        None
                    } else {
                        Some(alias)
                    },
                },
            )
        }),
{
}

/// Backspace takes back the character that was typed last; neither leaves an error on the screen.
pub proof fn lemma_backspace_undoes_typing(
    state: ConnectModel,
    typed: KeyEvent,
    back: KeyEvent,
    contacts: Seq<Contact>,
)
    requires
        state.tab == ConnectTab::Dial,
        typed.code is Char,
        !typed.control,
        typed.kind != KeyKind::Release,
        back.code == KeyCode::Backspace,
        back.kind != KeyKind::Release,
    ensures
        state.after_key(typed, contacts).state.after_key(back, contacts).state == (ConnectModel {
            error: None,
            ..state.clamped(contacts.len())
        }),
{
    let c = typed.code->Char_0;
    assert(state.node_id.push(c).drop_last() == state.node_id);
    assert(state.alias.push(c).drop_last() == state.alias);
}

/// Two tab switches lead back to the tab; the dial tab is then in the peer ID field.
pub proof fn lemma_tab_twice(state: ConnectModel)
    ensures
        state.tab_switched().tab_switched() == (ConnectModel {
            focus: ConnectFocus::NodeId,
            ..state
        }),
{
}

/// The release of a key does no more than to move the selection into the list.
pub proof fn lemma_release_is_ignored(
    state: ConnectModel,
    key: KeyEvent,
    contacts: Seq<Contact>,
)
    requires
        key.kind == KeyKind::Release,
    ensures
        state.after_key(key, contacts) == state.clamped(contacts.len()).quietly(),
{
}

/// Control and C asks the program to stop, on either tab.
pub proof fn lemma_interrupt_stops(state: ConnectModel, key: KeyEvent, contacts: Seq<Contact>)
    requires
        key.is_interrupt(),
        key.kind != KeyKind::Release,
    ensures
        !state.after_key(key, contacts).state.shutdown_pending,
        !state.after_key(key, contacts).state.peer_pending,
        state.after_key(key, contacts).shutdown == state.shutdown_pending,
{
}

/// The keys that type `text`, one after the other, with the contacts as they are.
pub open spec fn keys_for(text: Seq<char>, contacts: Seq<Contact>) -> Seq<
    (KeyEvent, Seq<Contact>),
> {
    Seq::new(text.len(), |i: int| (KeyEvent::typed(text[i]), contacts))
}

/// Typing appends the text to the peer ID where that has the focus, and changes no other field.
pub proof fn lemma_typing_appends(state: ConnectModel, text: Seq<char>, contacts: Seq<Contact>)
    requires
        state.well_formed(),
        state.tab == ConnectTab::Dial,
        state.focus == ConnectFocus::NodeId,
    ensures
        state.after_keys(keys_for(text, contacts)) == (if text.len() == 0 {
            state
        } else {
            ConnectModel {
                node_id: state.node_id + text,
                error: None,
                ..state.clamped(contacts.len())
            }
        }),
    decreases text.len(),
{
    let keys = keys_for(text, contacts);
    if text.len() > 0 {
        let next = state.after_key(keys.first().0, contacts).state;
        assert(keys.drop_first() == keys_for(text.drop_first(), contacts));
        lemma_key_keeps_well_formed(state, keys.first().0, contacts);
        lemma_typing_appends(next, text.drop_first(), contacts);
        assert(next.node_id == state.node_id.push(text.first()));
        assert(next.node_id + text.drop_first() == state.node_id + text);
        if text.len() == 1 {
            assert(next.node_id == state.node_id + text);
        }
    }
}

/// A peer is called by typing its ID on the screen that the client starts with, and Enter.
pub proof fn lemma_dial_by_typed_id(
    text: Seq<char>,
    contacts: Seq<Contact>,
    enter: KeyEvent,
    node_id: Seq<u8>,
)
    requires
        trimmed(text).len() > 0,
        node_id_of(trimmed(text)) == Some(node_id),
        enter.code == KeyCode::Enter,
        enter.kind != KeyKind::Release,
    ensures
        ({
            let step = ConnectModel::initial().after_keys(keys_for(text, contacts)).after_key(
                enter,
                contacts,
            );
            step.reply == Some(PeerModel::Dial { node_id, alias: None }) && step.state.screen
                == Screen::Main
        }),
{
    let start = ConnectModel::initial();
    lemma_typing_appends(start, text, contacts);
    let typed = start.after_keys(keys_for(text, contacts));
    assert(start.node_id + text == text);
    assert(trimmed(Seq::<char>::empty()) == Seq::<char>::empty());
    if text.len() == 0 {
        assert(text == Seq::<char>::empty());
    }
    assert(typed.node_id == text);
    assert(typed.alias == Seq::<char>::empty());
}

/// The connect screen by its contents leaves nothing out: each field is that of the screen, and what
/// is asked for is what the effects ask for, the ID of the peer and the alias in full.
pub proof fn lemma_connect_model_is_complete(state: ConnectState, effects: ConnectEffects)
    ensures
        state@.node_id == state.node_id_input@,
        state@.alias == state.alias_input@,
        state@.focus == state.focus,
        state@.tab == state.tab,
        state.error is None <==> state@.error is None,
        state.error matches Some(text) ==> state@.error == Some(text@),
        state@.selected == state.contact_selected,
        state@.peer_pending == state.peer_pending,
        state@.shutdown_pending == state.shutdown_pending,
        state@.screen == state.screen,
        step_of(state, effects).state == state@,
        step_of(state, effects).shutdown == effects.shutdown,
        effects.reply is None <==> step_of(state, effects).reply is None,
        effects.reply == Some(PeerChoice::Listen) <==> step_of(state, effects).reply == Some(
            PeerModel::Listen,
        ),
        effects.reply matches Some(PeerChoice::Dial { node_id, alias }) ==> match step_of(
            state,
            effects,
        ).reply {
            Some(PeerModel::Dial { node_id: id, alias: name }) => {
                &&& id == node_id@
                &&& alias is None <==> name is None
                &&& alias matches Some(text) ==> name == Some(text@)
            },
            _ => false,
        },
{
}

/// The arrow keys move one place at a time on the dial tab. Down leads from the peer ID to the
/// alias, from there to the contacts where there are any, and from a contact to the one after it,
/// if there is one; Up leads the same way back. They change nothing but the place, and ask for
/// nothing.
pub proof fn lemma_arrows_move_one_place(
    state: ConnectModel,
    key: KeyEvent,
    contacts: Seq<Contact>,
)
    requires
        key.code == KeyCode::Up || key.code == KeyCode::Down,
        key.kind != KeyKind::Release,
        state.tab == ConnectTab::Dial,
        0 <= state.selected,
        contacts.len() > 0 ==> state.selected < contacts.len(),
    ensures
        ({
            let step = state.after_key(key, contacts);
            let after = step.state;
            let i = state.selected;
            &&& step.reply is None && !step.shutdown
            &&& after == (ConnectModel { focus: after.focus, selected: after.selected, ..state })
            &&& key.code == KeyCode::Down ==> match state.focus {
                ConnectFocus::NodeId => after.focus == ConnectFocus::Alias && after.selected == i,
                ConnectFocus::Alias => after.selected == i && (if contacts.len() > 0 {
                    after.focus == ConnectFocus::Contacts
                } else {
                    after.focus == ConnectFocus::Alias
                }),
                ConnectFocus::Contacts => after.focus == ConnectFocus::Contacts && (if i + 1
                    < contacts.len() {
                    after.selected == i + 1
                } else {
                    after.selected == i
                }),
            }
            &&& key.code == KeyCode::Up ==> match state.focus {
                ConnectFocus::NodeId => after.focus == ConnectFocus::NodeId && after.selected == i,
                ConnectFocus::Alias => after.focus == ConnectFocus::NodeId && after.selected == i,
                ConnectFocus::Contacts => if i > 0 {
                    after.focus == ConnectFocus::Contacts && after.selected == i - 1
                } else {
                    after.focus == ConnectFocus::Alias && after.selected == 0
                },
            }
        }),
{
}

/// `key`, pressed `n` times.
pub open spec fn pressed_often(key: KeyEvent, n: nat, contacts: Seq<Contact>) -> Seq<
    (KeyEvent, Seq<Contact>),
> {
    Seq::new(n, |i: int| (key, contacts))
}

/// In the list of contacts, Down pressed `m` times selects the contact `m` places further down, for
/// every contact that there is: none is passed over.
pub proof fn lemma_downs_walk_through_contacts(
    state: ConnectModel,
    down: KeyEvent,
    m: nat,
    contacts: Seq<Contact>,
)
    requires
        down.code == KeyCode::Down,
        down.kind != KeyKind::Release,
        state.tab == ConnectTab::Dial,
        state.focus == ConnectFocus::Contacts,
        0 <= state.selected,
        state.selected + m < contacts.len(),
    ensures
        state.after_keys(pressed_often(down, m, contacts)) == (ConnectModel {
            selected: state.selected + m,
            ..state
        }),
    decreases m,
{
    let keys = pressed_often(down, m, contacts);
    if m > 0 {
        let rest = (m - 1) as nat;
        lemma_arrows_move_one_place(state, down, contacts);
        assert(keys.drop_first() =~= pressed_often(down, rest, contacts));
        let next = state.after_key(down, contacts).state;
        lemma_downs_walk_through_contacts(next, down, rest, contacts);
    }
}

/// In the list of contacts, Up pressed `m` times selects the contact `m` places further up.
pub proof fn lemma_ups_walk_back(
    state: ConnectModel,
    up: KeyEvent,
    m: nat,
    contacts: Seq<Contact>,
)
    requires
        up.code == KeyCode::Up,
        up.kind != KeyKind::Release,
        state.tab == ConnectTab::Dial,
        state.focus == ConnectFocus::Contacts,
        m <= state.selected < contacts.len(),
    ensures
        state.after_keys(pressed_often(up, m, contacts)) == (ConnectModel {
            selected: state.selected - m,
            ..state
        }),
    decreases m,
{
    let keys = pressed_often(up, m, contacts);
    if m > 0 {
        let rest = (m - 1) as nat;
        lemma_arrows_move_one_place(state, up, contacts);
        assert(keys.drop_first() =~= pressed_often(up, rest, contacts));
        let next = state.after_key(up, contacts).state;
        lemma_ups_walk_back(next, up, rest, contacts);
    }
}

/// Up takes back a Down that moved, from every place.
pub proof fn lemma_up_undoes_down(
    state: ConnectModel,
    down: KeyEvent,
    up: KeyEvent,
    contacts: Seq<Contact>,
)
    requires
        down.code == KeyCode::Down && down.kind != KeyKind::Release,
        up.code == KeyCode::Up && up.kind != KeyKind::Release,
        state.tab == ConnectTab::Dial,
        0 <= state.selected,
        contacts.len() > 0 ==> state.selected < contacts.len(),
        state.focus == ConnectFocus::Contacts ==> state.selected + 1 < contacts.len(),
        state.focus == ConnectFocus::Alias ==> contacts.len() > 0 && state.selected == 0,
    ensures
        state.after_key(down, contacts).state.after_key(up, contacts).state == state,
{
}

/// Whoever is the contact number `m`, the keys Down twice and `m` times more, from the peer ID field
/// with the first contact selected, and then Enter, fill in that contact's ID and alias.
pub proof fn lemma_every_contact_can_be_picked(
    state: ConnectModel,
    down: KeyEvent,
    enter: KeyEvent,
    m: nat,
    contacts: Seq<Contact>,
)
    requires
        down.code == KeyCode::Down && down.kind != KeyKind::Release,
        enter.code == KeyCode::Enter && enter.kind != KeyKind::Release,
        state.tab == ConnectTab::Dial,
        state.focus == ConnectFocus::NodeId,
        state.selected == 0,
        m < contacts.len(),
    ensures
        ({
            let list = state.after_key(down, contacts).state.after_key(down, contacts).state;
            let step = list.after_keys(pressed_often(down, m, contacts)).after_key(
                enter,
                contacts,
            );
            &&& step.state.node_id == contacts[m as int].node_id@
            &&& step.state.alias == contacts[m as int].alias@
            &&& step.state.focus == ConnectFocus::NodeId
            &&& step.reply is None
        }),
{
    lemma_arrows_move_one_place(state, down, contacts);
    let at_alias = state.after_key(down, contacts).state;
    lemma_arrows_move_one_place(at_alias, down, contacts);
    let list = at_alias.after_key(down, contacts).state;
    lemma_downs_walk_through_contacts(list, down, m, contacts);
}

/// Tab goes to the other tab and changes nothing else, but that the dial tab starts in the peer ID
/// field.
pub proof fn lemma_tab_changes_tab_alone(state: ConnectModel, key: KeyEvent, contacts: Seq<Contact>)
    requires
        key.code == KeyCode::Tab,
        key.kind != KeyKind::Release,
        0 <= state.selected,
        contacts.len() > 0 ==> state.selected < contacts.len(),
    ensures
        ({
            let step = state.after_key(key, contacts);
            &&& step.reply is None && !step.shutdown
            &&& state.tab == ConnectTab::Dial ==> step.state == (ConnectModel {
                tab: ConnectTab::Listen,
                ..state
            })
            &&& state.tab == ConnectTab::Listen ==> step.state == (ConnectModel {
                tab: ConnectTab::Dial,
                focus: ConnectFocus::NodeId,
                ..state
            })
        }),
{
}

/// On the dial tab a character goes to the end of the field in focus, and Backspace takes the last
/// one off; both clear the error, and change no other field. In the list there is nothing to edit.
pub proof fn lemma_editing_changes_focused_field_alone(
    state: ConnectModel,
    key: KeyEvent,
    contacts: Seq<Contact>,
)
    requires
        (key.code is Char && !key.control) || key.code == KeyCode::Backspace,
        key.kind != KeyKind::Release,
        state.tab == ConnectTab::Dial,
        0 <= state.selected,
        contacts.len() > 0 ==> state.selected < contacts.len(),
    ensures
        ({
            let step = state.after_key(key, contacts);
            let before = if state.focus == ConnectFocus::NodeId {
                state.node_id
            } else {
                state.alias
            };
            let after = if key.code is Char {
                before + seq![key.code->Char_0]
            } else if before.len() > 0 {
                before.take(before.len() - 1)
            } else {
                before
            };
            &&& step.reply is None && !step.shutdown
            &&& step.state == match state.focus {
                ConnectFocus::NodeId => ConnectModel { node_id: after, error: None, ..state },
                ConnectFocus::Alias => ConnectModel { alias: after, error: None, ..state },
                ConnectFocus::Contacts => ConnectModel { error: None, ..state },
            }
        }),
{
    if key.code is Char {
        let c = key.code->Char_0;
        assert(state.node_id.push(c) =~= state.node_id + seq![c]);
        assert(state.alias.push(c) =~= state.alias + seq![c]);
    }
    if state.node_id.len() > 0 {
        assert(state.node_id.drop_last() =~= state.node_id.take(state.node_id.len() - 1));
    }
    if state.alias.len() > 0 {
        assert(state.alias.drop_last() =~= state.alias.take(state.alias.len() - 1));
    }
}

/// What Enter does, by what is on the screen. On the listen tab, and on the dial tab with a blank
/// peer ID, the client listens. On a contact its ID and alias are filled in. On the text of a node
/// ID that node is dialed, under the alias without the white space around it unless that is blank,
/// and both fields and the error are cleared. On any other text the error is shown. The call
/// screen comes up where the client listens or dials, and there alone; the choice is handed on
/// unless one was before.
pub proof fn lemma_enter_by_what_is_on_screen(
    state: ConnectModel,
    key: KeyEvent,
    contacts: Seq<Contact>,
)
    requires
        key.code == KeyCode::Enter,
        key.kind != KeyKind::Release,
        0 <= state.selected,
        contacts.len() > 0 ==> state.selected < contacts.len(),
    ensures
        ({
            let step = state.after_key(key, contacts);
            let picks = state.tab == ConnectTab::Dial && state.focus == ConnectFocus::Contacts;
            let blank = forall|i: int|
                0 <= i < state.node_id.len() ==> white_space(#[trigger] state.node_id[i]);
            let no_alias = forall|i: int|
                0 <= i < state.alias.len() ==> white_space(#[trigger] state.alias[i]);
            let listens = state.tab == ConnectTab::Listen || (!picks && blank);
            let node = node_id_of(trimmed(state.node_id));
            &&& !step.shutdown
            &&& picks && contacts.len() > 0 ==> step.reply is None && step.state == (
            ConnectModel {
                node_id: contacts[state.selected].node_id@,
                alias: contacts[state.selected].alias@,
                focus: ConnectFocus::NodeId,
                ..state
            })
            &&& picks && contacts.len() == 0 ==> step.reply is None && step.state == state
            &&& listens ==> step.state == (ConnectModel {
                peer_pending: false,
                screen: Screen::Main,
                ..state
            }) && step.reply == if state.peer_pending {
                Some(PeerModel::Listen)
            } else {
                None
            }
            &&& !picks && !listens && node is Some ==> step.state == (ConnectModel {
                node_id: step.state.node_id,
                alias: step.state.alias,
                error: None,
                peer_pending: false,
                screen: Screen::Main,
                ..state
            }) && step.state.node_id.len() == 0 && step.state.alias.len() == 0 && step.reply == if
                state.peer_pending {
                Some(
                    PeerModel::Dial {
                        node_id: node->Some_0,
                        alias: if no_alias {
                            None
                        } else {
                            Some(trimmed(state.alias))
                        },
                    },
                )
            } else {
                None
            }
            &&& !picks && !listens && node is None ==> step.reply is None && step.state == (
            ConnectModel {
                error: Some("not a valid node ID (expected 52-char base32)"@),
                ..state
            })
        }),
{
    lemma_trimmed_to_nothing(state.node_id);
    lemma_trimmed_to_nothing(state.alias);
}

/// What follows once the peer ID was read by someone else: the node that was read is dialed, and
/// where none was read the error is shown.
pub proof fn lemma_submit_dials_what_was_read(state: ConnectModel, node_id: Seq<u8>)
    ensures
        ({
            let step = state.submitted(Some(node_id));
            let no_alias = forall|i: int|
                0 <= i < state.alias.len() ==> white_space(#[trigger] state.alias[i]);
            &&& !step.shutdown
            &&& step.state == (ConnectModel {
                node_id: step.state.node_id,
                alias: step.state.alias,
                error: None,
                peer_pending: false,
                screen: Screen::Main,
                ..state
            })
            &&& step.state.node_id.len() == 0 && step.state.alias.len() == 0
            &&& state.peer_pending ==> step.reply == Some(
                PeerModel::Dial {
                    node_id,
                    alias: if no_alias {
                        None
                    } else {
                        Some(trimmed(state.alias))
                    },
                },
            )
            &&& !state.peer_pending ==> step.reply is None
        }),
        ({
            let step = state.submitted(None);
            &&& !step.shutdown && step.reply is None
            &&& step.state == (ConnectModel {
                error: Some("not a valid node ID (expected 52-char base32)"@),
                ..state
            })
        }),
{
    lemma_trimmed_to_nothing(state.alias);
}

/// Control and C hands on both notices, each unless it was before, and changes nothing else; the
/// choice of the peer is then to listen.
pub proof fn lemma_interrupt_hands_on_both(
    state: ConnectModel,
    key: KeyEvent,
    contacts: Seq<Contact>,
)
    requires
        key.code == KeyCode::Char('c') && key.control,
        key.kind != KeyKind::Release,
        0 <= state.selected,
        contacts.len() > 0 ==> state.selected < contacts.len(),
    ensures
        ({
            let step = state.after_key(key, contacts);
            &&& step.shutdown == state.shutdown_pending
            &&& state.peer_pending ==> step.reply == Some(PeerModel::Listen)
            &&& !state.peer_pending ==> step.reply is None
            &&& step.state == (ConnectModel {
                peer_pending: false,
                shutdown_pending: false,
                ..state
            })
        }),
{
}

/// Every other key does nothing: the release of a key, control keys but C, keys that are for
/// nothing on this screen, and on the listen tab all keys but Tab, Enter and the interrupt.
pub proof fn lemma_other_keys_do_nothing(state: ConnectModel, key: KeyEvent, contacts: Seq<Contact>)
    requires
        key.kind == KeyKind::Release || key.code == KeyCode::Other || (key.code is Char
            && key.control && key.code != KeyCode::Char('c')) || (state.tab == ConnectTab::Listen
            && key.code != KeyCode::Tab && key.code != KeyCode::Enter && !(key.code
            == KeyCode::Char('c') && key.control)),
        0 <= state.selected,
        contacts.len() > 0 ==> state.selected < contacts.len(),
    ensures
        state.after_key(key, contacts).state == state,
        state.after_key(key, contacts).reply is None,
        !state.after_key(key, contacts).shutdown,
{
}

/// Where the list has become shorter than the selection, every key acts as if the last contact had
/// been selected; where the list is empty, the selection is left alone.
pub proof fn lemma_selection_follows_shorter_list(
    state: ConnectModel,
    key: KeyEvent,
    contacts: Seq<Contact>,
)
    requires
        state.selected >= contacts.len(),
        contacts.len() > 0,
    ensures
        state.after_key(key, contacts) == (ConnectModel {
            selected: contacts.len() - 1,
            ..state
        }).after_key(key, contacts),
{
}

} // verus!
