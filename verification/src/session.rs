//! A session at the terminal: which screen a key goes to, and when the session ends.
use crate::chat::{handle_main_key_at, InputMode, MainModel, MainState};
use crate::clock::{ask, now_ms};
use crate::connect::{
    handle_connect_key, lemma_key_keeps_well_formed, ConnectFocus, ConnectModel, ConnectState,
    ConnectTab, Contact, PeerChoice, PeerModel, Screen,
};
use crate::history::{lemma_pushed_loses_oldest_alone, MAX_LOG_LINES};
use crate::key::{KeyCode, KeyEvent, KeyKind};
use crate::ptt::PttState;
use crate::text::{lemma_trimmed_to_nothing, text_of, texts, trimmed, white_space};
use std::collections::VecDeque;
use vstd::prelude::*;

verus! {

/// Both screens of a session.
#[derive(Debug)]
pub struct Session {
    pub connect: ConnectState,
    pub main: MainState,
}

/// What one turn of a session asks the program to do, and whether the session ends with it.
#[derive(Debug)]
pub struct SessionEffects {
    pub reply: Option<PeerChoice>,
    pub sent: Option<String>,
    pub ptt: Option<PttState>,
    pub shutdown: bool,
    pub stop: bool,
}

/// A session by its contents.
pub struct SessionModel {
    pub connect: ConnectModel,
    pub mode: InputMode,
    pub input: Seq<char>,
    pub log: Seq<Seq<char>>,
}

/// The state after a turn, and what the turn asks for.
pub struct SessionStep {
    pub state: SessionModel,
    pub reply: Option<PeerModel>,
    pub sent: Option<Seq<char>>,
    pub ptt: Option<PttState>,
    pub shutdown: bool,
    pub stop: bool,
}

/// A session and its chat by their contents.
pub open spec fn session_model(session: Session, log: VecDeque<String>) -> SessionModel {
    SessionModel {
        connect: session.connect@,
        mode: session.main.input_mode,
        input: session.main.chat_input@,
        log: texts(log@),
    }
}

/// A state of a session and what was asked for, by their contents.
pub open spec fn session_step(state: SessionModel, effects: SessionEffects) -> SessionStep {
    SessionStep {
        state,
        reply: match effects.reply {
            Some(choice) => Some(choice.model()),
            None => None,
        },
        sent: text_of(effects.sent),
        ptt: effects.ptt,
        shutdown: effects.shutdown,
        stop: effects.stop,
    }
}

impl SessionModel {
    /// A session that starts.
    pub open spec fn initial(log: Seq<Seq<char>>) -> SessionModel {
        SessionModel {
            connect: ConnectModel::initial(),
            mode: InputMode::Ptt,
            input: Seq::empty(),
            log,
        }
    }

    /// The call screen of this session.
    pub open spec fn call_screen(self) -> MainModel {
        MainModel {
            mode: self.mode,
            input: self.input,
            log: self.log,
            shutdown_pending: self.connect.shutdown_pending,
        }
    }

    /// What a key does at the time `now`: it goes to the screen that is shown. On the connect
    /// screen the session ends once the request to stop was handed on, on the call screen when
    /// the key leaves it.
    pub open spec fn after_key(
        self,
        key: KeyEvent,
        now: u64,
        contacts: Seq<Contact>,
    ) -> SessionStep {
        match self.connect.screen {
            Screen::Connect => {
                let step = self.connect.after_key(key, contacts);
                SessionStep {
                    state: SessionModel { connect: step.state, ..self },
                    reply: step.reply,
                    sent: None,
                    ptt: None,
                    shutdown: step.shutdown,
                    stop: !step.state.shutdown_pending,
                }
            },
            Screen::Main => {
                let step = self.call_screen().after_key(key, now);
                SessionStep {
                    state: SessionModel {
                        connect: ConnectModel {
                            shutdown_pending: step.state.shutdown_pending,
                            ..self.connect
                        },
                        mode: step.state.mode,
                        input: step.state.input,
                        log: step.state.log,
                    },
                    reply: None,
                    sent: step.sent,
                    ptt: step.ptt,
                    shutdown: step.shutdown,
                    stop: step.quit,
                }
            },
        }
    }

    /// What one turn does: the key is handled, if there was one, and the session ends where the
    /// key ends it or the program no longer runs.
    pub open spec fn after_turn(
        self,
        key: Option<KeyEvent>,
        now: u64,
        running: bool,
        contacts: Seq<Contact>,
    ) -> SessionStep {
        match key {
            Some(k) => {
                let step = self.after_key(k, now, contacts);
                SessionStep { stop: step.stop || !running, ..step }
            },
            None => SessionStep {
                state: self,
                reply: None,
                sent: None,
                ptt: None,
                shutdown: false,
                stop: !running,
            },
        }
    }
}

/// What one turn of a session is given.
pub struct Turn {
    pub key: Option<KeyEvent>,
    pub now: u64,
    pub running: bool,
    pub contacts: Seq<Contact>,
}

impl SessionModel {
    /// What the turn does.
    pub open spec fn step(self, turn: Turn) -> SessionStep {
        self.after_turn(turn.key, turn.now, turn.running, turn.contacts)
    }

    /// The state that `turns` lead to.
    pub open spec fn after_turns(self, turns: Seq<Turn>) -> SessionModel
        decreases turns.len(),
    {
        if turns.len() == 0 {
            self
        } else {
            self.after_turns(turns.drop_last()).step(turns.last()).state
        }
    }

    /// How many choices of a peer `turns` hand on.
    pub open spec fn replies(self, turns: Seq<Turn>) -> nat
        decreases turns.len(),
    {
        if turns.len() == 0 {
            0
        } else {
            let before = self.replies(turns.drop_last());
            if self.after_turns(turns.drop_last()).step(turns.last()).reply is Some {
                before + 1
            } else {
                before
            }
        }
    }

    /// How many requests to stop `turns` hand on.
    pub open spec fn shutdowns(self, turns: Seq<Turn>) -> nat
        decreases turns.len(),
    {
        if turns.len() == 0 {
            0
        } else {
            let before = self.shutdowns(turns.drop_last());
            if self.after_turns(turns.drop_last()).step(turns.last()).shutdown {
                before + 1
            } else {
                before
            }
        }
    }

    /// Whether the key of the turn is one that quits: Control and C, or Q on the call screen in
    /// talk mode.
    pub open spec fn quits(self, turn: Turn) -> bool {
        match turn.key {
            Some(key) => key.kind != KeyKind::Release && (key.is_interrupt() || (key.code
                == KeyCode::Char('q') && self.connect.screen == Screen::Main && self.mode
                == InputMode::Ptt)),
            None => false,
        }
    }

    /// Whether the turn number `i` has a key that quits.
    pub open spec fn quits_at(self, turns: Seq<Turn>, i: int) -> bool {
        self.after_turns(turns.take(i)).quits(turns[i])
    }
}

impl Session {
    /// A session that starts, on the connect screen.
    pub fn new() -> (r: Session)
        ensures
            forall|log: VecDeque<String>| #[trigger]
                session_model(r, log) == SessionModel::initial(texts(log@)),
            r.connect.screen == Screen::Connect && r.connect.tab == ConnectTab::Dial,
            r.connect.node_id_input@.len() == 0 && r.connect.alias_input@.len() == 0,
            r.connect.focus == ConnectFocus::NodeId && r.connect.contact_selected == 0,
            r.connect.error is None && r.connect.peer_pending && r.connect.shutdown_pending,
            r.main.input_mode == InputMode::Ptt && r.main.chat_input@.len() == 0,
    {
        Session { connect: ConnectState::new(), main: MainState::new() }
    }

    /// Hands a key to the screen that is shown, at the time `now`.
    fn handle_key(
        &mut self,
        key: KeyEvent,
        now: u64,
        contacts: &Vec<Contact>,
        log: &mut VecDeque<String>,
    ) -> (r: SessionEffects)
        ensures
            session_step(session_model(*final(self), *final(log)), r) == session_model(
                *old(self),
                *old(log),
            ).after_key(key, now, contacts@),
    {
        if self.connect.screen == Screen::Connect {
            let effects = handle_connect_key(key, &mut self.connect, contacts);
            SessionEffects {
                reply: effects.reply,
                sent: None,
                ptt: None,
                shutdown: effects.shutdown,
                stop: !self.connect.shutdown_pending,
            }
        } else {
            let effects = handle_main_key_at(
                key,
                now,
                &mut self.main,
                log,
                &mut self.connect.shutdown_pending,
            );
            SessionEffects {
                reply: None,
                sent: effects.sent,
                ptt: effects.ptt,
                shutdown: effects.shutdown,
                stop: effects.quit,
            }
        }
    }

    /// One turn of the session at the time `now`.
    pub fn turn_at(
        &mut self,
        key: Option<KeyEvent>,
        now: u64,
        running: bool,
        contacts: &Vec<Contact>,
        log: &mut VecDeque<String>,
    ) -> (r: SessionEffects)
        ensures
            session_step(session_model(*final(self), *final(log)), r) == session_model(
                *old(self),
                *old(log),
            ).after_turn(key, now, running, contacts@),
    {
        match key {
            Some(k) => {
                let mut effects = self.handle_key(k, now, contacts, log);
                effects.stop = effects.stop || !running;
                effects
            },
            None => SessionEffects {
                reply: None,
                sent: None,
                ptt: None,
                shutdown: false,
                stop: !running,
            },
        }
    }

    /// One turn of the session, now.
    pub fn turn(
        &mut self,
        key: Option<KeyEvent>,
        running: bool,
        contacts: &Vec<Contact>,
        log: &mut VecDeque<String>,
    ) -> (r: SessionEffects)
        ensures
            exists|now: u64| #[trigger]
                call_ensures(now_ms, (), now) && session_step(
                    session_model(*final(self), *final(log)),
                    r,
                ) == session_model(*old(self), *old(log)).after_turn(key, now, running, contacts@)
                    && (r.ptt matches Some(p) ==> (p.active ==> p.last_ms == now)),
    {
        let now: u64 = ask(now_ms);
        self.turn_at(key, now, running, contacts, log)
    }
}

/// Whether the program still runs may be asked after the key was handled: a turn with the key and
/// then one without a key come to the same.
pub proof fn lemma_turn_in_two_parts(
    state: SessionModel,
    key: Option<KeyEvent>,
    now: u64,
    later: u64,
    running: bool,
    contacts: Seq<Contact>,
)
    ensures
        ({
            let first = state.after_turn(key, now, true, contacts);
            let second = first.state.after_turn(None, later, running, contacts);
            &&& second.state == first.state
            &&& second.reply is None && second.sent is None && second.ptt is None
            &&& !second.shutdown
            &&& state.after_turn(key, now, running, contacts) == (SessionStep {
                stop: first.stop || second.stop,
                ..first
            })
        }),
{
}

/// Every key keeps the connect screen well-formed, and a session that goes on still has its
/// request to stop: the key that ends the session is the one that hands the request on.
pub proof fn lemma_ending_key_hands_on_stop(
    state: SessionModel,
    key: KeyEvent,
    now: u64,
    contacts: Seq<Contact>,
)
    requires
        state.connect.well_formed(),
        state.connect.shutdown_pending,
    ensures
        ({
            let step = state.after_key(key, now, contacts);
            &&& step.state.connect.well_formed()
            &&& step.stop == step.shutdown
            &&& step.state.connect.shutdown_pending == !step.stop
        }),
{
    lemma_key_keeps_well_formed(state.connect, key, contacts);
}

/// A session leaves the connect screen for good: on the call screen no key leads back, and no
/// choice of a peer is handed on any more.
pub proof fn lemma_call_screen_is_final(
    state: SessionModel,
    key: KeyEvent,
    now: u64,
    contacts: Seq<Contact>,
)
    requires
        state.connect.screen == Screen::Main,
    ensures
        state.after_key(key, now, contacts).state.connect.screen == Screen::Main,
        state.after_key(key, now, contacts).reply is None,
{
}

/// The session gets to the call screen exactly with the key that hands on the choice of the peer,
/// unless that key stops the program.
pub proof fn lemma_choice_opens_call_screen(
    state: SessionModel,
    key: KeyEvent,
    now: u64,
    contacts: Seq<Contact>,
)
    requires
        state.connect.well_formed(),
        state.connect.shutdown_pending,
        state.connect.screen == Screen::Connect,
    ensures
        ({
            let step = state.after_key(key, now, contacts);
            step.reply is Some <==> (step.state.connect.screen == Screen::Main || step.stop)
        }),
{
}

/// While the request to stop is pending, a turn hands it on exactly where its key quits, and the
/// session ends exactly there or where the program no longer runs.
pub proof fn lemma_quit_keys_alone_stop(state: SessionModel, turn: Turn)
    requires
        state.connect.shutdown_pending,
    ensures
        state.step(turn).shutdown == state.quits(turn),
        state.step(turn).state.connect.shutdown_pending == !state.quits(turn),
        state.step(turn).stop == (state.quits(turn) || !turn.running),
{
}

/// However long a session goes on, the connect screen stays well-formed, and the choice of a peer
/// and the request to stop are each handed on as often as they stop being pending: once at most.
pub proof fn lemma_session_hands_on_once(state: SessionModel, turns: Seq<Turn>)
    requires
        state.connect.well_formed(),
    ensures
        state.after_turns(turns).connect.well_formed(),
        state.after_turns(turns).connect.peer_pending ==> state.connect.peer_pending,
        state.after_turns(turns).connect.shutdown_pending ==> state.connect.shutdown_pending,
        state.replies(turns) == (if state.connect.peer_pending && !state.after_turns(
            turns,
        ).connect.peer_pending {
            1nat
        } else {
            0nat
        }),
        state.shutdowns(turns) == (if state.connect.shutdown_pending && !state.after_turns(
            turns,
        ).connect.shutdown_pending {
            1nat
        } else {
            0nat
        }),
    decreases turns.len(),
{
    if turns.len() > 0 {
        let before = state.after_turns(turns.drop_last());
        lemma_session_hands_on_once(state, turns.drop_last());
        if let Some(key) = turns.last().key {
            lemma_key_keeps_well_formed(before.connect, key, turns.last().contacts);
        }
    }
}

/// The request to stop is pending for as long as no turn had a key that quits.
pub proof fn lemma_pending_until_quit(state: SessionModel, turns: Seq<Turn>)
    requires
        state.connect.shutdown_pending,
    ensures
        state.after_turns(turns).connect.shutdown_pending <==> forall|i: int|
            0 <= i < turns.len() ==> !#[trigger] state.quits_at(turns, i),
    decreases turns.len(),
{
    if turns.len() > 0 {
        let last = turns.len() - 1;
        let front = turns.drop_last();
        lemma_pending_until_quit(state, front);
        assert(turns.take(last) =~= front);
        assert forall|i: int| 0 <= i < last implies #[trigger] state.quits_at(turns, i)
            == state.quits_at(front, i) by {
            assert(front.take(i) =~= turns.take(i));
        }
        let before = state.after_turns(front);
        assert(state.quits_at(turns, last) == before.quits(turns.last()));
        if before.connect.shutdown_pending {
            lemma_quit_keys_alone_stop(before, turns.last());
        } else {
            let i = choose|i: int| 0 <= i < front.len() && state.quits_at(front, i);
            assert(state.quits_at(turns, i));
        }
    }
}

/// In a session from its start, whatever the turns: the choice of a peer is handed on once at most,
/// and just where the session left the connect screen or a key quit; the request to stop is handed
/// on once at most, and just where a key quit.
pub proof fn lemma_whole_session_hands_on_once(log: Seq<Seq<char>>, turns: Seq<Turn>)
    ensures
        ({
            let start = SessionModel::initial(log);
            let after = start.after_turns(turns);
            let quit = exists|i: int| 0 <= i < turns.len() && #[trigger] start.quits_at(turns, i);
            &&& after.connect.well_formed()
            &&& start.replies(turns) == (if after.connect.screen == Screen::Main || quit {
                1nat
            } else {
                0nat
            })
            &&& start.shutdowns(turns) == (if quit {
                1nat
            } else {
                0nat
            })
        }),
{
    let start = SessionModel::initial(log);
    lemma_session_hands_on_once(start, turns);
    lemma_pending_until_quit(start, turns);
}

/// However long a session goes on, the chat stays within `MAX_LOG_LINES`.
pub proof fn lemma_session_keeps_chat_bounded(state: SessionModel, turns: Seq<Turn>)
    requires
        state.log.len() <= MAX_LOG_LINES,
    ensures
        state.after_turns(turns).log.len() <= MAX_LOG_LINES,
    decreases turns.len(),
{
    if turns.len() > 0 {
        lemma_session_keeps_chat_bounded(state, turns.drop_last());
    }
}

/// A session by its contents leaves nothing out: both screens and each line of the chat are those of
/// the session, and what is asked for is what the effects ask for.
pub proof fn lemma_session_model_is_complete(
    session: Session,
    log: VecDeque<String>,
    model: SessionModel,
    effects: SessionEffects,
)
    ensures
        session_model(session, log).connect == session.connect@,
        session_model(session, log).mode == session.main.input_mode,
        session_model(session, log).input == session.main.chat_input@,
        session_model(session, log).log.len() == log@.len(),
        forall|i: int|
            0 <= i < log@.len() ==> #[trigger] session_model(session, log).log[i] == log@[i]@,
        session_step(model, effects).state == model,
        effects.reply is None <==> session_step(model, effects).reply is None,
        effects.reply == Some(PeerChoice::Listen) <==> session_step(model, effects).reply == Some(
            PeerModel::Listen,
        ),
        effects.reply matches Some(PeerChoice::Dial { node_id, alias }) ==> match session_step(
            model,
            effects,
        ).reply {
            Some(PeerModel::Dial { node_id: id, alias: name }) => {
                &&& id == node_id@
                &&& alias is None <==> name is None
                &&& alias matches Some(text) ==> name == Some(text@)
            },
            _ => false,
        },
        effects.sent is None <==> session_step(model, effects).sent is None,
        effects.sent matches Some(message) ==> session_step(model, effects).sent == Some(message@),
        session_step(model, effects).ptt == effects.ptt,
        session_step(model, effects).shutdown == effects.shutdown,
        session_step(model, effects).stop == effects.stop,
{
}

/// On the connect screen a session does with a key what that screen does with it: the choice of the
/// peer and the request to stop are handed on as they come from it. The call screen and the chat
/// stay as they are, and nothing is sent.
pub proof fn lemma_connect_screen_gets_its_keys(
    state: SessionModel,
    key: KeyEvent,
    now: u64,
    running: bool,
    contacts: Seq<Contact>,
)
    requires
        state.connect.screen == Screen::Connect,
    ensures
        ({
            let step = state.after_turn(Some(key), now, running, contacts);
            let alone = state.connect.after_key(key, contacts);
            &&& step.state.connect == alone.state
            &&& step.reply == alone.reply
            &&& step.shutdown == alone.shutdown
            &&& step.state.mode == state.mode
            &&& step.state.input == state.input
            &&& step.state.log == state.log
            &&& step.sent is None && step.ptt is None
            &&& step.stop == (!alone.state.shutdown_pending || !running)
        }),
{
}

/// On the call screen a session does with a key what that screen does with it: what it sends, how it
/// switches the microphone and its request to stop are handed on as they come from it, whatever
/// the chat holds. The connect screen stays as it is.
pub proof fn lemma_call_screen_gets_its_keys(
    state: SessionModel,
    key: KeyEvent,
    now: u64,
    running: bool,
    contacts: Seq<Contact>,
)
    requires
        state.connect.screen == Screen::Main,
    ensures
        ({
            let step = state.after_turn(Some(key), now, running, contacts);
            let alone = (MainModel {
                mode: state.mode,
                input: state.input,
                log: state.log,
                shutdown_pending: state.connect.shutdown_pending,
            }).after_key(key, now);
            &&& step.sent == alone.sent
            &&& step.ptt == alone.ptt
            &&& step.shutdown == alone.shutdown
            &&& step.stop == (alone.quit || !running)
            &&& step.reply is None
            &&& step.state.mode == alone.state.mode
            &&& step.state.input == alone.state.input
            &&& step.state.log == alone.state.log
            &&& step.state.connect == (ConnectModel {
                shutdown_pending: alone.state.shutdown_pending,
                ..state.connect
            })
        }),
{
}

/// A turn without a key changes nothing and asks for nothing; it ends the session exactly where the
/// program no longer runs.
pub proof fn lemma_turn_without_key(
    state: SessionModel,
    now: u64,
    running: bool,
    contacts: Seq<Contact>,
)
    ensures
        ({
            let step = state.after_turn(None, now, running, contacts);
            &&& step.state == state
            &&& step.reply is None && step.sent is None && step.ptt is None && !step.shutdown
            &&& step.stop == !running
        }),
{
}

/// On the call screen in message mode, Enter on a line that is not blank sends that line without the
/// white space around it, and adds it to the chat: message after message, whatever the chat holds.
pub proof fn lemma_session_sends_every_message(
    state: SessionModel,
    key: KeyEvent,
    now: u64,
    running: bool,
    contacts: Seq<Contact>,
)
    requires
        state.connect.screen == Screen::Main,
        state.mode == InputMode::Message,
        key.code == KeyCode::Enter,
        key.kind != KeyKind::Release,
        exists|i: int| 0 <= i < state.input.len() && !white_space(#[trigger] state.input[i]),
    ensures
        ({
            let step = state.after_turn(Some(key), now, running, contacts);
            &&& step.sent == Some(trimmed(state.input))
            &&& step.state.log.len() > 0
            &&& step.state.log.last() == "[you] "@ + trimmed(state.input)
            &&& state.log.len() < 200 ==> step.state.log.drop_last() == state.log
            &&& state.log.len() >= 200 ==> step.state.log.drop_last() == state.log.skip(1)
            &&& step.state.input.len() == 0
            &&& step.stop == !running
        }),
{
    lemma_trimmed_to_nothing(state.input);
    lemma_pushed_loses_oldest_alone(
        state.log,
        MAX_LOG_LINES as nat,
        "[you] "@ + trimmed(state.input),
    );
}

/// In a session a line of one's own gets into the chat exactly where its message is handed on to be
/// sent, and nothing else changes the chat.
pub proof fn lemma_session_chat_grows_with_what_is_sent(
    state: SessionModel,
    key: Option<KeyEvent>,
    now: u64,
    running: bool,
    contacts: Seq<Contact>,
)
    ensures
        ({
            let step = state.after_turn(key, now, running, contacts);
            &&& step.sent is None ==> step.state.log == state.log
            &&& step.sent matches Some(message) ==> step.state.log.len() > 0
                && step.state.log.last() == "[you] "@ + message
        }),
{
    lemma_pushed_loses_oldest_alone(
        state.log,
        MAX_LOG_LINES as nat,
        "[you] "@ + trimmed(state.input),
    );
}

/// A talk key that is pressed in a session is stamped with the time of the turn, and the watchdog
/// ends the transmission 300 milliseconds after that time and not before, unless the key is seen
/// again; its release ends it at once.
pub proof fn lemma_talk_key_is_stamped_and_times_out(
    state: SessionModel,
    key: KeyEvent,
    now: u64,
    later: u64,
    running: bool,
    contacts: Seq<Contact>,
)
    requires
        state.connect.screen == Screen::Main,
        state.mode == InputMode::Ptt,
        key.code == KeyCode::Char(' '),
        now > 0,
    ensures
        ({
            let step = state.after_turn(Some(key), now, running, contacts);
            match step.ptt {
                Some(ptt) => if key.kind == KeyKind::Release {
                    !ptt.active && ptt.last_ms == 0
                } else {
                    &&& ptt.active && ptt.last_ms == now
                    &&& ptt.watched(later).active <==> later < now + 300
                },
                None => false,
            }
        }),
{
}

} // verus!
