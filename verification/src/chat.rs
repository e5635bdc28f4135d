//! The call screen's keys: push to talk, and the chat.
use crate::clock::{ask, now_ms};
use crate::history::{
    lemma_pushed_loses_oldest_alone, push_bounded, pushed, MAX_LOG_LINES,
};
use crate::key::{KeyCode, KeyEvent, KeyKind};
use crate::ptt::PttState;
use crate::text::{
    join, lemma_trimmed_ends, lemma_trimmed_to_nothing, text_of, texts, trim, trimmed, white_space,
};
use std::collections::VecDeque;
use vstd::prelude::*;

verus! {

/// What the keyboard is for on the call screen.
#[derive(Clone, Copy, Debug, PartialEq, Eq, Structural)]
pub enum InputMode {
    Ptt,
    Message,
}

/// The input line of the call screen.
#[derive(Debug)]
pub struct MainState {
    pub input_mode: InputMode,
    pub chat_input: String,
}

/// The call screen by its contents: the input line, the chat, and whether the request to stop is
/// still to be handed on.
pub struct MainModel {
    pub mode: InputMode,
    pub input: Seq<char>,
    pub log: Seq<Seq<char>>,
    pub shutdown_pending: bool,
}

/// What a key on the call screen asks the program to do: send a message, switch the microphone,
/// hand on the request to stop, and leave the screen.
#[derive(Debug)]
pub struct MainEffects {
    pub sent: Option<String>,
    pub ptt: Option<PttState>,
    pub shutdown: bool,
    pub quit: bool,
}

/// The state after a key, and what the key asks for.
pub struct MainStep {
    pub state: MainModel,
    pub sent: Option<Seq<char>>,
    pub ptt: Option<PttState>,
    pub shutdown: bool,
    pub quit: bool,
}

/// The call screen by its contents.
pub open spec fn main_model(
    state: MainState,
    log: VecDeque<String>,
    shutdown_pending: bool,
) -> MainModel {
    MainModel {
        mode: state.input_mode,
        input: state.chat_input@,
        log: texts(log@),
        shutdown_pending,
    }
}

/// A state of the call screen and what was asked for, by their contents.
pub open spec fn main_step(state: MainModel, effects: MainEffects) -> MainStep {
    MainStep {
        state,
        sent: text_of(effects.sent),
        ptt: effects.ptt,
        shutdown: effects.shutdown,
        quit: effects.quit,
    }
}

/// The chat line for a message that was sent from here.
pub open spec fn own_line(message: Seq<char>) -> Seq<char> {
    "[you] "@ + message
}

impl MainModel {
    /// This state, with nothing asked for.
    pub open spec fn quietly(self) -> MainStep {
        MainStep { state: self, sent: None, ptt: None, shutdown: false, quit: false }
    }

    /// This state, with the microphone switched.
    pub open spec fn switching(self, ptt: PttState) -> MainStep {
        MainStep { ptt: Some(ptt), ..self.quietly() }
    }

    /// The program is to stop; the notice is handed on unless it was before.
    pub open spec fn stopping(self) -> MainStep {
        MainStep {
            state: MainModel { shutdown_pending: false, ..self },
            sent: None,
            ptt: None,
            shutdown: self.shutdown_pending,
            quit: true,
        }
    }

    /// The input line, without white space around it, goes out as a message and into the chat;
    /// where nothing is left of it, nothing happens.
    pub open spec fn entered(self) -> MainStep {
        let message = trimmed(self.input);
        if message.len() == 0 {
            self.quietly()
        } else {
            MainStep {
                state: MainModel {
                    input: Seq::empty(),
                    log: pushed(self.log, MAX_LOG_LINES as nat, own_line(message)),
                    ..self
                },
                sent: Some(message),
                ptt: None,
                shutdown: false,
                quit: false,
            }
        }
    }

    /// What a key does while messages are typed.
    pub open spec fn after_message_key(self, key: KeyEvent) -> MainStep {
        if key.kind == KeyKind::Release {
            self.quietly()
        } else if key.is_interrupt() {
            self.stopping()
        } else {
            match key.code {
                KeyCode::Tab => MainModel { mode: InputMode::Ptt, ..self }.quietly(),
                KeyCode::Enter => self.entered(),
                KeyCode::Backspace => MainModel {
                    input: if self.input.len() > 0 {
                        self.input.drop_last()
                    } else {
                        self.input
                    },
                    ..self
                }.quietly(),
                KeyCode::Char(c) if !key.control => MainModel {
                    input: self.input.push(c),
                    ..self
                }.quietly(),
                _ => self.quietly(),
            }
        }
    }

    /// What a key does while the space bar is the talk key, at the time `now`.
    pub open spec fn after_ptt_key(self, key: KeyEvent, now: u64) -> MainStep {
        if key.code == KeyCode::Char(' ') {
            if key.kind == KeyKind::Release {
                self.switching(PttState::idle())
            } else {
                self.switching(PttState::held(now))
            }
        } else if key.kind == KeyKind::Release {
            self.quietly()
        } else if key.code == KeyCode::Tab {
            MainModel { mode: InputMode::Message, ..self }.quietly()
        } else if key.code == KeyCode::Char('q') || key.is_interrupt() {
            self.stopping()
        } else {
            self.quietly()
        }
    }

    /// What a key does on the call screen, at the time `now`.
    pub open spec fn after_key(self, key: KeyEvent, now: u64) -> MainStep {
        match self.mode {
            InputMode::Message => self.after_message_key(key),
            InputMode::Ptt => self.after_ptt_key(key, now),
        }
    }
}

/// Nothing asked for.
fn no_effects() -> (r: MainEffects)
    ensures
        r == (MainEffects { sent: None, ptt: None, shutdown: false, quit: false }),
{
    MainEffects { sent: None, ptt: None, shutdown: false, quit: false }
}

/// Hands on that the program is to stop.
fn stop(shutdown_pending: &mut bool) -> (r: MainEffects)
    ensures
        r == (MainEffects { sent: None, ptt: None, shutdown: *old(shutdown_pending), quit: true }),
        !*final(shutdown_pending),
{
    let shutdown = *shutdown_pending;
    *shutdown_pending = false;
    MainEffects { sent: None, ptt: None, shutdown, quit: true }
}

impl MainState {
    /// The call screen of a client that starts.
    pub fn new() -> (r: MainState)
        ensures
            r.input_mode == InputMode::Ptt,
            r.chat_input@ == Seq::<char>::empty(),
    {
        MainState { input_mode: InputMode::Ptt, chat_input: String::new() }
    }

    /// Sends the input line.
    fn enter(&mut self, log: &mut VecDeque<String>) -> (r: MainEffects)
        ensures
            forall|pending: bool|
                main_step(#[trigger] main_model(*final(self), *final(log), pending), r)
                    == main_model(*old(self), *old(log), pending).entered(),
    {
        let message = trim(self.chat_input.as_str());
        if message.as_str().is_empty() {
            return no_effects();
        }
        let line = join("[you] ", message.as_str());
        let ghost before = log@;
        let ghost text = line@;
        push_bounded(log, MAX_LOG_LINES, line);
        proof {
            assert(texts(log@) =~= pushed(texts(before), MAX_LOG_LINES as nat, text));
        }
        self.chat_input.clear();
        MainEffects { sent: Some(message), ptt: None, shutdown: false, quit: false }
    }

    /// Handles a key while messages are typed.
    fn message_key(
        &mut self,
        key: KeyEvent,
        log: &mut VecDeque<String>,
        shutdown_pending: &mut bool,
    ) -> (r: MainEffects)
        ensures
            main_step(main_model(*final(self), *final(log), *final(shutdown_pending)), r)
                == main_model(*old(self), *old(log), *old(shutdown_pending)).after_message_key(key),
    {
        if key.kind == KeyKind::Release {
            return no_effects();
        }
        match key.code {
            KeyCode::Tab => {
                self.input_mode = InputMode::Ptt;
                no_effects()
            },
            KeyCode::Enter => self.enter(log),
            KeyCode::Backspace => {
                self.chat_input.pop();
                no_effects()
            },
            KeyCode::Char(c) => {
                if !key.control {
                    self.chat_input.push(c);
                    no_effects()
                } else if c == 'c' {
                    stop(shutdown_pending)
                } else {
                    no_effects()
                }
            },
            _ => no_effects(),
        }
    }

    /// Handles a key while the space bar is the talk key, at the time `now`.
    fn ptt_key(&mut self, key: KeyEvent, now: u64, shutdown_pending: &mut bool) -> (r: MainEffects)
        ensures
            forall|log: VecDeque<String>|
                main_step(#[trigger] main_model(*final(self), log, *final(shutdown_pending)), r)
                    == main_model(*old(self), log, *old(shutdown_pending)).after_ptt_key(key, now),
    {
        let down = key.kind != KeyKind::Release;
        match key.code {
            KeyCode::Tab => {
                if down {
                    self.input_mode = InputMode::Message;
                }
                no_effects()
            },
            KeyCode::Char(c) => {
                if c == ' ' {
                    let ptt = if down {
                        PttState::pressed(now)
                    } else {
                        PttState::released()
                    };
                    MainEffects { sent: None, ptt: Some(ptt), shutdown: false, quit: false }
                } else if down && (c == 'q' || (c == 'c' && key.control)) {
                    stop(shutdown_pending)
                } else {
                    no_effects()
                }
            },
            _ => no_effects(),
        }
    }
}

/// Handles a key on the call screen at the time `now`.
pub fn handle_main_key_at(
    key: KeyEvent,
    now: u64,
    state: &mut MainState,
    log: &mut VecDeque<String>,
    shutdown_pending: &mut bool,
) -> (r: MainEffects)
    ensures
        main_step(main_model(*final(state), *final(log), *final(shutdown_pending)), r)
            == main_model(*old(state), *old(log), *old(shutdown_pending)).after_key(key, now),
{
    if state.input_mode == InputMode::Message {
        state.message_key(key, log, shutdown_pending)
    } else {
        state.ptt_key(key, now, shutdown_pending)
    }
}

/// Handles a key on the call screen, now.
pub fn handle_main_key(
    key: KeyEvent,
    state: &mut MainState,
    log: &mut VecDeque<String>,
    shutdown_pending: &mut bool,
) -> (r: MainEffects)
    ensures
        exists|now: u64| #[trigger]
            call_ensures(now_ms, (), now) && main_step(
                main_model(*final(state), *final(log), *final(shutdown_pending)),
                r,
            ) == main_model(*old(state), *old(log), *old(shutdown_pending)).after_key(key, now) && (
            r.ptt matches Some(p) ==> (p.active ==> p.last_ms == now)),
{
    let now: u64 = ask(now_ms);
    handle_main_key_at(key, now, state, log, shutdown_pending)
}

/// A message that goes out is not empty, has no white space around it, and is the newest line of
/// the chat; Enter on white space alone sends and changes nothing.
pub proof fn lemma_enter_sends_trimmed_line(state: MainModel, key: KeyEvent, now: u64)
    requires
        state.mode == InputMode::Message,
        key.code == KeyCode::Enter,
        key.kind != KeyKind::Release,
    ensures
        ({
            let step = state.after_key(key, now);
            match step.sent {
                Some(message) => {
                    &&& message == trimmed(state.input)
                    &&& message.len() > 0
                    &&& !white_space(message.first())
                    &&& !white_space(message.last())
                    &&& step.state.log.last() == own_line(message)
                    &&& step.state.input.len() == 0
                },
                None => trimmed(state.input).len() == 0 && step == state.quietly(),
            }
        }),
{
    lemma_trimmed_ends(state.input);
}

/// No key makes the chat longer than `MAX_LOG_LINES`.
pub proof fn lemma_chat_stays_bounded(state: MainModel, key: KeyEvent, now: u64)
    requires
        state.log.len() <= MAX_LOG_LINES,
    ensures
        state.after_key(key, now).state.log.len() <= MAX_LOG_LINES,
{
}

/// Messages go out in message mode only, and the microphone is switched in talk mode only.
pub proof fn lemma_modes_are_apart(state: MainModel, key: KeyEvent, now: u64)
    ensures
        state.after_key(key, now).sent is Some ==> state.mode == InputMode::Message,
        state.after_key(key, now).ptt is Some ==> state.mode == InputMode::Ptt,
{
}

/// Tab switches between talking and typing, and a second Tab switches back.
pub proof fn lemma_tab_toggles_mode(state: MainModel, key: KeyEvent, now: u64, later: u64)
    requires
        key.code == KeyCode::Tab,
        key.kind != KeyKind::Release,
    ensures
        state.after_key(key, now).state.mode != state.mode,
        state.after_key(key, now).state.after_key(key, later) == state.quietly(),
{
}

/// Control and C leaves the screen in both modes; Q leaves it in talk mode, and is a letter of the
/// message in message mode.
pub proof fn lemma_quit_keys(state: MainModel, key: KeyEvent, now: u64)
    requires
        key.kind != KeyKind::Release,
    ensures
        key.is_interrupt() ==> state.after_key(key, now) == state.stopping(),
        key.code == KeyCode::Char('q') && state.mode == InputMode::Ptt ==> state.after_key(key, now)
            == state.stopping(),
        key.code == KeyCode::Char('q') && !key.control && state.mode == InputMode::Message
            ==> state.after_key(key, now) == (MainModel {
            input: state.input.push('q'),
            ..state
        }).quietly(),
{
}

/// The request to stop is handed on when the screen is left, and once at most.
pub proof fn lemma_stop_is_handed_on_once(state: MainModel, key: KeyEvent, now: u64)
    ensures
        state.after_key(key, now).shutdown ==> state.shutdown_pending && !state.after_key(
            key,
            now,
        ).state.shutdown_pending,
        state.after_key(key, now).quit ==> !state.after_key(key, now).state.shutdown_pending,
        !state.shutdown_pending ==> !state.after_key(key, now).state.shutdown_pending,
{
}

/// In talk mode the space bar transmits for as long as it is held: from when it is pressed until
/// it is released.
pub proof fn lemma_space_talks_while_held(
    state: MainModel,
    down: KeyEvent,
    up: KeyEvent,
    now: u64,
    later: u64,
)
    requires
        state.mode == InputMode::Ptt,
        down.code == KeyCode::Char(' '),
        down.kind != KeyKind::Release,
        up.code == KeyCode::Char(' '),
        up.kind == KeyKind::Release,
    ensures
        state.after_key(down, now) == state.switching(PttState::held(now)),
        state.after_key(up, later) == state.switching(PttState::idle()),
{
}

/// Backspace takes back the character that was typed last.
pub proof fn lemma_backspace_undoes_typing(
    state: MainModel,
    typed: KeyEvent,
    back: KeyEvent,
    now: u64,
    later: u64,
)
    requires
        state.mode == InputMode::Message,
        typed.code is Char,
        !typed.control,
        typed.kind != KeyKind::Release,
        back.code == KeyCode::Backspace,
        back.kind != KeyKind::Release,
    ensures
        state.after_key(typed, now).state.after_key(back, later) == state.quietly(),
{
    assert(state.input.push(typed.code->Char_0).drop_last() == state.input);
}

/// The call screen by its contents leaves nothing out: the mode, the input line and each line of the
/// chat are those of the screen, and what is asked for is what the effects ask for.
pub proof fn lemma_call_screen_model_is_complete(
    state: MainState,
    log: VecDeque<String>,
    pending: bool,
    model: MainModel,
    effects: MainEffects,
)
    ensures
        main_model(state, log, pending).mode == state.input_mode,
        main_model(state, log, pending).input == state.chat_input@,
        main_model(state, log, pending).log.len() == log@.len(),
        forall|i: int|
            0 <= i < log@.len() ==> #[trigger] main_model(state, log, pending).log[i] == log@[i]@,
        main_model(state, log, pending).shutdown_pending == pending,
        main_step(model, effects).state == model,
        effects.sent is None <==> main_step(model, effects).sent is None,
        effects.sent matches Some(message) ==> main_step(model, effects).sent == Some(message@),
        main_step(model, effects).ptt == effects.ptt,
        main_step(model, effects).shutdown == effects.shutdown,
        main_step(model, effects).quit == effects.quit,
{
}

/// While messages are typed, Enter on a line with something in it sends that line without the white
/// space around it, whatever the chat holds, adds the line that says so to the chat, from which
/// the oldest line leaves where it held 200, and clears the input line. Enter on a blank line does
/// nothing.
pub proof fn lemma_every_message_is_sent(state: MainModel, key: KeyEvent, now: u64)
    requires
        state.mode == InputMode::Message,
        key.code == KeyCode::Enter,
        key.kind != KeyKind::Release,
    ensures
        ({
            let step = state.after_key(key, now);
            let blank = forall|i: int|
                0 <= i < state.input.len() ==> white_space(#[trigger] state.input[i]);
            &&& !blank ==> {
                &&& step.sent == Some(trimmed(state.input))
                &&& step.state.input.len() == 0
                &&& step.state.log.len() > 0
                &&& step.state.log.last() == "[you] "@ + trimmed(state.input)
                &&& state.log.len() < 200 ==> step.state.log.drop_last() == state.log
                &&& state.log.len() >= 200 ==> step.state.log.drop_last() == state.log.skip(1)
            }
            &&& blank ==> step.sent is None && step.state == state
            &&& step.state.mode == state.mode
            &&& step.state.shutdown_pending == state.shutdown_pending
            &&& step.ptt is None && !step.shutdown && !step.quit
        }),
{
    lemma_trimmed_to_nothing(state.input);
    lemma_pushed_loses_oldest_alone(
        state.log,
        MAX_LOG_LINES as nat,
        "[you] "@ + trimmed(state.input),
    );
}

/// A line of one's own gets into the chat exactly where its message goes out, and no key changes
/// the chat otherwise.
pub proof fn lemma_chat_grows_with_what_is_sent(state: MainModel, key: KeyEvent, now: u64)
    ensures
        state.after_key(key, now).sent is None ==> state.after_key(key, now).state.log == state.log,
        state.after_key(key, now).sent matches Some(message) ==> state.after_key(
            key,
            now,
        ).state.log.len() > 0 && state.after_key(key, now).state.log.last() == "[you] "@ + message,
{
    lemma_pushed_loses_oldest_alone(
        state.log,
        MAX_LOG_LINES as nat,
        "[you] "@ + trimmed(state.input),
    );
}

/// While messages are typed, a character goes to the end of the line, Backspace takes the last one
/// off, Tab goes to talk mode with the line kept, and nothing is asked for.
pub proof fn lemma_typing_edits_end_of_line(state: MainModel, key: KeyEvent, now: u64)
    requires
        state.mode == InputMode::Message,
        key.kind != KeyKind::Release,
    ensures
        ({
            let step = state.after_key(key, now);
            let typed = key.code is Char && !key.control;
            &&& typed ==> step.state.input == state.input + seq![key.code->Char_0]
            &&& key.code == KeyCode::Backspace && state.input.len() > 0 ==> step.state.input
                == state.input.take(state.input.len() - 1)
            &&& key.code == KeyCode::Backspace && state.input.len() == 0 ==> step.state.input
                == state.input
            &&& key.code == KeyCode::Tab ==> step.state.input == state.input && step.state.mode
                == InputMode::Ptt
            &&& (typed || key.code == KeyCode::Backspace) ==> step.state.mode == InputMode::Message
            &&& (typed || key.code == KeyCode::Backspace || key.code == KeyCode::Tab) ==> {
                &&& step.state.log == state.log
                &&& step.state.shutdown_pending == state.shutdown_pending
                &&& step.sent is None && step.ptt is None && !step.shutdown && !step.quit
            }
        }),
{
    if state.input.len() > 0 {
        assert(state.input.drop_last() =~= state.input.take(state.input.len() - 1));
    }
    if key.code is Char {
        assert(state.input.push(key.code->Char_0) =~= state.input + seq![key.code->Char_0]);
    }
}

/// In talk mode the space bar switches the microphone on when it goes down, at that time, and off
/// when it goes up; Tab goes to message mode; neither changes or asks for anything else.
pub proof fn lemma_talk_mode_keys(state: MainModel, key: KeyEvent, now: u64)
    requires
        state.mode == InputMode::Ptt,
    ensures
        ({
            let step = state.after_key(key, now);
            let space = key.code == KeyCode::Char(' ');
            let tab = key.code == KeyCode::Tab;
            &&& space && key.kind != KeyKind::Release ==> step.ptt == Some(
                PttState { active: true, last_ms: now },
            )
            &&& space && key.kind == KeyKind::Release ==> step.ptt == Some(
                PttState { active: false, last_ms: 0 },
            )
            &&& !space ==> step.ptt is None
            &&& tab && key.kind != KeyKind::Release ==> step.state.mode == InputMode::Message
            &&& !(tab && key.kind != KeyKind::Release) ==> step.state.mode == InputMode::Ptt
            &&& step.state.input == state.input
            &&& step.state.log == state.log
            &&& step.sent is None
            &&& space || tab ==> !step.shutdown && !step.quit && step.state.shutdown_pending
                == state.shutdown_pending
        }),
{
}

/// The call screen is left on Control and C in both modes and on Q in talk mode, not when they are
/// released, and on no other key. Leaving it hands on the request to stop, unless that was done,
/// and changes nothing else.
pub proof fn lemma_screen_is_left_on_quit_keys_alone(state: MainModel, key: KeyEvent, now: u64)
    ensures
        ({
            let step = state.after_key(key, now);
            let leaves = key.kind != KeyKind::Release && ((key.code == KeyCode::Char('c')
                && key.control) || (key.code == KeyCode::Char('q') && state.mode
                == InputMode::Ptt));
            &&& step.quit == leaves
            &&& step.shutdown == (leaves && state.shutdown_pending)
            &&& step.state.shutdown_pending == (state.shutdown_pending && !leaves)
            &&& leaves ==> {
                &&& step.state.mode == state.mode
                &&& step.state.input == state.input
                &&& step.state.log == state.log
                &&& step.sent is None && step.ptt is None
            }
        }),
{
}

/// Every other key does nothing: the release of any key but the space bar in talk mode, control
/// keys but C, and the keys that are for nothing on this screen.
pub proof fn lemma_other_keys_do_nothing(state: MainModel, key: KeyEvent, now: u64)
    requires
        key.code == KeyCode::Up || key.code == KeyCode::Down || key.code == KeyCode::Other || (
        key.kind == KeyKind::Release && (state.mode == InputMode::Message || key.code
            != KeyCode::Char(' '))) || (state.mode == InputMode::Message && key.code is Char
            && key.control && key.code != KeyCode::Char('c')) || (state.mode == InputMode::Ptt && (
        key.code == KeyCode::Enter || key.code == KeyCode::Backspace || (key.code is Char
            && key.code != KeyCode::Char(' ') && key.code != KeyCode::Char('q') && !(key.code
            == KeyCode::Char('c') && key.control)))),
    ensures
        ({
            let step = state.after_key(key, now);
            &&& step.state == state
            &&& step.sent is None && step.ptt is None && !step.shutdown && !step.quit
        }),
{
}

} // verus!
