//! What the call screen shows.
use crate::chat::{InputMode, MainState};
use crate::layout::{is_main_split, is_main_stack, main_areas, Area, MainAreas};
use crate::styled::{
    bold, bold_span, colored, line_models, line_of, plain, push_line, span, with_span, Color, Line,
    Span, SpanModel,
};
use crate::text::{join, repeat, repeated, texts};
use crate::transport::NO_PING;
use std::collections::VecDeque;
use vstd::prelude::*;

verus! {

/// The title of the chat, with the mode.
pub open spec fn chat_title(mode: InputMode) -> Seq<char> {
    match mode {
        InputMode::Ptt => " Chat [PTT] "@,
        InputMode::Message => " Chat [MSG] "@,
    }
}

/// The messages that fit into `height` rows: the newest.
pub open spec fn shown_messages(log: Seq<Seq<char>>, height: nat) -> Seq<Seq<char>> {
    if log.len() > height {
        log.skip(log.len() - height)
    } else {
        log
    }
}

/// The input line.
pub open spec fn input_line(mode: InputMode, input: Seq<char>) -> Seq<SpanModel> {
    match mode {
        InputMode::Message => seq![
            colored(Color::Yellow, "> "@),
            plain(input),
            colored(Color::Yellow, "█"@),
        ],
        InputMode::Ptt => seq![colored(Color::DarkGray, "> Tab: enter message mode"@)],
    }
}

/// The keys that can be used.
pub open spec fn key_hints(mode: InputMode) -> Seq<char> {
    match mode {
        InputMode::Ptt => "Tab: message mode   SPACE: push to talk   q / ctrl+c: quit"@,
        InputMode::Message => "Tab: PTT mode   Enter: send   ctrl+c: quit"@,
    }
}

/// Whether the microphone is transmitted.
pub open spec fn talk_label(transmitting: bool) -> SpanModel {
    if transmitting {
        bold(Color::Red, "● TRANSMITTING"@)
    } else {
        colored(Color::Green, "● LISTENING"@)
    }
}

/// The round trip time, `ping_ms` being the text for its milliseconds.
pub open spec fn ping_label(ping_us: u64, ping_ms: Seq<char>) -> SpanModel {
    if ping_us == NO_PING {
        colored(Color::DarkGray, "  │  Ping: --"@)
    } else {
        colored(Color::Cyan, "  │  Ping: "@ + ping_ms + "ms"@)
    }
}

/// The rule between the messages and the input line.
pub open spec fn separator_line(width: nat) -> Seq<SpanModel> {
    seq![colored(Color::DarkGray, repeated('─', width))]
}

/// The lines of the status bar.
pub open spec fn status_lines(
    mode: InputMode,
    transmitting: bool,
    node_id: Seq<char>,
    ping_us: u64,
    ping_ms: Seq<char>,
) -> Seq<Seq<SpanModel>> {
    seq![
        seq![colored(Color::DarkGray, key_hints(mode))],
        seq![
            talk_label(transmitting),
            plain("  │  Node: "@ + node_id),
            ping_label(ping_us, ping_ms),
        ],
    ]
}

fn make_chat_title(mode: InputMode) -> (r: String)
    ensures
        r@ == chat_title(mode),
{
    match mode {
        InputMode::Ptt => " Chat [PTT] ".to_owned(),
        InputMode::Message => " Chat [MSG] ".to_owned(),
    }
}

fn make_shown_messages(log: &VecDeque<String>, height: usize) -> (r: Vec<String>)
    ensures
        texts(r@) == shown_messages(texts(log@), height as nat),
{
    let skip: usize = log.len().saturating_sub(height);
    let mut r: Vec<String> = Vec::new();
    let mut i: usize = skip;
    let ghost all = texts(log@);
    while i < log.len()
        invariant
            skip <= i <= log@.len(),
            all == texts(log@),
            texts(r@) == all.subrange(skip as int, i as int),
        decreases log.len() - i,
    {
        let line = log[i].clone();
        let ghost before = texts(r@);
        assert(line@ == all[i as int]);
        r.push(line);
        i = i + 1;
        assert(texts(r@) =~= before.push(all[i - 1]));
        assert(texts(r@) =~= all.subrange(skip as int, i as int));
    }
    assert(texts(r@) =~= shown_messages(all, height as nat));
    r
}

fn make_input_line(mode: InputMode, input: &str) -> (r: Line)
    ensures
        r@ == input_line(mode, input@),
{
    match mode {
        InputMode::Message => {
            let line = line_of(span(Color::Yellow, "> "));
            let line = with_span(line, span(Color::Plain, input));
            let line = with_span(line, span(Color::Yellow, "█"));
            assert(line@ =~= input_line(mode, input@));
            line
        },
        InputMode::Ptt => line_of(span(Color::DarkGray, "> Tab: enter message mode")),
    }
}

fn make_ping_label(ping_us: u64, ping_ms: &str) -> (r: Span)
    ensures
        r@ == ping_label(ping_us, ping_ms@),
{
    if ping_us == NO_PING {
        span(Color::DarkGray, "  │  Ping: --")
    } else {
        let shown = join("  │  Ping: ", ping_ms);
        let shown = join(shown.as_str(), "ms");
        span(Color::Cyan, shown.as_str())
    }
}

fn make_status_lines(
    mode: InputMode,
    transmitting: bool,
    node_id: &str,
    ping_us: u64,
    ping_ms: &str,
) -> (r: Vec<Line>)
    ensures
        line_models(r@) == status_lines(mode, transmitting, node_id@, ping_us, ping_ms@),
{
    let hints = match mode {
        InputMode::Ptt => "Tab: message mode   SPACE: push to talk   q / ctrl+c: quit",
        InputMode::Message => "Tab: PTT mode   Enter: send   ctrl+c: quit",
    };
    let talk = if transmitting {
        bold_span(Color::Red, false, "● TRANSMITTING")
    } else {
        span(Color::Green, "● LISTENING")
    };
    let node = join("  │  Node: ", node_id);
    let line = line_of(talk);
    let line = with_span(line, span(Color::Plain, node.as_str()));
    let line = with_span(line, make_ping_label(ping_us, ping_ms));
    assert(line@ =~= status_lines(mode, transmitting, node_id@, ping_us, ping_ms@)[1]);
    let mut r: Vec<Line> = Vec::new();
    push_line(&mut r, line_of(span(Color::DarkGray, hints)));
    push_line(&mut r, line);
    assert(line_models(r@) =~= status_lines(mode, transmitting, node_id@, ping_us, ping_ms@));
    r
}

/// A meter: a bordered box with a title, and in it a bar for each loudness, oldest first.
#[derive(Debug)]
pub struct MeterView {
    pub title: String,
    pub color: Color,
    pub bars: Vec<u64>,
}

/// A `MeterView` by its contents.
pub struct MeterModel {
    pub title: Seq<char>,
    pub color: Color,
    pub bars: Seq<u64>,
}

impl View for MeterView {
    type V = MeterModel;

    open spec fn view(&self) -> MeterModel {
        MeterModel { title: self.title@, color: self.color, bars: self.bars@ }
    }
}

/// The meter of what is captured.
pub open spec fn mic_meter(history: Seq<u64>) -> MeterModel {
    MeterModel { title: " Mic "@, color: Color::Green, bars: history }
}

/// The meter of what is received.
pub open spec fn audio_meter(history: Seq<u64>) -> MeterModel {
    MeterModel { title: " Audio "@, color: Color::Yellow, bars: history }
}

fn make_meter(title: &str, color: Color, history: &VecDeque<u64>) -> (r: MeterView)
    ensures
        r@ == (MeterModel { title: title@, color, bars: history@ }),
{
    let mut bars: Vec<u64> = Vec::new();
    let mut i: usize = 0;
    while i < history.len()
        invariant
            i <= history@.len(),
            bars@ == history@.take(i as int),
        decreases history.len() - i,
    {
        bars.push(history[i]);
        i = i + 1;
        assert(bars@ =~= history@.take(i as int));
    }
    assert(bars@ =~= history@);
    MeterView { title: title.to_owned(), color, bars }
}

/// What to draw of the call screen: where, and what. The chat, the meters and the status are
/// bordered boxes with a title; the messages, the separator and the input line lie in the chat's.
#[derive(Debug)]
pub struct MainView {
    pub areas: MainAreas,
    pub title: String,
    pub messages: Vec<String>,
    pub separator: Line,
    pub input: Line,
    pub mic: MeterView,
    pub audio: MeterView,
    pub status_title: String,
    pub status: Vec<Line>,
}

/// Lays out the call screen on `area`. `ping_ms` is the text for the round trip time in
/// milliseconds, and is shown where one was measured.
pub fn draw_main(
    area: Area,
    log: &VecDeque<String>,
    state: &MainState,
    transmitting: bool,
    mic_amp: &VecDeque<u64>,
    audio_amp: &VecDeque<u64>,
    node_id: &str,
    ping_us: u64,
    ping_ms: &str,
) -> (r: MainView)
    ensures
        is_main_split(area, r.areas),
        is_main_stack(area, r.areas),
        r.title@ == chat_title(state.input_mode),
        texts(r.messages@) == shown_messages(texts(log@), r.areas.messages.height as nat),
        r.separator@ == separator_line(r.areas.separator.width as nat),
        r.input@ == input_line(state.input_mode, state.chat_input@),
        r.mic@ == mic_meter(mic_amp@),
        r.audio@ == audio_meter(audio_amp@),
        r.status_title@ == " Status "@,
        line_models(r.status@) == status_lines(
            state.input_mode,
            transmitting,
            node_id@,
            ping_us,
            ping_ms@,
        ),
{
    let areas = main_areas(area);
    let rule = repeat('─', areas.separator.width as usize);
    MainView {
        areas,
        title: make_chat_title(state.input_mode),
        messages: make_shown_messages(log, areas.messages.height as usize),
        separator: line_of(span(Color::DarkGray, rule.as_str())),
        input: make_input_line(state.input_mode, state.chat_input.as_str()),
        mic: make_meter(" Mic ", Color::Green, mic_amp),
        audio: make_meter(" Audio ", Color::Yellow, audio_amp),
        status_title: " Status ".to_owned(),
        status: make_status_lines(state.input_mode, transmitting, node_id, ping_us, ping_ms),
    }
}

/// The messages that are shown fit into the rows, and the newest message is the last of them,
/// where there is a row at all.
pub proof fn lemma_newest_messages_are_shown(log: Seq<Seq<char>>, height: nat)
    ensures
        shown_messages(log, height).len() <= height,
        shown_messages(log, height).len() == log.len() || shown_messages(log, height).len()
            == height,
        height > 0 && log.len() > 0 ==> shown_messages(log, height).last() == log.last(),
{
}

/// The messages that are shown are the newest ones, one after the other as in the chat, and as many
/// as there are rows and messages.
pub proof fn lemma_shown_messages_are_end_of_chat(log: Seq<Seq<char>>, height: nat, i: int)
    ensures
        shown_messages(log, height).len() == if log.len() < height {
            log.len()
        } else {
            height
        },
        0 <= i < shown_messages(log, height).len() ==> shown_messages(log, height)[i] == log[log.len()
            - shown_messages(log, height).len() + i],
{
}

/// The title of the chat tells the mode. In message mode the input line shows what was typed, in
/// full, with the cursor after it; in talk mode it says how to get there.
pub proof fn lemma_chat_tells_mode_and_input(input: Seq<char>)
    ensures
        chat_title(InputMode::Ptt) == " Chat [PTT] "@,
        chat_title(InputMode::Message) == " Chat [MSG] "@,
        input_line(InputMode::Message, input).len() == 3,
        input_line(InputMode::Message, input)[0].text == "> "@,
        input_line(InputMode::Message, input)[1].text == input,
        input_line(InputMode::Message, input)[2].text == "█"@,
        input_line(InputMode::Ptt, input).len() == 1,
        input_line(InputMode::Ptt, input)[0].text == "> Tab: enter message mode"@,
{
}

/// The status shows the keys of the mode, whether the microphone is transmitted, the own ID in full,
/// and the round trip time in full where one was measured.
pub proof fn lemma_status_tells_the_state(
    mode: InputMode,
    transmitting: bool,
    node_id: Seq<char>,
    ping_us: u64,
    ping_ms: Seq<char>,
)
    ensures
        ({
            let lines = status_lines(mode, transmitting, node_id, ping_us, ping_ms);
            let state = lines[1];
            &&& lines.len() == 2 && lines[0].len() == 1 && state.len() == 3
            &&& mode == InputMode::Ptt ==> lines[0][0].text
                == "Tab: message mode   SPACE: push to talk   q / ctrl+c: quit"@
            &&& mode == InputMode::Message ==> lines[0][0].text
                == "Tab: PTT mode   Enter: send   ctrl+c: quit"@
            &&& transmitting ==> state[0].text == "● TRANSMITTING"@ && state[0].style.color
                == Color::Red && state[0].style.bold
            &&& !transmitting ==> state[0].text == "● LISTENING"@ && state[0].style.color
                == Color::Green && !state[0].style.bold
            &&& state[1].text == "  │  Node: "@ + node_id
            &&& ping_us == 0 ==> state[2].text == "  │  Ping: --"@ && state[2].style.color
                == Color::DarkGray
            &&& ping_us != 0 ==> state[2].text == "  │  Ping: "@ + ping_ms + "ms"@
                && state[2].style.color == Color::Cyan
        }),
{
}

/// Each meter has a bar for each value of its history, in order; the two have different titles and
/// colors. The rule above the input line is as wide as its area.
pub proof fn lemma_meters_show_their_history(history: Seq<u64>, width: nat, meter: MeterView)
    ensures
        mic_meter(history).bars == history && audio_meter(history).bars == history,
        mic_meter(history).title == " Mic "@ && audio_meter(history).title == " Audio "@,
        mic_meter(history).color == Color::Green && audio_meter(history).color == Color::Yellow,
        meter@.title == meter.title@ && meter@.color == meter.color && meter@.bars == meter.bars@,
        separator_line(width).len() == 1,
        separator_line(width)[0].text.len() == width,
        forall|i: int| 0 <= i < width ==> #[trigger] separator_line(width)[0].text[i] == '─',
        separator_line(width)[0].style.color == Color::DarkGray,
{
}

} // verus!
