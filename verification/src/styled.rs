//! Styled text: lines of spans.
use vstd::prelude::*;

verus! {

/// The colors in use; `Plain` is the terminal's own.
#[derive(Clone, Copy, Debug, PartialEq, Eq, Structural)]
pub enum Color {
    Plain,
    Cyan,
    DarkGray,
    Green,
    Red,
    White,
    Yellow,
}

/// How text looks.
#[derive(Clone, Copy, Debug, PartialEq, Eq, Structural)]
pub struct Style {
    pub color: Color,
    pub bold: bool,
    pub underlined: bool,
}

/// Text of one style.
#[derive(Debug)]
pub struct Span {
    pub text: String,
    pub style: Style,
}

/// A `Span` by its contents.
pub struct SpanModel {
    pub text: Seq<char>,
    pub style: Style,
}

impl View for Span {
    type V = SpanModel;

    open spec fn view(&self) -> SpanModel {
        SpanModel { text: self.text@, style: self.style }
    }
}

/// A line of text.
#[derive(Debug)]
pub struct Line {
    pub spans: Vec<Span>,
}

impl View for Line {
    type V = Seq<SpanModel>;

    open spec fn view(&self) -> Seq<SpanModel> {
        self.spans@.map_values(|span: Span| span@)
    }
}

/// Lines by their contents.
pub open spec fn line_models(lines: Seq<Line>) -> Seq<Seq<SpanModel>> {
    lines.map_values(|line: Line| line@)
}

/// The style of a color alone.
pub open spec fn in_color(color: Color) -> Style {
    Style { color, bold: false, underlined: false }
}

/// Text in a color.
pub open spec fn colored(color: Color, text: Seq<char>) -> SpanModel {
    SpanModel { text, style: in_color(color) }
}

/// Text as the terminal shows it.
pub open spec fn plain(text: Seq<char>) -> SpanModel {
    colored(Color::Plain, text)
}

/// Bold text in a color.
pub open spec fn bold(color: Color, text: Seq<char>) -> SpanModel {
    SpanModel { text, style: Style { color, bold: true, underlined: false } }
}

/// Makes a span of a color.
pub fn span(color: Color, text: &str) -> (r: Span)
    ensures
        r@ == colored(color, text@),
        r.text@ == text@,
        r.style.color == color && !r.style.bold && !r.style.underlined,
{
    Span { text: text.to_owned(), style: Style { color, bold: false, underlined: false } }
}

/// Makes a span of a color in bold, and underlined if so asked.
pub fn bold_span(color: Color, underlined: bool, text: &str) -> (r: Span)
    ensures
        r@ == (SpanModel { text: text@, style: Style { color, bold: true, underlined } }),
        r.text@ == text@,
        r.style.color == color && r.style.bold && r.style.underlined == underlined,
{
    Span { text: text.to_owned(), style: Style { color, bold: true, underlined } }
}

/// Makes an empty line.
pub fn blank() -> (r: Line)
    ensures
        r@ == Seq::<SpanModel>::empty(),
        r.spans@.len() == 0,
{
    let r = Line { spans: Vec::new() };
    assert(r@ =~= Seq::<SpanModel>::empty());
    r
}

/// The line with a span added to it.
pub fn with_span(line: Line, span: Span) -> (r: Line)
    ensures
        r@ == line@.push(span@),
        r.spans@ == line.spans@.push(span),
{
    let ghost before = line@;
    let ghost last = span@;
    let mut spans = line.spans;
    spans.push(span);
    let r = Line { spans };
    assert(r@ =~= before.push(last));
    r
}

/// Makes a line of one span.
pub fn line_of(span: Span) -> (r: Line)
    ensures
        r@ == seq![span@],
        r.spans@ == seq![span],
{
    let r = with_span(blank(), span);
    assert(r@ =~= seq![span@]);
    r
}

/// Adds a line.
pub fn push_line(lines: &mut Vec<Line>, line: Line)
    ensures
        line_models(final(lines)@) == line_models(old(lines)@).push(line@),
        final(lines)@ == old(lines)@.push(line),
{
    let ghost last = line@;
    lines.push(line);
    assert(line_models(lines@) =~= line_models(old(lines)@).push(last));
}

/// Spans and lines by their contents have every span of every line, in order, with its text in full
/// and its style.
pub proof fn lemma_contents_are_complete(lines: Seq<Line>)
    ensures
        line_models(lines).len() == lines.len(),
        forall|i: int|
            0 <= i < lines.len() ==> (#[trigger] line_models(lines)[i]).len() == lines[i].spans@.len(),
        forall|i: int, j: int|
            #![trigger line_models(lines)[i][j]]
            0 <= i < lines.len() && 0 <= j < lines[i].spans@.len() ==> {
                &&& line_models(lines)[i][j].text == lines[i].spans@[j].text@
                &&& line_models(lines)[i][j].style == lines[i].spans@[j].style
            },
{
}

/// Colored text is that text in that color and no more; bold text is bold besides; plain text has
/// the terminal's own color.
pub proof fn lemma_styles_differ_as_named(color: Color, text: Seq<char>)
    ensures
        colored(color, text).text == text && plain(text).text == text && bold(color, text).text
            == text,
        colored(color, text).style.color == color && bold(color, text).style.color == color,
        plain(text).style.color == Color::Plain,
        !colored(color, text).style.bold && !colored(color, text).style.underlined,
        !plain(text).style.bold && !plain(text).style.underlined,
        bold(color, text).style.bold && !bold(color, text).style.underlined,
{
}

} // verus!
