//! Where things are on the terminal.
use ratatui::layout::{Constraint, Direction, Layout, Rect};
use vstd::prelude::*;

verus! {

/// A rectangle of the terminal.
#[derive(Clone, Copy, Debug, PartialEq, Eq, Structural)]
pub struct Area {
    pub x: u16,
    pub y: u16,
    pub width: u16,
    pub height: u16,
}

/// How large a part of a split area is to be.
#[derive(Clone, Copy, Debug, PartialEq, Eq, Structural)]
pub enum Limit {
    /// At least so much, and more where there is room.
    Min(u16),
    /// So much.
    Length(u16),
    /// So many hundredths of the whole.
    Percentage(u16),
}

/// Whether the parts of a split area lie below each other or side by side.
#[derive(Clone, Copy, Debug, PartialEq, Eq, Structural)]
pub enum Axis {
    Vertical,
    Horizontal,
}

/// The smaller of a coordinate and the largest there is.
pub open spec fn capped(n: int) -> int {
    if n < u16::MAX {
        n
    } else {
        u16::MAX as int
    }
}

impl Area {
    /// The first column to the right of the area.
    pub open spec fn right(self) -> int {
        capped(self.x + self.width)
    }

    /// The first row below the area.
    pub open spec fn bottom(self) -> int {
        capped(self.y + self.height)
    }

    /// Where the area starts along an axis.
    pub open spec fn start(self, axis: Axis) -> int {
        match axis {
            Axis::Vertical => self.y as int,
            Axis::Horizontal => self.x as int,
        }
    }

    /// The size of the area along an axis.
    pub open spec fn size(self, axis: Axis) -> int {
        match axis {
            Axis::Vertical => self.height as int,
            Axis::Horizontal => self.width as int,
        }
    }

    /// The first row or column after the area.
    pub open spec fn end(self, axis: Axis) -> int {
        match axis {
            Axis::Vertical => self.bottom(),
            Axis::Horizontal => self.right(),
        }
    }

    /// The rows or columns from the start of the area to its end: its size, unless it reaches
    /// beyond the largest coordinate.
    pub open spec fn room(self, axis: Axis) -> int {
        self.end(axis) - self.start(axis)
    }

    /// Whether the area lies in `outer`.
    pub open spec fn within(self, outer: Area) -> bool {
        &&& outer.x <= self.x
        &&& outer.y <= self.y
        &&& self.right() <= outer.right()
        &&& self.bottom() <= outer.bottom()
    }
}

/// Whether `parts` are parts that an area may be split into along `axis` with these limits.
pub uninterp spec fn may_split_into(
    axis: Axis,
    limits: Seq<Limit>,
    area: Area,
    parts: Seq<Area>,
) -> bool;

/// Whether a part spans the area across the axis and stays in it along the axis.
pub open spec fn spans(axis: Axis, area: Area, part: Area) -> bool {
    &&& match axis {
        Axis::Vertical => part.x == area.x && part.width == area.width,
        Axis::Horizontal => part.y == area.y && part.height == area.height,
    }
    &&& area.start(axis) <= part.start(axis)
    &&& part.start(axis) + part.size(axis) <= area.end(axis)
}

/// The least rows or columns that limits ask for.
pub open spec fn least_total(limits: Seq<Limit>) -> int
    decreases limits.len(),
{
    if limits.len() == 0 {
        0
    } else {
        least_total(limits.drop_last()) + match limits.last() {
            Limit::Min(n) => n as int,
            Limit::Length(n) => n as int,
            Limit::Percentage(_) => 0,
        }
    }
}

/// The hundredths that limits ask for.
pub open spec fn percent_total(limits: Seq<Limit>) -> int
    decreases limits.len(),
{
    if limits.len() == 0 {
        0
    } else {
        percent_total(limits.drop_last()) + match limits.last() {
            Limit::Percentage(n) => n as int,
            _ => 0,
        }
    }
}

/// Whether up to four limits are lengths and minimums, a minimum among them, that fit into `room`.
/// A minimum counts as a signed number of 16 bits.
pub open spec fn lengths_fit(limits: Seq<Limit>, room: int) -> bool {
    &&& limits.len() <= 4
    &&& exists|i: int| 0 <= i < limits.len() && #[trigger] limits[i] is Min
    &&& forall|i: int|
        0 <= i < limits.len() ==> match #[trigger] limits[i] {
            Limit::Min(n) => n <= 0x7fff,
            Limit::Length(_) => true,
            Limit::Percentage(_) => false,
        }
    &&& least_total(limits) <= room
}

/// Whether up to four limits are hundredths of a whole.
pub open spec fn percentages_fit(limits: Seq<Limit>) -> bool {
    &&& limits.len() <= 4
    &&& forall|i: int| 0 <= i < limits.len() ==> #[trigger] limits[i] is Percentage
    &&& percent_total(limits) <= 100
}

/// Whether the part number `i` starts where the one before it ends.
pub open spec fn follows(axis: Axis, parts: Seq<Area>, i: int) -> bool {
    parts[i].start(axis) == parts[i - 1].start(axis) + parts[i - 1].size(axis)
}

/// Whether the parts fill the area one after the other, each as large as its limit asks for, and
/// those with the same minimum equally large but for one row or column.
pub open spec fn fills(axis: Axis, limits: Seq<Limit>, area: Area, parts: Seq<Area>) -> bool {
    &&& parts.first().start(axis) == area.start(axis)
    &&& forall|i: int| 0 < i < parts.len() ==> #[trigger] follows(axis, parts, i)
    &&& parts.last().start(axis) + parts.last().size(axis) == area.end(axis)
    &&& forall|i: int|
        0 <= i < parts.len() ==> match limits[i] {
            Limit::Min(n) => (#[trigger] parts[i]).size(axis) >= n,
            Limit::Length(n) => parts[i].size(axis) == n,
            Limit::Percentage(_) => true,
        }
    &&& forall|i: int, j: int|
        0 <= i < parts.len() && 0 <= j < parts.len() && limits[i] is Min && limits[i] == limits[j]
            ==> (#[trigger] parts[i]).size(axis) <= (#[trigger] parts[j]).size(axis) + 1
}

/// `percent` hundredths of `room`, rounded to the nearest, and up from the middle.
pub open spec fn share(percent: int, room: int) -> int {
    (percent * room + 50) / 100
}

/// Whether each part reaches from the share of the limits before it to the share with its own.
pub open spec fn divides(axis: Axis, limits: Seq<Limit>, area: Area, parts: Seq<Area>) -> bool {
    forall|i: int|
        #![trigger parts[i]]
        0 <= i < parts.len() ==> parts[i].start(axis) == area.start(axis) + share(
            percent_total(limits.take(i)),
            area.room(axis),
        ) && parts[i].start(axis) + parts[i].size(axis) == area.start(axis) + share(
            percent_total(limits.take(i + 1)),
            area.room(axis),
        )
}

/// `ratatui::layout::Layout::split` looks for sizes that meet the limits as well as they can be
/// met. Where they leave a choice, its solver walks hash maps, so one area may be split in more
/// than one way: `may_split_into` says that the parts are one of them. Whatever it chooses, there
/// is a part for each limit, and each part spans the area across the axis and stays in it along
/// the axis.
///
/// The solver weighs gaps before and between the parts, minimums, lengths and percentages at a
/// thousand times and more of what only makes parts grow. Of the latter, the growth of a minimum
/// weighs ten times as much as that of the gap at the end and as the equality of two minimums, and
/// these a hundred times as much as the equality of neighbours. So where a few lengths and
/// minimums fit into the area, they are all met, and the minimums take what is left; and
/// percentages of no more than the whole are all met, and rounded at their ends. Nothing is said of
/// limits that cannot all be met.
#[verifier::external_body]
fn split(axis: Axis, limits: &Vec<Limit>, area: Area) -> (parts: Vec<Area>)
    ensures
        may_split_into(axis, limits@, area, parts@),
        parts@.len() == limits@.len(),
        forall|i: int| 0 <= i < parts@.len() ==> spans(axis, area, #[trigger] parts@[i]),
        lengths_fit(limits@, area.room(axis)) ==> fills(axis, limits@, area, parts@),
        percentages_fit(limits@) ==> divides(axis, limits@, area, parts@),
{
    let constraints = limits.iter().map(|limit| match limit {
        Limit::Min(n) => Constraint::Min(*n),
        Limit::Length(n) => Constraint::Length(*n),
        Limit::Percentage(n) => Constraint::Percentage(*n),
    });
    let direction = match axis {
        Axis::Vertical => Direction::Vertical,
        Axis::Horizontal => Direction::Horizontal,
    };
    let rect = Rect { x: area.x, y: area.y, width: area.width, height: area.height };
    let parts = Layout::default().direction(direction).constraints(constraints).split(rect);
    parts.iter().map(|p| Area { x: p.x, y: p.y, width: p.width, height: p.height }).collect()
}

/// The larger of a number and 0.
pub open spec fn at_least_0(n: int) -> int {
    if n > 0 {
        n
    } else {
        0
    }
}

/// What a border around the area leaves of it: one cell less on each side, as far as there is any.
pub open spec fn bordered(area: Area) -> Area {
    Area {
        x: if capped(area.x + 1) < area.right() {
            capped(area.x + 1) as u16
        } else {
            area.right() as u16
        },
        y: if capped(area.y + 1) < area.bottom() {
            capped(area.y + 1) as u16
        } else {
            area.bottom() as u16
        },
        width: at_least_0(area.width - 2) as u16,
        height: at_least_0(area.height - 2) as u16,
    }
}

/// What a border around the area leaves of it.
fn inside_border(area: Area) -> (inner: Area)
    ensures
        inner == bordered(area),
{
    let right: u16 = area.x.saturating_add(area.width);
    let bottom: u16 = area.y.saturating_add(area.height);
    let x: u16 = area.x.saturating_add(1);
    let y: u16 = area.y.saturating_add(1);
    Area {
        x: if x < right {
            x
        } else {
            right
        },
        y: if y < bottom {
            y
        } else {
            bottom
        },
        width: area.width.saturating_sub(2),
        height: area.height.saturating_sub(2),
    }
}

/// Rows around a popup of the given height.
pub open spec fn popup_rows(height: u16) -> Seq<Limit> {
    seq![Limit::Min(1), Limit::Length(height), Limit::Min(1)]
}

/// Columns around a popup that takes `width_pct` hundredths of the width.
pub open spec fn popup_columns(width_pct: u16) -> Seq<Limit> {
    let side = ((100 - width_pct) / 2) as u16;
    seq![Limit::Percentage(side), Limit::Percentage(width_pct), Limit::Percentage(side)]
}

/// Whether `popup` is the middle of the middle rows of the area.
pub open spec fn is_centered(area: Area, width_pct: u16, height: u16, popup: Area) -> bool {
    exists|rows: Seq<Area>, columns: Seq<Area>|
        {
            &&& #[trigger] may_split_into(Axis::Vertical, popup_rows(height), area, rows)
            &&& #[trigger] may_split_into(
                Axis::Horizontal,
                popup_columns(width_pct),
                rows[1],
                columns,
            )
            &&& popup == columns[1]
        }
}

/// Whether `popup` takes `width_pct` hundredths of the width, with the same hundredths left and
/// right of it, and, where there is a row above and below it, has the given height, and as many
/// rows above it as below but for one.
pub open spec fn is_middle(area: Area, width_pct: u16, height: u16, popup: Area) -> bool {
    let side = (100 - width_pct) / 2;
    let columns = area.room(Axis::Horizontal);
    &&& popup.x == area.x + share(side, columns)
    &&& popup.x + popup.width == area.x + share(side + width_pct, columns)
    &&& area.room(Axis::Vertical) >= height + 2 ==> {
        let above = popup.y - area.y;
        let below = area.bottom() - (popup.y + popup.height);
        &&& popup.height == height
        &&& above >= 1
        &&& below >= 1
        &&& -1 <= above - below <= 1
    }
}

/// An area of the given height, and of `width_pct` hundredths of the width, in the middle of
/// `area`.
pub fn centered_rect(area: Area, width_pct: u16, height: u16) -> (popup: Area)
    requires
        width_pct <= 100,
    ensures
        is_centered(area, width_pct, height, popup),
        is_middle(area, width_pct, height, popup),
        popup.within(area),
{
    let rows_limits = vec![Limit::Min(1), Limit::Length(height), Limit::Min(1)];
    assert(rows_limits@ == popup_rows(height));
    let rows = split(Axis::Vertical, &rows_limits, area);
    proof {
        let limits = popup_rows(height);
        assert(limits[0] is Min);
        assert(least_total(limits) == height + 2) by {
            reveal_with_fuel(least_total, 4);
        }
        if area.room(Axis::Vertical) >= height + 2 {
            assert(follows(Axis::Vertical, rows@, 1));
            assert(follows(Axis::Vertical, rows@, 2));
        }
    }
    let side: u16 = (100 - width_pct) / 2;
    let columns_limits = vec![
        Limit::Percentage(side),
        Limit::Percentage(width_pct),
        Limit::Percentage(side),
    ];
    assert(columns_limits@ == popup_columns(width_pct));
    let columns = split(Axis::Horizontal, &columns_limits, rows[1]);
    proof {
        let limits = popup_columns(width_pct);
        reveal_with_fuel(percent_total, 4);
        assert(percent_total(limits) == 2 * side + width_pct);
        assert(percent_total(limits.take(1)) == side);
        assert(percent_total(limits.take(2)) == side + width_pct);
    }
    columns[1]
}

/// The parts of the call screen.
#[derive(Clone, Copy, Debug, PartialEq, Eq, Structural)]
pub struct MainAreas {
    pub chat: Area,
    pub messages: Area,
    pub separator: Area,
    pub input: Area,
    pub mic: Area,
    pub audio: Area,
    pub status: Area,
}

/// The rows of the call screen: the chat, two meters and the status.
pub open spec fn main_rows() -> Seq<Limit> {
    seq![Limit::Min(5), Limit::Length(5), Limit::Length(5), Limit::Length(4)]
}

/// The rows inside the chat's border: the messages, a separator and the input line.
pub open spec fn chat_rows() -> Seq<Limit> {
    seq![Limit::Min(1), Limit::Length(1), Limit::Length(1)]
}

/// Whether `parts` are the parts of the call screen on `area`.
pub open spec fn is_main_split(area: Area, parts: MainAreas) -> bool {
    exists|rows: Seq<Area>, inner: Seq<Area>|
        {
            &&& #[trigger] may_split_into(Axis::Vertical, main_rows(), area, rows)
            &&& parts.chat == rows[0]
            &&& parts.mic == rows[1]
            &&& parts.audio == rows[2]
            &&& parts.status == rows[3]
            &&& #[trigger] may_split_into(
                Axis::Vertical,
                chat_rows(),
                bordered(parts.chat),
                inner,
            )
            &&& parts.messages == inner[0]
            &&& parts.separator == inner[1]
            &&& parts.input == inner[2]
        }
}

/// Whether the parts are stacked on `area`, where that has the rows for them: the meters and the
/// status take as many rows as they need, the chat takes the rest, and inside its border the
/// messages take what the separator and the input line leave.
pub open spec fn is_main_stack(area: Area, parts: MainAreas) -> bool {
    let rows = area.room(Axis::Vertical);
    &&& parts.chat.x == area.x && parts.chat.width == area.width
    &&& parts.mic.x == area.x && parts.mic.width == area.width
    &&& parts.audio.x == area.x && parts.audio.width == area.width
    &&& parts.status.x == area.x && parts.status.width == area.width
    &&& parts.messages.x == bordered(area).x && parts.messages.width == bordered(area).width
    &&& parts.separator.x == bordered(area).x && parts.separator.width == bordered(area).width
    &&& parts.input.x == bordered(area).x && parts.input.width == bordered(area).width
    &&& rows >= 19 ==> {
        &&& parts.chat.y == area.y && parts.chat.height == rows - 14
        &&& parts.mic.y == parts.chat.y + parts.chat.height && parts.mic.height == 5
        &&& parts.audio.y == parts.mic.y + parts.mic.height && parts.audio.height == 5
        &&& parts.status.y == parts.audio.y + parts.audio.height && parts.status.height == 4
        &&& parts.messages.y == parts.chat.y + 1 && parts.messages.height == rows - 18
        &&& parts.separator.y == parts.messages.y + parts.messages.height
        &&& parts.separator.height == 1
        &&& parts.input.y == parts.separator.y + parts.separator.height
        &&& parts.input.height == 1
    }
}

/// Splits the terminal into the parts of the call screen.
pub fn main_areas(area: Area) -> (parts: MainAreas)
    ensures
        is_main_split(area, parts),
        is_main_stack(area, parts),
        parts.chat.within(area),
        parts.mic.within(area),
        parts.audio.within(area),
        parts.status.within(area),
        parts.messages.within(parts.chat),
        parts.separator.within(parts.chat),
        parts.input.within(parts.chat),
{
    let rows_limits = vec![Limit::Min(5), Limit::Length(5), Limit::Length(5), Limit::Length(4)];
    assert(rows_limits@ == main_rows());
    let rows = split(Axis::Vertical, &rows_limits, area);
    proof {
        let limits = main_rows();
        assert(limits[0] is Min);
        assert(least_total(limits) == 19) by {
            reveal_with_fuel(least_total, 5);
        }
        if area.room(Axis::Vertical) >= 19 {
            assert(follows(Axis::Vertical, rows@, 1));
            assert(follows(Axis::Vertical, rows@, 2));
            assert(follows(Axis::Vertical, rows@, 3));
        }
    }
    let inner_limits = vec![Limit::Min(1), Limit::Length(1), Limit::Length(1)];
    assert(inner_limits@ == chat_rows());
    let inside = inside_border(rows[0]);
    let inner = split(Axis::Vertical, &inner_limits, inside);
    proof {
        let limits = chat_rows();
        assert(limits[0] is Min);
        assert(least_total(limits) == 3) by {
            reveal_with_fuel(least_total, 4);
        }
        if inside.room(Axis::Vertical) >= 3 {
            assert(follows(Axis::Vertical, inner@, 1));
            assert(follows(Axis::Vertical, inner@, 2));
        }
    }
    let parts = MainAreas {
        chat: rows[0],
        messages: inner[0],
        separator: inner[1],
        input: inner[2],
        mic: rows[1],
        audio: rows[2],
        status: rows[3],
    };
    assert(bordered(parts.chat).within(parts.chat));
    parts
}

/// What it means to lie in another area: no column and no row of the area lies outside the other.
pub proof fn lemma_within_has_no_cell_outside(inner: Area, outer: Area, x: int, y: int)
    requires
        inner.within(outer),
        x < u16::MAX,
        y < u16::MAX,
    ensures
        inner.x <= x < inner.x + inner.width ==> outer.x <= x < outer.x + outer.width,
        inner.y <= y < inner.y + inner.height ==> outer.y <= y < outer.y + outer.height,
{
}

/// A border takes one cell on each side: what it leaves of an area that has room for it starts one
/// cell further in, and is two cells smaller; an area without room for it has nothing left.
pub proof fn lemma_border_takes_one_cell_on_each_side(area: Area)
    requires
        area.x + area.width <= u16::MAX,
        area.y + area.height <= u16::MAX,
    ensures
        area.width >= 2 ==> bordered(area).x == area.x + 1 && bordered(area).width == area.width - 2,
        area.width < 2 ==> bordered(area).width == 0 && bordered(area).x == area.x + area.width,
        area.height >= 2 ==> bordered(area).y == area.y + 1 && bordered(area).height == area.height
            - 2,
        area.height < 2 ==> bordered(area).height == 0 && bordered(area).y == area.y + area.height,
{
}

/// A share is the nearest whole number to so many hundredths.
pub proof fn lemma_share_is_nearest(percent: int, room: int)
    ensures
        -50 <= percent * room - 100 * share(percent, room) < 50,
{
}

/// A popup in the middle has the height that was asked for, where there is a row above and below it,
/// and then its distances from the top and from the bottom differ by one at most. Its width is the
/// hundredths that were asked for, to the nearest cell at either end, and so are the margins left
/// and right of it.
pub proof fn lemma_popup_is_in_the_middle(area: Area, width_pct: u16, height: u16, popup: Area)
    requires
        is_middle(area, width_pct, height, popup),
        width_pct <= 100,
        area.x + area.width <= u16::MAX,
        area.y + area.height <= u16::MAX,
    ensures
        area.height >= height + 2 ==> {
            let above = popup.y - area.y;
            let below = area.y + area.height - popup.y - height;
            popup.height == height && above >= 1 && below >= 1 && -1 <= above - below <= 1
        },
        -100 < popup.width * 100 - width_pct * area.width < 101,
        ({
            let side = (100 - width_pct) / 2;
            -51 < (popup.x - area.x) * 100 - side * area.width < 51
        }),
{
    let side = (100 - width_pct) / 2;
    let w = area.width as int;
    assert((side + width_pct) * w == side * w + width_pct * w) by (nonlinear_arith);
}

/// The parts of the call screen, where there are nineteen rows, lie below each other without gaps:
/// five rows for each meter, four for the status, and the rest for the chat, in which a border, a
/// separator and the input line leave the messages four rows less.
pub proof fn lemma_call_screen_is_stacked(area: Area, parts: MainAreas)
    requires
        is_main_stack(area, parts),
        area.x + area.width <= u16::MAX,
        area.y + area.height <= u16::MAX,
        area.height >= 19,
    ensures
        parts.chat.y == area.y,
        parts.mic.y == parts.chat.y + parts.chat.height,
        parts.audio.y == parts.mic.y + parts.mic.height,
        parts.status.y == parts.audio.y + parts.audio.height,
        parts.status.y + parts.status.height == area.y + area.height,
        parts.mic.height == 5 && parts.audio.height == 5 && parts.status.height == 4,
        parts.messages.y == parts.chat.y + 1,
        parts.messages.height == parts.chat.height - 4,
        parts.separator.y == parts.messages.y + parts.messages.height && parts.separator.height
            == 1,
        parts.input.y == parts.separator.y + 1 && parts.input.height == 1,
        parts.input.y + 2 == parts.mic.y,
        parts.chat.x == area.x && parts.chat.width == area.width,
        parts.mic.x == area.x && parts.mic.width == area.width,
        parts.audio.x == area.x && parts.audio.width == area.width,
        parts.status.x == area.x && parts.status.width == area.width,
        area.width >= 2 ==> parts.messages.x == area.x + 1 && parts.messages.width == area.width - 2,
        area.width >= 2 ==> parts.separator.x == area.x + 1 && parts.separator.width == area.width
            - 2,
        area.width >= 2 ==> parts.input.x == area.x + 1 && parts.input.width == area.width - 2,
{
}

/// Which limits the popup and the parts of the call screen come from.
pub proof fn lemma_limits_of_the_screens(height: u16, width_pct: u16)
    requires
        width_pct <= 100,
    ensures
        popup_rows(height) == seq![Limit::Min(1), Limit::Length(height), Limit::Min(1)],
        popup_columns(width_pct).len() == 3,
        popup_columns(width_pct)[1] == Limit::Percentage(width_pct),
        popup_columns(width_pct)[0] == popup_columns(width_pct)[2],
        main_rows() == seq![Limit::Min(5), Limit::Length(5), Limit::Length(5), Limit::Length(4)],
        chat_rows() == seq![Limit::Min(1), Limit::Length(1), Limit::Length(1)],
{
}

/// A popup that is centered is the middle part of the middle part of some split of the area.
pub proof fn lemma_centered_is_middle_of_middle(
    area: Area,
    width_pct: u16,
    height: u16,
    popup: Area,
)
    requires
        is_centered(area, width_pct, height, popup),
    ensures
        exists|rows: Seq<Area>, columns: Seq<Area>|
            #![trigger may_split_into(Axis::Vertical, popup_rows(height), area, rows), may_split_into(
                Axis::Horizontal,
                popup_columns(width_pct),
                rows[1],
                columns,
            )]
            {
                &&& may_split_into(Axis::Vertical, popup_rows(height), area, rows)
                &&& may_split_into(
                    Axis::Horizontal,
                    popup_columns(width_pct),
                    rows[1],
                    columns,
                )
                &&& popup == columns[1]
            },
{
}

/// The parts of the call screen are those of some split of the area, and those inside the chat's
/// border of some split of what the border leaves.
pub proof fn lemma_main_split_is_by_its_rows(area: Area, parts: MainAreas)
    requires
        is_main_split(area, parts),
    ensures
        exists|rows: Seq<Area>| #[trigger]
            may_split_into(Axis::Vertical, main_rows(), area, rows) && parts.chat == rows[0]
                && parts.mic == rows[1] && parts.audio == rows[2] && parts.status == rows[3],
        exists|inner: Seq<Area>| #[trigger]
            may_split_into(Axis::Vertical, chat_rows(), bordered(parts.chat), inner)
                && parts.messages == inner[0] && parts.separator == inner[1] && parts.input
                == inner[2],
{
}

} // verus!
