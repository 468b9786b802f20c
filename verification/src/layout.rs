//! Where the parts of the screen stand.
use vstd::prelude::*;
use ratatui::layout::{Constraint, Direction, Layout, Rect};

verus! {

/// A rectangle of the screen, in character cells.
#[derive(Debug, Clone, Copy, PartialEq, Eq, Structural)]
pub struct Area {
    pub x: u16,
    pub y: u16,
    pub width: u16,
    pub height: u16,
}

/// The direction in which an area is divided.
#[derive(Debug, Clone, Copy, PartialEq, Eq, Structural)]
pub enum Axis {
    /// Into parts side by side.
    Horizontal,
    /// Into parts on top of each other.
    Vertical,
}

/// The size that is wanted for a part of a divided area.
#[derive(Debug, Clone, Copy, PartialEq, Eq, Structural)]
pub enum Part {
    /// So many cells.
    Length(u16),
    /// No fewer cells.
    Min(u16),
    /// A share of the area in percent.
    Percentage(u16),
    /// A share of what is left, by weight.
    Fill(u16),
}

impl Area {
    /// Where the area ends on the right. The screen ends at the largest coordinate.
    pub open spec fn right(self) -> int {
        if self.x + self.width <= u16::MAX {
            self.x + self.width
        } else {
            u16::MAX as int
        }
    }

    /// Where the area ends at the bottom. The screen ends at the largest coordinate.
    pub open spec fn bottom(self) -> int {
        if self.y + self.height <= u16::MAX {
            self.y + self.height
        } else {
            u16::MAX as int
        }
    }

    /// Where the area starts along an axis.
    pub open spec fn start(self, axis: Axis) -> int {
        match axis {
            Axis::Horizontal => self.x as int,
            Axis::Vertical => self.y as int,
        }
    }

    /// Where the area ends along an axis.
    pub open spec fn end(self, axis: Axis) -> int {
        match axis {
            Axis::Horizontal => self.right(),
            Axis::Vertical => self.bottom(),
        }
    }

    /// How far the area reaches along an axis.
    pub open spec fn extent(self, axis: Axis) -> int {
        self.end(axis) - self.start(axis)
    }

    /// Whether the area lies within another one.
    pub open spec fn within(self, outer: Area) -> bool {
        &&& outer.x <= self.x
        &&& outer.y <= self.y
        &&& self.x + self.width <= outer.right()
        &&& self.y + self.height <= outer.bottom()
    }
}

/// Whether a part of a divided area keeps the extent across the division, and stays within the
/// area along it.
pub open spec fn is_part(axis: Axis, area: Area, part: Area) -> bool {
    match axis {
        Axis::Horizontal => {
            &&& part.y == area.y
            &&& part.height == area.height
            &&& area.x <= part.x
            &&& part.x + part.width <= area.right()
        },
        Axis::Vertical => {
            &&& part.x == area.x
            &&& part.width == area.width
            &&& area.y <= part.y
            &&& part.y + part.height <= area.bottom()
        },
    }
}

impl Part {
    /// Whether the part takes a share of the room that the others leave.
    pub open spec fn flexible(self) -> bool {
        self == Part::Min(0) || self == Part::Fill(1)
    }
}

/// The cells that the parts of a fixed length take together.
pub open spec fn fixed_cells(sizes: Seq<Part>) -> int
    decreases sizes.len(),
{
    if sizes.len() == 0 {
        0
    } else {
        fixed_cells(sizes.drop_last()) + match sizes.last() {
            Part::Length(n) => n as int,
            _ => 0,
        }
    }
}

/// Whether up to three sizes, each a fixed length or flexible, can all come true: the fixed
/// lengths fit into the area, and a flexible part takes what they leave.
pub open spec fn has_room(axis: Axis, sizes: Seq<Part>, area: Area) -> bool {
    &&& sizes.len() <= 3
    &&& forall|i: int|
        0 <= i < sizes.len() ==> (#[trigger] sizes[i]) is Length || sizes[i].flexible()
    &&& exists|i: int| 0 <= i < sizes.len() && (#[trigger] sizes[i]).flexible()
    &&& fixed_cells(sizes) <= area.extent(axis)
}

/// How many parts are flexible.
pub open spec fn flexible_parts(sizes: Seq<Part>) -> int
    decreases sizes.len(),
{
    if sizes.len() == 0 {
        0
    } else {
        flexible_parts(sizes.drop_last()) + if sizes.last().flexible() {
            1int
        } else {
            0
        }
    }
}

/// The percentages that are asked for, taken together.
pub open spec fn percents(sizes: Seq<Part>) -> int
    decreases sizes.len(),
{
    if sizes.len() == 0 {
        0
    } else {
        percents(sizes.drop_last()) + match sizes.last() {
            Part::Percentage(n) => n as int,
            _ => 0,
        }
    }
}

/// Whether up to three sizes are shares of the area that can all come true.
pub open spec fn shares_fit(sizes: Seq<Part>) -> bool {
    &&& sizes.len() <= 3
    &&& forall|i: int| 0 <= i < sizes.len() ==> (#[trigger] sizes[i]) is Percentage
    &&& percents(sizes) <= 100
}

/// The whole number next to `a / b`; a half goes up.
pub open spec fn rounded(a: int, b: int) -> int {
    (2 * a + b) / (2 * b)
}

/// So many percent of `cells`, as the next whole number; a half goes up.
pub open spec fn percent_of(percent: int, cells: int) -> int {
    (percent * cells + 50) / 100
}

/// Where the part `k` starts, and the one before it ends, in an area where the sizes come true.
///
/// Fixed lengths are kept, and the flexible parts share what they leave alike. Percentages are
/// those of the whole area. An edge that falls inside a cell moves to the nearer end of the cell,
/// from its middle to the far one.
pub open spec fn edge(axis: Axis, sizes: Seq<Part>, area: Area, k: int) -> int {
    let before = sizes.take(k);
    if has_room(axis, sizes, area) {
        area.start(axis) + fixed_cells(before) + rounded(
            flexible_parts(before) * (area.extent(axis) - fixed_cells(sizes)),
            flexible_parts(sizes),
        )
    } else {
        area.start(axis) + percent_of(percents(before), area.extent(axis))
    }
}

/// Whether `Layout::split` can divide the area into these parts, where these sizes are wanted.
///
/// The sizes are wishes, and where they cannot all come true there can be more than one outcome:
/// the solver underneath walks hash tables whose order differs from process to process. So this
/// relates the arguments to the outcomes and singles none of them out.
pub uninterp spec fn can_split(axis: Axis, sizes: Seq<Part>, area: Area, parts: Seq<Area>) -> bool;

/// `Layout::split`: divides the area into one part for each size that is wanted. Every part keeps
/// the extent across the division and stays within the area along it. Where all lengths can be
/// kept with something flexible beside them, or all sizes are percentages of no more than the whole
/// area, the sizes come true and every part lies between its two edges. How far other sizes come
/// true is left to the solver underneath; its outcomes are told apart by [`can_split`].
#[verifier::external_body]
fn split(axis: Axis, sizes: &Vec<Part>, area: Area) -> (r: Vec<Area>)
    ensures
        can_split(axis, sizes@, area, r@),
        r@.len() == sizes@.len(),
        forall|i: int| 0 <= i < r@.len() ==> is_part(axis, area, #[trigger] r@[i]),
        has_room(axis, sizes@, area) || shares_fit(sizes@) ==> forall|i: int|
            0 <= i < r@.len() ==> (#[trigger] r@[i]).start(axis) == edge(axis, sizes@, area, i)
                && r@[i].end(axis) == edge(axis, sizes@, area, i + 1),
{
    let direction = match axis {
        Axis::Horizontal => Direction::Horizontal,
        Axis::Vertical => Direction::Vertical,
    };
    let constraints = sizes.iter().map(|size| match *size {
        Part::Length(n) => Constraint::Length(n),
        Part::Min(n) => Constraint::Min(n),
        Part::Percentage(n) => Constraint::Percentage(n),
        Part::Fill(n) => Constraint::Fill(n),
    });
    let Area { x, y, width, height } = area;
    let parts = Layout::new(direction, constraints).split(Rect { x, y, width, height });
    parts.iter().map(|r| Area { x: r.x, y: r.y, width: r.width, height: r.height }).collect()
}

/// The rows that the screen is divided into: the header, the table and the status line.
pub open spec fn screen_sizes() -> Seq<Part> {
    seq![Part::Length(1), Part::Min(0), Part::Length(1)]
}

/// The rows that center a box of `rows` rows, or of the whole `height` where that is less.
pub open spec fn centering_row_sizes(rows: u16, height: u16) -> Seq<Part> {
    seq![
        Part::Fill(1),
        Part::Length(if rows <= height { rows } else { height }),
        Part::Fill(1),
    ]
}

/// The columns that center a box of `pct_x` percent of the width.
pub open spec fn centering_column_sizes(pct_x: u16) -> Seq<Part> {
    seq![
        Part::Percentage(((100 - pct_x) / 2) as u16),
        Part::Percentage(pct_x),
        Part::Percentage(((100 - pct_x) / 2) as u16),
    ]
}

/// Whether an area is one that centering a box can give: the middle of three columns, in the
/// middle of three rows.
pub open spec fn is_centered(pct_x: u16, rows: u16, area: Area, r: Area) -> bool {
    exists|bands: Seq<Area>, boxes: Seq<Area>|
        {
            &&& #[trigger] can_split(
                Axis::Vertical,
                centering_row_sizes(rows, area.height),
                area,
                bands,
            )
            &&& #[trigger] can_split(
                Axis::Horizontal,
                centering_column_sizes(pct_x),
                bands[1],
                boxes,
            )
            &&& r == boxes[1]
        }
}

/// The rows that the screen is divided into: the header, the table and the status line.
pub fn screen_rows() -> (r: Vec<Part>)
    ensures
        r@ == screen_sizes(),
{
    let r: Vec<Part> = vec![Part::Length(1), Part::Min(0), Part::Length(1)];
    assert(r@ =~= screen_sizes());
    r
}

/// Divides the screen into the areas of the header, the table and the status line. The header and
/// the status line are one row each, at the top and at the bottom, and the table is between them.
/// How a screen of a single row is divided is left open.
pub fn screen_areas(screen: Area) -> (r: Vec<Area>)
    ensures
        can_split(Axis::Vertical, screen_sizes(), screen, r@),
        r@.len() == 3,
        forall|i: int| 0 <= i < 3 ==> is_part(Axis::Vertical, screen, #[trigger] r@[i]),
        screen.extent(Axis::Vertical) >= 2 ==> {
            &&& r@[0] == (Area { height: 1, ..screen })
            &&& r@[1].y == screen.y + 1
            &&& r@[1].height == screen.extent(Axis::Vertical) - 2
            &&& r@[2].y == screen.bottom() - 1
            &&& r@[2].height == 1
        },
{
    let sizes: Vec<Part> = screen_rows();
    let r: Vec<Area> = split(Axis::Vertical, &sizes, screen);
    proof {
        assert(is_part(Axis::Vertical, screen, r@[0]));
        assert(is_part(Axis::Vertical, screen, r@[1]));
        assert(is_part(Axis::Vertical, screen, r@[2]));
        if screen.extent(Axis::Vertical) >= 2 {
            lemma_screen_rows(screen);
        }
    }
    r
}

/// The rows that center a box of `rows` rows, or of the whole `height` where that is less.
pub fn centering_rows(rows: u16, height: u16) -> (r: Vec<Part>)
    ensures
        r@ == centering_row_sizes(rows, height),
{
    let inner: u16 = if rows <= height {
        rows
    } else {
        height
    };
    let r: Vec<Part> = vec![Part::Fill(1), Part::Length(inner), Part::Fill(1)];
    assert(r@ =~= centering_row_sizes(rows, height));
    r
}

/// The columns that center a box of `pct_x` percent of the width.
pub fn centering_columns(pct_x: u16) -> (r: Vec<Part>)
    requires
        pct_x <= 100,
    ensures
        r@ == centering_column_sizes(pct_x),
{
    let side: u16 = (100 - pct_x) / 2;
    let middle: Part = Part::Percentage(pct_x);
    let r: Vec<Part> = vec![Part::Percentage(side), middle, Part::Percentage(side)];
    assert(r@ =~= centering_column_sizes(pct_x));
    r
}

/// The rows of a box that is `rows` tall as far as the height of the area allows.
pub open spec fn box_height(rows: u16, area: Area) -> u16 {
    if rows <= area.height {
        rows
    } else {
        area.height
    }
}

/// An area `pct_x` percent as wide as `area` and `rows` tall, centered within it, as far as the
/// space allows. Where an area that reaches past the end of the screen has no room for the rows,
/// how tall the result is, and where it starts from the top, is left open up to [`is_centered`].
pub fn centered_rect(pct_x: u16, rows: u16, area: Area) -> (r: Area)
    requires
        pct_x <= 100,
    ensures
        is_centered(pct_x, rows, area, r),
        r.within(area),
        r.x == area.x + percent_of((100 - pct_x) / 2, area.extent(Axis::Horizontal)),
        r.x + r.width == area.x + percent_of(
            (100 - pct_x) / 2 + pct_x,
            area.extent(Axis::Horizontal),
        ),
        box_height(rows, area) <= area.extent(Axis::Vertical) ==> {
            &&& r.y == area.y + rounded(area.extent(Axis::Vertical) - box_height(rows, area), 2)
            &&& r.height == box_height(rows, area)
        },
{
    let row_sizes: Vec<Part> = centering_rows(rows, area.height);
    let bands: Vec<Area> = split(Axis::Vertical, &row_sizes, area);
    let band: Area = bands[1];
    proof {
        assert(is_part(Axis::Vertical, area, bands@[1]));
        if box_height(rows, area) <= area.extent(Axis::Vertical) {
            lemma_centering_rows(rows, area);
        }
    }
    let column_sizes: Vec<Part> = centering_columns(pct_x);
    let boxes: Vec<Area> = split(Axis::Horizontal, &column_sizes, band);
    proof {
        assert(is_part(Axis::Horizontal, band, boxes@[1]));
        lemma_centering_columns(pct_x, band);
    }
    boxes[1]
}

proof fn lemma_prefixes(sizes: Seq<Part>)
    requires
        sizes.len() == 3,
    ensures
        sizes.take(0) =~= Seq::<Part>::empty(),
        sizes.take(1) =~= seq![sizes[0]],
        sizes.take(2) =~= seq![sizes[0], sizes[1]],
        sizes.take(3) =~= sizes,
        seq![sizes[0]].drop_last() =~= Seq::<Part>::empty(),
        seq![sizes[0], sizes[1]].drop_last() =~= seq![sizes[0]],
        sizes.drop_last() =~= seq![sizes[0], sizes[1]],
{
}

proof fn lemma_screen_rows(screen: Area)
    requires
        screen.extent(Axis::Vertical) >= 2,
    ensures
        has_room(Axis::Vertical, screen_sizes(), screen),
        edge(Axis::Vertical, screen_sizes(), screen, 0) == screen.y,
        edge(Axis::Vertical, screen_sizes(), screen, 1) == screen.y + 1,
        edge(Axis::Vertical, screen_sizes(), screen, 2) == screen.bottom() - 1,
        edge(Axis::Vertical, screen_sizes(), screen, 3) == screen.bottom(),
{
    let sizes = screen_sizes();
    lemma_prefixes(sizes);
    reveal_with_fuel(fixed_cells, 4);
    reveal_with_fuel(flexible_parts, 4);
    assert(sizes[1].flexible());
    let rest = screen.extent(Axis::Vertical) - fixed_cells(sizes);
    lemma_one_share(flexible_parts(sizes.take(2)), rest);
    lemma_one_share(flexible_parts(sizes), rest);
    assert(rounded(0, flexible_parts(sizes)) == rounded(0, 1));
    assert(rounded(rest, flexible_parts(sizes)) == rounded(rest, 1));
}

proof fn lemma_one_share(shares: int, rest: int)
    requires
        shares == 1,
    ensures
        shares * rest == rest,
{
}

proof fn lemma_centering_rows(rows: u16, area: Area)
    requires
        box_height(rows, area) <= area.extent(Axis::Vertical),
    ensures
        has_room(Axis::Vertical, centering_row_sizes(rows, area.height), area),
        edge(Axis::Vertical, centering_row_sizes(rows, area.height), area, 1) == area.y + rounded(
            area.extent(Axis::Vertical) - box_height(rows, area),
            2,
        ),
        edge(Axis::Vertical, centering_row_sizes(rows, area.height), area, 2) == area.y + rounded(
            area.extent(Axis::Vertical) - box_height(rows, area),
            2,
        ) + box_height(rows, area),
{
    let sizes = centering_row_sizes(rows, area.height);
    lemma_prefixes(sizes);
    reveal_with_fuel(fixed_cells, 4);
    reveal_with_fuel(flexible_parts, 4);
    assert(sizes[0].flexible());
    let rest = area.extent(Axis::Vertical) - fixed_cells(sizes);
    lemma_one_share(flexible_parts(sizes.take(1)), rest);
    lemma_one_share(flexible_parts(sizes.take(2)), rest);
    assert(rounded(rest, flexible_parts(sizes)) == rounded(rest, 2));
}

proof fn lemma_centering_columns(pct_x: u16, area: Area)
    requires
        pct_x <= 100,
    ensures
        shares_fit(centering_column_sizes(pct_x)),
        edge(Axis::Horizontal, centering_column_sizes(pct_x), area, 1) == area.x + percent_of(
            (100 - pct_x) / 2,
            area.extent(Axis::Horizontal),
        ),
        edge(Axis::Horizontal, centering_column_sizes(pct_x), area, 2) == area.x + percent_of(
            (100 - pct_x) / 2 + pct_x,
            area.extent(Axis::Horizontal),
        ),
{
    let sizes = centering_column_sizes(pct_x);
    lemma_prefixes(sizes);
    reveal_with_fuel(percents, 4);
}

/// Rounding goes to the whole number next to a fraction: no more than half away, and up from a
/// half.
pub proof fn law_rounding(a: int, b: int)
    requires
        b > 0,
    ensures
        2 * b * rounded(a, b) - b <= 2 * a < 2 * b * rounded(a, b) + b,
{
    vstd::arithmetic::div_mod::lemma_fundamental_div_mod(2 * a + b, 2 * b);
    vstd::arithmetic::div_mod::lemma_mod_bound(2 * a + b, 2 * b);
}

/// A share in percent is the whole number of cells next to it, no more than half a cell away, and
/// up from a half.
pub proof fn law_shares_are_rounded(percent: int, cells: int)
    ensures
        -50 <= percent * cells - percent_of(percent, cells) * 100 < 50,
{
}

/// A box is as tall as it is asked to be, and no taller than the area.
pub proof fn law_box_height(rows: u16, area: Area)
    ensures
        rows <= area.height ==> box_height(rows, area) == rows,
        rows >= area.height ==> box_height(rows, area) == area.height,
{
}

} // verus!
