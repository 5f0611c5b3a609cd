//! The grid of character cells that the screens are drawn on.
//!
//! The grid itself is ratatui's `Buffer`. What it holds is spoken of through
//! [`buffer_cells`] and [`buffer_area`]; the functions of this module say what each of
//! ratatui's widgets does to it.

use crate::wrap::texts;
use ratatui::buffer::{Buffer, CellWidth};
use ratatui::layout::Rect as Area;
use ratatui::layout::{Constraint, Layout};
use ratatui::style::Color as Paint;
use ratatui::style::{Modifier, Style};
use ratatui::text::{Line, Span, Text};
use ratatui::widgets::{Block, Clear, Paragraph, Widget};
use vstd::prelude::*;

verus! {

/// A rectangle of cells: its upper left corner and its size.
#[derive(Clone, Copy, Debug, PartialEq, Eq, Structural)]
pub struct Rect {
    pub x: u16,
    pub y: u16,
    pub width: u16,
    pub height: u16,
}

impl Rect {
    /// The first column to the right of the rectangle, or the last column there is.
    pub open spec fn right(self) -> int {
        if self.x + self.width <= u16::MAX {
            self.x + self.width
        } else {
            u16::MAX as int
        }
    }

    /// The first row below the rectangle, or the last row there is.
    pub open spec fn bottom(self) -> int {
        if self.y + self.height <= u16::MAX {
            self.y + self.height
        } else {
            u16::MAX as int
        }
    }

    /// Whether the cell in column `p.0` and row `p.1` lies in the rectangle.
    pub open spec fn has(self, p: (u16, u16)) -> bool {
        self.x <= p.0 < self.right() && self.y <= p.1 < self.bottom()
    }

    /// Whether every cell of the rectangle lies in `outer`.
    pub open spec fn within(self, outer: Rect) -> bool {
        forall|p: (u16, u16)| #[trigger] self.has(p) ==> outer.has(p)
    }

    /// The cells that both rectangles have.
    pub open spec fn meet(self, other: Rect) -> Rect {
        let x = if self.x >= other.x { self.x } else { other.x };
        let y = if self.y >= other.y { self.y } else { other.y };
        let right = if self.right() <= other.right() { self.right() } else { other.right() };
        let bottom = if self.bottom() <= other.bottom() { self.bottom() } else { other.bottom() };
        Rect {
            x,
            y,
            width: if x <= right { (right - x) as u16 } else { 0 },
            height: if y <= bottom { (bottom - y) as u16 } else { 0 },
        }
    }

    /// The rectangle cut into `length` rows and the rows below them, of which there are
    /// at least `least` where the rectangle has that many.
    pub open spec fn cut_rows(self, length: u16, least: u16) -> (Rect, Rect) {
        let rows = self.bottom() - self.y;
        let room = if rows >= least { rows - least } else { 0 };
        let head = if length <= room { length as int } else { room };
        (
            Rect { x: self.x, y: self.y, width: self.width, height: head as u16 },
            Rect {
                x: self.x,
                y: (self.y + head) as u16,
                width: self.width,
                height: (rows - head) as u16,
            },
        )
    }

    /// The rectangle that is left inside a border of one cell on each side.
    pub open spec fn inside(self) -> Rect {
        Rect {
            x: if self.x + 1 <= self.right() { (self.x + 1) as u16 } else { self.x },
            y: if self.y + 1 <= self.bottom() { (self.y + 1) as u16 } else { self.y },
            width: if self.width >= 2 { (self.width - 2) as u16 } else { 0 },
            height: if self.height >= 2 { (self.height - 2) as u16 } else { 0 },
        }
    }
}

impl Rect {
    /// The cells that both rectangles have.
    pub fn intersection(&self, other: Rect) -> (both: Rect)
        ensures
            both == self.meet(other),
    {
        let x: u16 = if self.x >= other.x {
            self.x
        } else {
            other.x
        };
        let y: u16 = if self.y >= other.y {
            self.y
        } else {
            other.y
        };
        let right_here: u16 = self.x.saturating_add(self.width);
        let right_there: u16 = other.x.saturating_add(other.width);
        let right: u16 = if right_here <= right_there {
            right_here
        } else {
            right_there
        };
        let bottom_here: u16 = self.y.saturating_add(self.height);
        let bottom_there: u16 = other.y.saturating_add(other.height);
        let bottom: u16 = if bottom_here <= bottom_there {
            bottom_here
        } else {
            bottom_there
        };
        Rect { x, y, width: right.saturating_sub(x), height: bottom.saturating_sub(y) }
    }
}

/// A colour: one that the terminal's own theme decides, or a mix of red, green and blue.
#[derive(Clone, Copy, Debug, PartialEq, Eq, Structural)]
pub enum Color {
    Reset,
    Red,
    Green,
    Gray,
    DarkGray,
    Rgb(u8, u8, u8),
}

/// What is seen of a cell: its symbol, its colours and whether it is bold. A colour is
/// `None` where it is none of [`Color`]'s.
pub ghost struct CellView {
    pub symbol: Seq<char>,
    pub fg: Option<Color>,
    pub bg: Option<Color>,
    pub bold: bool,
}

/// An empty cell: a space in the terminal's own colours.
pub open spec fn blank() -> CellView {
    CellView { symbol: seq![' '], fg: Some(Color::Reset), bg: Some(Color::Reset), bold: false }
}

/// The cells of a grid, by column and row.
pub type Cells = Map<(u16, u16), CellView>;

#[verifier::external_type_specification]
#[verifier::external_body]
pub struct ExBuffer(ratatui::buffer::Buffer);

/// The cells of `buf`: for each position at which `Buffer::cell` finds a cell, what that
/// cell shows.
pub uninterp spec fn buffer_cells(buf: Buffer) -> Map<(u16, u16), CellView>;

/// The area that `buf` was made for: its field `area`.
pub uninterp spec fn buffer_area(buf: Buffer) -> Rect;

/// Whether widgets can draw on `buf`: it has a cell for every position of its area.
pub open spec fn paintable(buf: Buffer) -> bool {
    forall|p: (u16, u16)| #[trigger]
        buffer_cells(buf).dom().contains(p) <==> buffer_area(buf).has(p)
}

/// `cells` with every cell of `area` emptied.
pub open spec fn cleared(cells: Cells, area: Rect) -> Cells {
    Map::new(
        |p: (u16, u16)| cells.dom().contains(p),
        |p: (u16, u16)|
            if area.has(p) {
                blank()
            } else {
                cells[p]
            },
    )
}

/// Whether nothing but the cells of `area` may differ between `before` and `after`.
pub open spec fn only_within(before: Cells, after: Cells, area: Rect) -> bool {
    forall|p: (u16, u16)| #[trigger]
        before.dom().contains(p) && !area.has(p) ==> after[p] == before[p]
}

/// Whether the cell at `p` is on the edge of `area`.
pub open spec fn on_edge(area: Rect, p: (u16, u16)) -> bool {
    area.has(p) && (p.0 == area.x || p.0 == area.right() - 1 || p.1 == area.y || p.1
        == area.bottom() - 1)
}

/// The piece of a border that the edge cell `p` of `area` shows.
pub open spec fn edge_symbol(area: Rect, p: (u16, u16)) -> char {
    if p.0 == area.x && p.1 == area.y {
        '┌'
    } else if p.0 == area.x && p.1 == area.bottom() - 1 {
        '└'
    } else if p.0 == area.right() - 1 && p.1 == area.y {
        '┐'
    } else if p.0 == area.right() - 1 && p.1 == area.bottom() - 1 {
        '┘'
    } else if p.0 == area.x || p.0 == area.right() - 1 {
        '│'
    } else {
        '─'
    }
}

/// `cells` with a border around `area`.
pub open spec fn bordered(cells: Cells, area: Rect, color: Color) -> Cells {
    Map::new(
        |p: (u16, u16)| cells.dom().contains(p),
        |p: (u16, u16)|
            if on_edge(area, p) {
                CellView { symbol: seq![edge_symbol(area, p)], fg: Some(color), ..cells[p] }
            } else {
                cells[p]
            },
    )
}

/// A line of text in one style.
#[derive(Debug)]
pub struct TextLine {
    pub text: String,
    pub fg: Color,
    pub bold: bool,
}

/// A line of text by its characters; without a colour of its own it keeps the one that
/// the cells have.
pub ghost struct LineView {
    pub text: Seq<char>,
    pub fg: Option<Color>,
    pub bold: bool,
}

impl View for TextLine {
    type V = LineView;

    open spec fn view(&self) -> LineView {
        LineView { text: self.text@, fg: Some(self.fg), bold: self.bold }
    }
}

/// Rows as lines in the colour that the cells have.
pub open spec fn plain_lines(rows: Seq<Seq<char>>) -> Seq<LineView> {
    rows.map_values(|row: Seq<char>| LineView { text: row, fg: None, bold: false })
}

/// Lines of text by their characters.
pub open spec fn line_views(lines: Seq<TextLine>) -> Seq<LineView> {
    lines.map_values(|line: TextLine| line@)
}

/// How many columns ratatui gives to each character of `text` that a reader sees, which
/// may be made of several `char`s; control characters are left out.
pub uninterp spec fn grapheme_widths(text: Seq<char>) -> Seq<u16>;

/// Whether a line of characters with these widths can be cut off at `limit` columns, of
/// which `used` are taken, in 16 bits: up to the first one that no longer fits, no sum of
/// widths overflows. Characters that are wider than the limit are left out.
pub open spec fn sums_fit(widths: Seq<u16>, limit: u16, used: int) -> bool
    decreases widths.len(),
{
    if widths.len() == 0 {
        true
    } else if widths[0] > limit {
        sums_fit(widths.skip(1), limit, used)
    } else if used + widths[0] > limit {
        used + widths[0] <= u16::MAX
    } else {
        sums_fit(widths.skip(1), limit, used + widths[0])
    }
}

/// Whether the lines of `lines` that `area` has rows for can be drawn into it, on a buffer
/// for `bounds`. On up to `i16::MAX` columns that is so of every text.
pub open spec fn writable(bounds: Rect, area: Rect, lines: Seq<LineView>) -> bool {
    let shown = area.meet(bounds);
    forall|i: int|
        0 <= i < lines.len() && i < shown.height ==> sums_fit(
            grapheme_widths((#[trigger] lines[i]).text),
            shown.width,
            0,
        )
}

/// What ratatui's `Paragraph` makes of `cells`, the cells of a buffer for `bounds`, when
/// it draws `lines` into `area` from the top: each line is cut off at the right edge, and
/// set in the middle where `centered`; every cell of the area takes the colour `fg` first.
pub uninterp spec fn paragraph(
    cells: Map<(u16, u16), CellView>,
    bounds: Rect,
    area: Rect,
    lines: Seq<LineView>,
    fg: Option<Color>,
    centered: bool,
) -> Map<(u16, u16), CellView>;

/// Clearing and bordering leave the positions of a grid as they are.
pub proof fn lemma_drawing_keeps_positions(cells: Cells, area: Rect, color: Color)
    ensures
        cleared(cells, area).dom() == cells.dom(),
        bordered(cells, area, color).dom() == cells.dom(),
{
    assert(cleared(cells, area).dom() =~= cells.dom());
    assert(bordered(cells, area, color).dom() =~= cells.dom());
}

/// Where the limit is at most `i16::MAX`, two widths within it never overflow.
proof fn lemma_short_sums_fit(widths: Seq<u16>, limit: u16, used: int)
    requires
        limit <= i16::MAX,
        used <= limit,
    ensures
        sums_fit(widths, limit, used),
    decreases widths.len(),
{
    if widths.len() > 0 {
        if widths[0] > limit {
            lemma_short_sums_fit(widths.skip(1), limit, used);
        } else if used + widths[0] <= limit {
            lemma_short_sums_fit(widths.skip(1), limit, used + widths[0]);
        }
    }
}

/// On up to `i16::MAX` columns every text can be drawn.
pub proof fn law_narrow_areas_take_any_text(bounds: Rect, area: Rect, lines: Seq<LineView>)
    requires
        area.width <= i16::MAX || bounds.width <= i16::MAX,
    ensures
        writable(bounds, area, lines),
{
    let shown = area.meet(bounds);
    assert forall|i: int| 0 <= i < lines.len() && i < shown.height implies sums_fit(
        grapheme_widths((#[trigger] lines[i]).text),
        shown.width,
        0,
    ) by {
        lemma_short_sums_fit(grapheme_widths(lines[i].text), shown.width, 0);
    }
}

/// The columns that each character of `text` takes.
///
/// Calls `Line::styled_graphemes`, and `CellWidth::cell_width` of each symbol that it
/// hands out. Trusted: the widths are [`grapheme_widths`] of the text.
#[verifier::external_body]
pub(crate) fn widths_of(text: &str) -> (widths: Vec<u16>)
    ensures
        widths@ == grapheme_widths(text@),
{
    let line = Line::from(text);
    let widths = line.styled_graphemes(Style::new()).map(|g| g.symbol.cell_width()).collect();
    widths
}

/// Whether `text` can be cut off at `limit` columns without an overflow.
pub(crate) fn line_fits(text: &str, limit: u16) -> (fits: bool)
    ensures
        fits == sums_fit(grapheme_widths(text@), limit, 0),
{
    let widths = widths_of(text);
    let mut used: u16 = 0;
    let mut i: usize = 0;
    proof {
        assert(widths@.skip(0) =~= widths@);
    }
    while i < widths.len()
        invariant
            i <= widths.len(),
            used <= limit,
            widths@ == grapheme_widths(text@),
            sums_fit(widths@, limit, 0) == sums_fit(widths@.skip(i as int), limit, used as int),
        decreases widths.len() - i,
    {
        let width: u16 = widths[i];
        proof {
            assert(widths@.skip(i as int)[0] == width);
            assert(widths@.skip(i as int).skip(1) =~= widths@.skip(i + 1));
        }
        if width <= limit {
            if width > limit - used {
                return width <= u16::MAX - used;
            }
            used = used + width;
        }
        i = i + 1;
    }
    true
}

/// Cuts `area` into `length` rows and the rows below them, at least `least` of them where
/// there are that many.
///
/// Calls `Layout::areas` of a vertical layout of `Constraint::Length` and
/// `Constraint::Min`. Trusted: the two parts fill the area from top to bottom; the lower
/// one gets its least number of rows first, the upper one its length from what is left,
/// and the lower one the rest.
#[verifier::external_body]
pub(crate) fn cut_rows(area: Rect, length: u16, least: u16) -> (parts: (Rect, Rect))
    requires
        least <= i16::MAX,
    ensures
        parts == area.cut_rows(length, least),
{
    let Rect { x, y, width, height } = area;
    let [a, b] = Layout::vertical([Constraint::Length(length), Constraint::Min(least)]).areas(
        Area { x, y, width, height },
    );
    (
        Rect { x: a.x, y: a.y, width: a.width, height: a.height },
        Rect { x: b.x, y: b.y, width: b.width, height: b.height },
    )
}

/// The rectangle that is left inside a border around `area`.
///
/// Calls `Block::inner` of a `Block::bordered`. Trusted: the border takes one cell on each
/// side, as far as there are any.
#[verifier::external_body]
pub(crate) fn inside_border(area: Rect) -> (inner: Rect)
    ensures
        inner == area.inside(),
{
    let Rect { x, y, width, height } = area;
    let i = Block::bordered().inner(Area { x, y, width, height });
    Rect { x: i.x, y: i.y, width: i.width, height: i.height }
}

/// The area that `buf` was made for.
///
/// Calls `Buffer::area`. Trusted: it hands out the field `area`, and no position outside
/// that area has a cell.
#[verifier::external_body]
pub(crate) fn grid_area(buf: &Buffer) -> (area: Rect)
    ensures
        area == buffer_area(*buf),
        forall|p: (u16, u16)| #[trigger] buffer_cells(*buf).dom().contains(p) ==> area.has(p),
{
    let a = buf.area();
    Rect { x: a.x, y: a.y, width: a.width, height: a.height }
}

/// Whether there is a cell at column `x` and row `y`.
///
/// Calls `Buffer::cell`. Trusted: it finds a cell where there is one.
#[verifier::external_body]
pub(crate) fn has_cell(buf: &Buffer, x: u16, y: u16) -> (found: bool)
    ensures
        found == buffer_cells(*buf).dom().contains((x, y)),
{
    buf.cell((x, y)).is_some()
}

/// Whether widgets can draw on `buf`.
pub fn is_paintable(buf: &Buffer) -> (yes: bool)
    ensures
        yes == paintable(*buf),
{
    let area = grid_area(buf);
    let right: u16 = area.x.saturating_add(area.width);
    let bottom: u16 = area.y.saturating_add(area.height);
    let mut y: u16 = area.y;
    while y < bottom
        invariant
            area.y <= y,
            area == buffer_area(*buf),
            right == area.right(),
            bottom == area.bottom(),
            forall|p: (u16, u16)|
                area.has(p) && p.1 < y ==> #[trigger] buffer_cells(*buf).dom().contains(p),
        decreases bottom - y,
    {
        let mut x: u16 = area.x;
        while x < right
            invariant
                area.x <= x,
                area.y <= y < bottom,
                area == buffer_area(*buf),
                right == area.right(),
                bottom == area.bottom(),
                forall|p: (u16, u16)|
                    area.has(p) && (p.1 < y || p.1 == y && p.0 < x) ==> #[trigger] buffer_cells(
                        *buf,
                    ).dom().contains(p),
            decreases right - x,
        {
            if !has_cell(buf, x, y) {
                proof {
                    assert(area.has((x, y)));
                }
                return false;
            }
            x = x + 1;
        }
        y = y + 1;
    }
    true
}

/// Empties the cell at column `x` and row `y`, where there is one.
///
/// Calls `Buffer::cell_mut` and `Cell::reset`. Trusted: a position outside the buffer is
/// left alone; inside, the cell becomes an empty one and no other cell changes.
#[verifier::external_body]
pub(crate) fn reset_cell(buf: &mut Buffer, x: u16, y: u16)
    ensures
        buffer_area(*final(buf)) == buffer_area(*old(buf)),
        buffer_cells(*final(buf)) == (if buffer_cells(*old(buf)).dom().contains((x, y)) {
            buffer_cells(*old(buf)).insert((x, y), blank())
        } else {
            buffer_cells(*old(buf))
        }),
{
    if let Some(cell) = buf.cell_mut((x, y)) {
        cell.reset();
    }
}

/// Empties every cell of `area`.
///
/// Calls the `render` of `Clear`. Trusted: the cells that `area` shares with the buffer
/// become empty ones and no other cell changes.
#[verifier::external_body]
pub(crate) fn clear_area(buf: &mut Buffer, area: Rect)
    requires
        paintable(*old(buf)),
    ensures
        buffer_area(*final(buf)) == buffer_area(*old(buf)),
        buffer_cells(*final(buf)) == cleared(buffer_cells(*old(buf)), area),
{
    let Rect { x, y, width, height } = area;
    Clear.render(Area { x, y, width, height }, buf);
}

/// Draws a border around `area`.
///
/// Calls the `render` of a `Block::bordered` with a border colour. Trusted: the part of
/// `area` that lies in the buffer gets a plain border of that colour on its edge; the
/// edge cells keep all else, and no other cell changes.
#[verifier::external_body]
pub(crate) fn draw_border(buf: &mut Buffer, area: Rect, color: Color)
    requires
        paintable(*old(buf)),
    ensures
        buffer_area(*final(buf)) == buffer_area(*old(buf)),
        buffer_cells(*final(buf)) == bordered(
            buffer_cells(*old(buf)),
            area.meet(buffer_area(*old(buf))),
            color,
        ),
{
    let Rect { x, y, width, height } = area;
    let fg = match color {
        Color::Reset => Paint::Reset,
        Color::Red => Paint::Red,
        Color::Green => Paint::Green,
        Color::Gray => Paint::Gray,
        Color::DarkGray => Paint::DarkGray,
        Color::Rgb(r, g, b) => Paint::Rgb(r, g, b),
    };
    let block = Block::bordered().border_style(Style::default().fg(fg));
    block.render(Area { x, y, width, height }, buf);
}

/// Draws `rows` into `area`, in the colour `color`, from the left.
///
/// Calls the `render` of a `Paragraph` with a style. Trusted: what becomes of the cells is
/// [`paragraph`] of what they were, of the buffer's area and of the arguments; the buffer
/// keeps its area and its positions, and only cells that `area` shares with it change.
/// Which cell shows which character is left unsaid: it follows from the widths that
/// Unicode gives to characters.
#[verifier::external_body]
pub(crate) fn draw_rows(buf: &mut Buffer, area: Rect, rows: &Vec<String>, color: Color)
    requires
        paintable(*old(buf)),
        writable(buffer_area(*old(buf)), area, plain_lines(texts(rows@))),
    ensures
        buffer_area(*final(buf)) == buffer_area(*old(buf)),
        buffer_cells(*final(buf)) == paragraph(
            buffer_cells(*old(buf)),
            buffer_area(*old(buf)),
            area,
            plain_lines(texts(rows@)),
            Some(color),
            false,
        ),
        buffer_cells(*final(buf)).dom() == buffer_cells(*old(buf)).dom(),
        only_within(
            buffer_cells(*old(buf)),
            buffer_cells(*final(buf)),
            area.meet(buffer_area(*old(buf))),
        ),
{
    let Rect { x, y, width, height } = area;
    let fg = match color {
        Color::Reset => Paint::Reset,
        Color::Red => Paint::Red,
        Color::Green => Paint::Green,
        Color::Gray => Paint::Gray,
        Color::DarkGray => Paint::DarkGray,
        Color::Rgb(r, g, b) => Paint::Rgb(r, g, b),
    };
    let text = Paragraph::new(Text::from_iter(rows.iter().map(|row| row.as_str())));
    text.style(Style::default().fg(fg)).render(Area { x, y, width, height }, buf);
}

/// Draws `lines` into `area`, each in its own style and in the middle.
///
/// Calls the `render` of a centered `Paragraph` of one `Span` per line. Trusted: as for
/// [`draw_rows`].
#[verifier::external_body]
pub(crate) fn draw_centered(buf: &mut Buffer, area: Rect, lines: &Vec<TextLine>)
    requires
        paintable(*old(buf)),
        writable(buffer_area(*old(buf)), area, line_views(lines@)),
    ensures
        buffer_area(*final(buf)) == buffer_area(*old(buf)),
        buffer_cells(*final(buf)) == paragraph(
            buffer_cells(*old(buf)),
            buffer_area(*old(buf)),
            area,
            line_views(lines@),
            None,
            true,
        ),
        buffer_cells(*final(buf)).dom() == buffer_cells(*old(buf)).dom(),
        only_within(
            buffer_cells(*old(buf)),
            buffer_cells(*final(buf)),
            area.meet(buffer_area(*old(buf))),
        ),
{
    let Rect { x, y, width, height } = area;
    let line = |l: &TextLine| {
        let fg = match l.fg {
            Color::Reset => Paint::Reset,
            Color::Red => Paint::Red,
            Color::Green => Paint::Green,
            Color::Gray => Paint::Gray,
            Color::DarkGray => Paint::DarkGray,
            Color::Rgb(r, g, b) => Paint::Rgb(r, g, b),
        };
        let style = Style::new().fg(fg).add_modifier(Modifier::from_bits_truncate(l.bold as u16));
        Line::from(Span::styled(l.text.clone(), style))
    };
    let text = Paragraph::new(Text::from_iter(lines.iter().map(line)));
    text.centered().render(Area { x, y, width, height }, buf);
}

// --- what the shapes are -----------------------------------------------------

/// A rectangle has the cells from its corner on, as many columns and rows as it is wide and
/// high, as far as there are columns and rows.
pub proof fn law_cells_of_a_rectangle(r: Rect, p: (u16, u16))
    ensures
        r.has(p) <==> {
            &&& r.x <= p.0 < r.x + r.width && p.0 < u16::MAX
            &&& r.y <= p.1 < r.y + r.height && p.1 < u16::MAX
        },
{
}

/// Two rectangles share the cells that both have.
pub proof fn law_shared_cells(a: Rect, b: Rect, p: (u16, u16))
    ensures
        a.meet(b).has(p) <==> a.has(p) && b.has(p),
        a.meet(b).x >= a.x && a.meet(b).x >= b.x,
        a.meet(b).y >= a.y && a.meet(b).y >= b.y,
        a.meet(b).width <= a.width && a.meet(b).width <= b.width,
        a.meet(b).height <= a.height && a.meet(b).height <= b.height,
{
}

/// A rectangle shares all of itself with one that it lies in.
pub proof fn law_inner_rectangle_is_shared(a: Rect, b: Rect)
    requires
        b.x <= a.x,
        b.y <= a.y,
        a.x + a.width <= b.x + b.width <= u16::MAX,
        a.y + a.height <= b.y + b.height <= u16::MAX,
    ensures
        a.meet(b) == a,
{
}

/// Inside a border are the cells that have a cell of the rectangle on every side.
pub proof fn law_cells_inside_a_border(r: Rect, p: (u16, u16))
    requires
        r.x + r.width <= u16::MAX,
        r.y + r.height <= u16::MAX,
    ensures
        r.inside().has(p) <==> {
            &&& r.x < p.0 && p.0 + 1 < r.x + r.width
            &&& r.y < p.1 && p.1 + 1 < r.y + r.height
        },
        r.width >= 2 ==> r.inside().x == r.x + 1 && r.inside().width == r.width - 2,
        r.height >= 2 ==> r.inside().y == r.y + 1 && r.inside().height == r.height - 2,
        r.width < 2 ==> r.inside().width == 0,
        r.height < 2 ==> r.inside().height == 0,
{
}

/// A rectangle cut into rows is all there, the upper part above the lower; the upper has its
/// length where the lower keeps its least, and otherwise what the lower leaves it.
pub proof fn law_cut_rows_fill_the_rectangle(r: Rect, length: u16, least: u16)
    requires
        r.y + r.height <= u16::MAX,
    ensures
        ({
            let (top, rest) = r.cut_rows(length, least);
            &&& top.x == r.x && rest.x == r.x && top.width == r.width && rest.width == r.width
            &&& top.y == r.y && rest.y == top.y + top.height
            &&& top.height + rest.height == r.height
            &&& r.height >= length + least ==> top.height == length
            &&& least <= r.height < length + least ==> rest.height == least
            &&& r.height < least ==> top.height == 0
        }),
{
}

/// An empty cell shows a space, in the terminal's own colours, and not in bold.
pub proof fn law_empty_cell()
    ensures
        blank().symbol == seq![' '],
        blank().fg == Some(Color::Reset),
        blank().bg == Some(Color::Reset),
        !blank().bold,
{
}

/// Clearing empties the cells of the area and no other.
pub proof fn law_clearing(cells: Cells, area: Rect, p: (u16, u16))
    requires
        cells.dom().contains(p),
    ensures
        cleared(cells, area).dom() == cells.dom(),
        area.has(p) ==> cleared(cells, area)[p] == blank(),
        !area.has(p) ==> cleared(cells, area)[p] == cells[p],
{
    assert(cleared(cells, area).dom() =~= cells.dom());
}

/// A border runs along the edge of its area and nowhere else: corners in the corners, and
/// between them lines up and down on the left and the right, and across above and below. A
/// cell of it keeps its background and takes the colour of the border.
pub proof fn law_border(cells: Cells, r: Rect, color: Color, p: (u16, u16))
    requires
        cells.dom().contains(p),
        r.x + r.width <= u16::MAX,
        r.y + r.height <= u16::MAX,
        r.width >= 2,
        r.height >= 2,
    ensures
        bordered(cells, r, color).dom() == cells.dom(),
        ({
            let left = p.0 == r.x;
            let right = p.0 + 1 == r.x + r.width;
            let top = p.1 == r.y;
            let bottom = p.1 + 1 == r.y + r.height;
            let across = r.x <= p.0 < r.x + r.width;
            let down = r.y <= p.1 < r.y + r.height;
            let drawn = |c: char|
                CellView {
                    symbol: seq![c],
                    fg: Some(color),
                    bg: cells[p].bg,
                    bold: cells[p].bold,
                };
            let after = bordered(cells, r, color)[p];
            &&& left && top ==> after == drawn('┌')
            &&& right && top ==> after == drawn('┐')
            &&& left && bottom ==> after == drawn('└')
            &&& right && bottom ==> after == drawn('┘')
            &&& (left || right) && down && !top && !bottom ==> after == drawn('│')
            &&& (top || bottom) && across && !left && !right ==> after == drawn('─')
            &&& !across || !down ==> after == cells[p]
            &&& !left && !right && !top && !bottom ==> after == cells[p]
        }),
{
    assert(bordered(cells, r, color).dom() =~= cells.dom());
}

/// Lines are drawn as they were given: text, colour and weight of each, in order.
pub proof fn law_lines_are_drawn_as_given(lines: Seq<TextLine>, rows: Seq<Seq<char>>, i: int)
    ensures
        line_views(lines).len() == lines.len(),
        0 <= i < lines.len() ==> line_views(lines)[i] == (LineView {
            text: lines[i].text@,
            fg: Some(lines[i].fg),
            bold: lines[i].bold,
        }),
        plain_lines(rows).len() == rows.len(),
        0 <= i < rows.len() ==> plain_lines(rows)[i] == (LineView {
            text: rows[i],
            fg: None,
            bold: false,
        }),
{
}

/// A line whose characters together take no more columns than 16 bits can hold can be cut
/// off anywhere.
pub proof fn law_short_lines_can_be_cut(widths: Seq<u16>, limit: u16, used: int)
    requires
        used >= 0,
        used + widths.fold_left(0int, |sum: int, w: u16| sum + w) <= u16::MAX,
    ensures
        sums_fit(widths, limit, used),
    decreases widths.len(),
{
    let add = |sum: int, w: u16| sum + w;
    if widths.len() > 0 {
        let rest = widths.skip(1);
        lemma_sum_from_the_front(widths);
        lemma_sum_is_positive(rest);
        if widths[0] > limit {
            law_short_lines_can_be_cut(rest, limit, used);
        } else if used + widths[0] <= limit {
            law_short_lines_can_be_cut(rest, limit, used + widths[0]);
        }
    }
}

proof fn lemma_sum_is_positive(widths: Seq<u16>)
    ensures
        widths.fold_left(0int, |sum: int, w: u16| sum + w) >= 0,
    decreases widths.len(),
{
    reveal_with_fuel(Seq::fold_left, 2);
    if widths.len() > 0 {
        lemma_sum_is_positive(widths.drop_last());
    }
}

proof fn lemma_sum_from_the_front(widths: Seq<u16>)
    requires
        widths.len() > 0,
    ensures
        widths.fold_left(0int, |sum: int, w: u16| sum + w) == widths[0] + widths.skip(1).fold_left(
            0int,
            |sum: int, w: u16| sum + w,
        ),
    decreases widths.len(),
{
    reveal_with_fuel(Seq::fold_left, 2);
    let rest = widths.skip(1);
    if widths.len() == 1 {
        assert(widths.drop_last() =~= Seq::<u16>::empty());
        assert(rest =~= Seq::<u16>::empty());
    } else {
        lemma_sum_from_the_front(widths.drop_last());
        assert(widths.drop_last().skip(1) =~= rest.drop_last());
        assert(rest.last() == widths.last());
    }
}

/// A line of characters each so narrow that one of them fits beside a full row in 16 bits
/// can be cut off, however long it is.
pub proof fn law_narrow_characters_can_be_cut(widths: Seq<u16>, limit: u16, used: int)
    requires
        0 <= used <= limit,
        forall|i: int| 0 <= i < widths.len() ==> #[trigger] widths[i] <= u16::MAX - limit,
    ensures
        sums_fit(widths, limit, used),
    decreases widths.len(),
{
    if widths.len() > 0 {
        let rest = widths.skip(1);
        assert forall|i: int| 0 <= i < rest.len() implies #[trigger] rest[i] <= u16::MAX - limit by {
            assert(rest[i] == widths[i + 1]);
        }
        if widths[0] > limit {
            law_narrow_characters_can_be_cut(rest, limit, used);
        } else if used + widths[0] <= limit {
            law_narrow_characters_can_be_cut(rest, limit, used + widths[0]);
        }
    }
}

} // verus!
