//! The screens: the page that is written on, the banners that end a session and the start
//! menu.

use crate::canvas::{blank, bordered, buffer_area, buffer_cells, cleared, line_views, paintable};
use crate::canvas::{
    clear_area, cut_rows, draw_border, draw_centered, draw_rows, grid_area, inside_border,
    is_paintable, line_fits,
};
use crate::canvas::{law_narrow_areas_take_any_text, lemma_drawing_keeps_positions};
use crate::canvas::{grapheme_widths, only_within, paragraph, plain_lines, sums_fit, writable};
use crate::canvas::{Cells, Color, LineView, Rect, TextLine};
use crate::dissolve::dissolved;
use crate::session::{App, Goal, Phase, Session, MENU_LEN};
use crate::text::{clock, decimal, fmt_dur, push_decimal, words};
use crate::theme::{border_color, fade_color, mix_color, mixed, Platform, Shade, Theme};
use crate::time::{Instant, NANOS_PER_SEC};
use crate::wrap::{texts, wrap_lines, wrapped};
use crate::wrap_laws::{law_last_row_ends_with_last_character, law_rows_fit};
use ratatui::buffer::Buffer;
use vstd::prelude::*;
use vstd::string::StringExecFns;

verus! {

/// Columns of the banner that ends a session.
pub const BANNER_WIDTH: u16 = 44;

/// Rows of the banner that ends a session.
pub const BANNER_HEIGHT: u16 = 7;

/// Columns of the start menu.
pub const MENU_WIDTH: u16 = 34;

/// Rows of the start menu: title, subtitle, blank, presets, blank and footer, and two for
/// the border.
pub const MENU_HEIGHT: u16 = 14;

/// What lies between the ends of what is under way on the page: the colours of text and
/// border while they fade (see [`Shade::settle`]), and how far the dissolve has come (see
/// [`render`](crate::dissolve::Dissolve::render)).
#[derive(Clone, Copy, Debug, PartialEq, Eq, Structural)]
pub struct Blends {
    pub text: Color,
    pub border: Color,
    pub cut: u64,
}

/// A line in one colour.
pub open spec fn colored(text: Seq<char>, fg: Color, bold: bool) -> LineView {
    LineView { text, fg: Some(fg), bold }
}

// --- the page ----------------------------------------------------------------

/// The header: what is left of a time goal and the words so far, or the words so far out
/// of those that are the goal.
pub open spec fn header(s: Session, now: Instant) -> Seq<char> {
    match s.goal {
        Goal::Time(span) => clock((span.less(s.elapsed(now)).nanos / NANOS_PER_SEC) as nat)
            + " left    ·    "@ + decimal(words(s.text)) + " words"@,
        Goal::Words(n) => decimal(words(s.text)) + " / "@ + decimal(n as nat) + " words"@,
    }
}

/// The rows of the page that an area of `width` columns and `height` rows shows: the last
/// of the rows that the text and the cursor behind it take up, `width` characters to a row.
pub open spec fn page(text: Seq<char>, width: nat, height: nat) -> Seq<Seq<char>> {
    let rows = wrapped(text.push('█'), width);
    if rows.len() > height {
        rows.skip(rows.len() - height)
    } else {
        rows
    }
}

/// The header.
pub fn header_text(app: &App, now: Instant) -> (line: String)
    ensures
        line@ == header(app@, now),
{
    let written: usize = app.word_count();
    match app.goal {
        Goal::Time(span) => {
            let left = span.saturating_sub(app.elapsed(now));
            let mut line = fmt_dur(left);
            line.append(" left    ·    ");
            push_decimal(&mut line, written as u128);
            line.append(" words");
            line
        },
        Goal::Words(n) => {
            let mut line = String::new();
            push_decimal(&mut line, written as u128);
            proof {
                assert(line@ =~= decimal(words(app.text@)));
            }
            line.append(" / ");
            push_decimal(&mut line, n as u128);
            line.append(" words");
            line
        },
    }
}

/// The rows of the page that fit on the screen. The text is wrapped here so that the
/// exact number of rows is known, and only the last screenful is kept: the cursor and the
/// newest words stay on the page no matter how long the text grows. A row is as many
/// characters as there are columns, whatever the width of the characters.
pub fn page_rows(text: &str, width: u16, height: u16) -> (rows: Vec<String>)
    ensures
        texts(rows@) == page(text@, width as nat, height as nat),
{
    let mut display = text.to_owned();
    display.push('█');
    let all = wrap_lines(display.as_str(), width as usize);
    let start: usize = all.len().saturating_sub(height as usize);
    let mut rows: Vec<String> = Vec::new();
    let mut i: usize = start;
    while i < all.len()
        invariant
            start <= i <= all.len(),
            texts(rows@) == texts(all@).subrange(start as int, i as int),
        decreases all.len() - i,
    {
        let ghost before = texts(rows@);
        rows.push(all[i].clone());
        i = i + 1;
        proof {
            assert(texts(rows@) =~= before.push(all@[i - 1]@));
            assert(texts(rows@) =~= texts(all@).subrange(start as int, i as int));
        }
    }
    proof {
        assert(texts(rows@) =~= page(text@, width as nat, height as nat));
    }
    rows
}

/// The cursor is always on the page, at the end of its last row, and the page has no more
/// rows than the screen, and no more characters in a row than the screen has columns.
pub proof fn law_cursor_stays_visible(text: Seq<char>, width: nat, height: nat)
    requires
        width > 0,
        height > 0,
    ensures
        0 < page(text, width, height).len() <= height,
        page(text, width, height).last().len() > 0,
        page(text, width, height).last().last() == '█',
        forall|i: int|
            0 <= i < page(text, width, height).len() ==> (#[trigger] page(
                text,
                width,
                height,
            )[i]).len() <= width,
{
    law_last_row_ends_with_last_character(text, '█', width);
    law_rows_fit(text.push('█'), width);
}

/// The header as it is drawn.
pub open spec fn header_lines(s: Session, theme: Theme, now: Instant) -> Seq<LineView> {
    seq![colored(header(s, now), theme.muted, false)]
}

/// The rows of the page that `inner` has room for, as they are drawn.
pub open spec fn page_lines(s: Session, inner: Rect) -> Seq<LineView> {
    plain_lines(page(s.text, inner.width as nat, inner.height as nat))
}

/// The cells with the header drawn into `area`.
pub open spec fn header_drawn(
    cells: Cells,
    bounds: Rect,
    s: Session,
    theme: Theme,
    area: Rect,
    now: Instant,
) -> Cells {
    paragraph(cells, bounds, area, header_lines(s, theme, now), None, true)
}

/// The cells with the page drawn into `area`: a border, the last rows of the text inside
/// it, and the dissolve over them while the words die.
pub open spec fn body_drawn(
    cells: Cells,
    bounds: Rect,
    s: Session,
    theme: Theme,
    area: Rect,
    blends: Blends,
    now: Instant,
) -> Cells {
    let inner = area.inside();
    let written = paragraph(
        bordered(cells, area.meet(bounds), s.border_shade(theme, now).settled(blends.border)),
        bounds,
        inner,
        page_lines(s, inner),
        Some(s.text_shade(theme, now).settled(blends.text)),
        false,
    );
    match s.death_fx {
        Some(fx) => if s.phase == Phase::Dying {
            dissolved(written, inner, fx.cut(blends.cut))
        } else {
            written
        },
        None => written,
    }
}

/// Draws the header into `area`.
pub fn draw_header(buf: &mut Buffer, app: &App, theme: &Theme, area: Rect, now: Instant)
    requires
        paintable(*old(buf)),
        writable(buffer_area(*old(buf)), area, header_lines(app@, *theme, now)),
    ensures
        paintable(*final(buf)),
        buffer_area(*final(buf)) == buffer_area(*old(buf)),
        buffer_cells(*final(buf)) == header_drawn(
            buffer_cells(*old(buf)),
            buffer_area(*old(buf)),
            app@,
            *theme,
            area,
            now,
        ),
        only_within(buffer_cells(*old(buf)), buffer_cells(*final(buf)), area),
{
    let mut lines: Vec<TextLine> = Vec::new();
    lines.push(TextLine { text: header_text(app, now), fg: theme.muted, bold: false });
    proof {
        assert(line_views(lines@) =~= header_lines(app@, *theme, now));
    }
    draw_centered(buf, area, &lines);
}

/// Draws the page into `area`.
pub fn draw_body(
    buf: &mut Buffer,
    app: &App,
    theme: &Theme,
    area: Rect,
    blends: Blends,
    now: Instant,
)
    requires
        paintable(*old(buf)),
        writable(buffer_area(*old(buf)), area.inside(), page_lines(app@, area.inside())),
    ensures
        paintable(*final(buf)),
        buffer_area(*final(buf)) == buffer_area(*old(buf)),
        buffer_cells(*final(buf)) == body_drawn(
            buffer_cells(*old(buf)),
            buffer_area(*old(buf)),
            app@,
            *theme,
            area,
            blends,
            now,
        ),
        only_within(buffer_cells(*old(buf)), buffer_cells(*final(buf)), area),
{
    let border: Color = border_color(app, theme, now).settle(blends.border);
    let fg: Color = fade_color(app, theme, now).settle(blends.text);
    proof {
        lemma_drawing_keeps_positions(buffer_cells(*buf), area.meet(buffer_area(*buf)), border);
    }
    let inner = inside_border(area);
    draw_border(buf, area, border);
    let rows = page_rows(app.text.as_str(), inner.width, inner.height);
    draw_rows(buf, inner, &rows, fg);
    // On game over, dissolve the rendered text away before the banner appears.
    if app.phase == Phase::Dying {
        if let Some(fx) = &app.death_fx {
            fx.render(buf, inner, blends.cut);
        }
    }
}

// --- panels ------------------------------------------------------------------

/// Whether a panel of at most `width` columns and `height` rows in the middle of `area`
/// begins at a position that there is.
pub open spec fn has_middle(area: Rect, width: u16, height: u16) -> bool {
    &&& area.x + (area.width - least(width, area.width)) / 2 <= u16::MAX
    &&& area.y + (area.height - least(height, area.height)) / 2 <= u16::MAX
}

/// The smaller one.
pub open spec fn least(a: u16, b: u16) -> u16 {
    if a <= b {
        a
    } else {
        b
    }
}

/// The panel of at most `width` columns and `height` rows in the middle of `area`.
pub open spec fn middle(area: Rect, width: u16, height: u16) -> Rect {
    let w = least(width, area.width);
    let h = least(height, area.height);
    Rect {
        x: (area.x + (area.width - w) / 2) as u16,
        y: (area.y + (area.height - h) / 2) as u16,
        width: w,
        height: h,
    }
}

/// Whether a panel in the middle of `area` begins at a position that there is.
fn fits_middle(area: Rect, width: u16, height: u16) -> (fits: bool)
    ensures
        fits == has_middle(area, width, height),
{
    let w: u16 = if width <= area.width {
        width
    } else {
        area.width
    };
    let h: u16 = if height <= area.height {
        height
    } else {
        area.height
    };
    (area.width - w) / 2 <= u16::MAX - area.x && (area.height - h) / 2 <= u16::MAX - area.y
}

/// The panel of at most `width` columns and `height` rows in the middle of `area`.
pub fn middle_of(area: Rect, width: u16, height: u16) -> (panel: Rect)
    requires
        has_middle(area, width, height),
    ensures
        panel == middle(area, width, height),
{
    let w: u16 = if width <= area.width {
        width
    } else {
        area.width
    };
    let h: u16 = if height <= area.height {
        height
    } else {
        area.height
    };
    Rect {
        x: area.x + (area.width - w) / 2,
        y: area.y + (area.height - h) / 2,
        width: w,
        height: h,
    }
}

/// A panel stays inside the area it stands in the middle of, and as far from the left edge
/// as from the right one, and from the top as from the bottom, give or take a cell.
pub proof fn law_panel_stands_in_the_middle(area: Rect, width: u16, height: u16)
    requires
        area.x + area.width <= u16::MAX,
        area.y + area.height <= u16::MAX,
    ensures
        has_middle(area, width, height),
        middle(area, width, height).within(area),
        ({
            let panel = middle(area, width, height);
            let left = panel.x - area.x;
            let right = area.right() - panel.right();
            let above = panel.y - area.y;
            let below = area.bottom() - panel.bottom();
            left <= right <= left + 1 && above <= below <= above + 1
        }),
{
}

/// The cells with a panel in place of `rect`: emptied, bordered, and `lines` in it.
pub open spec fn panel_drawn(
    cells: Cells,
    bounds: Rect,
    rect: Rect,
    lines: Seq<LineView>,
    border: Color,
) -> Cells {
    let shown = rect.meet(bounds);
    paragraph(
        bordered(cleared(cells, rect), shown, border),
        bounds,
        shown.inside(),
        lines,
        None,
        true,
    )
}

/// Draws a panel in place of `rect`.
fn draw_panel(buf: &mut Buffer, rect: Rect, lines: &Vec<TextLine>, border: Color)
    requires
        paintable(*old(buf)),
        rect.width <= i16::MAX,
    ensures
        paintable(*final(buf)),
        buffer_area(*final(buf)) == buffer_area(*old(buf)),
        buffer_cells(*final(buf)) == panel_drawn(
            buffer_cells(*old(buf)),
            buffer_area(*old(buf)),
            rect,
            line_views(lines@),
            border,
        ),
        only_within(buffer_cells(*old(buf)), buffer_cells(*final(buf)), rect),
{
    let shown = rect.intersection(grid_area(buf));
    proof {
        let cells = buffer_cells(*buf);
        lemma_drawing_keeps_positions(cells, rect, border);
        lemma_drawing_keeps_positions(cleared(cells, rect), shown, border);
        law_narrow_areas_take_any_text(buffer_area(*buf), shown.inside(), line_views(lines@));
    }
    clear_area(buf, rect);
    draw_border(buf, rect, border);
    draw_centered(buf, inside_border(shown), lines);
}

/// Appends a line.
fn push_line(lines: &mut Vec<TextLine>, text: String, fg: Color, bold: bool)
    ensures
        line_views(final(lines)@) == line_views(old(lines)@).push(colored(text@, fg, bold)),
{
    let ghost before = line_views(lines@);
    lines.push(TextLine { text, fg, bold });
    proof {
        assert(line_views(lines@) =~= before.push(colored(text@, fg, bold)));
    }
}

// --- the end -----------------------------------------------------------------

/// The colour of the banner that ends a session.
pub open spec fn accent(theme: Theme, dead: bool) -> Color {
    if dead {
        theme.lost
    } else {
        theme.won
    }
}

/// The title of the banner that ends a session.
pub open spec fn banner_title(dead: bool) -> Seq<char> {
    if dead {
        "YOUR WORDS ARE GONE"@
    } else {
        "YOU SURVIVED"@
    }
}

/// What the banner tells of the session.
pub open spec fn banner_detail(s: Session, dead: bool, now: Instant) -> Seq<char> {
    if dead {
        decimal(s.lost_words) + " words lost · lasted "@ + clock(
            (s.elapsed(now).nanos / NANOS_PER_SEC) as nat,
        )
    } else {
        decimal(words(s.text)) + " words written"@
    }
}

/// The keys that the banner offers. The terminal can quit and its restart replays the same
/// goal; the web build can't close its own tab, and its restart returns to the menu.
pub open spec fn banner_hint(platform: Platform, dead: bool, copied: bool) -> Seq<char> {
    match platform {
        Platform::Native => if dead {
            "r restart    q quit"@
        } else if copied {
            "copied ✓    q quit"@
        } else {
            "c copy    q quit"@
        },
        Platform::Web => if dead {
            "r menu"@
        } else if copied {
            "copied ✓    r menu"@
        } else {
            "c copy    r menu"@
        },
    }
}

/// The lines of the banner that ends a session.
pub open spec fn banner(s: Session, platform: Platform, dead: bool, now: Instant) -> Seq<LineView> {
    let theme = Theme::on(platform);
    seq![
        colored(Seq::empty(), Color::Reset, false),
        colored(banner_title(dead), accent(theme, dead), true),
        colored(banner_detail(s, dead, now), theme.detail, false),
        colored(Seq::empty(), Color::Reset, false),
        colored(banner_hint(platform, dead, s.copied), theme.muted, false),
    ]
}

/// The keys that the banner offers.
fn hint_text(platform: Platform, dead: bool, copied: bool) -> (hint: String)
    ensures
        hint@ == banner_hint(platform, dead, copied),
{
    match platform {
        Platform::Native => if dead {
            "r restart    q quit".to_owned()
        } else if copied {
            "copied ✓    q quit".to_owned()
        } else {
            "c copy    q quit".to_owned()
        },
        Platform::Web => if dead {
            "r menu".to_owned()
        } else if copied {
            "copied ✓    r menu".to_owned()
        } else {
            "c copy    r menu".to_owned()
        },
    }
}

/// The lines of the banner that ends a session.
pub fn banner_lines(app: &App, platform: Platform, dead: bool, now: Instant) -> (lines: Vec<
    TextLine,
>)
    ensures
        line_views(lines@) == banner(app@, platform, dead, now),
{
    let theme = Theme::of(platform);
    let mut detail = String::new();
    if dead {
        push_decimal(&mut detail, app.lost_words as u128);
        detail.append(" words lost · lasted ");
        detail.append(fmt_dur(app.elapsed(now)).as_str());
    } else {
        push_decimal(&mut detail, app.word_count() as u128);
        detail.append(" words written");
    }
    proof {
        assert(detail@ =~= banner_detail(app@, dead, now));
    }
    let mut lines: Vec<TextLine> = Vec::new();
    push_line(&mut lines, String::new(), Color::Reset, false);
    if dead {
        push_line(&mut lines, "YOUR WORDS ARE GONE".to_owned(), theme.lost, true);
    } else {
        push_line(&mut lines, "YOU SURVIVED".to_owned(), theme.won, true);
    }
    push_line(&mut lines, detail, theme.detail, false);
    push_line(&mut lines, String::new(), Color::Reset, false);
    push_line(&mut lines, hint_text(platform, dead, app.copied), theme.muted, false);
    proof {
        assert(line_views(lines@) =~= banner(app@, platform, dead, now));
    }
    lines
}

/// The cells with the banner that ends a session drawn in the middle of `area`.
pub open spec fn banner_drawn(
    cells: Cells,
    bounds: Rect,
    s: Session,
    platform: Platform,
    area: Rect,
    dead: bool,
    now: Instant,
) -> Cells {
    panel_drawn(
        cells,
        bounds,
        middle(area, BANNER_WIDTH, BANNER_HEIGHT),
        banner(s, platform, dead, now),
        accent(Theme::on(platform), dead),
    )
}

/// Draws the banner that ends a session in the middle of `area`.
pub fn draw_end_banner(
    buf: &mut Buffer,
    app: &App,
    platform: Platform,
    area: Rect,
    dead: bool,
    now: Instant,
)
    requires
        paintable(*old(buf)),
        has_middle(area, BANNER_WIDTH, BANNER_HEIGHT),
    ensures
        paintable(*final(buf)),
        buffer_area(*final(buf)) == buffer_area(*old(buf)),
        buffer_cells(*final(buf)) == banner_drawn(
            buffer_cells(*old(buf)),
            buffer_area(*old(buf)),
            app@,
            platform,
            area,
            dead,
            now,
        ),
        only_within(
            buffer_cells(*old(buf)),
            buffer_cells(*final(buf)),
            middle(area, BANNER_WIDTH, BANNER_HEIGHT),
        ),
{
    let theme = Theme::of(platform);
    let rect = middle_of(area, BANNER_WIDTH, BANNER_HEIGHT);
    let lines = banner_lines(app, platform, dead, now);
    let border: Color = if dead {
        theme.lost
    } else {
        theme.won
    };
    draw_panel(buf, rect, &lines, border);
}

// --- the start menu ----------------------------------------------------------

/// What the entries of the start menu are called.
pub open spec fn preset_label(index: nat) -> Seq<char> {
    if index == 0 {
        "1 minute"@
    } else if index == 1 {
        "3 minutes"@
    } else if index == 2 {
        "5 minutes"@
    } else if index == 3 {
        "10 minutes"@
    } else if index == 4 {
        "100 words"@
    } else if index == 5 {
        "250 words"@
    } else {
        "500 words"@
    }
}

/// What entry `index` of the start menu is called.
pub fn menu_label(index: usize) -> (label: &'static str)
    requires
        index < MENU_LEN,
    ensures
        label@ == preset_label(index as nat),
{
    match index {
        0 => "1 minute",
        1 => "3 minutes",
        2 => "5 minutes",
        3 => "10 minutes",
        4 => "100 words",
        5 => "250 words",
        _ => "500 words",
    }
}

/// The line of entry `index` of the start menu.
pub open spec fn menu_entry(theme: Theme, index: nat, selected: nat) -> LineView {
    if index == selected {
        colored("▸ "@ + preset_label(index), theme.safe_fg, true)
    } else {
        colored("  "@ + preset_label(index), theme.muted, false)
    }
}

/// The lines of the start menu: a list of goals with one highlighted.
pub open spec fn menu(theme: Theme, selected: nat) -> Seq<LineView> {
    seq![
        colored("danger-write"@, theme.won, true),
        colored("pick your goal"@, theme.detail, false),
        colored(Seq::empty(), Color::Reset, false),
    ] + Seq::new(MENU_LEN as nat, |i: int| menu_entry(theme, i as nat, selected)) + seq![
        colored(Seq::empty(), Color::Reset, false),
        colored("↑/↓ move · enter start"@, theme.muted, false),
    ]
}

/// The lines of the start menu.
pub fn menu_lines(theme: &Theme, selected: usize) -> (lines: Vec<TextLine>)
    ensures
        line_views(lines@) == menu(*theme, selected as nat),
{
    let mut lines: Vec<TextLine> = Vec::new();
    push_line(&mut lines, "danger-write".to_owned(), theme.won, true);
    push_line(&mut lines, "pick your goal".to_owned(), theme.detail, false);
    push_line(&mut lines, String::new(), Color::Reset, false);
    let ghost top = line_views(lines@);
    let mut i: usize = 0;
    while i < MENU_LEN
        invariant
            i <= MENU_LEN,
            line_views(lines@) == top + Seq::new(
                i as nat,
                |k: int| menu_entry(*theme, k as nat, selected as nat),
            ),
        decreases MENU_LEN - i,
    {
        let ghost before = line_views(lines@);
        if i == selected {
            push_line(&mut lines, "▸ ".to_owned().concat(menu_label(i)), theme.safe_fg, true);
        } else {
            push_line(&mut lines, "  ".to_owned().concat(menu_label(i)), theme.muted, false);
        }
        proof {
            assert(line_views(lines@) =~= before.push(
                menu_entry(*theme, i as nat, selected as nat),
            ));
            assert(line_views(lines@) =~= top + Seq::new(
                (i + 1) as nat,
                |k: int| menu_entry(*theme, k as nat, selected as nat),
            ));
        }
        i = i + 1;
    }
    push_line(&mut lines, String::new(), Color::Reset, false);
    push_line(&mut lines, "↑/↓ move · enter start".to_owned(), theme.muted, false);
    proof {
        assert(line_views(lines@) =~= menu(*theme, selected as nat));
    }
    lines
}

/// The cells with the start menu drawn in the middle of `area`.
pub open spec fn menu_drawn(
    cells: Cells,
    bounds: Rect,
    s: Session,
    theme: Theme,
    area: Rect,
) -> Cells {
    panel_drawn(
        cells,
        bounds,
        middle(area, MENU_WIDTH, MENU_HEIGHT),
        menu(theme, s.menu_index),
        mixed(theme.border_calm),
    )
}

/// Draws the start menu in the middle of `area`.
pub fn draw_menu(buf: &mut Buffer, app: &App, theme: &Theme, area: Rect)
    requires
        paintable(*old(buf)),
        has_middle(area, MENU_WIDTH, MENU_HEIGHT),
    ensures
        paintable(*final(buf)),
        buffer_area(*final(buf)) == buffer_area(*old(buf)),
        buffer_cells(*final(buf)) == menu_drawn(
            buffer_cells(*old(buf)),
            buffer_area(*old(buf)),
            app@,
            *theme,
            area,
        ),
        only_within(
            buffer_cells(*old(buf)),
            buffer_cells(*final(buf)),
            middle(area, MENU_WIDTH, MENU_HEIGHT),
        ),
{
    let rect = middle_of(area, MENU_WIDTH, MENU_HEIGHT);
    let lines = menu_lines(theme, app.menu_index);
    draw_panel(buf, rect, &lines, mix_color(theme.border_calm));
}

// --- the whole screen --------------------------------------------------------

/// The cells with a header drawn over them and the page below it.
pub open spec fn page_drawn(
    cells: Cells,
    bounds: Rect,
    s: Session,
    theme: Theme,
    blends: Blends,
    now: Instant,
) -> Cells {
    let (top, rest) = bounds.cut_rows(1, 1);
    body_drawn(
        header_drawn(cells, bounds, s, theme, top, now),
        bounds,
        s,
        theme,
        rest,
        blends,
        now,
    )
}

/// The cells with the screen of the session drawn over them: the start menu alone, or a
/// header above the page, and over them the banner once the session has ended.
pub open spec fn screen_drawn(
    cells: Cells,
    bounds: Rect,
    s: Session,
    platform: Platform,
    blends: Blends,
    now: Instant,
) -> Cells {
    let theme = Theme::on(platform);
    if s.phase == Phase::Menu {
        menu_drawn(cells, bounds, s, theme, bounds)
    } else {
        let page = page_drawn(cells, bounds, s, theme, blends, now);
        match s.phase {
            Phase::Won => banner_drawn(page, bounds, s, platform, bounds, false, now),
            Phase::Dead => banner_drawn(page, bounds, s, platform, bounds, true, now),
            _ => page,
        }
    }
}

/// Whether panels cover no more than they should in the screen `after`, drawn over
/// `before`: around the start menu everything is as it was, and around a banner as on the
/// page alone.
pub open spec fn panels_keep_to_their_place(
    before: Cells,
    after: Cells,
    bounds: Rect,
    s: Session,
    platform: Platform,
    blends: Blends,
    now: Instant,
) -> bool {
    match s.phase {
        Phase::Menu => only_within(before, after, middle(bounds, MENU_WIDTH, MENU_HEIGHT)),
        Phase::Won | Phase::Dead => only_within(
            page_drawn(before, bounds, s, Theme::on(platform), blends, now),
            after,
            middle(bounds, BANNER_WIDTH, BANNER_HEIGHT),
        ),
        Phase::Writing | Phase::Dying => true,
    }
}

/// Whether header and page can be written on a buffer for `bounds`.
pub open spec fn page_writable(bounds: Rect, s: Session, theme: Theme, now: Instant) -> bool {
    let (top, rest) = bounds.cut_rows(1, 1);
    &&& writable(bounds, top, header_lines(s, theme, now))
    &&& writable(bounds, rest.inside(), page_lines(s, rest.inside()))
}

/// Whether the screen of the session can be drawn on `buf`: widgets can draw on it, header
/// and page can be written on it, and the panel that the phase calls for, if any, has a
/// place.
pub open spec fn drawable(buf: Buffer, s: Session, platform: Platform, now: Instant) -> bool {
    let bounds = buffer_area(buf);
    &&& paintable(buf)
    &&& match s.phase {
        Phase::Menu => has_middle(bounds, MENU_WIDTH, MENU_HEIGHT),
        Phase::Won | Phase::Dead => has_middle(bounds, BANNER_WIDTH, BANNER_HEIGHT)
            && page_writable(bounds, s, Theme::on(platform), now),
        Phase::Writing | Phase::Dying => page_writable(bounds, s, Theme::on(platform), now),
    }
}

/// Draws the screen of the session over the whole of `buf`.
pub fn draw(buf: &mut Buffer, app: &App, platform: Platform, blends: Blends, now: Instant)
    requires
        drawable(*old(buf), app@, platform, now),
    ensures
        paintable(*final(buf)),
        buffer_area(*final(buf)) == buffer_area(*old(buf)),
        buffer_cells(*final(buf)) == screen_drawn(
            buffer_cells(*old(buf)),
            buffer_area(*old(buf)),
            app@,
            platform,
            blends,
            now,
        ),
        panels_keep_to_their_place(
            buffer_cells(*old(buf)),
            buffer_cells(*final(buf)),
            buffer_area(*old(buf)),
            app@,
            platform,
            blends,
            now,
        ),
{
    let theme = Theme::of(platform);
    let area = grid_area(buf);
    // The start menu replaces the whole screen until a goal is chosen.
    if app.phase == Phase::Menu {
        draw_menu(buf, app, &theme, area);
        return;
    }
    let (top, rest) = cut_rows(area, 1, 1);
    draw_header(buf, app, &theme, top, now);
    draw_body(buf, app, &theme, rest, blends, now);
    match app.phase {
        Phase::Won => draw_end_banner(buf, app, platform, area, false, now),
        Phase::Dead => draw_end_banner(buf, app, platform, area, true, now),
        // While writing or dying the page is shown on its own: the banner must not cover
        // the dissolve.
        Phase::Writing | Phase::Dying | Phase::Menu => {},
    }
}

/// Whether header and page can be written on a buffer for `area`. Their lines need a look
/// only where the buffer is so wide that their widths could overflow.
fn can_write(area: Rect, app: &App, theme: &Theme, now: Instant) -> (yes: bool)
    ensures
        yes == page_writable(area, app@, *theme, now),
{
    let (top, rest) = cut_rows(area, 1, 1);
    let inner = inside_border(rest);
    let ghost heading = header_lines(app@, *theme, now);
    let ghost page = page_lines(app@, inner);
    if area.width <= 0x7fff {
        proof {
            law_narrow_areas_take_any_text(area, top, heading);
            law_narrow_areas_take_any_text(area, inner, page);
        }
        return true;
    }
    let shown = top.intersection(area);
    if shown.height > 0 && !line_fits(header_text(app, now).as_str(), shown.width) {
        proof {
            assert(heading[0].text == header(app@, now));
        }
        return false;
    }
    proof {
        assert(writable(area, top, heading));
    }
    let shown = inner.intersection(area);
    let rows = page_rows(app.text.as_str(), inner.width, inner.height);
    let mut i: usize = 0;
    while i < rows.len() && i < shown.height as usize
        invariant
            i <= rows.len(),
            shown == inner.meet(area),
            page == plain_lines(texts(rows@)),
            page == page_lines(app@, inner),
            page_writable(area, app@, *theme, now) == writable(area, inner, page),
            forall|k: int|
                0 <= k < i ==> sums_fit(
                    grapheme_widths((#[trigger] page[k]).text),
                    shown.width,
                    0,
                ),
        decreases rows.len() - i,
    {
        proof {
            assert(page[i as int].text == rows@[i as int]@);
        }
        if !line_fits(rows[i].as_str(), shown.width) {
            return false;
        }
        i = i + 1;
    }
    true
}

/// Draws the screen of the session over the whole of `buf` where that can be done, and
/// leaves `buf` alone where it cannot; the result says which.
pub fn try_draw(
    buf: &mut Buffer,
    app: &App,
    platform: Platform,
    blends: Blends,
    now: Instant,
) -> (done: bool)
    ensures
        done == drawable(*old(buf), app@, platform, now),
        buffer_area(*final(buf)) == buffer_area(*old(buf)),
        buffer_cells(*final(buf)) == (if done {
            screen_drawn(
                buffer_cells(*old(buf)),
                buffer_area(*old(buf)),
                app@,
                platform,
                blends,
                now,
            )
        } else {
            buffer_cells(*old(buf))
        }),
        done ==> panels_keep_to_their_place(
            buffer_cells(*old(buf)),
            buffer_cells(*final(buf)),
            buffer_area(*old(buf)),
            app@,
            platform,
            blends,
            now,
        ),
{
    let area = grid_area(buf);
    let theme = Theme::of(platform);
    let possible: bool = match app.phase {
        Phase::Menu => fits_middle(area, MENU_WIDTH, MENU_HEIGHT),
        Phase::Won | Phase::Dead => fits_middle(area, BANNER_WIDTH, BANNER_HEIGHT) && can_write(
            area,
            app,
            &theme,
            now,
        ),
        Phase::Writing | Phase::Dying => can_write(area, app, &theme, now),
    };
    if !possible || !is_paintable(buf) {
        return false;
    }
    draw(buf, app, platform, blends, now);
    true
}

/// Once the dissolve has run its course, nothing is left inside the border of the page.
pub proof fn law_finished_dissolve_leaves_nothing(
    cells: Cells,
    bounds: Rect,
    s: Session,
    theme: Theme,
    area: Rect,
    blends: Blends,
    now: Instant,
    p: (u16, u16),
)
    requires
        s.valid(),
        s.phase == Phase::Dying,
        s.death_fx matches Some(fx) && fx.over(),
        area.inside().has(p),
        body_drawn(cells, bounds, s, theme, area, blends, now).dom().contains(p),
    ensures
        body_drawn(cells, bounds, s, theme, area, blends, now)[p] == blank(),
{
}

/// The session alone decides how the page looks, unless a fade or a dissolve is on its way
/// from one end to the other.
pub proof fn law_ends_need_no_blends(
    cells: Cells,
    bounds: Rect,
    s: Session,
    theme: Theme,
    area: Rect,
    some: Blends,
    others: Blends,
    now: Instant,
)
    requires
        s.text_shade(theme, now) matches Shade::Blend { part, whole, .. } ==> part.nanos
            >= whole.nanos,
        s.border_shade(theme, now) matches Shade::Blend { part, whole, .. } ==> part.nanos
            >= whole.nanos,
        s.death_fx matches Some(fx) ==> fx.elapsed.nanos == 0 || fx.over(),
    ensures
        body_drawn(cells, bounds, s, theme, area, some, now) == body_drawn(
            cells,
            bounds,
            s,
            theme,
            area,
            others,
            now,
        ),
{
}

} // verus!
