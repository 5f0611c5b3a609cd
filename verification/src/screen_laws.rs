//! What every screen shows.

use crate::canvas::{bordered, buffer_area, buffer_cells, cleared, paragraph};
use crate::canvas::{law_narrow_areas_take_any_text, Cells, Color, LineView, Rect};
use crate::dissolve::dissolved;
use crate::screen::{
    banner, banner_drawn, body_drawn, drawable, has_middle, header, header_drawn, header_lines,
    menu, menu_drawn, middle, page, page_drawn, page_lines, panel_drawn, preset_label,
    screen_drawn, Blends,
};
use crate::session::{preset, Goal, Phase, Session, MENU_LEN};
use crate::text::{clock, decimal, words};
use crate::theme::{Platform, Theme};
use crate::time::Instant;
use crate::wrap::wrapped;
use ratatui::buffer::Buffer;
use vstd::prelude::*;

verus! {

/// A line in a colour, in bold or not.
pub open spec fn line(text: Seq<char>, fg: Color, bold: bool) -> LineView {
    LineView { text, fg: Some(fg), bold }
}

/// The header of a word goal tells how many words there are of how many.
pub proof fn law_header_of_a_word_goal(s: Session, n: usize, now: Instant)
    requires
        s.goal == Goal::Words(n),
    ensures
        header(s, now) == decimal(words(s.text)) + " / "@ + decimal(n as nat) + " words"@,
{
}

/// The header of a time goal tells what is left of it, in whole seconds and never less than
/// nothing, and how many words there are.
pub proof fn law_header_of_a_time_goal(s: Session, now: Instant)
    requires
        s.goal is Time,
    ensures
        ({
            let span = s.goal->Time_0.nanos;
            let spent = s.elapsed(now).nanos;
            let left: int = if spent <= span {
                span - spent
            } else {
                0
            };
            header(s, now) == clock((left / 1_000_000_000) as nat) + " left    ·    "@ + decimal(
                words(s.text),
            ) + " words"@
        }),
{
}

/// The page shows the last rows of the text with the cursor behind it: all of them where they
/// fit, and otherwise as many as there are rows on the screen.
pub proof fn law_page_shows_the_last_rows(text: Seq<char>, width: nat, height: nat, i: int)
    ensures
        ({
            let rows = wrapped(text.push('█'), width);
            let shown = page(text, width, height);
            &&& rows.len() <= height ==> shown.len() == rows.len()
            &&& rows.len() > height ==> shown.len() == height
            &&& 0 <= i < shown.len() ==> shown[i] == rows[rows.len() - shown.len() + i]
        }),
{
}

/// The header stands in the first row and the page in all below it; a screen of one row has
/// no header.
pub proof fn law_header_stands_above_the_page(
    cells: Cells,
    bounds: Rect,
    s: Session,
    theme: Theme,
    blends: Blends,
    now: Instant,
)
    requires
        bounds.y + bounds.height <= u16::MAX,
    ensures
        ({
            let head: u16 = if bounds.height >= 2 {
                1
            } else {
                0
            };
            let top = Rect { height: head, ..bounds };
            let rest = Rect {
                y: (bounds.y + head) as u16,
                height: (bounds.height - head) as u16,
                ..bounds
            };
            let headed = paragraph(
                cells,
                bounds,
                top,
                seq![line(header(s, now), theme.muted, false)],
                None,
                true,
            );
            page_drawn(cells, bounds, s, theme, blends, now) == body_drawn(
                headed,
                bounds,
                s,
                theme,
                rest,
                blends,
                now,
            )
        }),
{
}

/// The page has a border in the colour of the pause, and inside it the last rows of the text
/// in the colour of the pause; while the words die, they dissolve inside the border.
pub proof fn law_page_stands_inside_its_border(
    cells: Cells,
    bounds: Rect,
    s: Session,
    theme: Theme,
    area: Rect,
    blends: Blends,
    now: Instant,
)
    ensures
        ({
            let inner = area.inside();
            let rows = page(s.text, inner.width as nat, inner.height as nat);
            let lines = Seq::new(
                rows.len(),
                |i: int| LineView { text: rows[i], fg: None, bold: false },
            );
            let fg = s.text_shade(theme, now).settled(blends.text);
            let border = s.border_shade(theme, now).settled(blends.border);
            let framed = bordered(cells, area.meet(bounds), border);
            let written = paragraph(framed, bounds, inner, lines, Some(fg), false);
            let drawn = body_drawn(cells, bounds, s, theme, area, blends, now);
            &&& s.phase != Phase::Dying ==> drawn == written
            &&& s.phase == Phase::Dying ==> match s.death_fx {
                Some(fx) => drawn == dissolved(written, inner, fx.cut(blends.cut)),
                None => drawn == written,
            }
        }),
{
    let inner = area.inside();
    let rows = page(s.text, inner.width as nat, inner.height as nat);
    assert(page_lines(s, inner) =~= Seq::new(
        rows.len(),
        |i: int| LineView { text: rows[i], fg: None, bold: false },
    ));
}

/// A panel is as wide and as high as it was asked to be, or as its area where that is
/// smaller, and has no more to its right and below it than to its left and above it, but for
/// one.
pub proof fn law_panel_is_as_large_as_asked(area: Rect, width: u16, height: u16)
    requires
        has_middle(area, width, height),
    ensures
        ({
            let panel = middle(area, width, height);
            &&& panel.width <= width && panel.width <= area.width
            &&& panel.width == width || panel.width == area.width
            &&& panel.height <= height && panel.height <= area.height
            &&& panel.height == height || panel.height == area.height
            &&& panel.x == area.x + (area.width - panel.width) / 2
            &&& panel.y == area.y + (area.height - panel.height) / 2
        }),
{
}

/// A panel is emptied, framed as far as it lies on the screen, and its lines stand in the
/// middle inside the frame.
pub proof fn law_panel_is_emptied_and_framed(
    cells: Cells,
    bounds: Rect,
    rect: Rect,
    lines: Seq<LineView>,
    border: Color,
)
    ensures
        ({
            let shown = rect.meet(bounds);
            let framed = bordered(cleared(cells, rect), shown, border);
            panel_drawn(cells, bounds, rect, lines, border) == paragraph(
                framed,
                bounds,
                shown.inside(),
                lines,
                None,
                true,
            )
        }),
{
}

/// The lines that tell of a session that was won.
pub open spec fn won_lines(s: Session, platform: Platform) -> Seq<LineView> {
    let theme = Theme::on(platform);
    seq![
        line(Seq::empty(), Color::Reset, false),
        line("YOU SURVIVED"@, theme.won, true),
        line(decimal(words(s.text)) + " words written"@, theme.detail, false),
        line(Seq::empty(), Color::Reset, false),
        line(
            match (platform, s.copied) {
                (Platform::Native, false) => "c copy    q quit"@,
                (Platform::Native, true) => "copied ✓    q quit"@,
                (Platform::Web, false) => "c copy    r menu"@,
                (Platform::Web, true) => "copied ✓    r menu"@,
            },
            theme.muted,
            false,
        ),
    ]
}

/// The lines that tell of a session that was lost.
pub open spec fn lost_lines(s: Session, platform: Platform, now: Instant) -> Seq<LineView> {
    let theme = Theme::on(platform);
    seq![
        line(Seq::empty(), Color::Reset, false),
        line("YOUR WORDS ARE GONE"@, theme.lost, true),
        line(
            decimal(s.lost_words) + " words lost · lasted "@ + clock(
                (s.elapsed(now).nanos / 1_000_000_000) as nat,
            ),
            theme.detail,
            false,
        ),
        line(Seq::empty(), Color::Reset, false),
        line(
            match platform {
                Platform::Native => "r restart    q quit"@,
                Platform::Web => "r menu"@,
            },
            theme.muted,
            false,
        ),
    ]
}

/// The lines of the two banners.
pub proof fn law_banners(s: Session, platform: Platform, now: Instant)
    ensures
        banner(s, platform, false, now) == won_lines(s, platform),
        banner(s, platform, true, now) == lost_lines(s, platform, now),
{
    assert(banner(s, platform, false, now) =~= won_lines(s, platform));
    assert(banner(s, platform, true, now) =~= lost_lines(s, platform, now));
}

/// Header, banners and menu are drawn in the area they are given: the header as one line in
/// its middle, and a banner of up to 44 columns and 7 rows, or a menu of up to 34 and 14, in
/// the middle of it, framed in the colour of what it tells.
pub proof fn law_parts_stand_where_they_are_told(
    cells: Cells,
    bounds: Rect,
    s: Session,
    platform: Platform,
    area: Rect,
    now: Instant,
)
    ensures
        ({
            let theme = Theme::on(platform);
            let rect = middle(area, 44, 7);
            let calm = theme.border_calm;
            &&& header_drawn(cells, bounds, s, theme, area, now) == paragraph(
                cells,
                bounds,
                area,
                seq![line(header(s, now), theme.muted, false)],
                None,
                true,
            )
            &&& banner_drawn(cells, bounds, s, platform, area, false, now) == panel_drawn(
                cells,
                bounds,
                rect,
                won_lines(s, platform),
                theme.won,
            )
            &&& banner_drawn(cells, bounds, s, platform, area, true, now) == panel_drawn(
                cells,
                bounds,
                rect,
                lost_lines(s, platform, now),
                theme.lost,
            )
            &&& menu_drawn(cells, bounds, s, theme, area) == panel_drawn(
                cells,
                bounds,
                middle(area, 34, 14),
                menu(theme, s.menu_index),
                Color::Rgb(calm.0, calm.1, calm.2),
            )
        }),
{
    law_banners(s, platform, now);
}

/// Which screen is shown depends on the phase alone, whatever the goal: over the page a
/// session that was won is told of in the colour of winning, one that was lost in the colour
/// of losing, and while writing or dying there is the page and nothing over it.
pub proof fn law_phase_decides_the_screen(
    cells: Cells,
    bounds: Rect,
    s: Session,
    platform: Platform,
    blends: Blends,
    now: Instant,
)
    ensures
        ({
            let theme = Theme::on(platform);
            let page = page_drawn(cells, bounds, s, theme, blends, now);
            let rect = middle(bounds, 44, 7);
            let drawn = screen_drawn(cells, bounds, s, platform, blends, now);
            match s.phase {
                Phase::Writing | Phase::Dying => drawn == page,
                Phase::Won => drawn == panel_drawn(
                    page,
                    bounds,
                    rect,
                    won_lines(s, platform),
                    theme.won,
                ),
                Phase::Dead => drawn == panel_drawn(
                    page,
                    bounds,
                    rect,
                    lost_lines(s, platform, now),
                    theme.lost,
                ),
                Phase::Menu => drawn == panel_drawn(
                    cells,
                    bounds,
                    middle(bounds, 34, 14),
                    menu(theme, s.menu_index),
                    Color::Rgb(theme.border_calm.0, theme.border_calm.1, theme.border_calm.2),
                ),
            }
        }),
{
    law_banners(s, platform, now);
}

/// The menu has a title, a line that says what to do, every entry once and in order, and the
/// keys to use. The entry that is chosen is marked and stands out; no other is and does.
pub proof fn law_menu_lists_every_goal(theme: Theme, selected: nat, i: nat)
    requires
        i < MENU_LEN,
    ensures
        ({
            let lines = menu(theme, selected);
            &&& lines.len() == MENU_LEN + 5
            &&& lines[0] == line("danger-write"@, theme.won, true)
            &&& lines[1] == line("pick your goal"@, theme.detail, false)
            &&& lines[2] == line(Seq::empty(), Color::Reset, false)
            &&& i == selected ==> lines[3 + i as int] == line(
                "▸ "@ + preset_label(i),
                theme.safe_fg,
                true,
            )
            &&& i != selected ==> lines[3 + i as int] == line(
                "  "@ + preset_label(i),
                theme.muted,
                false,
            )
            &&& lines[MENU_LEN + 3] == line(Seq::empty(), Color::Reset, false)
            &&& lines[MENU_LEN + 4] == line("↑/↓ move · enter start"@, theme.muted, false)
        }),
{
}

/// An entry of the menu is called what it leads to: so many minutes, or so many words.
#[verifier::spinoff_prover]
#[verifier::rlimit(40)]
pub proof fn law_labels_tell_the_goals(i: nat)
    requires
        i < MENU_LEN,
    ensures
        match preset(i) {
            Goal::Time(span) => {
                let minutes = (span.nanos / 60_000_000_000) as nat;
                &&& minutes * 60_000_000_000 == span.nanos
                &&& preset_label(i) == decimal(minutes) + (if minutes == 1 {
                    " minute"@
                } else {
                    " minutes"@
                })
            },
            Goal::Words(n) => preset_label(i) == decimal(n as nat) + " words"@,
        },
{
    reveal_with_fuel(decimal, 4);
    reveal_strlit(" minute");
    reveal_strlit(" minutes");
    reveal_strlit(" words");
    reveal_strlit("1 minute");
    reveal_strlit("3 minutes");
    reveal_strlit("5 minutes");
    reveal_strlit("10 minutes");
    reveal_strlit("100 words");
    reveal_strlit("250 words");
    reveal_strlit("500 words");
    assert("1 minute"@ =~= decimal(1) + " minute"@);
    assert("3 minutes"@ =~= decimal(3) + " minutes"@);
    assert("5 minutes"@ =~= decimal(5) + " minutes"@);
    assert("10 minutes"@ =~= decimal(10) + " minutes"@);
    assert("100 words"@ =~= decimal(100) + " words"@);
    assert("250 words"@ =~= decimal(250) + " words"@);
    assert("500 words"@ =~= decimal(500) + " words"@);
}

/// Every session can be drawn on every ordinary screen: one that has a cell at each of its
/// positions, and is no wider than `i16::MAX`.
pub proof fn law_ordinary_screens_can_be_drawn_on(
    buf: Buffer,
    s: Session,
    platform: Platform,
    now: Instant,
)
    requires
        ({
            let bounds = buffer_area(buf);
            &&& bounds.x + bounds.width <= u16::MAX
            &&& bounds.y + bounds.height <= u16::MAX
            &&& bounds.width <= i16::MAX
            &&& forall|p: (u16, u16)| #[trigger]
                buffer_cells(buf).dom().contains(p) <==> {
                    &&& bounds.x <= p.0 < bounds.x + bounds.width
                    &&& bounds.y <= p.1 < bounds.y + bounds.height
                }
        }),
    ensures
        drawable(buf, s, platform, now),
{
    let bounds = buffer_area(buf);
    let theme = Theme::on(platform);
    let (top, rest) = bounds.cut_rows(1, 1);
    law_narrow_areas_take_any_text(bounds, top, header_lines(s, theme, now));
    law_narrow_areas_take_any_text(bounds, rest.inside(), page_lines(s, rest.inside()));
}

} // verus!
