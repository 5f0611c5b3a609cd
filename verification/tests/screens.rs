use danger_write::canvas::{is_paintable, Color, Rect};
use danger_write::dissolve::{cell_noise, NOISE_RANGE};
use danger_write::screen::{banner_lines, draw, draw_body, draw_end_banner, draw_header, draw_menu};
use danger_write::screen::{header_text, menu_label, menu_lines, middle_of, page_rows, try_draw, Blends};
use danger_write::session::{App, Event, Goal, KeyCode, Phase, MENU_LEN};
use danger_write::theme::{Platform, Theme};
use danger_write::time::{Duration, Instant};
use ratatui::buffer::{Buffer, Cell};
use ratatui::style::{Color as Paint, Modifier};

const BLENDS: Blends = Blends { text: Color::Rgb(1, 2, 3), border: Color::Rgb(4, 5, 6), cut: 0 };

fn at(millis: u64) -> Instant {
    Instant { nanos: Duration::from_millis(millis).nanos }
}

fn grid(width: u16, height: u16) -> Buffer {
    Buffer::empty(ratatui::layout::Rect::new(0, 0, width, height))
}

fn session(goal: Goal, text: &str) -> App {
    let mut app = App::new(goal, Duration::from_secs(3), Duration::from_millis(2400), at(0));
    for c in text.chars() {
        app.handle_event(Event::Key { code: KeyCode::Char(c), press: true, control: false }, at(0));
    }
    app
}

fn row(buf: &Buffer, y: u16) -> String {
    (buf.area.left()..buf.area.right()).map(|x| buf[(x, y)].symbol().to_string()).collect()
}

fn rows(buf: &Buffer) -> Vec<String> {
    (buf.area.top()..buf.area.bottom()).map(|y| row(buf, y)).collect()
}

#[test]
fn header_of_a_word_goal() {
    let app = session(Goal::Words(250), "one two three");
    assert_eq!(header_text(&app, at(0)), "3 / 250 words");
}

#[test]
fn header_of_a_time_goal_counts_down() {
    let app = session(Goal::Time(Duration::from_secs(300)), "one two");
    assert_eq!(header_text(&app, at(0)), "05:00 left    ·    2 words");
    assert_eq!(header_text(&app, at(1500)), "04:58 left    ·    2 words");
    assert_eq!(header_text(&app, at(900_000)), "00:00 left    ·    2 words");
}

#[test]
fn header_stands_still_once_the_session_has_ended() {
    let mut app = session(Goal::Time(Duration::from_secs(60)), "gone");
    app.tick(at(10_000));
    assert_eq!(app.phase, Phase::Dying);
    assert_eq!(header_text(&app, at(55_000)), "00:50 left    ·    1 words");
}

#[test]
fn the_page_shows_the_last_rows_and_the_cursor() {
    assert_eq!(page_rows("", 5, 3), vec!["█"]);
    assert_eq!(page_rows("a\nb\nc\nd", 5, 3), vec!["b", "c", "d█"]);
    assert_eq!(page_rows("one two three", 7, 9), vec!["one two", "three█"]);
    assert_eq!(page_rows("abcde", 5, 3), vec!["abcde", "█"]);
    assert_eq!(page_rows("a\nb", 5, 0), Vec::<String>::new());
    assert_eq!(page_rows("a\nb", 0, 3), vec!["", ""]);
    assert_eq!(page_rows("a\nb", 0, 1), vec![""]);
}

#[test]
fn the_cursor_stays_visible_however_long_the_text() {
    let mut text = String::new();
    for i in 0..200 {
        text.push_str(if i % 7 == 0 { "\n" } else { "word " });
        let rows = page_rows(&text, 9, 4);
        assert!(rows.len() <= 4);
        assert!(rows[rows.len() - 1].ends_with('█'));
        assert!(rows.iter().all(|row| row.chars().count() <= 9));
    }
}

#[test]
fn a_session_being_written() {
    let app = session(Goal::Words(9), "hello brave new world");
    let mut buf = grid(20, 6);
    draw(&mut buf, &app, Platform::Native, BLENDS, at(0));
    assert_eq!(
        rows(&buf),
        vec![
            "     4 / 9 words    ",
            "┌──────────────────┐",
            "│hello brave new   │",
            "│world█            │",
            "│                  │",
            "└──────────────────┘",
        ]
    );
    assert_eq!(buf[(5, 0)].fg, Paint::DarkGray);
    assert_eq!(buf[(0, 1)].fg, Paint::Rgb(60, 60, 60));
    assert_eq!(buf[(19, 5)].fg, Paint::Rgb(60, 60, 60));
    assert_eq!(buf[(1, 2)].fg, Paint::Reset);
    assert_eq!(buf[(18, 4)].fg, Paint::Reset);
    assert_eq!(buf[(1, 2)].bg, Paint::Reset);
    assert_eq!(buf[(1, 2)].modifier, Modifier::empty());
}

#[test]
fn the_header_gives_way_on_the_smallest_screens() {
    let app = session(Goal::Words(9), "x");
    for height in 0..60 {
        let mut buf = grid(20, height);
        assert!(try_draw(&mut buf, &app, Platform::Native, BLENDS, at(0)));
        let top = if height >= 2 { 1 } else { 0 };
        if height >= 2 {
            assert_eq!(row(&buf, 0), "     1 / 9 words    ");
        }
        if height >= 1 {
            assert_eq!(buf[(0, top)].symbol(), "┌");
            assert_eq!(buf[(0, height - 1)].symbol(), if height > top + 1 { "└" } else { "┌" });
            assert_eq!(buf[(19, height - 1)].symbol(), if height > top + 1 { "┘" } else { "┐" });
        }
    }
}

#[test]
fn a_tall_screen_is_cut_below_its_first_row() {
    let app = session(Goal::Words(9), "x");
    let mut buf = grid(3, 20_000);
    assert!(try_draw(&mut buf, &app, Platform::Native, BLENDS, at(0)));
    assert_eq!(row(&buf, 1), "┌─┐");
    assert_eq!(row(&buf, 2), "│x│");
    assert_eq!(row(&buf, 19_999), "└─┘");
}

#[test]
fn a_narrow_screen_has_a_border_and_no_page() {
    let app = session(Goal::Words(9), "hello");
    let mut buf = grid(2, 4);
    draw(&mut buf, &app, Platform::Native, BLENDS, at(0));
    assert_eq!(rows(&buf), vec!["1 ", "┌┐", "││", "└┘"]);
    let mut buf = grid(1, 4);
    draw(&mut buf, &app, Platform::Native, BLENDS, at(0));
    assert_eq!(rows(&buf), vec!["1", "┌", "│", "└"]);
}

#[test]
fn only_the_last_screenful_of_a_long_text_is_shown() {
    let app = session(Goal::Words(9), "a b c d e f g");
    let mut buf = grid(5, 5);
    draw(&mut buf, &app, Platform::Native, BLENDS, at(0));
    assert_eq!(rows(&buf)[1..], ["┌───┐", "│e f│", "│g█ │", "└───┘"]);
}

#[test]
fn surviving_is_told() {
    let mut app = session(Goal::Words(2), "two words");
    app.tick(at(500));
    let mut buf = grid(50, 12);
    draw(&mut buf, &app, Platform::Native, BLENDS, at(700));
    assert_eq!(row(&buf, 2), "│tw┌──────────────────────────────────────────┐  │");
    assert_eq!(row(&buf, 4), "│  │               YOU SURVIVED               │  │");
    assert_eq!(row(&buf, 5), "│  │              2 words written             │  │");
    assert_eq!(row(&buf, 7), "│  │             c copy    q quit             │  │");
    assert_eq!(row(&buf, 8), "│  └──────────────────────────────────────────┘  │");
    assert_eq!(buf[(3, 2)].fg, Paint::Green);
    assert_eq!(buf[(20, 4)].fg, Paint::Green);
    assert_eq!(buf[(20, 4)].modifier, Modifier::BOLD);
    assert_eq!(buf[(20, 5)].fg, Paint::Gray);
    assert_eq!(buf[(20, 7)].fg, Paint::DarkGray);
    assert_eq!(buf[(20, 7)].modifier, Modifier::empty());
}

#[test]
fn losing_is_told() {
    let mut app = session(Goal::Words(200), "three lost words");
    app.tick(at(65_000));
    app.advance_effect(Duration::from_secs(2));
    app.tick(at(67_000));
    let lines = banner_lines(&app, Platform::Native, true, at(99_000));
    let texts: Vec<&str> = lines.iter().map(|line| line.text.as_str()).collect();
    assert_eq!(
        texts,
        vec!["", "YOUR WORDS ARE GONE", "3 words lost · lasted 01:05", "", "r restart    q quit"]
    );
    assert_eq!((lines[1].fg, lines[1].bold), (Color::Red, true));
    let mut buf = grid(50, 12);
    draw(&mut buf, &app, Platform::Native, BLENDS, at(99_000));
    assert_eq!(row(&buf, 4), "│  │            YOUR WORDS ARE GONE           │  │");
    assert_eq!(buf[(3, 2)].fg, Paint::Red);
}

#[test]
fn hints_depend_on_platform_and_copying() {
    let mut app = session(Goal::Words(2), "two words");
    app.tick(at(500));
    let hint = |app: &App, platform: Platform, dead: bool| {
        banner_lines(app, platform, dead, at(500))[4].text.clone()
    };
    assert_eq!(hint(&app, Platform::Native, false), "c copy    q quit");
    assert_eq!(hint(&app, Platform::Web, false), "c copy    r menu");
    assert_eq!(hint(&app, Platform::Native, true), "r restart    q quit");
    assert_eq!(hint(&app, Platform::Web, true), "r menu");
    app.copied = true;
    assert_eq!(hint(&app, Platform::Native, false), "copied ✓    q quit");
    assert_eq!(hint(&app, Platform::Web, false), "copied ✓    r menu");
}

#[test]
fn the_banner_covers_what_was_there() {
    let app = session(Goal::Words(2), "x");
    let mut cell = Cell::new("#");
    cell.set_bg(Paint::Blue);
    let mut buf = Buffer::filled(ratatui::layout::Rect::new(0, 0, 46, 9), cell.clone());
    let area = Rect { x: 0, y: 0, width: 46, height: 9 };
    draw_end_banner(&mut buf, &app, Platform::Native, area, false, at(0));
    assert_eq!(row(&buf, 0), "#".repeat(46));
    assert_eq!(row(&buf, 2), format!("#│{}│#", " ".repeat(42)));
    assert_eq!(buf[(2, 2)], Cell::EMPTY);
    assert_eq!(buf[(1, 1)].bg, Paint::Reset);
    assert_eq!(buf[(0, 2)], cell);
}

#[test]
fn panels_stand_in_the_middle_and_shrink_with_the_screen() {
    let area = Rect { x: 10, y: 5, width: 100, height: 30 };
    assert_eq!(middle_of(area, 44, 7), Rect { x: 38, y: 16, width: 44, height: 7 });
    let small = Rect { x: 1, y: 2, width: 20, height: 4 };
    assert_eq!(middle_of(small, 44, 7), small);
    assert_eq!(middle_of(Rect { x: 0, y: 0, width: 47, height: 8 }, 44, 7), Rect { x: 1, y: 0, width: 44, height: 7 });
}

#[test]
fn the_menu() {
    let mut app = App::at_menu(Duration::from_millis(2400), at(0));
    app.menu_move(2);
    let mut buf = grid(40, 16);
    draw(&mut buf, &app, Platform::Web, BLENDS, at(0));
    assert_eq!(row(&buf, 0), " ".repeat(40));
    assert_eq!(row(&buf, 1), "   ┌────────────────────────────────┐   ");
    assert_eq!(row(&buf, 2), "   │          danger-write          │   ");
    assert_eq!(row(&buf, 3), "   │         pick your goal         │   ");
    assert_eq!(row(&buf, 5), "   │             1 minute           │   ");
    assert_eq!(row(&buf, 7), "   │           ▸ 5 minutes          │   ");
    assert_eq!(row(&buf, 13), "   │     ↑/↓ move · enter start     │   ");
    assert_eq!(row(&buf, 14), "   └────────────────────────────────┘   ");
    assert_eq!(buf[(3, 1)].fg, Paint::Rgb(0x50, 0x49, 0x45));
    assert_eq!(buf[(16, 7)].fg, Paint::Rgb(0xeb, 0xdb, 0xb2));
    assert_eq!(buf[(16, 7)].modifier, Modifier::BOLD);
    assert_eq!(buf[(18, 5)].fg, Paint::Rgb(0x92, 0x83, 0x74));
}

#[test]
fn menu_entries() {
    let theme = Theme::of(Platform::Web);
    let lines = menu_lines(&theme, 6);
    assert_eq!(lines.len(), MENU_LEN + 5);
    let labels: Vec<&str> = (0..MENU_LEN).map(menu_label).collect();
    assert_eq!(
        labels,
        vec!["1 minute", "3 minutes", "5 minutes", "10 minutes", "100 words", "250 words", "500 words"]
    );
    for (i, label) in labels.iter().enumerate() {
        let marker = if i == 6 { "▸ " } else { "  " };
        assert_eq!(lines[i + 3].text, format!("{marker}{label}"));
        assert_eq!(lines[i + 3].bold, i == 6);
    }
}

#[test]
fn the_page_takes_its_colours_from_the_pause() {
    let app = session(Goal::Words(9), "hello");
    let colours = |now: Instant, platform: Platform| {
        let mut buf = grid(20, 6);
        draw(&mut buf, &app, platform, BLENDS, now);
        (buf[(1, 2)].fg, buf[(18, 4)].fg, buf[(0, 1)].fg)
    };
    let calm = Paint::Rgb(60, 60, 60);
    assert_eq!(colours(at(600), Platform::Native), (Paint::Reset, Paint::Reset, calm));
    let text = Paint::Rgb(1, 2, 3);
    assert_eq!(colours(at(601), Platform::Native), (text, text, Paint::Rgb(4, 5, 6)));
    assert_eq!(colours(at(2999), Platform::Web), (text, text, Paint::Rgb(4, 5, 6)));
    let dim = Paint::Rgb(90, 90, 90);
    assert_eq!(colours(at(3000), Platform::Native), (dim, dim, Paint::Rgb(200, 40, 40)));
    let dim = Paint::Rgb(0x66, 0x5c, 0x54);
    assert_eq!(colours(at(9000), Platform::Web), (dim, dim, Paint::Rgb(0xfb, 0x49, 0x34)));
}

#[test]
fn the_page_dissolves_inside_its_border() {
    let mut app = session(Goal::Words(99), "hello brave new world");
    app.tick(at(5000));
    assert_eq!(app.phase, Phase::Dying);
    let all = Blends { cut: NOISE_RANGE, ..BLENDS };
    let mut buf = grid(20, 6);
    draw(&mut buf, &app, Platform::Native, all, at(5000));
    assert_eq!(row(&buf, 2), "│hello brave new   │");
    app.advance_effect(Duration::from_millis(700));
    let mut buf = grid(20, 6);
    draw(&mut buf, &app, Platform::Native, BLENDS, at(5700));
    assert_eq!(row(&buf, 2), "│hello brave new   │");
    let half = Blends { cut: NOISE_RANGE / 2, ..BLENDS };
    draw(&mut buf, &app, Platform::Native, half, at(5700));
    for y in 2..5 {
        for x in 1..19 {
            let gone = u64::from(cell_noise(x, y)) < NOISE_RANGE / 2;
            assert_eq!(buf[(x, y)] == Cell::EMPTY, gone);
        }
    }
    app.advance_effect(Duration::from_millis(700));
    let mut buf = grid(20, 6);
    draw(&mut buf, &app, Platform::Native, BLENDS, at(6400));
    assert_eq!(row(&buf, 1), "┌──────────────────┐");
    for y in 2..5 {
        assert_eq!(row(&buf, y), "│                  │");
        assert_eq!(buf[(1, y)], Cell::EMPTY);
    }
}

#[test]
fn parts_leave_everything_else_alone() {
    let app = session(Goal::Words(9), "a long enough text for the page");
    let theme = Theme::of(Platform::Web);
    let full = Buffer::filled(ratatui::layout::Rect::new(0, 0, 60, 20), Cell::new("#"));
    let screen = Rect { x: 0, y: 0, width: 60, height: 20 };
    let outside = |buf: &Buffer, rect: Rect| {
        for y in 0..20 {
            for x in 0..60 {
                let inside = rect.x <= x && x < rect.x + rect.width && rect.y <= y && y < rect.y + rect.height;
                assert!(inside || buf[(x, y)] == full[(x, y)]);
            }
        }
    };
    let part = Rect { x: 3, y: 4, width: 9, height: 5 };
    let mut buf = full.clone();
    draw_header(&mut buf, &app, &theme, part, at(0));
    outside(&buf, part);
    let mut buf = full.clone();
    draw_body(&mut buf, &app, &theme, part, BLENDS, at(0));
    outside(&buf, part);
    let mut buf = full.clone();
    draw_end_banner(&mut buf, &app, Platform::Web, screen, true, at(0));
    outside(&buf, middle_of(screen, 44, 7));
    let mut buf = full.clone();
    draw_menu(&mut buf, &app, &theme, screen);
    outside(&buf, middle_of(screen, 34, 14));
}

#[test]
fn parts_are_drawn_where_they_are_told() {
    let app = session(Goal::Words(9), "x");
    let theme = Theme::of(Platform::Native);
    let mut buf = grid(20, 8);
    draw_header(&mut buf, &app, &theme, Rect { x: 2, y: 7, width: 16, height: 1 }, at(0));
    assert_eq!(row(&buf, 7), "     1 / 9 words    ");
    draw_body(&mut buf, &app, &theme, Rect { x: 5, y: 1, width: 4, height: 3 }, BLENDS, at(0));
    assert_eq!(rows(&buf)[1..4], ["     ┌──┐           ", "     │x█│           ", "     └──┘           "]);
    draw_body(&mut buf, &app, &theme, Rect { x: 18, y: 0, width: 9, height: 3 }, BLENDS, at(0));
    assert_eq!(row(&buf, 0), format!("{}┌┐", " ".repeat(18)));
    let mut buf = grid(10, 4);
    draw_menu(&mut buf, &app, &theme, Rect { x: 0, y: 0, width: 10, height: 4 });
    assert_eq!(rows(&buf), vec!["┌────────┐", "│danger-w│", "│pick you│", "└────────┘"]);
}

#[test]
fn wide_characters_take_two_cells() {
    let app = session(Goal::Words(9), "日本");
    let mut buf = grid(8, 4);
    draw(&mut buf, &app, Platform::Native, BLENDS, at(0));
    assert_eq!(buf[(1, 2)].symbol(), "日");
    assert_eq!(buf[(3, 2)].symbol(), "本");
    assert_eq!(buf[(5, 2)].symbol(), "█");
}

#[test]
fn grids_that_cannot_be_drawn_on_are_left_alone() {
    let app = session(Goal::Words(9), "x");
    let mut short = grid(20, 6);
    short.content.truncate(60);
    let before = short.clone();
    assert!(!is_paintable(&short));
    assert!(!try_draw(&mut short, &app, Platform::Native, BLENDS, at(0)));
    assert_eq!(short, before);
    assert!(is_paintable(&grid(40_000, 2)));
    assert!(is_paintable(&grid(0, 0)));
}

#[test]
fn very_wide_screens_show_ordinary_texts() {
    for width in [32_767, 32_768, 40_000, 65_535] {
        let mut app = session(Goal::Words(2), "one");
        let mut buf = grid(width, 20);
        assert!(try_draw(&mut buf, &app, Platform::Native, BLENDS, at(0)));
        assert_eq!(buf[(width / 2 - 5, 0)].symbol(), "1");
        assert_eq!((buf[(1, 2)].symbol(), buf[(4, 2)].symbol()), ("o", "█"));
        assert_eq!(buf[(width - 1, 19)].symbol(), "┘");
        app.text.push_str(" two");
        app.tick(at(10));
        assert_eq!(app.phase, Phase::Won);
        assert!(try_draw(&mut buf, &app, Platform::Native, BLENDS, at(10)));
        assert_eq!(buf[((width - 44) / 2, 6)].symbol(), "┌");
        app.phase = Phase::Menu;
        assert!(try_draw(&mut buf, &app, Platform::Web, BLENDS, at(10)));
        assert_eq!(buf[((width - 34) / 2, 3)].symbol(), "┌");
    }
}

#[test]
fn rows_that_fill_very_wide_screens_are_shown() {
    let mut app = session(Goal::Words(9), "");
    app.text = "x".repeat(39_000);
    let mut buf = grid(40_000, 4);
    assert!(try_draw(&mut buf, &app, Platform::Native, BLENDS, at(0)));
    assert_eq!((buf[(39_000, 2)].symbol(), buf[(39_001, 2)].symbol()), ("x", "█"));
    app.text = "日".repeat(30_000);
    assert!(try_draw(&mut buf, &app, Platform::Native, BLENDS, at(0)));
    assert_eq!((buf[(39_997, 2)].symbol(), buf[(39_999, 2)].symbol()), ("日", "│"));
}

#[test]
fn rows_whose_widths_overflow_are_not_drawn() {
    let mut app = session(Goal::Words(9), "");
    let syllable = format!("{}\u{1161}", "\u{1100}".repeat(16_384));
    app.text = format!("{syllable}{syllable}");
    let mut buf = grid(40_000, 4);
    assert!(!try_draw(&mut buf, &app, Platform::Native, BLENDS, at(0)));
    assert_eq!(buf, grid(40_000, 4));
    let mut buf = grid(32_767, 4);
    assert!(try_draw(&mut buf, &app, Platform::Native, BLENDS, at(0)));
}

#[test]
fn grids_away_from_the_corner() {
    let app = session(Goal::Words(9), "x");
    let mut buf = Buffer::empty(ratatui::layout::Rect::new(7, 3, 12, 4));
    assert!(try_draw(&mut buf, &app, Platform::Native, BLENDS, at(0)));
    assert_eq!(rows(&buf), vec![" 1 / 9 words", "┌──────────┐", "│x█        │", "└──────────┘"]);
}

#[test]
fn panels_that_have_no_place_are_not_drawn() {
    let mut app = session(Goal::Words(9), "x");
    app.phase = Phase::Won;
    let mut buf = grid(0, 0);
    buf.area.x = 65_535;
    buf.area.width = 100;
    assert!(!try_draw(&mut buf, &app, Platform::Native, BLENDS, at(0)));
}
