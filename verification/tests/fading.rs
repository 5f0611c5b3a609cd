use danger_write::canvas::Color;
use danger_write::session::{App, Event, Goal, KeyCode, Phase};
use danger_write::theme::{border_color, fade_color, mix_color, Platform, Shade, Theme};
use danger_write::time::{Duration, Instant};

fn at(millis: u64) -> Instant {
    Instant { nanos: Duration::from_millis(millis).nanos }
}

fn session() -> App {
    App::new(Goal::Words(100), Duration::from_secs(3), Duration::from_millis(2400), at(0))
}

#[test]
fn nothing_fades_at_first() {
    let theme = Theme::of(Platform::Native);
    let app = session();
    assert_eq!(fade_color(&app, &theme, at(600)), Shade::Plain(Color::Reset));
    assert_eq!(border_color(&app, &theme, at(600)), Shade::Plain(Color::Rgb(60, 60, 60)));
}

#[test]
fn text_and_border_fade_over_the_last_part_of_the_pause() {
    let theme = Theme::of(Platform::Native);
    let app = session();
    let part = Duration::from_millis(1200);
    let whole = Duration::from_millis(2400);
    assert_eq!(
        fade_color(&app, &theme, at(1800)),
        Shade::Blend { from: (220, 220, 220), to: (90, 90, 90), part, whole }
    );
    assert_eq!(
        border_color(&app, &theme, at(1800)),
        Shade::Blend { from: (60, 60, 60), to: (200, 40, 40), part, whole }
    );
    match fade_color(&app, &theme, at(3000)) {
        Shade::Blend { part, whole, .. } => assert_eq!(part, whole),
        Shade::Plain(_) => panic!("the text fades until the limit"),
    }
}

#[test]
fn a_window_longer_than_the_limit_fades_from_the_start() {
    let theme = Theme::of(Platform::Web);
    let whole = Duration::from_secs(9);
    let app = App::new(Goal::Words(1), Duration::from_secs(3), whole, at(0));
    assert_eq!(fade_color(&app, &theme, at(0)), Shade::Plain(Color::Rgb(0xeb, 0xdb, 0xb2)));
    let part = Duration::from_millis(1);
    assert_eq!(
        fade_color(&app, &theme, at(1)),
        Shade::Blend { from: (0xeb, 0xdb, 0xb2), to: (0x66, 0x5c, 0x54), part, whole }
    );
}

#[test]
fn saved_text_does_not_fade_and_lost_text_is_framed_in_red() {
    let theme = Theme::of(Platform::Web);
    let mut app = session();
    app.handle_event(Event::Key { code: KeyCode::Char('x'), press: true, control: false }, at(0));
    app.tick(at(3000));
    assert_eq!(app.phase, Phase::Dying);
    assert_eq!(border_color(&app, &theme, at(3000)), Shade::Plain(Color::Rgb(0xfb, 0x49, 0x34)));
    app.phase = Phase::Won;
    assert_eq!(fade_color(&app, &theme, at(9000)), Shade::Plain(theme.safe_fg));
    assert_eq!(border_color(&app, &theme, at(9000)), Shade::Plain(mix_color(theme.border_calm)));
}

#[test]
fn palettes() {
    let native = Theme::of(Platform::Native);
    assert_eq!((native.muted, native.won, native.lost, native.detail), (Color::DarkGray, Color::Green, Color::Red, Color::Gray));
    let web = Theme::of(Platform::Web);
    assert_eq!(web.muted, Color::Rgb(0x92, 0x83, 0x74));
    assert_eq!(web.won, Color::Rgb(0xb8, 0xbb, 0x26));
    assert_eq!(web.lost, mix_color(web.danger));
    assert_eq!(web.detail, Color::Rgb(0xa8, 0x99, 0x84));
}

#[test]
fn shades_settle_at_their_ends() {
    let blend = Color::Rgb(1, 2, 3);
    let shade = |part: u64, whole: u64| Shade::Blend {
        from: (10, 20, 30),
        to: (40, 50, 60),
        part: Duration::from_millis(part),
        whole: Duration::from_millis(whole),
    };
    assert_eq!(Shade::Plain(Color::Red).settle(blend), Color::Red);
    assert_eq!(shade(1, 1000).settle(blend), blend);
    assert_eq!(shade(999, 1000).settle(blend), blend);
    assert_eq!(shade(1000, 1000).settle(blend), Color::Rgb(40, 50, 60));
    assert_eq!(shade(5000, 1000).settle(blend), Color::Rgb(40, 50, 60));
    assert_eq!(shade(1, 0).settle(blend), Color::Rgb(40, 50, 60));
}

#[test]
fn the_fade_is_complete_when_the_words_die() {
    let theme = Theme::of(Platform::Native);
    let mut app = session();
    app.handle_event(Event::Key { code: KeyCode::Char('x'), press: true, control: false }, at(0));
    assert_eq!(fade_color(&app, &theme, at(3000)).settle(Color::Reset), mix_color(theme.fade_to));
    assert_eq!(border_color(&app, &theme, at(3000)).settle(Color::Reset), mix_color(theme.danger));
    app.tick(at(3000));
    assert_eq!(app.phase, Phase::Dying);
}
