use danger_write::clipboard::clipboard_tools;
use danger_write::session::{menu_goal, App, CopyStep, Event, Goal, KeyCode, Phase, Step};
use danger_write::session::{DEFAULT_GOAL_SECS, DEFAULT_IDLE_SECS, MENU_LEN};
use danger_write::time::{Duration, Instant};

fn at(millis: u64) -> Instant {
    Instant { nanos: Duration::from_millis(millis).nanos }
}

fn session(goal: Goal) -> App {
    App::new(goal, Duration::from_secs(3), Duration::from_millis(2400), at(1000))
}

fn press(code: KeyCode) -> Event {
    Event::Key { code, press: true, control: false }
}

fn write(app: &mut App, text: &str, now: Instant) {
    for c in text.chars() {
        assert_eq!(app.handle_event(press(KeyCode::Char(c)), now), Step::Tick);
    }
}

fn dead() -> App {
    let mut app = session(Goal::Words(100));
    write(&mut app, "three lost words", at(1500));
    app.tick(at(4500));
    app.advance_effect(Duration::from_millis(1400));
    app.tick(at(6000));
    assert_eq!(app.phase, Phase::Dead);
    app
}

fn won() -> App {
    let mut app = session(Goal::Words(2));
    write(&mut app, "two words", at(1500));
    app.tick(at(1600));
    assert_eq!(app.phase, Phase::Won);
    app
}

#[test]
fn a_new_session_is_empty_and_being_written() {
    let app = session(Goal::Time(Duration::from_secs(60)));
    assert_eq!(app.text, "");
    assert_eq!(app.phase, Phase::Writing);
    assert_eq!(app.word_count(), 0);
    assert_eq!(app.elapsed(at(3000)), Duration::from_secs(2));
    assert!(!app.copied);
    assert!(app.death_fx.is_none());
}

#[test]
fn keys_write_text() {
    let mut app = session(Goal::Words(100));
    write(&mut app, "hé", at(1100));
    app.handle_event(press(KeyCode::Enter), at(1200));
    app.handle_event(press(KeyCode::Tab), at(1300));
    write(&mut app, "x", at(1400));
    assert_eq!(app.text, "hé\n    x");
    assert_eq!(app.last_key, at(1400));
    app.handle_event(press(KeyCode::Backspace), at(1500));
    assert_eq!(app.text, "hé\n    ");
    app.handle_event(press(KeyCode::Up), at(1600));
    app.handle_event(press(KeyCode::Other), at(1600));
    assert_eq!(app.last_key, at(1500));
    assert_eq!(app.word_count(), 1);
}

#[test]
fn backspace_takes_back_what_was_typed_last() {
    let mut app = session(Goal::Words(100));
    write(&mut app, "日本", at(1100));
    app.handle_event(press(KeyCode::Backspace), at(1200));
    assert_eq!(app.text, "日");
    app.handle_event(press(KeyCode::Tab), at(1200));
    for _ in 0..4 {
        app.handle_event(press(KeyCode::Backspace), at(1200));
    }
    assert_eq!(app.text, "日");
    app.handle_event(press(KeyCode::Backspace), at(1200));
    app.handle_event(press(KeyCode::Backspace), at(1300));
    assert_eq!(app.text, "");
    assert_eq!(app.last_key, at(1300));
}

#[test]
fn words_die_when_typing_stops() {
    let mut app = session(Goal::Words(100));
    write(&mut app, "three lost words", at(1500));
    app.tick(at(4499));
    assert_eq!(app.phase, Phase::Writing);
    app.tick(at(4500));
    assert_eq!(app.phase, Phase::Dying);
    assert_eq!(app.text, "three lost words");
    assert_eq!(app.lost_words, 3);
    assert_eq!(app.elapsed(at(99_000)), Duration::from_millis(3500));
    app.advance_effect(Duration::from_millis(1399));
    app.tick(at(5899));
    assert_eq!(app.phase, Phase::Dying);
    assert_eq!(app.text, "three lost words");
    app.advance_effect(Duration::from_millis(1));
    app.tick(at(5900));
    assert_eq!(app.phase, Phase::Dead);
    assert_eq!(app.text, "");
    assert_eq!(app.lost_words, 3);
    assert!(app.death_fx.is_none());
    assert_eq!(app.elapsed(at(99_000)), Duration::from_millis(3500));
}

#[test]
fn typing_in_time_keeps_the_words() {
    let mut app = session(Goal::Words(100));
    let mut now = 1000;
    for _ in 0..50 {
        now += 2999;
        app.tick(at(now));
        assert_eq!(app.phase, Phase::Writing);
        write(&mut app, "x", at(now));
    }
    assert_eq!(app.text.len(), 50);
}

#[test]
fn an_empty_page_cannot_die() {
    let mut app = session(Goal::Words(100));
    app.tick(at(1_000_000));
    assert_eq!(app.phase, Phase::Writing);
    write(&mut app, " ", at(1_000_000));
    app.tick(at(1_003_000));
    assert_eq!(app.phase, Phase::Dying);
    assert_eq!(app.lost_words, 0);
}

#[test]
fn a_word_goal_is_reached_by_words() {
    let mut app = session(Goal::Words(2));
    write(&mut app, "one ", at(1500));
    app.tick(at(1500));
    assert_eq!(app.phase, Phase::Writing);
    assert!(!app.goal_reached(at(1500)));
    write(&mut app, "t", at(1600));
    assert!(app.goal_reached(at(1600)));
    app.tick(at(1600));
    assert_eq!(app.phase, Phase::Won);
    assert_eq!(app.text, "one t");
    assert_eq!(app.elapsed(at(9000)), Duration::from_millis(600));
}

#[test]
fn a_time_goal_is_reached_by_time_even_over_a_pause() {
    let mut app = session(Goal::Time(Duration::from_secs(4)));
    write(&mut app, "words", at(1500));
    assert!(!app.goal_reached(at(4999)));
    app.tick(at(5000));
    assert_eq!(app.phase, Phase::Won);
    assert_eq!(app.text, "words");
}

#[test]
fn a_goal_of_no_words_is_reached_at_once() {
    let mut app = session(Goal::Words(0));
    app.tick(at(1000));
    assert_eq!(app.phase, Phase::Won);
}

#[test]
fn won_text_is_frozen() {
    let mut app = won();
    for code in [KeyCode::Char('x'), KeyCode::Backspace, KeyCode::Enter, KeyCode::Tab, KeyCode::Char('r')] {
        assert_eq!(app.handle_event(press(code), at(2000)), Step::Tick);
    }
    app.tick(at(1_000_000));
    assert_eq!(app.text, "two words");
    assert_eq!(app.phase, Phase::Won);
}

#[test]
fn winners_copy_and_quit() {
    let mut app = won();
    assert_eq!(app.handle_event(press(KeyCode::Char('c')), at(2000)), Step::Copy);
    assert_eq!(app.handle_event(press(KeyCode::Char('q')), at(2000)), Step::Quit);
}

#[test]
fn losers_restart_and_quit() {
    let mut app = dead();
    assert_eq!(app.handle_event(press(KeyCode::Char('c')), at(7000)), Step::Tick);
    assert_eq!(app.handle_event(press(KeyCode::Char('q')), at(7000)), Step::Quit);
    assert_eq!(app.handle_event(press(KeyCode::Char('r')), at(8000)), Step::Tick);
    assert_eq!(app.phase, Phase::Writing);
    assert_eq!(app.text, "");
    assert_eq!(app.goal, Goal::Words(100));
    assert_eq!(app.lost_words, 0);
    assert_eq!(app.elapsed(at(9000)), Duration::from_secs(1));
    assert_eq!(app.last_key, at(8000));
}

#[test]
fn control_c_always_quits() {
    let event = Event::Key { code: KeyCode::Char('c'), press: true, control: true };
    for mut app in [session(Goal::Words(9)), won(), dead()] {
        assert_eq!(app.handle_event(event, at(7000)), Step::Quit);
    }
    let mut app = session(Goal::Words(9));
    let other = Event::Key { code: KeyCode::Char('x'), press: true, control: true };
    assert_eq!(app.handle_event(other, at(7000)), Step::Tick);
    assert_eq!(app.text, "x");
}

#[test]
fn only_presses_count() {
    let mut app = session(Goal::Words(9));
    let event = Event::Key { code: KeyCode::Char('c'), press: false, control: true };
    assert_eq!(app.handle_event(event, at(2000)), Step::Skip);
    let event = Event::Key { code: KeyCode::Char('x'), press: false, control: false };
    assert_eq!(app.handle_event(event, at(2000)), Step::Skip);
    assert_eq!(app.handle_event(Event::Other, at(2000)), Step::Tick);
    assert_eq!(app.text, "");
    assert_eq!(app.last_key, at(1000));
}

#[test]
fn dying_ignores_input() {
    let mut app = session(Goal::Words(100));
    write(&mut app, "gone", at(1500));
    app.tick(at(4500));
    for code in [KeyCode::Char('x'), KeyCode::Char('q'), KeyCode::Char('r'), KeyCode::Backspace] {
        assert_eq!(app.handle_event(press(code), at(4600)), Step::Tick);
        assert!(!app.handle_web_key(code, false, false, at(4600)));
    }
    assert_eq!(app.text, "gone");
    assert_eq!(app.phase, Phase::Dying);
}

#[test]
fn the_first_tool_that_accepts_wins() {
    let tools = clipboard_tools(true, true);
    let mut app = won();
    assert_eq!(app.copy(&tools, 0, false), CopyStep::Try(0));
    assert_eq!(app.copy(&tools, 1, false), CopyStep::Try(1));
    assert!(!app.copied);
    assert_eq!(app.copy(&tools, 2, true), CopyStep::Copied);
    assert!(app.copied);
    let mut app = won();
    assert_eq!(app.copy(&tools, tools.len(), false), CopyStep::NoTool);
    assert!(!app.copied);
}

#[test]
fn frames_are_timed() {
    let mut app = session(Goal::Words(9));
    assert_eq!(app.begin_frame(at(1050)), Duration::from_millis(50));
    assert_eq!(app.begin_frame(at(1080)), Duration::from_millis(30));
    assert_eq!(app.begin_frame(at(1070)), Duration::from_millis(0));
    app.advance_effect(Duration::from_secs(9));
    assert!(app.death_fx.is_none());
}

#[test]
fn the_menu_wraps_around() {
    let mut app = App::at_menu(Duration::from_millis(2400), at(0));
    assert_eq!(app.phase, Phase::Menu);
    assert_eq!(app.idle_limit, Duration::from_secs(DEFAULT_IDLE_SECS));
    assert_eq!(app.goal, Goal::Time(Duration::from_secs(DEFAULT_GOAL_SECS)));
    app.menu_move(-1);
    assert_eq!(app.menu_index, 6);
    app.menu_move(1);
    assert_eq!(app.menu_index, 0);
    app.menu_move(-15);
    assert_eq!(app.menu_index, 6);
    app.menu_move(7);
    assert_eq!(app.menu_index, 6);
}

#[test]
fn the_menu_offers_seven_goals() {
    let goals: Vec<Goal> = (0..MENU_LEN).map(menu_goal).collect();
    let minutes = |n: u64| Goal::Time(Duration::from_secs(60 * n));
    let expected = vec![
        minutes(1),
        minutes(3),
        minutes(5),
        minutes(10),
        Goal::Words(100),
        Goal::Words(250),
        Goal::Words(500),
    ];
    assert_eq!(goals, expected);
}

#[test]
fn the_menu_starts_a_session() {
    let mut app = App::at_menu(Duration::from_millis(2400), at(0));
    for code in [KeyCode::Down, KeyCode::Char('j'), KeyCode::Char('j'), KeyCode::Up, KeyCode::Char('k')] {
        assert!(!app.handle_web_key(code, false, false, at(10)));
    }
    app.handle_web_key(KeyCode::Char('x'), false, false, at(10));
    assert_eq!(app.menu_index, 1);
    app.handle_web_key(KeyCode::Enter, false, false, at(5000));
    assert_eq!(app.phase, Phase::Writing);
    assert_eq!(app.goal, Goal::Time(Duration::from_secs(180)));
    assert_eq!(app.start, at(5000));
    assert_eq!(app.text, "");
}

#[test]
fn web_sessions_end_in_the_menu() {
    let mut app = won();
    assert!(app.handle_web_key(KeyCode::Char('c'), false, false, at(2000)));
    assert!(!app.handle_web_key(KeyCode::Char('q'), false, false, at(2000)));
    assert_eq!(app.phase, Phase::Won);
    app.handle_web_key(KeyCode::Char('r'), false, false, at(2000));
    assert_eq!(app.phase, Phase::Menu);
    assert_eq!(app.text, "two words");
    let mut app = dead();
    assert!(!app.handle_web_key(KeyCode::Char('c'), false, false, at(7000)));
    app.handle_web_key(KeyCode::Char('r'), false, false, at(7000));
    assert_eq!(app.phase, Phase::Menu);
}

#[test]
fn web_keys_write_unless_they_are_shortcuts() {
    let mut app = session(Goal::Words(9));
    app.handle_web_key(KeyCode::Char('a'), true, false, at(1100));
    app.handle_web_key(KeyCode::Char('a'), false, true, at(1100));
    assert_eq!(app.text, "");
    app.handle_web_key(KeyCode::Char('a'), false, false, at(1200));
    app.handle_web_key(KeyCode::Enter, false, false, at(1300));
    assert_eq!(app.text, "a\n");
    assert_eq!(app.last_key, at(1300));
}

#[test]
fn idle_settings_outlast_restarts_and_the_menu() {
    let mut app = dead();
    app.handle_event(press(KeyCode::Char('r')), at(8000));
    assert_eq!(app.idle_limit, Duration::from_secs(3));
    assert_eq!(app.fade_window, Duration::from_millis(2400));
    let mut app = dead();
    app.handle_web_key(KeyCode::Char('r'), false, false, at(8000));
    app.handle_web_key(KeyCode::Up, false, false, at(8100));
    app.handle_web_key(KeyCode::Enter, false, false, at(8200));
    assert_eq!(app.goal, Goal::Words(500));
    assert_eq!(app.idle_limit, Duration::from_secs(3));
    assert_eq!(app.fade_window, Duration::from_millis(2400));
}

#[test]
fn a_second_tick_at_the_same_moment_changes_nothing() {
    let mut app = session(Goal::Words(100));
    write(&mut app, "gone soon", at(1500));
    app.tick(at(4500));
    app.tick(at(4500));
    assert_eq!(app.phase, Phase::Dying);
    assert_eq!(app.text, "gone soon");
    assert_eq!(app.lost_words, 2);
}
