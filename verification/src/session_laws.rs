//! What holds of every session.

use crate::dissolve::Dissolve;
use crate::session::{copy_step, fresh_effect, preset};
use crate::session::{App, CopyStep, Event, Goal, KeyCode, Phase, Session, Step, MENU_LEN};
use crate::text::{white, words};
use crate::time::{Duration, Instant};
use vstd::prelude::*;

verus! {

/// What can happen to a session.
pub ghost enum Move {
    Event(Event, Instant),
    WebKey(KeyCode, bool, bool, Instant),
    Tick(Instant),
    Frame(Instant),
    Effect(Duration),
    /// The text that was won has been put on the clipboard.
    Copied,
}

/// The session after one move.
pub open spec fn moved(s: Session, m: Move) -> Session {
    match m {
        Move::Event(event, now) => s.handled(event, now).0,
        Move::WebKey(code, ctrl, alt, now) => s.web_handled(code, ctrl, alt, now).0,
        Move::Tick(now) => s.ticked(now),
        Move::Frame(now) => Session { last_frame: now, ..s },
        Move::Effect(dt) => s.effect_advanced(dt),
        Move::Copied => Session { copied: s.copied || s.phase == Phase::Won, ..s },
    }
}

/// The session after all of `moves`, one after the other.
pub open spec fn run(s: Session, moves: Seq<Move>) -> Session
    decreases moves.len(),
{
    if moves.len() == 0 {
        s
    } else {
        moved(run(s, moves.drop_last()), moves.last())
    }
}

/// Pause over your words for as long as the limit without having reached the goal, and
/// they die: first they are left in place to dissolve, and once the dissolve has run its
/// course the text is empty. What was lost and how long it lasted is kept.
pub proof fn law_words_die_when_typing_stops(
    s: Session,
    now: Instant,
    dt: Duration,
    later: Instant,
)
    requires
        s.phase == Phase::Writing,
        s.text.len() > 0,
        !s.goal_reached(now),
        s.idle(now).nanos >= s.idle_limit.nanos,
        dt.nanos >= fresh_effect().duration.nanos,
    ensures
        s.ticked(now).phase == Phase::Dying,
        s.ticked(now).text == s.text,
        s.ticked(now).effect_advanced(dt).ticked(later).phase == Phase::Dead,
        s.ticked(now).effect_advanced(dt).ticked(later).text == Seq::<char>::empty(),
        s.ticked(now).effect_advanced(dt).ticked(later).lost_words == words(s.text),
        s.ticked(now).effect_advanced(dt).ticked(later).elapsed(later) == now.since(s.start),
{
}

/// While the dissolve is still running the text stays in place, whatever time it is.
pub proof fn law_dissolve_is_waited_for(s: Session, fx: Dissolve, now: Instant)
    requires
        s.phase == Phase::Dying,
        s.death_fx == Some(fx),
        !fx.over(),
    ensures
        s.ticked(now) == s,
{
}

/// Keep typing and nothing is lost: until the pause since the last keystroke has lasted as
/// long as the limit, the passing of time leaves the text alone and the session alive.
pub proof fn law_typing_keeps_you_alive(s: Session, code: KeyCode, typed_at: Instant, now: Instant)
    requires
        s.phase == Phase::Writing,
        s.written(code, typed_at).last_key == typed_at,
        now.since(typed_at).nanos < s.idle_limit.nanos,
    ensures
        ({
            let after = s.written(code, typed_at).ticked(now);
            &&& after.text == s.written(code, typed_at).text
            &&& after.phase == Phase::Writing || after.phase == Phase::Won
        }),
{
}

/// A session in which nothing has been written cannot be lost.
pub proof fn law_nothing_written_nothing_lost(s: Session, now: Instant)
    requires
        s.phase == Phase::Writing,
        s.text.len() == 0,
    ensures
        s.ticked(now).phase == Phase::Writing || s.ticked(now).phase == Phase::Won,
{
}

/// Reach the goal and you survive, however long the pause has been: the text stays as it
/// is.
pub proof fn law_goal_saves_the_text(s: Session, now: Instant)
    requires
        s.phase == Phase::Writing,
        s.goal_reached(now),
    ensures
        s.ticked(now).phase == Phase::Won,
        s.ticked(now).text == s.text,
        s.ticked(now).elapsed(now) == now.since(s.start),
{
}

/// You survive only by reaching the goal: nothing but a tick wins a session, and only one
/// that is being written and whose goal is reached at that moment.
pub proof fn law_only_the_goal_wins(s: Session, m: Move)
    requires
        s.phase != Phase::Won,
        moved(s, m).phase == Phase::Won,
    ensures
        s.phase == Phase::Writing,
        m matches Move::Tick(now) && s.goal_reached(now),
{
}

/// After you win, the text is safe: whatever happens in the terminal, it stays as it is,
/// and the session stays won. In the browser a key can lead back to the menu, but leaves
/// the text alone.
pub proof fn law_won_text_is_safe(s: Session, moves: Seq<Move>, last: Move)
    requires
        s.phase == Phase::Won,
        forall|i: int| 0 <= i < moves.len() ==> !(#[trigger] moves[i] is WebKey),
    ensures
        run(s, moves).phase == Phase::Won,
        run(s, moves).text == s.text,
        moved(run(s, moves), last).text == s.text,
    decreases moves.len(),
{
    if moves.len() > 0 {
        let front = moves.drop_last();
        assert forall|i: int| 0 <= i < front.len() implies !(#[trigger] front[i] is WebKey) by {
            assert(!(moves[i] is WebKey));
        }
        assert(!(moves[moves.len() - 1] is WebKey));
        law_won_text_is_safe(s, front, moves.last());
    }
}

/// Only a pause ends a session badly: nothing but a tick does, and only over a text, short
/// of the goal, and once the pause has lasted as long as the limit.
pub proof fn law_only_a_pause_kills(s: Session, m: Move)
    requires
        s.phase != Phase::Dying,
        moved(s, m).phase == Phase::Dying,
    ensures
        s.phase == Phase::Writing,
        s.text.len() > 0,
        m matches Move::Tick(now) && !s.goal_reached(now) && s.idle(now).nanos
            >= s.idle_limit.nanos,
{
}

/// Copying is unlocked by winning and by nothing else.
pub proof fn law_copying_is_for_winners(
    s: Session,
    event: Event,
    code: KeyCode,
    ctrl: bool,
    alt: bool,
    now: Instant,
)
    ensures
        s.handled(event, now).1 == Step::Copy ==> s.phase == Phase::Won,
        s.web_handled(code, ctrl, alt, now).1 ==> s.phase == Phase::Won,
        s.phase == Phase::Won ==> s.handled(
            Event::Key { code: KeyCode::Char('c'), press: true, control: false },
            now,
        ).1 == Step::Copy,
        s.phase == Phase::Won ==> s.web_handled(KeyCode::Char('c'), false, false, now).1,
{
}

/// The text changes only by a key while writing, by the end of the dissolve, and by the
/// start of a new session.
pub proof fn law_text_changes_only_by_writing_or_dying(s: Session, m: Move)
    requires
        moved(s, m).text != s.text,
    ensures
        match m {
            Move::Event(event, now) => s.phase == Phase::Writing || s.phase == Phase::Dead,
            Move::WebKey(code, ctrl, alt, now) => s.phase == Phase::Writing || s.phase
                == Phase::Menu,
            Move::Tick(now) => s.phase == Phase::Dying,
            _ => false,
        },
{
}

/// Ctrl+C quits in every phase, and changes nothing.
pub proof fn law_control_c_always_quits(s: Session, now: Instant)
    ensures
        s.handled(Event::Key { code: KeyCode::Char('c'), press: true, control: true }, now) == (
            s,
            Step::Quit,
        ),
{
}

/// While the words die, no key in the terminal or in the browser changes anything.
pub proof fn law_dying_ignores_input(
    s: Session,
    event: Event,
    code: KeyCode,
    ctrl: bool,
    alt: bool,
    now: Instant,
)
    requires
        s.phase == Phase::Dying,
    ensures
        s.handled(event, now).0 == s,
        s.handled(event, now).1 != Step::Copy,
        s.web_handled(code, ctrl, alt, now) == (s, false),
{
}

/// Keys that go up or repeat do nothing, and no time passes over them.
pub proof fn law_only_presses_count(s: Session, code: KeyCode, control: bool, now: Instant)
    ensures
        s.handled(Event::Key { code, press: false, control }, now) == (s, Step::Skip),
{
}

/// Once a session has ended, its clock stands still.
pub proof fn law_ended_clock_stands_still(s: Session, now: Instant, later: Instant)
    requires
        s.valid(),
        s.phase == Phase::Won || s.phase == Phase::Dying || s.phase == Phase::Dead,
    ensures
        s.elapsed(now) == s.elapsed(later),
        s.ticked(now).elapsed(later) == s.elapsed(now),
{
}

/// A tick that comes twice at the same moment does no more than one.
pub proof fn law_ticking_twice_is_ticking_once(s: Session, now: Instant)
    ensures
        s.ticked(now).ticked(now) == s.ticked(now),
{
}

/// A restart gives what a new session with the same goal and idle settings is.
pub proof fn law_restart_is_a_new_session(s: Session, now: Instant)
    requires
        s.phase == Phase::Dead,
    ensures
        s.handled(
            Event::Key { code: KeyCode::Char('r'), press: true, control: false },
            now,
        ).0 == (Session {
            menu_index: s.menu_index,
            ..Session::fresh(s.goal, s.idle_limit, s.fade_window, now)
        }),
        s.restarted(now).restarted(now) == s.restarted(now),
{
}

/// Backspace takes back the character typed last, and four of them a tab.
pub proof fn law_backspace_takes_back(s: Session, c: char, now: Instant, later: Instant)
    ensures
        s.written(KeyCode::Char(c), now).written(KeyCode::Backspace, later).text == s.text,
        s.written(KeyCode::Enter, now).written(KeyCode::Backspace, later).text == s.text,
        s.written(KeyCode::Tab, now).written(KeyCode::Backspace, later).written(
            KeyCode::Backspace,
            later,
        ).written(KeyCode::Backspace, later).written(KeyCode::Backspace, later).text == s.text,
{
    assert((s.text + seq![c]).drop_last() =~= s.text);
    assert((s.text + seq!['\n']).drop_last() =~= s.text);
    let tabbed = s.text + seq![' ', ' ', ' ', ' '];
    assert(tabbed.drop_last().drop_last().drop_last().drop_last() =~= s.text);
}

/// The menu's highlight comes back by as many moves as it went, and by as many as there
/// are entries.
pub proof fn law_menu_wraps_around(s: Session, delta: int)
    requires
        s.menu_index < MENU_LEN,
    ensures
        s.menu_moved(delta).menu_index < MENU_LEN,
        s.menu_moved(delta).menu_moved(-delta) == s,
        s.menu_moved(MENU_LEN as int) == s,
{
}

/// Choosing a goal from the menu begins a session with that goal and an empty page.
pub proof fn law_menu_starts_a_session(s: Session, now: Instant)
    requires
        s.phase == Phase::Menu,
    ensures
        ({
            let begun = s.web_handled(KeyCode::Enter, false, false, now).0;
            &&& begun.phase == Phase::Writing
            &&& begun.goal == preset(s.menu_index)
            &&& begun.text == Seq::<char>::empty()
            &&& begun.elapsed(now).nanos == 0
        }),
{
}

/// What holds of every session holds of it whatever happens.
pub proof fn law_sessions_stay_valid(s: Session, moves: Seq<Move>)
    requires
        s.valid(),
    ensures
        run(s, moves).valid(),
    decreases moves.len(),
{
    if moves.len() > 0 {
        law_sessions_stay_valid(s, moves.drop_last());
    }
}

/// How long a pause may last, and over which part of it the text fades, stays as it was at
/// the start, whatever happens; in the terminal so does the goal.
pub proof fn law_settings_never_change(s: Session, moves: Seq<Move>)
    ensures
        run(s, moves).idle_limit == s.idle_limit,
        run(s, moves).fade_window == s.fade_window,
        (forall|i: int| 0 <= i < moves.len() ==> !(#[trigger] moves[i] is WebKey)) ==> run(
            s,
            moves,
        ).goal == s.goal,
    decreases moves.len(),
{
    if moves.len() > 0 {
        let front = moves.drop_last();
        law_settings_never_change(s, front);
        if forall|i: int| 0 <= i < moves.len() ==> !(#[trigger] moves[i] is WebKey) {
            assert forall|i: int| 0 <= i < front.len() implies !(#[trigger] front[i] is WebKey) by {
                assert(!(moves[i] is WebKey));
            }
            assert(!(moves[moves.len() - 1] is WebKey));
        }
    }
}

/// Whether every tick among `moves` comes before the pause since the last keystroke has
/// lasted as long as the limit.
pub open spec fn in_time(s: Session, moves: Seq<Move>) -> bool {
    forall|i: int|
        0 <= i < moves.len() ==> match #[trigger] moves[i] {
            Move::Tick(now) => run(s, moves.take(i)).idle(now).nanos < s.idle_limit.nanos,
            _ => true,
        }
}

/// Who keeps typing in the terminal never loses a word: as long as every tick comes in
/// time, the session is being written or has been won.
pub proof fn law_steady_typing_is_never_punished(s: Session, moves: Seq<Move>)
    requires
        s.phase == Phase::Writing || s.phase == Phase::Won,
        in_time(s, moves),
        forall|i: int| 0 <= i < moves.len() ==> !(#[trigger] moves[i] is WebKey),
    ensures
        run(s, moves).phase == Phase::Writing || run(s, moves).phase == Phase::Won,
        run(s, moves).idle_limit == s.idle_limit,
    decreases moves.len(),
{
    if moves.len() > 0 {
        let front = moves.drop_last();
        assert forall|i: int| 0 <= i < front.len() implies match #[trigger] front[i] {
            Move::Tick(now) => run(s, front.take(i)).idle(now).nanos < s.idle_limit.nanos,
            _ => true,
        } by {
            assert(moves[i] == front[i]);
            assert(front.take(i) =~= moves.take(i));
        }
        assert forall|i: int| 0 <= i < front.len() implies !(#[trigger] front[i] is WebKey) by {
            assert(!(moves[i] is WebKey));
        }
        law_steady_typing_is_never_punished(s, front);
        assert(moves.take(moves.len() - 1) =~= front);
        assert(!(moves[moves.len() - 1] is WebKey));
    }
}

/// The index of the tool that accepts the text, where the tools from `tried` on are
/// tried one by one and `outcomes` says what each of them makes of it.
pub open spec fn copying(outcomes: Seq<bool>, tried: usize) -> Option<usize>
    decreases outcomes.len() - tried,
        when outcomes.len() < usize::MAX
{
    match copy_step(outcomes.len(), tried, false) {
        CopyStep::Try(i) => if outcomes[i as int] {
            Some(i)
        } else {
            copying(outcomes, (i + 1) as usize)
        },
        _ => None,
    }
}

/// The first clipboard tool that accepts the text wins; none does only where all refuse.
pub proof fn law_first_accepting_tool_wins(outcomes: Seq<bool>, tried: usize)
    requires
        tried <= outcomes.len() < usize::MAX,
    ensures
        match copying(outcomes, tried) {
            Some(i) => tried <= i < outcomes.len() && outcomes[i as int] && forall|j: int|
                tried <= j < i ==> !#[trigger] outcomes[j],
            None => forall|j: int| tried <= j < outcomes.len() ==> !#[trigger] outcomes[j],
        },
    decreases outcomes.len() - tried,
{
    if tried < outcomes.len() && !outcomes[tried as int] {
        law_first_accepting_tool_wins(outcomes, (tried + 1) as usize);
    }
}

// --- what each thing that happens does ---------------------------------------

/// A press of a key, without control.
pub open spec fn pressed(code: KeyCode) -> Event {
    Event::Key { code, press: true, control: false }
}

/// The state of a session is what its fields hold.
pub proof fn law_state_is_in_the_fields(app: App)
    ensures
        app@.text == app.text@,
        app@.goal == app.goal,
        app@.idle_limit == app.idle_limit,
        app@.fade_window == app.fade_window,
        app@.start == app.start,
        app@.last_key == app.last_key,
        app@.phase == app.phase,
        app@.frozen_elapsed == app.frozen_elapsed,
        app@.lost_words == app.lost_words,
        app@.copied == app.copied,
        app@.death_fx == app.death_fx,
        app@.last_frame == app.last_frame,
        app@.menu_index == app.menu_index,
{
}

/// A session survives if and only if it reaches its goal: as many words as were asked for,
/// or as much time since its start. Its clock then stops, and nothing else changes.
pub proof fn law_winning_is_reaching_the_goal(s: Session, now: Instant)
    requires
        s.phase == Phase::Writing,
    ensures
        match s.goal {
            Goal::Words(n) => s.ticked(now).phase == Phase::Won <==> words(s.text) >= n,
            Goal::Time(span) => s.ticked(now).phase == Phase::Won <==> now.nanos - s.start.nanos
                >= span.nanos || span.nanos == 0,
        },
        s.ticked(now).phase == Phase::Won ==> s.ticked(now) == (Session {
            phase: Phase::Won,
            frozen_elapsed: Some(now.since(s.start)),
            ..s
        }),
{
}

/// Every word counts toward a word goal, and nothing but words does: a text without white
/// space does not reach a goal of two words, however long it is.
pub proof fn law_letters_are_no_words(s: Session, n: usize, now: Instant)
    requires
        s.phase == Phase::Writing,
        s.goal == Goal::Words(n),
        n >= 2,
        forall|i: int| 0 <= i < s.text.len() ==> !white(#[trigger] s.text[i]),
    ensures
        s.ticked(now).phase != Phase::Won,
{
    crate::text::law_a_run_is_one_word(s.text);
}

/// A session that has not reached its goal dies if and only if there is a text and nothing
/// has been typed for as long as the limit; otherwise a tick leaves it alone. As it dies,
/// its words are counted, its clock stops, and a dissolve of 1.4 seconds begins.
pub proof fn law_dying_is_pausing(s: Session, now: Instant)
    requires
        s.phase == Phase::Writing,
        s.ticked(now).phase != Phase::Won,
    ensures
        s.ticked(now).phase == Phase::Dying <==> s.text.len() > 0 && (now.nanos - s.last_key.nanos
            >= s.idle_limit.nanos || s.idle_limit.nanos == 0),
        s.ticked(now).phase != Phase::Dying ==> s.ticked(now) == s,
        s.ticked(now).phase == Phase::Dying ==> s.ticked(now) == (Session {
            phase: Phase::Dying,
            lost_words: words(s.text),
            frozen_elapsed: Some(now.since(s.start)),
            death_fx: Some(
                Dissolve {
                    duration: Duration { nanos: 1_400_000_000 },
                    elapsed: Duration { nanos: 0 },
                },
            ),
            ..s
        }),
{
}

/// A dying session is dead as soon as its dissolve has lasted as long as it should, and then
/// has no text; no other phase is left by a tick.
pub proof fn law_death_comes_with_the_end_of_the_dissolve(s: Session, now: Instant)
    requires
        s.phase != Phase::Writing,
    ensures
        s.phase != Phase::Dying ==> s.ticked(now) == s,
        s.phase == Phase::Dying ==> match s.death_fx {
            Some(fx) if fx.elapsed.nanos < fx.duration.nanos => s.ticked(now) == s,
            _ => s.ticked(now) == (Session {
                phase: Phase::Dead,
                text: Seq::empty(),
                death_fx: None,
                ..s
            }),
        },
{
}

/// While writing, a key writes exactly what it says: a character itself, Enter a line feed,
/// Tab four spaces; Backspace takes the last character away. Each of them resets the idle
/// clock, and nothing else changes. Other keys do nothing. So it is in the terminal and in
/// the browser.
#[verifier::spinoff_prover]
#[verifier::rlimit(40)]
pub proof fn law_keys_write_what_they_say(s: Session, c: char, now: Instant)
    requires
        s.phase == Phase::Writing,
    ensures
        ({
            let typed = |text: Seq<char>| Session { text, last_key: now, ..s };
            let there = |code: KeyCode, after: Session|
                {
                    &&& s.handled(pressed(code), now) == (after, Step::Tick)
                    &&& s.web_handled(code, false, false, now) == (after, false)
                };
            &&& there(KeyCode::Char(c), typed(s.text.push(c)))
            &&& there(KeyCode::Enter, typed(s.text.push('\n')))
            &&& there(KeyCode::Tab, typed(s.text + seq![' ', ' ', ' ', ' ']))
            &&& s.text.len() > 0 ==> there(KeyCode::Backspace, typed(s.text.drop_last()))
            &&& s.text.len() == 0 ==> there(KeyCode::Backspace, typed(s.text))
            &&& there(KeyCode::Up, s) && there(KeyCode::Down, s) && there(KeyCode::Other, s)
            &&& c != 'c' ==> s.handled(
                Event::Key { code: KeyCode::Char(c), press: true, control: true },
                now,
            ) == (typed(s.text.push(c)), Step::Tick)
        }),
{
    assert(s.text + seq![c] =~= s.text.push(c));
    assert(s.text + seq!['\n'] =~= s.text.push('\n'));
}

/// What is typed, key by key and whenever, is what stands on the page.
#[verifier::spinoff_prover]
#[verifier::rlimit(40)]
pub proof fn law_the_page_holds_what_was_typed(s: Session, keys: Seq<char>, moves: Seq<Move>)
    requires
        s.phase == Phase::Writing,
        moves.len() == keys.len(),
        forall|i: int|
            0 <= i < keys.len() ==> match #[trigger] moves[i] {
                Move::Event(event, now) => event == pressed(KeyCode::Char(keys[i])),
                Move::WebKey(code, ctrl, alt, now) => code == KeyCode::Char(keys[i]) && !ctrl
                    && !alt,
                _ => false,
            },
    ensures
        run(s, moves).text == s.text + keys,
        run(s, moves).phase == Phase::Writing,
    decreases keys.len(),
{
    if keys.len() > 0 {
        let front = keys.drop_last();
        let before = moves.drop_last();
        assert forall|i: int| 0 <= i < front.len() implies match #[trigger] before[i] {
            Move::Event(event, now) => event == pressed(KeyCode::Char(front[i])),
            Move::WebKey(code, ctrl, alt, now) => code == KeyCode::Char(front[i]) && !ctrl && !alt,
            _ => false,
        } by {
            assert(before[i] == moves[i]);
            assert(front[i] == keys[i]);
        }
        law_the_page_holds_what_was_typed(s, front, before);
        let last = moves[keys.len() - 1];
        match last {
            Move::Event(event, now) => {
                law_keys_write_what_they_say(run(s, before), keys.last(), now);
            },
            Move::WebKey(code, ctrl, alt, now) => {
                law_keys_write_what_they_say(run(s, before), keys.last(), now);
            },
            _ => {},
        }
        assert((s.text + front).push(keys.last()) =~= s.text + keys);
    } else {
        assert(s.text + keys =~= s.text);
    }
}

/// What an event asks for: to leave, by Ctrl+C in every phase and by `q` once the session
/// has ended; to copy, by `c` once it is won; to do nothing, where a key was not pressed
/// down; and otherwise to let time pass.
pub proof fn law_what_an_event_asks_for(s: Session, event: Event, now: Instant)
    ensures
        ({
            let step = s.handled(event, now).1;
            match event {
                Event::Other => step == Step::Tick && s.handled(event, now).0 == s,
                Event::Key { code, press, control } => {
                    &&& step == Step::Skip <==> !press
                    &&& step == Step::Quit <==> press && {
                        ||| control && code == KeyCode::Char('c')
                        ||| s.phase == Phase::Won && code == KeyCode::Char('q')
                        ||| s.phase == Phase::Dead && code == KeyCode::Char('q')
                    }
                    &&& step == Step::Copy <==> press && !control && s.phase == Phase::Won && code
                        == KeyCode::Char('c')
                },
            }
        }),
{
}

/// Outside of writing, the only event that changes a session in the terminal is a press of
/// `r` after it was lost: it gives a new session with the same goal and idle settings.
pub proof fn law_only_restart_leads_on(s: Session, event: Event, now: Instant)
    requires
        s.phase != Phase::Writing,
    ensures
        s.handled(event, now).0 == (match event {
            Event::Key { code: KeyCode::Char('r'), press: true, control } if s.phase
                == Phase::Dead => Session {
                text: Seq::empty(),
                start: now,
                last_key: now,
                last_frame: now,
                phase: Phase::Writing,
                frozen_elapsed: None,
                lost_words: 0,
                copied: false,
                death_fx: None,
                ..s
            },
            _ => s,
        }),
{
}

/// A new session is being written, has no text, and has all its time before it.
pub proof fn law_a_new_session(goal: Goal, idle: Duration, fade: Duration, now: Instant)
    ensures
        Session::fresh(goal, idle, fade, now) == (Session {
            text: Seq::empty(),
            goal,
            idle_limit: idle,
            fade_window: fade,
            start: now,
            last_key: now,
            phase: Phase::Writing,
            frozen_elapsed: None,
            lost_words: 0,
            copied: false,
            death_fx: None,
            last_frame: now,
            menu_index: 0,
        }),
{
}

/// A restart keeps the goal, the idle settings and the menu's highlight, and nothing else.
pub proof fn law_restart_keeps_the_settings(s: Session, goal: Goal, now: Instant)
    ensures
        s.restarted(now) == (Session {
            menu_index: s.menu_index,
            ..Session::fresh(s.goal, s.idle_limit, s.fade_window, now)
        }),
        s.begun(goal, now) == (Session { goal, ..s.restarted(now) }),
{
}

/// The goals of the menu, in order: one, three, five and ten minutes, and one hundred, two
/// hundred and fifty and five hundred words. There are seven of them.
pub proof fn law_menu_goals(i: nat)
    requires
        i < MENU_LEN,
    ensures
        MENU_LEN == 7,
        i < 4 ==> preset(i) == Goal::Time(
            Duration { nanos: (60_000_000_000 * seq![1int, 3, 5, 10][i as int]) as u128 },
        ),
        i >= 4 ==> preset(i) == Goal::Words(seq![100usize, 250, 500][i - 4]),
{
}

/// In the menu, up and `k` go one entry back and down and `j` one on, around the end; Enter
/// begins a session with the goal of the entry; every other key does nothing.
pub proof fn law_menu_keys(s: Session, code: KeyCode, now: Instant)
    requires
        s.phase == Phase::Menu,
        s.menu_index < MENU_LEN,
    ensures
        s.web_handled(code, false, false, now) == (
            match code {
                KeyCode::Up | KeyCode::Char('k') => Session {
                    menu_index: if s.menu_index == 0 {
                        6
                    } else {
                        (s.menu_index - 1) as nat
                    },
                    ..s
                },
                KeyCode::Down | KeyCode::Char('j') => Session {
                    menu_index: if s.menu_index == 6 {
                        0
                    } else {
                        s.menu_index + 1
                    },
                    ..s
                },
                KeyCode::Enter => Session {
                    menu_index: s.menu_index,
                    ..Session::fresh(preset(s.menu_index), s.idle_limit, s.fade_window, now)
                },
                _ => s,
            },
            false,
        ),
{
}

/// Moving the highlight by some entries and then by some more is moving it by all of them.
pub proof fn law_menu_moves_add_up(s: Session, first: int, second: int)
    ensures
        s.menu_moved(first).menu_moved(second) == s.menu_moved(first + second),
        s.menu_index < MENU_LEN ==> s.menu_moved(0) == s,
        s.menu_index + 1 < MENU_LEN ==> s.menu_moved(1) == (Session {
            menu_index: s.menu_index + 1,
            ..s
        }),
{
}

/// In the browser, shortcuts do nothing. After a session has ended, `r` leads back to the
/// menu and changes nothing else; after it was won, `c` asks for the text to be copied. No
/// other key does anything then, nor any while the words die.
pub proof fn law_web_keys_after_the_end(
    s: Session,
    code: KeyCode,
    ctrl: bool,
    alt: bool,
    now: Instant,
)
    ensures
        ctrl || alt ==> s.web_handled(code, ctrl, alt, now) == (s, false),
        !ctrl && !alt && s.phase == Phase::Dying ==> s.web_handled(code, ctrl, alt, now) == (
            s,
            false,
        ),
        !ctrl && !alt && (s.phase == Phase::Won || s.phase == Phase::Dead) ==> s.web_handled(
            code,
            ctrl,
            alt,
            now,
        ) == (
            if code == KeyCode::Char('r') {
                Session { phase: Phase::Menu, ..s }
            } else {
                s
            },
            s.phase == Phase::Won && code == KeyCode::Char('c'),
        ),
{
}

/// The time that a session shows is the time since its start, until it has ended; then it
/// is the time at which it ended.
pub proof fn law_time_shown(s: Session, now: Instant)
    ensures
        s.frozen_elapsed is None && s.start.nanos <= now.nanos ==> s.start.nanos + s.elapsed(
            now,
        ).nanos == now.nanos,
        s.frozen_elapsed is None && s.start.nanos > now.nanos ==> s.elapsed(now).nanos == 0,
        s.frozen_elapsed matches Some(span) ==> s.elapsed(now) == span,
        s.last_key.nanos <= now.nanos ==> s.last_key.nanos + s.idle(now).nanos == now.nanos,
        s.last_key.nanos > now.nanos ==> s.idle(now).nanos == 0,
{
}

/// The dissolve of a dying session runs on with the frames, up to its end; nothing else
/// changes, and no other session.
pub proof fn law_frames_run_the_dissolve(s: Session, dt: Duration)
    requires
        s.death_fx matches Some(fx) ==> fx.elapsed.nanos <= fx.duration.nanos,
    ensures
        s.phase != Phase::Dying || s.death_fx is None ==> s.effect_advanced(dt) == s,
        s.death_fx matches Some(fx) ==> s.phase == Phase::Dying ==> {
            let after = s.effect_advanced(dt);
            &&& after == (Session { death_fx: after.death_fx, ..s })
            &&& after.death_fx matches Some(later) && later.duration == fx.duration && {
                ||| later.elapsed.nanos == fx.elapsed.nanos + dt.nanos && later.elapsed.nanos
                    <= fx.duration.nanos
                ||| later.elapsed == fx.duration && fx.elapsed.nanos + dt.nanos
                    >= fx.duration.nanos
            }
        },
{
}

/// Copying is over as soon as a tool accepts the text, and fails only after the last one;
/// until then the tools are tried one after the other.
pub proof fn law_copying_goes_tool_by_tool(tools: nat, tried: usize, accepted: bool)
    ensures
        copy_step(tools, tried, accepted) == CopyStep::Copied <==> accepted,
        copy_step(tools, tried, accepted) == CopyStep::NoTool <==> !accepted && tried >= tools,
        !accepted && tried < tools ==> copy_step(tools, tried, accepted) == CopyStep::Try(tried),
{
}

/// A word goal is reached by as many words, and a time goal by as much time since the start;
/// in whatever phase that is asked.
pub proof fn law_what_reaching_means(s: Session, now: Instant)
    ensures
        match s.goal {
            Goal::Words(n) => s.goal_reached(now) <==> words(s.text) >= n,
            Goal::Time(span) => s.goal_reached(now) <==> now.nanos - s.start.nanos >= span.nanos
                || span.nanos == 0,
        },
{
}

/// Holding control down makes a difference to no key but `c`.
pub proof fn law_control_matters_for_c_alone(s: Session, code: KeyCode, now: Instant)
    requires
        code != KeyCode::Char('c'),
    ensures
        s.handled(Event::Key { code, press: true, control: true }, now) == s.handled(
            pressed(code),
            now,
        ),
{
}

} // verus!
