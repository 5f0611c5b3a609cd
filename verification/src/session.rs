//! A writing session: its state and the rules by which time and keystrokes change it.

use crate::clipboard::ClipboardTool;
use crate::dissolve::Dissolve;
use crate::text::{count_words, words};
use crate::time::{Duration, Instant, NANOS_PER_MILLI};
use vstd::prelude::*;

verus! {

/// How long the words take to dissolve, in milliseconds.
pub const DISSOLVE_MILLIS: u64 = 1400;

/// How long to write where no goal is given, in seconds.
pub const DEFAULT_GOAL_SECS: u64 = 300;

/// How long a pause may last where nothing else is asked for, in seconds.
pub const DEFAULT_IDLE_SECS: u64 = 3;

/// How many goals the start menu offers.
pub const MENU_LEN: usize = 7;

/// What you have to do to survive the session.
#[derive(Clone, Copy, Debug, PartialEq, Eq, Structural)]
pub enum Goal {
    /// Keep writing until this much time has elapsed.
    Time(Duration),
    /// Keep writing until you've written this many words.
    Words(usize),
}

#[derive(Clone, Copy, Debug, PartialEq, Eq, Structural)]
pub enum Phase {
    /// The start menu for choosing a goal. A session whose goal comes from the command
    /// line never enters this phase.
    Menu,
    Writing,
    /// You reached the goal. Text is frozen and safe.
    Won,
    /// You paused too long. The dissolve animation is destroying your text.
    Dying,
    /// The text is gone. Game over screen is up.
    Dead,
}

/// A key, as far as a session tells keys apart.
#[derive(Clone, Copy, Debug, PartialEq, Eq, Structural)]
pub enum KeyCode {
    Char(char),
    Enter,
    Tab,
    Backspace,
    Up,
    Down,
    Other,
}

/// What the terminal had to report.
#[derive(Clone, Copy, Debug, PartialEq, Eq, Structural)]
pub enum Event {
    /// A key went down, or up again or repeated (`press` is then false).
    Key { code: KeyCode, press: bool, control: bool },
    /// Nothing, or nothing that concerns the session.
    Other,
}

/// What is to be done after an event.
#[derive(Clone, Copy, Debug, PartialEq, Eq, Structural)]
pub enum Step {
    /// Let time pass.
    Tick,
    /// Draw the next frame at once; no time passes.
    Skip,
    /// Put the text on the clipboard, then let time pass.
    Copy,
    /// Leave.
    Quit,
}

/// What is to be done next to put the text on the clipboard.
#[derive(Clone, Copy, Debug, PartialEq, Eq, Structural)]
pub enum CopyStep {
    /// Feed the text to the tool with this index.
    Try(usize),
    /// The text is on the clipboard.
    Copied,
    /// No clipboard tool is available.
    NoTool,
}

pub struct App {
    pub text: String,
    pub goal: Goal,
    /// How long you may pause before your words start to die.
    pub idle_limit: Duration,
    /// The last part of the idle window during which text visibly fades.
    pub fade_window: Duration,
    pub start: Instant,
    pub last_key: Instant,
    pub phase: Phase,
    /// Elapsed session time captured when the session ends, so the frozen end screen
    /// doesn't keep ticking.
    pub frozen_elapsed: Option<Duration>,
    /// How many words existed at the moment of erasure (for the game-over screen).
    pub lost_words: usize,
    /// Set once the text has been copied to the clipboard, to confirm on screen.
    pub copied: bool,
    /// The dissolve effect that destroys the text on game over. Present only during the
    /// Dying phase.
    pub death_fx: Option<Dissolve>,
    /// Timestamp of the previous frame, for computing the effect's time delta.
    pub last_frame: Instant,
    /// Which entry in the start menu is highlighted.
    pub menu_index: usize,
}

/// The state of a session.
#[verifier::ext_equal]
pub ghost struct Session {
    pub text: Seq<char>,
    pub goal: Goal,
    pub idle_limit: Duration,
    pub fade_window: Duration,
    pub start: Instant,
    pub last_key: Instant,
    pub phase: Phase,
    pub frozen_elapsed: Option<Duration>,
    pub lost_words: nat,
    pub copied: bool,
    pub death_fx: Option<Dissolve>,
    pub last_frame: Instant,
    pub menu_index: nat,
}

impl View for App {
    type V = Session;

    open spec fn view(&self) -> Session {
        Session {
            text: self.text@,
            goal: self.goal,
            idle_limit: self.idle_limit,
            fade_window: self.fade_window,
            start: self.start,
            last_key: self.last_key,
            phase: self.phase,
            frozen_elapsed: self.frozen_elapsed,
            lost_words: self.lost_words as nat,
            copied: self.copied,
            death_fx: self.death_fx,
            last_frame: self.last_frame,
            menu_index: self.menu_index as nat,
        }
    }
}

/// The goals that the start menu offers.
pub open spec fn preset(index: nat) -> Goal {
    if index == 0 {
        Goal::Time(Duration::of_secs(60))
    } else if index == 1 {
        Goal::Time(Duration::of_secs(180))
    } else if index == 2 {
        Goal::Time(Duration::of_secs(300))
    } else if index == 3 {
        Goal::Time(Duration::of_secs(600))
    } else if index == 4 {
        Goal::Words(100)
    } else if index == 5 {
        Goal::Words(250)
    } else {
        Goal::Words(500)
    }
}

/// An effect that has not begun to destroy the words.
pub open spec fn fresh_effect() -> Dissolve {
    Dissolve {
        duration: Duration { nanos: (DISSOLVE_MILLIS * NANOS_PER_MILLI) as u128 },
        elapsed: Duration { nanos: 0 },
    }
}

impl Session {
    /// A brand-new session that begins at `now`.
    pub open spec fn fresh(
        goal: Goal,
        idle_limit: Duration,
        fade_window: Duration,
        now: Instant,
    ) -> Session {
        Session {
            text: Seq::empty(),
            goal,
            idle_limit,
            fade_window,
            start: now,
            last_key: now,
            phase: Phase::Writing,
            frozen_elapsed: None,
            lost_words: 0,
            copied: false,
            death_fx: None,
            last_frame: now,
            menu_index: 0,
        }
    }

    /// What holds of every session at all times.
    pub open spec fn valid(self) -> bool {
        &&& self.menu_index < MENU_LEN
        &&& self.death_fx is Some <==> self.phase == Phase::Dying
        &&& self.death_fx matches Some(fx) ==> fx.valid() && fx.duration == fresh_effect().duration
        &&& self.phase == Phase::Dead ==> self.text.len() == 0
        &&& self.phase == Phase::Won || self.phase == Phase::Dying || self.phase == Phase::Dead
            ==> self.frozen_elapsed is Some
        &&& self.phase == Phase::Writing ==> self.frozen_elapsed is None
        &&& self.phase == Phase::Writing || self.phase == Phase::Won ==> self.lost_words == 0
        &&& self.phase == Phase::Dying ==> self.text.len() > 0 && self.lost_words == words(
            self.text,
        )
        &&& self.copied ==> self.phase == Phase::Won || self.phase == Phase::Menu
    }

    /// The same goal and idle settings, begun anew at `now`.
    pub open spec fn restarted(self, now: Instant) -> Session {
        Session {
            menu_index: self.menu_index,
            ..Session::fresh(self.goal, self.idle_limit, self.fade_window, now)
        }
    }

    /// Session time to display: live while writing, frozen once it ends.
    pub open spec fn elapsed(self, now: Instant) -> Duration {
        match self.frozen_elapsed {
            Some(span) => span,
            None => now.since(self.start),
        }
    }

    /// How long it has been since the last keystroke.
    pub open spec fn idle(self, now: Instant) -> Duration {
        now.since(self.last_key)
    }

    pub open spec fn goal_reached(self, now: Instant) -> bool {
        match self.goal {
            Goal::Time(span) => now.since(self.start).nanos >= span.nanos,
            Goal::Words(n) => words(self.text) >= n,
        }
    }

    /// The session as time has moved on to `now`. A finished dissolve wipes the text; a
    /// reached goal ends the session well; a pause over a text that has lasted as long
    /// as the limit ends it badly.
    pub open spec fn ticked(self, now: Instant) -> Session {
        if self.phase == Phase::Dying {
            if self.death_fx matches Some(fx) && !fx.over() {
                self
            } else {
                Session { text: Seq::empty(), death_fx: None, phase: Phase::Dead, ..self }
            }
        } else if self.phase != Phase::Writing {
            self
        } else if self.goal_reached(now) {
            Session {
                frozen_elapsed: Some(now.since(self.start)),
                phase: Phase::Won,
                ..self
            }
        } else if self.idle(now).nanos >= self.idle_limit.nanos && self.text.len() > 0 {
            Session {
                lost_words: words(self.text),
                frozen_elapsed: Some(now.since(self.start)),
                death_fx: Some(fresh_effect()),
                phase: Phase::Dying,
                ..self
            }
        } else {
            self
        }
    }

    /// The session with `added` typed at its end.
    pub open spec fn typed(self, added: Seq<char>, now: Instant) -> Session {
        Session { text: self.text + added, last_key: now, ..self }
    }

    /// The session with its last character, if any, taken back.
    pub open spec fn erased(self, now: Instant) -> Session {
        Session {
            text: if self.text.len() > 0 {
                self.text.drop_last()
            } else {
                self.text
            },
            last_key: now,
            ..self
        }
    }

    /// What a key does while writing.
    pub open spec fn written(self, code: KeyCode, now: Instant) -> Session {
        match code {
            KeyCode::Char(c) => self.typed(seq![c], now),
            KeyCode::Enter => self.typed(seq!['\n'], now),
            KeyCode::Tab => self.typed(seq![' ', ' ', ' ', ' '], now),
            KeyCode::Backspace => self.erased(now),
            _ => self,
        }
    }

    /// What an event in the terminal does to the session, and what is to be done then.
    pub open spec fn handled(self, event: Event, now: Instant) -> (Session, Step) {
        match event {
            Event::Other => (self, Step::Tick),
            Event::Key { code, press, control } => if !press {
                (self, Step::Skip)
            } else if control && code == KeyCode::Char('c') {
                (self, Step::Quit)
            } else {
                match self.phase {
                    Phase::Writing => (self.written(code, now), Step::Tick),
                    Phase::Won => if code == KeyCode::Char('q') {
                        (self, Step::Quit)
                    } else if code == KeyCode::Char('c') {
                        (self, Step::Copy)
                    } else {
                        (self, Step::Tick)
                    },
                    Phase::Dead => if code == KeyCode::Char('q') {
                        (self, Step::Quit)
                    } else if code == KeyCode::Char('r') {
                        (self.restarted(now), Step::Tick)
                    } else {
                        (self, Step::Tick)
                    },
                    Phase::Dying | Phase::Menu => (self, Step::Tick),
                }
            },
        }
    }

    /// The highlight of the start menu moved by `delta` entries, wrapping around.
    pub open spec fn menu_moved(self, delta: int) -> Session {
        Session { menu_index: ((self.menu_index + delta) % (MENU_LEN as int)) as nat, ..self }
    }

    /// A fresh session with the chosen goal.
    pub open spec fn begun(self, goal: Goal, now: Instant) -> Session {
        Session { goal, ..self }.restarted(now)
    }

    /// What a key in the browser does to the session, and whether the text is to be put
    /// on the clipboard then.
    pub open spec fn web_handled(
        self,
        code: KeyCode,
        ctrl: bool,
        alt: bool,
        now: Instant,
    ) -> (Session, bool) {
        if ctrl || alt {
            (self, false)
        } else {
            match self.phase {
                Phase::Menu => (
                    match code {
                        KeyCode::Up | KeyCode::Char('k') => self.menu_moved(-1),
                        KeyCode::Down | KeyCode::Char('j') => self.menu_moved(1),
                        KeyCode::Enter => self.begun(preset(self.menu_index), now),
                        _ => self,
                    },
                    false,
                ),
                Phase::Writing => (self.written(code, now), false),
                Phase::Won => if code == KeyCode::Char('c') {
                    (self, true)
                } else if code == KeyCode::Char('r') {
                    (Session { phase: Phase::Menu, ..self }, false)
                } else {
                    (self, false)
                },
                Phase::Dead => if code == KeyCode::Char('r') {
                    (Session { phase: Phase::Menu, ..self }, false)
                } else {
                    (self, false)
                },
                Phase::Dying => (self, false),
            }
        }
    }

    /// The session with its dissolve effect, while there is one to run, `dt` further.
    pub open spec fn effect_advanced(self, dt: Duration) -> Session {
        match self.death_fx {
            Some(fx) => if self.phase == Phase::Dying {
                Session { death_fx: Some(fx.after(dt)), ..self }
            } else {
                self
            },
            None => self,
        }
    }
}

/// What is to be done next after `tried` of `tools` clipboard tools have been tried.
pub open spec fn copy_step(tools: nat, tried: usize, accepted: bool) -> CopyStep {
    if accepted {
        CopyStep::Copied
    } else if tried < tools {
        CopyStep::Try(tried)
    } else {
        CopyStep::NoTool
    }
}

/// The goal of entry `index` of the start menu.
pub fn menu_goal(index: usize) -> (goal: Goal)
    requires
        index < MENU_LEN,
    ensures
        goal == preset(index as nat),
{
    match index {
        0 => Goal::Time(Duration::from_secs(60)),
        1 => Goal::Time(Duration::from_secs(180)),
        2 => Goal::Time(Duration::from_secs(300)),
        3 => Goal::Time(Duration::from_secs(600)),
        4 => Goal::Words(100),
        5 => Goal::Words(250),
        _ => Goal::Words(500),
    }
}

impl App {
    /// A session that begins at `now`. The text fades over the last `fade_window` of the
    /// idle time that is allowed.
    pub fn new(goal: Goal, idle_limit: Duration, fade_window: Duration, now: Instant) -> (app: App)
        ensures
            app@ == Session::fresh(goal, idle_limit, fade_window, now),
            app@.valid(),
    {
        App {
            text: String::new(),
            goal,
            idle_limit,
            fade_window,
            start: now,
            last_key: now,
            phase: Phase::Writing,
            frozen_elapsed: None,
            lost_words: 0,
            copied: false,
            death_fx: None,
            last_frame: now,
            menu_index: 0,
        }
    }

    /// A session that opens on the start menu. Its goal only holds the place of the one
    /// that will be chosen there.
    pub fn at_menu(fade_window: Duration, now: Instant) -> (app: App)
        ensures
            app@ == (Session {
                phase: Phase::Menu,
                ..Session::fresh(
                    Goal::Time(Duration::of_secs(DEFAULT_GOAL_SECS as nat)),
                    Duration::of_secs(DEFAULT_IDLE_SECS as nat),
                    fade_window,
                    now,
                )
            }),
            app@.valid(),
    {
        let mut app = App::new(
            Goal::Time(Duration::from_secs(DEFAULT_GOAL_SECS)),
            Duration::from_secs(DEFAULT_IDLE_SECS),
            fade_window,
            now,
        );
        app.phase = Phase::Menu;
        app
    }

    /// Start a brand-new session with the same goal and idle settings.
    pub fn restart(&mut self, now: Instant)
        ensures
            final(self)@ == old(self)@.restarted(now),
            old(self)@.menu_index < MENU_LEN ==> final(self)@.valid(),
    {
        self.text.clear();
        self.start = now;
        self.last_key = now;
        self.phase = Phase::Writing;
        self.frozen_elapsed = None;
        self.lost_words = 0;
        self.copied = false;
        self.death_fx = None;
        self.last_frame = now;
    }

    /// Session time to display: live while writing, frozen once it ends.
    pub fn elapsed(&self, now: Instant) -> (span: Duration)
        ensures
            span == self@.elapsed(now),
    {
        match self.frozen_elapsed {
            Some(span) => span,
            None => now.duration_since(self.start),
        }
    }

    pub fn word_count(&self) -> (n: usize)
        ensures
            n == words(self.text@),
    {
        count_words(self.text.as_str())
    }

    pub fn goal_reached(&self, now: Instant) -> (reached: bool)
        ensures
            reached == self@.goal_reached(now),
    {
        match self.goal {
            Goal::Time(span) => now.duration_since(self.start).nanos >= span.nanos,
            Goal::Words(n) => self.word_count() >= n,
        }
    }

    /// Register a keystroke: resets the idle clock.
    pub fn touch(&mut self, now: Instant)
        ensures
            final(self)@ == (Session { last_key: now, ..old(self)@ }),
            final(self).text == old(self).text,
    {
        self.last_key = now;
    }

    /// Advance time-based state. Call every tick.
    pub fn tick(&mut self, now: Instant)
        ensures
            final(self)@ == old(self)@.ticked(now),
            old(self)@.valid() ==> final(self)@.valid(),
    {
        // Hold on the Dying phase until the dissolve animation finishes, then
        // wipe the (now invisible) text and show the game-over screen.
        if self.phase == Phase::Dying {
            let finished: bool = match &self.death_fx {
                Some(fx) => fx.done(),
                None => true,
            };
            if finished {
                self.text.clear();
                self.death_fx = None;
                self.phase = Phase::Dead;
            }
            return;
        }
        if self.phase != Phase::Writing {
            return;
        }
        if self.goal_reached(now) {
            self.frozen_elapsed = Some(now.duration_since(self.start));
            self.phase = Phase::Won;
            return;
        }
        let idle = now.duration_since(self.last_key);
        if idle.nanos >= self.idle_limit.nanos && !self.text.as_str().is_empty() {
            // Game over: freeze the timer, then dissolve the words away. The text stays
            // in place so the effect has something to destroy; it's cleared once the
            // animation completes (see the Dying branch above).
            self.lost_words = self.word_count();
            self.frozen_elapsed = Some(now.duration_since(self.start));
            self.death_fx = Some(Dissolve::new(Duration::from_millis(DISSOLVE_MILLIS)));
            self.phase = Phase::Dying;
        }
    }

    /// What a key does while writing.
    fn write(&mut self, code: KeyCode, now: Instant)
        ensures
            final(self)@ == old(self)@.written(code, now),
    {
        match code {
            KeyCode::Char(c) => {
                self.touch(now);
                self.text.push(c);
            },
            KeyCode::Enter => {
                self.touch(now);
                self.text.push('\n');
            },
            KeyCode::Tab => {
                self.touch(now);
                self.text.push(' ');
                self.text.push(' ');
                self.text.push(' ');
                self.text.push(' ');
            },
            KeyCode::Backspace => {
                self.touch(now);
                self.text.pop();
            },
            _ => {},
        }
        proof {
            assert(self@ =~= old(self)@.written(code, now));
        }
    }

    /// React to what the terminal had to report.
    pub fn handle_event(&mut self, event: Event, now: Instant) -> (step: Step)
        ensures
            (final(self)@, step) == old(self)@.handled(event, now),
            old(self)@.valid() ==> final(self)@.valid(),
    {
        match event {
            Event::Other => Step::Tick,
            Event::Key { code, press, control } => {
                if !press {
                    return Step::Skip;
                }
                // Ctrl+C always quits.
                if control && code == KeyCode::Char('c') {
                    return Step::Quit;
                }
                match self.phase {
                    Phase::Writing => {
                        self.write(code, now);
                        Step::Tick
                    },
                    Phase::Won => match code {
                        KeyCode::Char('q') => Step::Quit,
                        KeyCode::Char('c') => Step::Copy,
                        _ => Step::Tick,
                    },
                    Phase::Dead => match code {
                        KeyCode::Char('q') => Step::Quit,
                        KeyCode::Char('r') => {
                            self.restart(now);
                            Step::Tick
                        },
                        _ => Step::Tick,
                    },
                    // Ignore input while the death animation plays out.
                    Phase::Dying => Step::Tick,
                    Phase::Menu => Step::Tick,
                }
            },
        }
    }

    /// Copy the surviving text to the clipboard: the first of `tools` that accepts it
    /// wins. Says what to do next after `tried` of them have been tried, and notes that
    /// the text has been copied where the last one `accepted` it.
    pub fn copy(&mut self, tools: &Vec<ClipboardTool>, tried: usize, accepted: bool) -> (step:
        CopyStep)
        ensures
            step == copy_step(tools@.len(), tried, accepted),
            final(self)@ == (Session { copied: old(self)@.copied || accepted, ..old(self)@ }),
            old(self)@.valid() && old(self)@.phase == Phase::Won ==> final(self)@.valid(),
    {
        if accepted {
            self.copied = true;
            CopyStep::Copied
        } else if tried < tools.len() {
            CopyStep::Try(tried)
        } else {
            CopyStep::NoTool
        }
    }

    /// Move the start-menu highlight, wrapping around the preset list.
    pub fn menu_move(&mut self, delta: isize)
        requires
            old(self).menu_index + delta <= isize::MAX,
            old(self).menu_index <= isize::MAX,
        ensures
            final(self)@ == old(self)@.menu_moved(delta as int),
            old(self)@.valid() ==> final(self)@.valid(),
    {
        let n: isize = MENU_LEN as isize;
        if let Some(moved) = (self.menu_index as isize + delta).checked_rem_euclid(n) {
            self.menu_index = moved as usize;
        }
    }

    /// Leave the start menu and begin a fresh session with the chosen goal.
    pub fn start_session(&mut self, goal: Goal, now: Instant)
        ensures
            final(self)@ == old(self)@.begun(goal, now),
            old(self)@.menu_index < MENU_LEN ==> final(self)@.valid(),
    {
        self.goal = goal;
        self.restart(now);
    }

    /// React to a key in the browser: as in the terminal, minus quitting (you can't close
    /// a tab). The result says whether the text is to be put on the clipboard.
    pub fn handle_web_key(&mut self, code: KeyCode, ctrl: bool, alt: bool, now: Instant) -> (copy:
        bool)
        requires
            old(self).menu_index < MENU_LEN,
        ensures
            (final(self)@, copy) == old(self)@.web_handled(code, ctrl, alt, now),
            old(self)@.valid() ==> final(self)@.valid(),
    {
        // Let browser shortcuts (copy/paste/reload) pass through untouched.
        if ctrl || alt {
            return false;
        }
        match self.phase {
            Phase::Menu => {
                match code {
                    KeyCode::Up => self.menu_move(-1),
                    KeyCode::Down => self.menu_move(1),
                    KeyCode::Char('k') => self.menu_move(-1),
                    KeyCode::Char('j') => self.menu_move(1),
                    KeyCode::Enter => {
                        let goal = menu_goal(self.menu_index);
                        self.start_session(goal, now);
                    },
                    _ => {},
                }
                false
            },
            Phase::Writing => {
                self.write(code, now);
                false
            },
            Phase::Won => match code {
                KeyCode::Char('c') => true,
                // Back to the goal picker (web has no "quit").
                KeyCode::Char('r') => {
                    self.phase = Phase::Menu;
                    false
                },
                _ => false,
            },
            // Restart returns to the goal picker rather than replaying the same goal,
            // since that's where web sessions are configured.
            Phase::Dead => match code {
                KeyCode::Char('r') => {
                    self.phase = Phase::Menu;
                    false
                },
                _ => false,
            },
            // Ignore input while the death animation plays out.
            Phase::Dying => false,
        }
    }

    /// Begin a frame at `now`: the result is the time since the previous frame.
    pub fn begin_frame(&mut self, now: Instant) -> (dt: Duration)
        ensures
            dt == now.since(old(self)@.last_frame),
            final(self)@ == (Session { last_frame: now, ..old(self)@ }),
            final(self).text == old(self).text,
            old(self)@.valid() ==> final(self)@.valid(),
    {
        let dt = now.duration_since(self.last_frame);
        self.last_frame = now;
        dt
    }

    /// Advance the dissolve effect, where one is running, by one frame's worth of time.
    pub fn advance_effect(&mut self, dt: Duration)
        requires
            old(self).death_fx matches Some(fx) ==> fx.elapsed.nanos + dt.nanos <= u128::MAX,
        ensures
            final(self)@ == old(self)@.effect_advanced(dt),
            final(self).text == old(self).text,
            old(self)@.valid() ==> final(self)@.valid(),
    {
        if self.phase == Phase::Dying {
            if let Some(fx) = self.death_fx {
                let mut effect: Dissolve = fx;
                effect.tick(dt);
                self.death_fx = Some(effect);
            }
        }
    }
}

} // verus!
