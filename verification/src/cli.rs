//! The command line.

use crate::session::{Goal, DEFAULT_GOAL_SECS, DEFAULT_IDLE_SECS};
use crate::text::{number, parse_number, same_text};
use crate::time::Duration;
use vstd::prelude::*;
use vstd::string::StringExecFns;

verus! {

pub const HELP: &'static str = "\
danger-write: a writing app that erases your words if you stop typing

USAGE:
    danger-write [options]

OPTIONS:
    -t, --time <MINUTES>   survive by writing for this long (default: 5)
    -w, --words <N>        survive by reaching this many words
    -i, --idle <SECONDS>   idle time before erasure (default: 3)
    -h, --help             show this help

Stop typing longer than the idle limit and everything you wrote is erased.
Reach your goal to unlock copying your words to the clipboard.";

/// What an argument says when it is read as a decimal fraction of some unit of time.
#[derive(Clone, Copy, Debug, PartialEq, Eq, Structural)]
pub enum TimeReading {
    /// It is no number.
    Invalid,
    /// It is a number, but of no span of time: negative, too large or not finite.
    OutOfRange,
    Span(Duration),
}

/// An argument of the command line, and what it says as a span of time.
#[derive(Debug)]
pub struct Arg {
    pub text: String,
    /// The argument read as a number of minutes.
    pub minutes: TimeReading,
    /// The argument read as a number of seconds.
    pub seconds: TimeReading,
}

/// An argument by its characters.
pub ghost struct ArgView {
    pub text: Seq<char>,
    pub minutes: TimeReading,
    pub seconds: TimeReading,
}

impl View for Arg {
    type V = ArgView;

    open spec fn view(&self) -> ArgView {
        ArgView { text: self.text@, minutes: self.minutes, seconds: self.seconds }
    }
}

/// A list of arguments by their characters.
pub open spec fn arg_views(args: Seq<Arg>) -> Seq<ArgView> {
    args.map_values(|arg: Arg| arg@)
}

/// Why a command line starts no session.
#[derive(Debug)]
pub enum ArgError {
    TimeNeedsValue,
    InvalidMinutes,
    WordsNeedsValue,
    InvalidWordCount,
    IdleNeedsValue,
    InvalidIdleSeconds,
    /// A span of time that is negative or too long.
    OutOfRange,
    /// The help was asked for.
    Help,
    Unknown(String),
}

/// Why a command line starts no session, by its characters.
pub ghost enum Refusal {
    TimeNeedsValue,
    InvalidMinutes,
    WordsNeedsValue,
    InvalidWordCount,
    IdleNeedsValue,
    InvalidIdleSeconds,
    OutOfRange,
    Help,
    Unknown(Seq<char>),
}

impl View for ArgError {
    type V = Refusal;

    open spec fn view(&self) -> Refusal {
        match self {
            ArgError::TimeNeedsValue => Refusal::TimeNeedsValue,
            ArgError::InvalidMinutes => Refusal::InvalidMinutes,
            ArgError::WordsNeedsValue => Refusal::WordsNeedsValue,
            ArgError::InvalidWordCount => Refusal::InvalidWordCount,
            ArgError::IdleNeedsValue => Refusal::IdleNeedsValue,
            ArgError::InvalidIdleSeconds => Refusal::InvalidIdleSeconds,
            ArgError::OutOfRange => Refusal::OutOfRange,
            ArgError::Help => Refusal::Help,
            ArgError::Unknown(other) => Refusal::Unknown(other@),
        }
    }
}

impl Refusal {
    /// What to tell about it.
    pub open spec fn message(self) -> Seq<char> {
        match self {
            Refusal::TimeNeedsValue => "--time needs a value in minutes"@,
            Refusal::InvalidMinutes => "invalid minutes"@,
            Refusal::WordsNeedsValue => "--words needs a value"@,
            Refusal::InvalidWordCount => "invalid word count"@,
            Refusal::IdleNeedsValue => "--idle needs a value in seconds"@,
            Refusal::InvalidIdleSeconds => "invalid idle seconds"@,
            Refusal::OutOfRange => "time out of range"@,
            Refusal::Help => HELP@,
            Refusal::Unknown(other) => "unknown argument: "@ + other + "\n\n"@ + HELP@,
        }
    }

    /// Whether more arguments could have made up for it.
    pub open spec fn wants_more(self) -> bool {
        self is TimeNeedsValue || self is WordsNeedsValue || self is IdleNeedsValue
    }
}

impl ArgError {
    /// Whether more arguments could have made up for it.
    pub fn wants_more(&self) -> (more: bool)
        ensures
            more == self@.wants_more(),
    {
        match self {
            ArgError::TimeNeedsValue | ArgError::WordsNeedsValue | ArgError::IdleNeedsValue => true,
            _ => false,
        }
    }

    /// What to tell about it.
    pub fn message(&self) -> (told: String)
        ensures
            told@ == self@.message(),
    {
        match self {
            ArgError::TimeNeedsValue => "--time needs a value in minutes".to_owned(),
            ArgError::InvalidMinutes => "invalid minutes".to_owned(),
            ArgError::WordsNeedsValue => "--words needs a value".to_owned(),
            ArgError::InvalidWordCount => "invalid word count".to_owned(),
            ArgError::IdleNeedsValue => "--idle needs a value in seconds".to_owned(),
            ArgError::InvalidIdleSeconds => "invalid idle seconds".to_owned(),
            ArgError::OutOfRange => "time out of range".to_owned(),
            ArgError::Help => HELP.to_owned(),
            ArgError::Unknown(other) => {
                let mut told = "unknown argument: ".to_owned();
                told.append(other.as_str());
                told.append("\n\n");
                told.append(HELP);
                told
            },
        }
    }
}

/// The goal of a session for which none is given.
pub open spec fn default_goal() -> Goal {
    Goal::Time(Duration::of_secs(DEFAULT_GOAL_SECS as nat))
}

/// The session that `args` ask for, where what came before them has asked for `goal` and
/// `idle`: a goal and how long a pause may last. The first argument that makes no sense
/// decides why there is none.
pub open spec fn asked(args: Seq<ArgView>, goal: Option<Goal>, idle: Duration) -> Result<
    (Goal, Duration),
    Refusal,
>
    decreases args.len(),
{
    if args.len() == 0 {
        Ok((
            match goal {
                Some(goal) => goal,
                None => default_goal(),
            },
            idle,
        ))
    } else if args[0].text == "-t"@ || args[0].text == "--time"@ {
        if args.len() < 2 {
            Err(Refusal::TimeNeedsValue)
        } else {
            match args[1].minutes {
                TimeReading::Invalid => Err(Refusal::InvalidMinutes),
                TimeReading::OutOfRange => Err(Refusal::OutOfRange),
                TimeReading::Span(span) => asked(args.skip(2), Some(Goal::Time(span)), idle),
            }
        }
    } else if args[0].text == "-w"@ || args[0].text == "--words"@ {
        if args.len() < 2 {
            Err(Refusal::WordsNeedsValue)
        } else {
            match number(args[1].text) {
                None => Err(Refusal::InvalidWordCount),
                Some(n) => asked(args.skip(2), Some(Goal::Words(n as usize)), idle),
            }
        }
    } else if args[0].text == "-i"@ || args[0].text == "--idle"@ {
        if args.len() < 2 {
            Err(Refusal::IdleNeedsValue)
        } else {
            match args[1].seconds {
                TimeReading::Invalid => Err(Refusal::InvalidIdleSeconds),
                TimeReading::OutOfRange => Err(Refusal::OutOfRange),
                TimeReading::Span(span) => asked(args.skip(2), goal, span),
            }
        }
    } else if args[0].text == "-h"@ || args[0].text == "--help"@ {
        Err(Refusal::Help)
    } else {
        Err(Refusal::Unknown(args[0].text))
    }
}

/// The goal and the idle limit that the arguments ask for.
pub fn parse_args(args: &Vec<Arg>) -> (r: Result<(Goal, Duration), ArgError>)
    ensures
        asked(arg_views(args@), None, Duration::of_secs(DEFAULT_IDLE_SECS as nat)) == (match r {
            Ok(session) => Ok(session),
            Err(error) => Err(error@),
        }),
{
    let ghost views = arg_views(args@);
    let ghost whole = asked(views, None, Duration::of_secs(DEFAULT_IDLE_SECS as nat));
    let mut goal: Option<Goal> = None;
    let mut idle: Duration = Duration::from_secs(DEFAULT_IDLE_SECS);
    let mut i: usize = 0;
    proof {
        assert(views.skip(0) =~= views);
    }
    while i < args.len()
        invariant
            i <= args.len(),
            views == arg_views(args@),
            whole == asked(arg_views(args@), None, Duration::of_secs(DEFAULT_IDLE_SECS as nat)),
            whole == asked(views.skip(i as int), goal, idle),
        decreases args.len() - i,
    {
        let flag: &str = args[i].text.as_str();
        let more: bool = args.len() - i >= 2;
        let ghost rest = views.skip(i as int);
        proof {
            assert(rest[0].text == flag@);
            if more {
                assert(rest[1] == args@[i + 1]@);
                assert(rest.skip(2) =~= views.skip(i + 2));
            }
        }
        if same_text(flag, "-t") || same_text(flag, "--time") {
            if !more {
                return Err(ArgError::TimeNeedsValue);
            }
            match args[i + 1].minutes {
                TimeReading::Invalid => {
                    return Err(ArgError::InvalidMinutes);
                },
                TimeReading::OutOfRange => {
                    return Err(ArgError::OutOfRange);
                },
                TimeReading::Span(span) => {
                    goal = Some(Goal::Time(span));
                },
            }
        } else if same_text(flag, "-w") || same_text(flag, "--words") {
            if !more {
                return Err(ArgError::WordsNeedsValue);
            }
            match parse_number(args[i + 1].text.as_str()) {
                None => {
                    return Err(ArgError::InvalidWordCount);
                },
                Some(n) => {
                    goal = Some(Goal::Words(n));
                },
            }
        } else if same_text(flag, "-i") || same_text(flag, "--idle") {
            if !more {
                return Err(ArgError::IdleNeedsValue);
            }
            match args[i + 1].seconds {
                TimeReading::Invalid => {
                    return Err(ArgError::InvalidIdleSeconds);
                },
                TimeReading::OutOfRange => {
                    return Err(ArgError::OutOfRange);
                },
                TimeReading::Span(span) => {
                    idle = span;
                },
            }
        } else if same_text(flag, "-h") || same_text(flag, "--help") {
            return Err(ArgError::Help);
        } else {
            return Err(ArgError::Unknown(flag.to_owned()));
        }
        i = i + 2;
    }
    Ok((
        match goal {
            Some(goal) => goal,
            None => Goal::Time(Duration::from_secs(DEFAULT_GOAL_SECS)),
        },
        idle,
    ))
}

/// Options given later add to those given earlier, and replace them where they speak of
/// the same thing.
pub proof fn law_later_options_build_on_earlier(
    args: Seq<ArgView>,
    more: Seq<ArgView>,
    goal: Option<Goal>,
    idle: Duration,
)
    ensures
        asked(args, goal, idle) matches Ok((goal_then, idle_then)) ==> asked(
            args + more,
            goal,
            idle,
        ) == asked(more, Some(goal_then), idle_then),
    decreases args.len(),
{
    if args.len() == 0 {
        assert(args + more =~= more);
        if goal is None {
            lemma_default_goal_is_as_good_as_none(more, idle);
        }
    } else if args.len() >= 2 {
        lemma_skip_in_front(args, more);
        law_later_options_build_on_earlier(
            args.skip(2),
            more,
            match args[1].minutes {
                TimeReading::Span(span) => Some(Goal::Time(span)),
                _ => None,
            },
            idle,
        );
        law_later_options_build_on_earlier(
            args.skip(2),
            more,
            match number(args[1].text) {
                Some(n) => Some(Goal::Words(n as usize)),
                _ => None,
            },
            idle,
        );
        law_later_options_build_on_earlier(
            args.skip(2),
            more,
            goal,
            match args[1].seconds {
                TimeReading::Span(span) => span,
                _ => idle,
            },
        );
    }
}

/// The first argument that makes no sense decides what is told, whatever follows it;
/// only a value that is missing at the end can still be given.
pub proof fn law_first_refusal_decides(
    args: Seq<ArgView>,
    more: Seq<ArgView>,
    goal: Option<Goal>,
    idle: Duration,
)
    ensures
        asked(args, goal, idle) matches Err(refusal) ==> refusal.wants_more() || asked(
            args + more,
            goal,
            idle,
        ) == asked(args, goal, idle),
    decreases args.len(),
{
    if args.len() >= 2 {
        lemma_skip_in_front(args, more);
        law_first_refusal_decides(
            args.skip(2),
            more,
            match args[1].minutes {
                TimeReading::Span(span) => Some(Goal::Time(span)),
                _ => None,
            },
            idle,
        );
        law_first_refusal_decides(
            args.skip(2),
            more,
            match number(args[1].text) {
                Some(n) => Some(Goal::Words(n as usize)),
                _ => None,
            },
            idle,
        );
        law_first_refusal_decides(
            args.skip(2),
            more,
            goal,
            match args[1].seconds {
                TimeReading::Span(span) => span,
                _ => idle,
            },
        );
    }
}

proof fn lemma_skip_in_front(args: Seq<ArgView>, more: Seq<ArgView>)
    requires
        args.len() >= 2,
    ensures
        (args + more).skip(2) == args.skip(2) + more,
        (args + more)[0] == args[0],
        (args + more)[1] == args[1],
{
    assert((args + more).skip(2) =~= args.skip(2) + more);
}

proof fn lemma_default_goal_is_as_good_as_none(args: Seq<ArgView>, idle: Duration)
    ensures
        asked(args, None, idle) == asked(args, Some(default_goal()), idle),
    decreases args.len(),
{
    if args.len() >= 2 {
        lemma_default_goal_is_as_good_as_none(
            args.skip(2),
            match args[1].seconds {
                TimeReading::Span(span) => span,
                _ => idle,
            },
        );
    }
}

} // verus!
