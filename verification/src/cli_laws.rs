//! What holds of every command line.

use crate::cli::{arg_views, asked, Arg, ArgError, ArgView, Refusal, TimeReading, HELP};
use crate::session::{Goal, DEFAULT_GOAL_SECS, DEFAULT_IDLE_SECS};
use crate::text::number;
use crate::time::Duration;
use vstd::prelude::*;

verus! {

/// Whether an argument asks for a time goal.
pub open spec fn time_flag(text: Seq<char>) -> bool {
    text == "-t"@ || text == "--time"@
}

/// Whether an argument asks for a word goal.
pub open spec fn words_flag(text: Seq<char>) -> bool {
    text == "-w"@ || text == "--words"@
}

/// Whether an argument asks for an idle limit.
pub open spec fn idle_flag(text: Seq<char>) -> bool {
    text == "-i"@ || text == "--idle"@
}

/// Whether an argument asks for help.
pub open spec fn help_flag(text: Seq<char>) -> bool {
    text == "-h"@ || text == "--help"@
}

/// What an option and its value make of the goal and the idle limit asked for before them:
/// a time or a word goal replaces the goal and leaves the idle limit as it was, and an idle
/// limit replaces the idle limit and leaves the goal as it was.
pub proof fn law_options_change_one_thing(
    flag: ArgView,
    value: ArgView,
    rest: Seq<ArgView>,
    goal: Option<Goal>,
    idle: Duration,
)
    ensures
        ({
            let result = asked(seq![flag, value] + rest, goal, idle);
            &&& time_flag(flag.text) ==> match value.minutes {
                TimeReading::Span(span) => result == asked(rest, Some(Goal::Time(span)), idle),
                TimeReading::Invalid => result == Err::<(Goal, Duration), _>(
                    Refusal::InvalidMinutes,
                ),
                TimeReading::OutOfRange => result == Err::<(Goal, Duration), _>(
                    Refusal::OutOfRange,
                ),
            }
            &&& words_flag(flag.text) ==> match number(value.text) {
                Some(n) => result == asked(rest, Some(Goal::Words(n as usize)), idle),
                None => result == Err::<(Goal, Duration), _>(Refusal::InvalidWordCount),
            }
            &&& idle_flag(flag.text) ==> match value.seconds {
                TimeReading::Span(span) => result == asked(rest, goal, span),
                TimeReading::Invalid => result == Err::<(Goal, Duration), _>(
                    Refusal::InvalidIdleSeconds,
                ),
                TimeReading::OutOfRange => result == Err::<(Goal, Duration), _>(
                    Refusal::OutOfRange,
                ),
            }
        }),
{
    lemma_flags_differ(flag.text);
    let args = seq![flag, value] + rest;
    assert(args.skip(2) =~= rest);
    assert(args[0] == flag && args[1] == value);
}

/// What one argument decides: help is told, an argument that is no option is told of, and an
/// option at the very end lacks its value.
pub proof fn law_what_one_argument_decides(
    arg: ArgView,
    rest: Seq<ArgView>,
    goal: Option<Goal>,
    idle: Duration,
)
    ensures
        ({
            let alone = asked(seq![arg], goal, idle);
            let followed = asked(seq![arg] + rest, goal, idle);
            &&& help_flag(arg.text) ==> followed == Err::<(Goal, Duration), _>(Refusal::Help)
            &&& !time_flag(arg.text) && !words_flag(arg.text) && !idle_flag(arg.text)
                && !help_flag(arg.text) ==> followed == Err::<(Goal, Duration), _>(
                Refusal::Unknown(arg.text),
            )
            &&& time_flag(arg.text) ==> alone == Err::<(Goal, Duration), _>(
                Refusal::TimeNeedsValue,
            )
            &&& words_flag(arg.text) ==> alone == Err::<(Goal, Duration), _>(
                Refusal::WordsNeedsValue,
            )
            &&& idle_flag(arg.text) ==> alone == Err::<(Goal, Duration), _>(
                Refusal::IdleNeedsValue,
            )
        }),
{
    lemma_flags_differ(arg.text);
    assert((seq![arg] + rest)[0] == arg);
}

/// Where nothing more is asked for, what was asked for stands; without a goal it is five
/// minutes.
pub proof fn law_what_was_asked_for_stands(goal: Goal, idle: Duration)
    ensures
        asked(Seq::empty(), Some(goal), idle) == Ok::<_, Refusal>((goal, idle)),
        asked(Seq::empty(), None, idle) == Ok::<_, Refusal>(
            (Goal::Time(Duration { nanos: 300_000_000_000 }), idle),
        ),
{
}

/// The idle limit of a command line is the value of its last idle option; where it has none,
/// it stays as it was.
#[verifier::spinoff_prover]
#[verifier::rlimit(40)]
pub proof fn law_last_idle_limit_counts(args: Seq<ArgView>, goal: Option<Goal>, idle: Duration)
    ensures
        asked(args, goal, idle) matches Ok((asked_goal, limit)) ==> {
            ||| limit == idle && forall|i: int|
                0 <= i < args.len() && i % 2 == 0 ==> !idle_flag((#[trigger] args[i]).text)
            ||| exists|k: int|
                0 <= k < args.len() - 1 && k % 2 == 0 && idle_flag((#[trigger] args[k]).text)
                    && args[k + 1].seconds == TimeReading::Span(limit) && forall|i: int|
                    k < i < args.len() && i % 2 == 0 ==> !idle_flag((#[trigger] args[i]).text)
        },
    decreases args.len(),
{
    if asked(args, goal, idle) is Ok && args.len() > 0 {
        lemma_flags_differ(args[0].text);
        let rest = args.skip(2);
        let limit = asked(args, goal, idle)->Ok_0.1;
        let (goal_then, idle_then): (Option<Goal>, Duration) = if time_flag(args[0].text) {
            (Some(Goal::Time(args[1].minutes->Span_0)), idle)
        } else if words_flag(args[0].text) {
            (Some(Goal::Words(number(args[1].text)->Some_0 as usize)), idle)
        } else {
            (goal, args[1].seconds->Span_0)
        };
        law_last_idle_limit_counts(rest, goal_then, idle_then);
        if forall|i: int|
            0 <= i < rest.len() && i % 2 == 0 ==> !idle_flag((#[trigger] rest[i]).text) {
            assert forall|i: int| 0 < i < args.len() && i % 2 == 0 implies !idle_flag(
                (#[trigger] args[i]).text,
            ) by {
                assert(rest[i - 2] == args[i]);
            }
            if idle_flag(args[0].text) {
                assert(args[1].seconds == TimeReading::Span(limit)) by {
                    lemma_no_idle_keeps_limit(rest, goal_then, idle_then);
                }
            } else {
                lemma_no_idle_keeps_limit(rest, goal_then, idle_then);
            }
        } else {
            let k = choose|k: int|
                0 <= k < rest.len() - 1 && k % 2 == 0 && idle_flag((#[trigger] rest[k]).text)
                    && rest[k + 1].seconds == TimeReading::Span(limit) && forall|i: int|
                    k < i < rest.len() && i % 2 == 0 ==> !idle_flag((#[trigger] rest[i]).text);
            assert(args[k + 2] == rest[k]);
            assert(args[k + 2 + 1] == rest[k + 1]);
            assert forall|i: int| k + 2 < i < args.len() && i % 2 == 0 implies !idle_flag(
                (#[trigger] args[i]).text,
            ) by {
                assert(rest[i - 2] == args[i]);
            }
        }
    }
}

/// Without an idle option the idle limit stays as it was.
proof fn lemma_no_idle_keeps_limit(args: Seq<ArgView>, goal: Option<Goal>, idle: Duration)
    requires
        forall|i: int| 0 <= i < args.len() && i % 2 == 0 ==> !idle_flag((#[trigger] args[i]).text),
    ensures
        asked(args, goal, idle) matches Ok((asked_goal, limit)) ==> limit == idle,
    decreases args.len(),
{
    if args.len() >= 2 {
        lemma_flags_differ(args[0].text);
        let rest = args.skip(2);
        assert(!idle_flag(args[0].text));
        assert forall|i: int| 0 <= i < rest.len() && i % 2 == 0 implies !idle_flag(
            (#[trigger] rest[i]).text,
        ) by {
            assert(rest[i] == args[i + 2]);
        }
        if time_flag(args[0].text) && args[1].minutes is Span {
            lemma_no_idle_keeps_limit(rest, Some(Goal::Time(args[1].minutes->Span_0)), idle);
        } else if words_flag(args[0].text) && number(args[1].text) is Some {
            lemma_no_idle_keeps_limit(
                rest,
                Some(Goal::Words(number(args[1].text)->Some_0 as usize)),
                idle,
            );
        }
    }
}

/// An argument that is not understood is told word for word, and the help behind it.
pub proof fn law_unknown_arguments_are_told(other: Seq<char>)
    ensures
        ({
            let told = Refusal::Unknown(other).message();
            let before = "unknown argument: "@;
            let behind = "\n\n"@;
            &&& told.len() == before.len() + other.len() + behind.len() + HELP@.len()
            &&& told.take(before.len() as int) == before
            &&& told.subrange(before.len() as int, (before.len() + other.len()) as int) == other
            &&& told.skip((before.len() + other.len()) as int) == behind + HELP@
        }),
        Refusal::Help.message() == HELP@,
{
    let told = Refusal::Unknown(other).message();
    let before = "unknown argument: "@;
    let behind = "\n\n"@;
    assert(told.take(before.len() as int) =~= before);
    assert(told.subrange(before.len() as int, (before.len() + other.len()) as int) =~= other);
    assert(told.skip((before.len() + other.len()) as int) =~= behind + HELP@);
}

/// More arguments can make up for a refusal exactly where a value was missing.
pub proof fn law_what_can_be_made_up_for(refusal: Refusal)
    ensures
        refusal.wants_more() <==> (refusal == Refusal::TimeNeedsValue || refusal
            == Refusal::WordsNeedsValue || refusal == Refusal::IdleNeedsValue),
{
}

/// No two options are spelled alike.
proof fn lemma_flags_differ(text: Seq<char>)
    ensures
        time_flag(text) ==> !words_flag(text) && !idle_flag(text) && !help_flag(text),
        words_flag(text) ==> !idle_flag(text) && !help_flag(text),
        idle_flag(text) ==> !help_flag(text),
{
    reveal_strlit("-t");
    reveal_strlit("--time");
    reveal_strlit("-w");
    reveal_strlit("--words");
    reveal_strlit("-i");
    reveal_strlit("--idle");
    reveal_strlit("-h");
    reveal_strlit("--help");
    assert("-t"@[1] == 't' && "-w"@[1] == 'w' && "-i"@[1] == 'i' && "-h"@[1] == 'h');
    assert("--time"@[2] == 't' && "--words"@[2] == 'w' && "--idle"@[2] == 'i' && "--help"@[2]
        == 'h');
}

/// A command line is read as it was given, argument by argument.
pub proof fn law_arguments_are_read_as_given(args: Seq<Arg>, i: int)
    requires
        0 <= i < args.len(),
    ensures
        arg_views(args).len() == args.len(),
        arg_views(args)[i].text == args[i].text@,
        arg_views(args)[i].minutes == args[i].minutes,
        arg_views(args)[i].seconds == args[i].seconds,
{
}

/// A refusal is told for what it is.
pub proof fn law_refusals_are_told_apart(error: ArgError)
    ensures
        error is TimeNeedsValue <==> error@ == Refusal::TimeNeedsValue,
        error is InvalidMinutes <==> error@ == Refusal::InvalidMinutes,
        error is WordsNeedsValue <==> error@ == Refusal::WordsNeedsValue,
        error is InvalidWordCount <==> error@ == Refusal::InvalidWordCount,
        error is IdleNeedsValue <==> error@ == Refusal::IdleNeedsValue,
        error is InvalidIdleSeconds <==> error@ == Refusal::InvalidIdleSeconds,
        error is OutOfRange <==> error@ == Refusal::OutOfRange,
        error is Help <==> error@ == Refusal::Help,
        error matches ArgError::Unknown(other) ==> error@ == Refusal::Unknown(other@),
{
}

/// Without arguments the goal is five minutes, and a pause may last three seconds.
pub proof fn law_defaults()
    ensures
        DEFAULT_GOAL_SECS == 300,
        DEFAULT_IDLE_SECS == 3,
        asked(Seq::empty(), None, Duration::of_secs(DEFAULT_IDLE_SECS as nat)) == Ok::<_, Refusal>(
            (
                Goal::Time(Duration { nanos: 300_000_000_000 }),
                Duration { nanos: 3_000_000_000 },
            ),
        ),
{
}

/// The help names every option in both spellings, what it takes, what it is for, and what
/// holds without it.
#[verifier::spinoff_prover]
#[verifier::rlimit(40)]
pub proof fn law_help_names_every_option()
    ensures
        shows(HELP@, "\n    -t, --time <MINUTES>   survive by writing for this long (default: 5)\n"@),
        shows(HELP@, "\n    -w, --words <N>        survive by reaching this many words\n"@),
        shows(HELP@, "\n    -i, --idle <SECONDS>   idle time before erasure (default: 3)\n"@),
        shows(HELP@, "\n    -h, --help             show this help\n"@),
{
    reveal_strlit(
        "\
danger-write: a writing app that erases your words if you stop typing

USAGE:
    danger-write [options]

OPTIONS:
    -t, --time <MINUTES>   survive by writing for this long (default: 5)
    -w, --words <N>        survive by reaching this many words
    -i, --idle <SECONDS>   idle time before erasure (default: 3)
    -h, --help             show this help

Stop typing longer than the idle limit and everything you wrote is erased.
Reach your goal to unlock copying your words to the clipboard.",
    );
    reveal_strlit("\n    -t, --time <MINUTES>   survive by writing for this long (default: 5)\n");
    assert(HELP@.subrange(114, 188) =~= "\n    -t, --time <MINUTES>   survive by writing for this long (default: 5)\n"@);
    lemma_shows(HELP@, "\n    -t, --time <MINUTES>   survive by writing for this long (default: 5)\n"@, 114);
    reveal_strlit("\n    -w, --words <N>        survive by reaching this many words\n");
    assert(HELP@.subrange(187, 251) =~= "\n    -w, --words <N>        survive by reaching this many words\n"@);
    lemma_shows(HELP@, "\n    -w, --words <N>        survive by reaching this many words\n"@, 187);
    reveal_strlit("\n    -i, --idle <SECONDS>   idle time before erasure (default: 3)\n");
    assert(HELP@.subrange(250, 316) =~= "\n    -i, --idle <SECONDS>   idle time before erasure (default: 3)\n"@);
    lemma_shows(HELP@, "\n    -i, --idle <SECONDS>   idle time before erasure (default: 3)\n"@, 250);
    reveal_strlit("\n    -h, --help             show this help\n");
    assert(HELP@.subrange(315, 358) =~= "\n    -h, --help             show this help\n"@);
    lemma_shows(HELP@, "\n    -h, --help             show this help\n"@, 315);
}

/// What stands at some place stands somewhere.
proof fn lemma_shows(whole: Seq<char>, part: Seq<char>, i: int)
    requires
        0 <= i <= whole.len() - part.len(),
        whole.subrange(i, i + part.len()) == part,
    ensures
        shows(whole, part),
{
}

/// Whether `part` stands somewhere in `whole`.
pub open spec fn shows(whole: Seq<char>, part: Seq<char>) -> bool {
    exists|i: int|
        0 <= i <= whole.len() - part.len() && #[trigger] whole.subrange(i, i + part.len()) == part
}

} // verus!
