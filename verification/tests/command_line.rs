use danger_write::cli::{parse_args, Arg, ArgError, TimeReading, HELP};
use danger_write::session::Goal;
use danger_write::time::Duration;

fn reading(text: &str, secs: f64) -> TimeReading {
    match text.parse::<f64>() {
        Err(_) => TimeReading::Invalid,
        Ok(n) => match std::time::Duration::try_from_secs_f64(n * secs) {
            Err(_) => TimeReading::OutOfRange,
            Ok(span) => TimeReading::Span(Duration { nanos: span.as_nanos() }),
        },
    }
}

fn parse(args: &[&str]) -> Result<(Goal, Duration), String> {
    let args: Vec<Arg> = args
        .iter()
        .map(|text| Arg {
            text: text.to_string(),
            minutes: reading(text, 60.0),
            seconds: reading(text, 1.0),
        })
        .collect();
    parse_args(&args).map_err(|error| error.message())
}

fn minutes(n: u64) -> Goal {
    Goal::Time(Duration::from_secs(60 * n))
}

#[test]
fn five_minutes_and_three_seconds_by_default() {
    assert_eq!(parse(&[]), Ok((minutes(5), Duration::from_secs(3))));
}

#[test]
fn options_set_goal_and_idle_limit() {
    assert_eq!(parse(&["-w", "250"]), Ok((Goal::Words(250), Duration::from_secs(3))));
    assert_eq!(parse(&["--words", "+1"]), Ok((Goal::Words(1), Duration::from_secs(3))));
    assert_eq!(parse(&["-i", "5"]), Ok((minutes(5), Duration::from_secs(5))));
    assert_eq!(parse(&["--idle", "0.5"]), Ok((minutes(5), Duration::from_millis(500))));
    assert_eq!(parse(&["-t", "10"]), Ok((minutes(10), Duration::from_secs(3))));
    let half = Goal::Time(Duration::from_secs(30));
    assert_eq!(parse(&["--time", "0.5", "-i", "4"]), Ok((half, Duration::from_secs(4))));
}

#[test]
fn later_options_replace_earlier_ones() {
    assert_eq!(parse(&["-t", "1", "-w", "9"]), Ok((Goal::Words(9), Duration::from_secs(3))));
    assert_eq!(parse(&["-w", "9", "-i", "1", "-t", "2", "-i", "2"]), Ok((minutes(2), Duration::from_secs(2))));
}

#[test]
fn each_mistake_is_told() {
    let told = |args: &[&str]| parse(args).unwrap_err();
    assert_eq!(told(&["-t"]), "--time needs a value in minutes");
    assert_eq!(told(&["--time", "x"]), "invalid minutes");
    assert_eq!(told(&["--words"]), "--words needs a value");
    assert_eq!(told(&["-w", "1.5"]), "invalid word count");
    assert_eq!(told(&["-w", "-1"]), "invalid word count");
    assert_eq!(told(&["-i"]), "--idle needs a value in seconds");
    assert_eq!(told(&["-i", ""]), "invalid idle seconds");
    assert_eq!(told(&["-h"]), HELP);
    assert_eq!(told(&["--help", "-t"]), HELP);
    assert_eq!(told(&["fast"]), format!("unknown argument: fast\n\n{HELP}"));
    assert_eq!(told(&["-w", "3", "-T", "5"]), format!("unknown argument: -T\n\n{HELP}"));
}

#[test]
fn the_first_mistake_decides() {
    let told = |args: &[&str]| parse(args).unwrap_err();
    assert_eq!(told(&["-t", "x", "-h"]), "invalid minutes");
    assert_eq!(told(&["-t", "-h"]), "invalid minutes");
    assert_eq!(told(&["-w", "3", "-i"]), "--idle needs a value in seconds");
}

#[test]
fn spans_that_cannot_be_are_told_apart() {
    for args in [["-t", "-1"], ["-t", "nan"], ["-i", "inf"], ["-i", "1e300"]] {
        let args: Vec<Arg> = args
            .iter()
            .map(|text| Arg {
                text: text.to_string(),
                minutes: reading(text, 60.0),
                seconds: reading(text, 1.0),
            })
            .collect();
        assert!(matches!(parse_args(&args), Err(ArgError::OutOfRange)));
    }
    assert_eq!(ArgError::OutOfRange.message(), "time out of range");
}

#[test]
fn a_value_is_not_read_as_an_option() {
    assert_eq!(parse(&["-w", "7", "-i", "8"]), Ok((Goal::Words(7), Duration::from_secs(8))));
    assert_eq!(parse(&["7"]), Err(format!("unknown argument: 7\n\n{HELP}")));
}

#[test]
fn the_help_names_every_option() {
    assert!(HELP.starts_with("danger-write: a writing app that erases your words if you stop typing\n\nUSAGE:\n"));
    assert!(HELP.contains("    -i, --idle <SECONDS>   idle time before erasure (default: 3)\n"));
    assert!(HELP.ends_with("Reach your goal to unlock copying your words to the clipboard."));
}

#[test]
fn only_a_missing_value_can_still_be_given() {
    for error in [ArgError::TimeNeedsValue, ArgError::WordsNeedsValue, ArgError::IdleNeedsValue] {
        assert!(error.wants_more());
    }
    let others = [
        ArgError::InvalidMinutes,
        ArgError::InvalidWordCount,
        ArgError::InvalidIdleSeconds,
        ArgError::OutOfRange,
        ArgError::Help,
        ArgError::Unknown("x".to_string()),
    ];
    for error in others {
        assert!(!error.wants_more());
    }
}
