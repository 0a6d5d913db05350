//! Command-line handling: which invocations are accepted, which usage
//! error each rejected invocation earns, and what configuration an
//! accepted invocation denotes.

use vstd::prelude::*;
use crate::decimal::decimal_value;
use crate::decimal::is_i32_decimal;
use crate::decimal::parse_i32;

verus! {

/// How far the run should go: to the end of the stream, or to a tick.
#[derive(Clone, Copy, PartialEq, Eq, Structural, Debug)]
pub enum Mode {
    End,
    Tick,
}

/// Every way an invocation can be rejected before any file is touched.
#[derive(Clone, Copy, PartialEq, Eq, Structural, Debug)]
pub enum ArgsError {
    MissingFilePath,
    MissingMode,
    MissingModeValue,
    InvalidMode,
    MissingTickEnd,
    MissingTickEndValue,
    InvalidTickEnd,
}

impl ArgsError {
    /// The message each rejection is reported with.
    pub open spec fn message_spec(&self) -> Seq<char> {
        match self {
            ArgsError::MissingFilePath => "usage: <executable> <filepath> --mode <end|tick> --tick-end <tick>"@,
            ArgsError::MissingMode => "--mode argument is required (use 'end' or 'tick')"@,
            ArgsError::MissingModeValue => "--mode requires a value: 'end' or 'tick'"@,
            ArgsError::InvalidMode => "--mode value must be 'end' or 'tick'"@,
            ArgsError::MissingTickEnd => "--tick-end argument is required when using --mode tick"@,
            ArgsError::MissingTickEndValue => "--tick-end requires a numeric value"@,
            ArgsError::InvalidTickEnd => "--tick-end value must be a valid integer"@,
        }
    }

    pub fn message(&self) -> (r: &'static str)
        ensures
            r@ == self.message_spec(),
    {
        match self {
            ArgsError::MissingFilePath => "usage: <executable> <filepath> --mode <end|tick> --tick-end <tick>",
            ArgsError::MissingMode => "--mode argument is required (use 'end' or 'tick')",
            ArgsError::MissingModeValue => "--mode requires a value: 'end' or 'tick'",
            ArgsError::InvalidMode => "--mode value must be 'end' or 'tick'",
            ArgsError::MissingTickEnd => "--tick-end argument is required when using --mode tick",
            ArgsError::MissingTickEndValue => "--tick-end requires a numeric value",
            ArgsError::InvalidTickEnd => "--tick-end value must be a valid integer",
        }
    }
}

/// What an accepted invocation asks for.
pub struct Config {
    pub filepath: String,
    pub mode: Mode,
    pub tick_end: Option<i32>,
}

impl Config {
    /// A tick-mode configuration always carries the tick to stop at.
    pub open spec fn wf(&self) -> bool {
        self.mode == Mode::Tick ==> self.tick_end is Some
    }

    /// The tick the run should stop at, or `None` to run to the end of
    /// the stream.
    pub fn run_target(&self) -> (r: Option<i32>)
        requires
            self.wf(),
        ensures
            self.mode == Mode::Tick ==> r == self.tick_end,
            self.mode == Mode::End ==> r is None,
    {
        match self.mode {
            Mode::Tick => self.tick_end,
            Mode::End => None,
        }
    }
}

/// First position at or after `i` where `a` holds `flag`.
pub open spec fn spec_find_from(a: Seq<Seq<char>>, flag: Seq<char>, i: int) -> Option<int>
    decreases a.len() - i,
{
    if i < 0 || i >= a.len() {
        None
    } else if a[i] == flag {
        Some(i)
    } else {
        spec_find_from(a, flag, i + 1)
    }
}

pub open spec fn mode_flag() -> Seq<char> {
    "--mode"@
}

pub open spec fn tick_end_flag() -> Seq<char> {
    "--tick-end"@
}

pub open spec fn end_word() -> Seq<char> {
    "end"@
}

pub open spec fn tick_word() -> Seq<char> {
    "tick"@
}

/// The outcome an argument vector is owed: either the file path, mode and
/// tick limit, or the error that rejects it. The file path is taken from
/// the argument after the program name; each flag takes the argument
/// following its first occurrence; `--tick-end` is demanded only in tick
/// mode but validated whenever it is present.
pub open spec fn spec_parse_args(a: Seq<Seq<char>>) -> Result<(Seq<char>, Mode, Option<i32>), ArgsError> {
    if a.len() < 2 {
        Err(ArgsError::MissingFilePath)
    } else {
        match spec_find_from(a, mode_flag(), 0) {
            Option::None => Err(ArgsError::MissingMode),
            Option::Some(mp) => if mp + 1 >= a.len() {
                Err(ArgsError::MissingModeValue)
            } else {
                let mw = a[mp + 1];
                if mw != end_word() && mw != tick_word() {
                    Err(ArgsError::InvalidMode)
                } else {
                    let mode = if mw == tick_word() {
                        Mode::Tick
                    } else {
                        Mode::End
                    };
                    match spec_find_from(a, tick_end_flag(), 0) {
                        Option::None => if mode == Mode::Tick {
                            Err(ArgsError::MissingTickEnd)
                        } else {
                            Ok((a[1], mode, Option::None))
                        },
                        Option::Some(tp) => if tp + 1 >= a.len() {
                            Err(ArgsError::MissingTickEndValue)
                        } else if !is_i32_decimal(a[tp + 1]) {
                            Err(ArgsError::InvalidTickEnd)
                        } else {
                            Ok((a[1], mode, Option::Some(decimal_value(a[tp + 1]) as i32)))
                        },
                    }
                }
            },
        }
    }
}

/// First index of `flag` in `args`, scanning from the front.
fn find_flag(args: &Vec<String>, flag: &String) -> (r: Option<usize>)
    ensures
        match r {
            Some(i) => 0 <= i < args.deep_view().len() && spec_find_from(
                args.deep_view(),
                flag@,
                0,
            ) == Some(i as int),
            None => spec_find_from(args.deep_view(), flag@, 0) is None,
        },
{
    let ghost a = args.deep_view();
    let mut i: usize = 0;
    while i < args.len()
        invariant
            a == args.deep_view(),
            a.len() == args@.len(),
            i <= args@.len(),
            spec_find_from(a, flag@, 0) == spec_find_from(a, flag@, i as int),
        decreases args@.len() - i,
    {
        proof {
            assert(a[i as int] == args@[i as int]@);
        }
        if args[i].eq(flag) {
            return Some(i);
        }
        i = i + 1;
    }
    None
}

/// Parses the raw argument vector, program name first, into the run's
/// configuration, or the usage error the invocation is rejected with.
pub fn parse_args(args: &Vec<String>) -> (r: Result<Config, ArgsError>)
    ensures
        match (r, spec_parse_args(args.deep_view())) {
            (Ok(cfg), Ok(exp)) => cfg.filepath@ == exp.0 && cfg.mode == exp.1 && cfg.tick_end
                == exp.2 && cfg.wf(),
            (Err(e), Err(ee)) => e == ee,
            _ => false,
        },
{
    let ghost a = args.deep_view();
    if args.len() < 2 {
        return Err(ArgsError::MissingFilePath);
    }
    let mode_flag_arg: String = "--mode".to_owned();
    let mp = match find_flag(args, &mode_flag_arg) {
        None => {
            return Err(ArgsError::MissingMode);
        },
        Some(mp) => mp,
    };
    if mp + 1 >= args.len() {
        return Err(ArgsError::MissingModeValue);
    }
    proof {
        assert(a[mp + 1] == args@[mp + 1]@);
    }
    let end_word_arg: String = "end".to_owned();
    let tick_word_arg: String = "tick".to_owned();
    let is_tick = args[mp + 1].eq(&tick_word_arg);
    let is_end = args[mp + 1].eq(&end_word_arg);
    if !is_tick && !is_end {
        return Err(ArgsError::InvalidMode);
    }
    let mode = if is_tick {
        Mode::Tick
    } else {
        Mode::End
    };
    let tick_end_flag_arg: String = "--tick-end".to_owned();
    match find_flag(args, &tick_end_flag_arg) {
        None => {
            if is_tick {
                Err(ArgsError::MissingTickEnd)
            } else {
                proof {
                    assert(a[1] == args@[1]@);
                }
                Ok(Config { filepath: args[1].clone(), mode, tick_end: None })
            }
        },
        Some(tp) => {
            if tp + 1 >= args.len() {
                return Err(ArgsError::MissingTickEndValue);
            }
            proof {
                assert(a[tp + 1] == args@[tp + 1]@);
            }
            match parse_i32(args[tp + 1].as_str()) {
                None => Err(ArgsError::InvalidTickEnd),
                Some(v) => {
                    proof {
                        assert(a[1] == args@[1]@);
                    }
                    Ok(Config { filepath: args[1].clone(), mode, tick_end: Some(v) })
                },
            }
        },
    }
}

} // verus!
