use replay_driver::args::parse_args;
use replay_driver::args::ArgsError;
use replay_driver::args::Mode;

fn argv(parts: &[&str]) -> Vec<String> {
    parts.iter().map(|s| s.to_string()).collect()
}

#[test]
fn no_arguments_is_usage_error() {
    let r = parse_args(&argv(&["prog"]));
    assert!(matches!(r, Err(ArgsError::MissingFilePath)));
    assert_eq!(
        ArgsError::MissingFilePath.message(),
        "usage: <executable> <filepath> --mode <end|tick> --tick-end <tick>"
    );
}

#[test]
fn empty_argument_vector_is_usage_error() {
    let r = parse_args(&argv(&[]));
    assert!(matches!(r, Err(ArgsError::MissingFilePath)));
}

#[test]
fn missing_mode_flag() {
    let r = parse_args(&argv(&["prog", "replay.dem"]));
    assert!(matches!(r, Err(ArgsError::MissingMode)));
    assert_eq!(
        ArgsError::MissingMode.message(),
        "--mode argument is required (use 'end' or 'tick')"
    );
}

#[test]
fn missing_mode_value() {
    let r = parse_args(&argv(&["prog", "replay.dem", "--mode"]));
    assert!(matches!(r, Err(ArgsError::MissingModeValue)));
}

#[test]
fn invalid_mode_value() {
    let r = parse_args(&argv(&["prog", "replay.dem", "--mode", "fast"]));
    assert!(matches!(r, Err(ArgsError::InvalidMode)));
}

#[test]
fn tick_mode_without_tick_end() {
    let r = parse_args(&argv(&["prog", "replay.dem", "--mode", "tick"]));
    assert!(matches!(r, Err(ArgsError::MissingTickEnd)));
    assert_eq!(
        ArgsError::MissingTickEnd.message(),
        "--tick-end argument is required when using --mode tick"
    );
}

#[test]
fn tick_end_without_value() {
    let r = parse_args(&argv(&["prog", "replay.dem", "--mode", "tick", "--tick-end"]));
    assert!(matches!(r, Err(ArgsError::MissingTickEndValue)));
}

#[test]
fn non_numeric_tick_end() {
    let r = parse_args(&argv(&["prog", "replay.dem", "--mode", "tick", "--tick-end", "abc"]));
    assert!(matches!(r, Err(ArgsError::InvalidTickEnd)));
    assert_eq!(
        ArgsError::InvalidTickEnd.message(),
        "--tick-end value must be a valid integer"
    );
}

#[test]
fn tick_mode_parses() {
    let r = parse_args(&argv(&["prog", "replay.dem", "--mode", "tick", "--tick-end", "1200"]));
    let cfg = r.expect("accepted invocation");
    assert_eq!(cfg.filepath, "replay.dem");
    assert_eq!(cfg.mode, Mode::Tick);
    assert_eq!(cfg.tick_end, Some(1200));
    assert_eq!(cfg.run_target(), Some(1200));
}

#[test]
fn end_mode_without_tick_end() {
    let r = parse_args(&argv(&["prog", "replay.dem", "--mode", "end"]));
    let cfg = r.expect("accepted invocation");
    assert_eq!(cfg.filepath, "replay.dem");
    assert_eq!(cfg.mode, Mode::End);
    assert_eq!(cfg.tick_end, None);
    assert_eq!(cfg.run_target(), None);
}

#[test]
fn end_mode_with_tick_end_keeps_limit_but_runs_to_end() {
    let r = parse_args(&argv(&["prog", "replay.dem", "--mode", "end", "--tick-end", "50"]));
    let cfg = r.expect("accepted invocation");
    assert_eq!(cfg.mode, Mode::End);
    assert_eq!(cfg.tick_end, Some(50));
    assert_eq!(cfg.run_target(), None);
}

#[test]
fn negative_tick_end() {
    let r = parse_args(&argv(&["prog", "replay.dem", "--mode", "tick", "--tick-end", "-3"]));
    let cfg = r.expect("accepted invocation");
    assert_eq!(cfg.tick_end, Some(-3));
}

#[test]
fn plus_signed_tick_end() {
    let r = parse_args(&argv(&["prog", "replay.dem", "--mode", "tick", "--tick-end", "+7"]));
    let cfg = r.expect("accepted invocation");
    assert_eq!(cfg.tick_end, Some(7));
}

#[test]
fn tick_end_at_i32_bounds() {
    let r = parse_args(&argv(&["prog", "r.dem", "--mode", "tick", "--tick-end", "2147483647"]));
    assert_eq!(r.expect("max fits").tick_end, Some(i32::MAX));
    let r = parse_args(&argv(&["prog", "r.dem", "--mode", "tick", "--tick-end", "-2147483648"]));
    assert_eq!(r.expect("min fits").tick_end, Some(i32::MIN));
}

#[test]
fn tick_end_overflow_rejected() {
    let r = parse_args(&argv(&["prog", "r.dem", "--mode", "tick", "--tick-end", "2147483648"]));
    assert!(matches!(r, Err(ArgsError::InvalidTickEnd)));
    let r = parse_args(&argv(&["prog", "r.dem", "--mode", "tick", "--tick-end", "-2147483649"]));
    assert!(matches!(r, Err(ArgsError::InvalidTickEnd)));
}

#[test]
fn file_path_is_positional() {
    // The path is taken from the slot after the program name, whatever it
    // holds; the flags are found wherever they first occur.
    let r = parse_args(&argv(&["prog", "--mode", "end", "replay.dem"]));
    let cfg = r.expect("accepted invocation");
    assert_eq!(cfg.filepath, "--mode");
    assert_eq!(cfg.mode, Mode::End);
}
