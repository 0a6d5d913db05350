use replay_driver::output::hero_id_line;
use replay_driver::output::render_line;
use replay_driver::output::running_to_end_line;
use replay_driver::output::running_to_tick_line;
use replay_driver::output::tick_line;
use replay_driver::output::total_ticks_line;
use replay_driver::visit::entity_lines;
use replay_driver::visit::tick_within_limit;
use replay_driver::visit::OutLine;
use replay_driver::visit::VisitError;

#[test]
fn past_limit_emits_nothing() {
    let (lines, fatal) = entity_lines(Some(5), 6, true, Some(9));
    assert_eq!(lines, vec![]);
    assert_eq!(fatal, None);
}

#[test]
fn at_limit_emits_tick() {
    let (lines, fatal) = entity_lines(Some(5), 5, false, None);
    assert_eq!(lines, vec![OutLine::Tick(5)]);
    assert_eq!(fatal, None);
}

#[test]
fn no_limit_emits_tick() {
    let (lines, fatal) = entity_lines(None, 100, false, None);
    assert_eq!(lines, vec![OutLine::Tick(100)]);
    assert_eq!(fatal, None);
}

#[test]
fn player_pawn_emits_hero_id() {
    let (lines, fatal) = entity_lines(None, 7, true, Some(3));
    assert_eq!(lines, vec![OutLine::Tick(7), OutLine::HeroId(3)]);
    assert_eq!(fatal, None);
}

#[test]
fn player_pawn_without_hero_id_is_fatal_after_tick_line() {
    let (lines, fatal) = entity_lines(None, 7, true, None);
    assert_eq!(lines, vec![OutLine::Tick(7)]);
    assert_eq!(fatal, Some(VisitError::HeroIdMissing));
}

#[test]
fn missing_hero_id_past_limit_is_not_fatal() {
    let (lines, fatal) = entity_lines(Some(5), 6, true, None);
    assert_eq!(lines, vec![]);
    assert_eq!(fatal, None);
}

#[test]
fn hero_id_ignored_for_other_entities() {
    let (lines, fatal) = entity_lines(None, 7, false, Some(3));
    assert_eq!(lines, vec![OutLine::Tick(7)]);
    assert_eq!(fatal, None);
}

#[test]
fn limit_test_matches_decision() {
    assert!(tick_within_limit(None, 100));
    assert!(tick_within_limit(Some(5), 5));
    assert!(!tick_within_limit(Some(5), 6));
    assert!(tick_within_limit(Some(-1), -4));
}

#[test]
fn renders_tick_line() {
    assert_eq!(tick_line(5).as_str(), "TICK: 5");
    assert_eq!(render_line(&OutLine::Tick(5)).as_str(), "TICK: 5");
}

#[test]
fn renders_hero_id_line() {
    assert_eq!(hero_id_line(42).as_str(), "ID: 42");
    assert_eq!(render_line(&OutLine::HeroId(0)).as_str(), "ID: 0");
    assert_eq!(render_line(&OutLine::HeroId(u32::MAX)).as_str(), "ID: 4294967295");
}

#[test]
fn renders_negative_tick() {
    assert_eq!(tick_line(-3).as_str(), "TICK: -3");
}

#[test]
fn renders_extreme_ticks() {
    assert_eq!(tick_line(i32::MIN).as_str(), "TICK: -2147483648");
    assert_eq!(tick_line(i32::MAX).as_str(), "TICK: 2147483647");
}

#[test]
fn renders_total_ticks_line() {
    assert_eq!(total_ticks_line(961).as_str(), "Total ticks: 961");
    assert_eq!(total_ticks_line(0).as_str(), "Total ticks: 0");
}

#[test]
fn renders_run_headers() {
    assert_eq!(running_to_tick_line(250).as_str(), "Running to tick: 250");
    assert_eq!(running_to_end_line().as_str(), "Running to end");
}
