use course_planner::course::{Course, CourseDetails};
use course_planner::duration::TimeDelta;
use course_planner::stage::Stage;

#[test]
fn it_works() {
    let result = 2 + 2;
    assert_eq!(result, 4);
}

#[test]
fn parse_minutes() {
    let stage = Stage::new("A", "10min");
    assert_eq!(stage.name(), "A");
    assert_eq!(stage.delta(), TimeDelta::from_secs(600));
}

#[test]
fn parse_compound() {
    let stage = Stage::new("Duck crown", "1h 15min");
    assert_eq!(stage.delta(), TimeDelta::from_secs(4500));
}

#[test]
fn parse_seconds_and_subseconds() {
    assert_eq!(Stage::new("s", "30s").delta(), TimeDelta::from_secs(30));
    assert_eq!(Stage::new("ms", "32ms").delta(), TimeDelta::from_parts(0, 32_000_000));
}

#[test]
fn malformed_duration_parses_to_zero() {
    let stage = Stage::new("Gravy", "banana");
    assert_eq!(stage.delta(), TimeDelta::zero());
}

#[test]
fn empty_duration_parses_to_zero() {
    assert_eq!(Stage::new("x", "").delta(), TimeDelta::zero());
}

#[test]
fn astronomical_numerals_parse_to_zero() {
    // numerals past the parser's guard are treated as unparseable
    assert_eq!(Stage::new("x", "500000000000s").delta(), TimeDelta::zero());
    assert_eq!(Stage::new("x", "18446744073709551615s1000ms").delta(), TimeDelta::zero());
}

#[test]
fn numerals_at_the_guard_still_parse() {
    // sums right at the guard go through to the parser
    assert_eq!(
        Stage::new("x", "400000000000ns").delta(),
        TimeDelta::from_secs(400)
    );
}

#[test]
fn format_duration_text() {
    assert_eq!(Stage::new("B", "20min").duration(), "20m");
    assert_eq!(Stage::new("t", "90s").duration(), "1m 30s");
    assert_eq!(Stage::new("zero", "0s").duration(), "0s");
}

#[test]
fn stage_label_line() {
    assert_eq!(Stage::new("B", "20min").label(), "20m -- B");
    assert_eq!(Stage::with_delta("Serving", TimeDelta::zero()).label(), "0s -- Serving");
}

#[test]
fn fresh_course_schedules_nothing() {
    let details = CourseDetails::new("", "tea");
    let course = Course::new(&details);
    assert_eq!(course.stages().len(), 0);
}

#[test]
fn two_stage_course_schedule() {
    let details = CourseDetails::new("", "dinner");
    let mut course = Course::new(&details);
    course.add(Stage::new("A", "10min"));
    course.add(Stage::new("B", "30min"));
    let schedule = course.stages();
    assert_eq!(schedule.len(), 2);
    assert_eq!(schedule[0].name(), "B");
    assert_eq!(schedule[0].delta(), TimeDelta::from_secs(1200));
    assert_eq!(schedule[1].name(), "A");
    assert_eq!(schedule[1].delta(), TimeDelta::from_secs(600));
}

#[test]
fn schedule_len_is_input_len_minus_one() {
    let details = CourseDetails::new("", "many");
    let mut course = Course::new(&details);
    for k in 0..5u64 {
        course.add(Stage::with_delta("step", TimeDelta::from_secs(60 * (k + 1))));
        // the implicit Serving stage joins the k + 1 added so far
        assert_eq!(course.stages().len(), (k + 1) as usize);
    }
}

#[test]
fn equal_durations_keep_insertion_order() {
    let details = CourseDetails::new("", "ties");
    let mut course = Course::new(&details);
    course.add(Stage::new("P", "10min"));
    course.add(Stage::new("Q", "10min"));
    let schedule = course.stages();
    assert_eq!(schedule.len(), 2);
    assert_eq!(schedule[0].name(), "P");
    assert_eq!(schedule[0].delta(), TimeDelta::zero());
    assert_eq!(schedule[1].name(), "Q");
    assert_eq!(schedule[1].delta(), TimeDelta::from_secs(600));
}

#[test]
fn scheduling_leaves_the_course_unchanged() {
    let details = CourseDetails::new("", "pure");
    let mut course = Course::new(&details);
    course.add(Stage::new("A", "10min"));
    let snapshot = course.clone();
    let _ = course.stages();
    let _ = course.stages();
    assert_eq!(course, snapshot);
}

#[test]
fn chain_two_links() {
    let links = vec![Stage::new("x", "5min"), Stage::new("y", "10min")];
    let chained = Stage::chain(links);
    assert_eq!(chained.len(), 2);
    assert_eq!(chained[0].name(), "y");
    assert_eq!(chained[0].delta(), TimeDelta::from_secs(600));
    assert_eq!(chained[1].name(), "x");
    assert_eq!(chained[1].delta(), TimeDelta::from_secs(900));
}

#[test]
fn chain_totals_all_durations() {
    let links = vec![
        Stage::new("Duck crown", "1h 15min"),
        Stage::new("Duck Legs", "15min"),
        Stage::new("Duck Legs with sauce", "15min"),
        Stage::new("Reduce sauce", "2min"),
    ];
    let chained = Stage::chain(links);
    assert_eq!(chained.len(), 4);
    assert_eq!(chained[0].name(), "Reduce sauce");
    assert_eq!(chained[0].delta(), TimeDelta::from_secs(120));
    assert_eq!(chained[3].name(), "Duck crown");
    assert_eq!(chained[3].delta(), TimeDelta::from_secs(4500 + 900 + 900 + 120));
}

#[test]
fn chain_of_nothing_is_empty() {
    assert_eq!(Stage::chain(Vec::new()).len(), 0);
}

#[test]
fn chain_checked_matches_chain() {
    let links = vec![Stage::new("x", "5min"), Stage::new("y", "10min")];
    let chained = Stage::chain_checked(links).unwrap();
    assert_eq!(chained.len(), 2);
    assert_eq!(chained[0].name(), "y");
    assert_eq!(chained[0].delta(), TimeDelta::from_secs(600));
    assert_eq!(chained[1].name(), "x");
    assert_eq!(chained[1].delta(), TimeDelta::from_secs(900));
}

#[test]
fn chain_checked_detects_overflow() {
    let links = vec![
        Stage::with_delta("a", TimeDelta::from_secs(u64::MAX)),
        Stage::with_delta("b", TimeDelta::from_secs(u64::MAX)),
    ];
    assert!(Stage::chain_checked(links).is_none());
}

#[test]
fn chained_stages_schedule() {
    let details = CourseDetails::new("", "duck");
    let mut course = Course::new(&details);
    for stage in Stage::chain(vec![Stage::new("a", "10min"), Stage::new("b", "5min")]) {
        course.add(stage);
    }
    // lead-times: a 15min, b 5min, Serving 0
    let schedule = course.stages();
    assert_eq!(schedule.len(), 2);
    assert_eq!(schedule[0].name(), "a");
    assert_eq!(schedule[0].delta(), TimeDelta::from_secs(600));
    assert_eq!(schedule[1].name(), "b");
    assert_eq!(schedule[1].delta(), TimeDelta::from_secs(300));
}

#[test]
fn course_details_accessors() {
    let mut details = CourseDetails::new("", "Roast");
    assert_eq!(details.id(), "");
    assert_eq!(details.name(), "Roast");
    details.set_id("abc-123");
    assert_eq!(details.id(), "abc-123");
    assert_eq!(details.name(), "Roast");
}

#[test]
fn course_accessors() {
    let details = CourseDetails::new("id-1", "Roast");
    let course = Course::new(&details);
    assert_eq!(course.name(), "Roast");
    assert_eq!(course.details(), &details);
}

#[test]
fn seeded_course_stages() {
    let details = CourseDetails::new("id-2", "Roast Dinner");
    let words = vec![String::from("Roast"), String::from("Dinner")];
    let course = Course::seeded(&details, &words);
    // lead-times: Serving 0s, Roast 30s, Dinner 50s
    let schedule = course.stages();
    assert_eq!(schedule.len(), 2);
    assert_eq!(schedule[0].name(), "Dinner");
    assert_eq!(schedule[0].delta(), TimeDelta::from_secs(20));
    assert_eq!(schedule[1].name(), "Roast");
    assert_eq!(schedule[1].delta(), TimeDelta::from_secs(30));
}

#[test]
fn delta_arithmetic() {
    let a = TimeDelta::from_parts(2, 500_000_000);
    let b = TimeDelta::from_parts(1, 700_000_000);
    let sum = a.checked_add(b).unwrap();
    assert_eq!(sum, TimeDelta::from_parts(4, 200_000_000));
    assert_eq!(sum.secs(), 4);
    assert_eq!(sum.subsec_nanos(), 200_000_000);
    let diff = a.diff(b);
    assert_eq!(diff, TimeDelta::from_parts(0, 800_000_000));
    assert!(a.ge(b));
    assert!(!b.ge(a));
    assert!(a.ge(a));
}

#[test]
fn delta_addition_overflow_is_detected() {
    let top = TimeDelta::from_parts(u64::MAX, 999_999_999);
    assert_eq!(top.checked_add(TimeDelta::from_parts(0, 1)), None);
    assert_eq!(top.checked_add(TimeDelta::zero()), Some(top));
}

#[test]
fn parse_or_zero_directly() {
    assert_eq!(TimeDelta::parse_or_zero("2h 37min"), TimeDelta::from_secs(9420));
    assert_eq!(TimeDelta::parse_or_zero("nonsense"), TimeDelta::zero());
}
