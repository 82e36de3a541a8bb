//! What operators are told of refused output schemas, and how often.

use waygate_upstream::refusal_record::{RefusalRecord, RejectedOutputSchema};

fn refusal(tool: &str) -> RejectedOutputSchema {
    RejectedOutputSchema { tool: tool.to_owned(), observed_type: "array".to_owned() }
}

fn tools(owed: &[RejectedOutputSchema]) -> Vec<&str> {
    owed.iter().map(|r| r.tool()).collect()
}

#[test]
fn a_first_observation_owes_a_row_and_a_repeat_does_not() {
    let mut record = RefusalRecord::new();
    let first = record.observe();
    assert_eq!(tools(&record.apply("s", first, &vec![refusal("t")], true)), vec!["t"]);
    let again = record.observe();
    assert!(
        record.apply("s", again, &vec![refusal("t")], true).is_empty(),
        "an unchanged refusal has nothing new to tell the operator",
    );
}

#[test]
fn a_refusal_that_stops_and_resumes_owes_a_second_row() {
    let mut record = RefusalRecord::new();
    let served = record.observe();
    record.apply("s", served, &vec![refusal("t")], true);

    let withheld = record.observe();
    assert!(
        record.apply("s", withheld, &vec![], true).is_empty(),
        "withholding a tool is not itself something to report",
    );

    let resumed = record.observe();
    assert_eq!(
        tools(&record.apply("s", resumed, &vec![refusal("t")], true)),
        vec!["t"],
        "serving it again is a new event, not a repeat of the first",
    );
}

#[test]
fn a_stale_absence_does_not_clear_a_newer_serving() {
    let mut record = RefusalRecord::new();
    let stale = record.observe();
    let fresh = record.observe();

    assert_eq!(tools(&record.apply("s", fresh, &vec![refusal("t")], true)), vec!["t"]);
    assert!(
        record.apply("s", stale, &vec![], true).is_empty(),
        "an older view of an absent tool must not clear a newer serving",
    );

    let later = record.observe();
    assert!(
        record.apply("s", later, &vec![refusal("t")], true).is_empty(),
        "the newer serving still stands, so there is nothing to re-report",
    );
}

#[test]
fn a_newer_absence_outlives_a_stale_serving_applied_after_it() {
    let mut record = RefusalRecord::new();
    let stale = record.observe();
    let fresh = record.observe();

    assert!(
        record.apply("s", fresh, &vec![], true).is_empty(),
        "an absence is not itself something to report",
    );
    assert_eq!(
        tools(&record.apply("s", stale, &vec![refusal("t")], true)),
        vec!["t"],
        "the overtaken observation still owes its row: it was served then",
    );

    let resumed = record.observe();
    assert_eq!(
        tools(&record.apply("s", resumed, &vec![refusal("t")], true)),
        vec!["t"],
        "the newer absence stood, so serving it again is its own event",
    );
}

#[test]
fn an_overtaken_resume_owes_its_row_when_the_record_believed_it_absent() {
    let mut record = RefusalRecord::new();
    let served = record.observe();
    record.apply("s", served, &vec![refusal("t")], true);
    let cleared = record.observe();
    record.apply("s", cleared, &vec![], true);

    // The resume is stamped before the withholding but applies after it.
    let resumed = record.observe();
    let withheld = record.observe();
    assert!(
        record.apply("s", withheld, &vec![], true).is_empty(),
        "withholding a tool is not itself something to report",
    );
    assert_eq!(
        tools(&record.apply("s", resumed, &vec![refusal("t")], true)),
        vec!["t"],
        "the resumed interval was real even though a newer sample passed it",
    );

    // The newer withholding still governs the state, so the next resume is its
    // own event rather than a repeat.
    let again = record.observe();
    assert_eq!(tools(&record.apply("s", again, &vec![refusal("t")], true)), vec!["t"]);
}

#[test]
fn an_overtaken_sample_of_an_unbroken_serving_adds_nothing() {
    let mut record = RefusalRecord::new();
    let stale = record.observe();
    let fresh = record.observe();

    assert_eq!(tools(&record.apply("s", fresh, &vec![refusal("t")], true)), vec!["t"]);
    assert!(
        record.apply("s", stale, &vec![refusal("t")], true).is_empty(),
        "the same uninterrupted serving, seen twice, is one event",
    );
}

#[test]
fn forgetting_a_server_makes_its_next_refusal_new_again() {
    let mut record = RefusalRecord::new();
    let first = record.observe();
    record.apply("s", first, &vec![refusal("t")], true);
    record.forget("s");

    let readded = record.observe();
    assert_eq!(
        tools(&record.apply("s", readded, &vec![refusal("t")], true)),
        vec!["t"],
        "a re-added server has told the operator nothing yet",
    );
}

#[test]
fn a_retired_server_owes_its_rows_without_reopening_a_record() {
    let mut record = RefusalRecord::new();
    let at = record.observe();
    assert_eq!(tools(&record.apply("gone", at, &vec![refusal("t")], false)), vec!["t"]);

    let readded = record.observe();
    assert_eq!(
        tools(&record.apply("gone", readded, &vec![refusal("t")], true)),
        vec!["t"],
        "nothing was recorded for the retired server, so this is still new",
    );
}

#[test]
fn servers_are_told_apart_and_stamps_count_from_one() {
    let mut record = RefusalRecord::new();
    let first = record.observe();
    assert_eq!(first.stamp, 1);
    assert_eq!(record.observe().stamp, 2);
    assert_eq!(tools(&record.apply("a", first, &vec![refusal("t")], true)), vec!["t"]);
    assert_eq!(tools(&record.apply("b", first, &vec![refusal("t")], true)), vec!["t"]);
}

#[test]
fn a_sample_reports_a_tool_it_lists_twice_once() {
    let mut record = RefusalRecord::new();
    let at = record.observe();
    assert_eq!(
        tools(&record.apply("s", at, &vec![refusal("t"), refusal("u"), refusal("t")], true)),
        vec!["t", "u"]
    );
}

#[test]
fn the_order_in_which_two_samples_arrive_does_not_matter() {
    let mut early = RefusalRecord::new();
    let first = early.observe();
    let second = early.observe();
    early.apply("s", first, &vec![refusal("t")], true);
    early.apply("s", second, &vec![refusal("u")], true);
    let mut late = RefusalRecord::new();
    late.observe();
    late.observe();
    late.apply("s", second, &vec![refusal("u")], true);
    late.apply("s", first, &vec![refusal("t")], true);
    let next = early.observe();
    late.observe();
    let sample = vec![refusal("t"), refusal("u")];
    assert_eq!(
        tools(&early.apply("s", next, &sample, true)),
        tools(&late.apply("s", next, &sample, true))
    );
}
