use sniping_banana::config::RetryConfig;
use sniping_banana::datetime::Date;
use sniping_banana::datetime::DateTime;
use sniping_banana::datetime::Time;
use sniping_banana::sniping_banana::authorization_header_value;
use sniping_banana::sniping_banana::classify_find_response;
use sniping_banana::sniping_banana::classify_slots;
use sniping_banana::sniping_banana::conclude;
use sniping_banana::sniping_banana::outcome_of_join;
use sniping_banana::sniping_banana::resolve;
use sniping_banana::sniping_banana::AttemptOutcome;
use sniping_banana::sniping_banana::Report;
use sniping_banana::sniping_banana::Scheduler;
use sniping_banana::sniping_banana::Slot;
use sniping_banana::sniping_banana::SlotDates;
use sniping_banana::sniping_banana::SlotSize;
use sniping_banana::utils::SimpleError;

fn sample_instant() -> DateTime {
    DateTime {
        date: Date { year: 2024, month: 7, day: 14 },
        time: Time { hour: 19, minute: 30, second: 0 },
    }
}

fn sample_slot(max: i32) -> Slot {
    Slot { size: SlotSize { max }, date: SlotDates { start: sample_instant() } }
}

#[test]
fn scheduler_returns_exactly_n_outcomes() {
    let retry = RetryConfig { millisecs_between: 100, max_num_attempts: 3 };
    let mut scheduler = Scheduler::new(&retry);
    assert_eq!(scheduler.remaining(), 3);
    scheduler.record(AttemptOutcome::DomainFailure(String::from("empty")));
    scheduler.record(AttemptOutcome::InfrastructureFailure(String::from("aborted")));
    assert_eq!(scheduler.remaining(), 1);
    scheduler.record(AttemptOutcome::Success(vec![sample_slot(2)]));
    assert_eq!(scheduler.remaining(), 0);
    let outcomes = scheduler.finish();
    assert_eq!(outcomes.len(), 3);
    assert!(matches!(outcomes[0], AttemptOutcome::DomainFailure(_)));
    assert!(matches!(outcomes[1], AttemptOutcome::InfrastructureFailure(_)));
    assert!(matches!(outcomes[2], AttemptOutcome::Success(_)));
}

#[test]
fn scheduler_with_zero_attempts_returns_empty() {
    let retry = RetryConfig { millisecs_between: 100, max_num_attempts: 0 };
    let scheduler = Scheduler::new(&retry);
    assert_eq!(scheduler.remaining(), 0);
    let outcomes = scheduler.finish();
    assert_eq!(outcomes.len(), 0);
}

#[test]
fn scenario_two_domain_failures_then_success_wins() {
    let slot = sample_slot(2);
    let outcomes = vec![
        AttemptOutcome::DomainFailure(String::from("empty")),
        AttemptOutcome::DomainFailure(String::from("empty")),
        AttemptOutcome::Success(vec![slot]),
    ];
    match conclude(&outcomes) {
        Ok(slots) => {
            assert_eq!(slots, vec![slot]);
        },
        Err(_) => panic!("a success among the outcomes must win"),
    }
}

#[test]
fn scenario_all_domain_failures_yields_report() {
    let outcomes = vec![
        AttemptOutcome::DomainFailure(String::from("empty")),
        AttemptOutcome::DomainFailure(String::from("empty")),
    ];
    match conclude(&outcomes) {
        Ok(_) => panic!("no success was among the outcomes"),
        Err(report) => {
            assert_eq!(report.num_req_errs, 2);
            assert_eq!(report.example_req_err, Some(String::from("empty")));
            assert_eq!(report.num_async_errs, 0);
            assert_eq!(report.example_async_err, None);
        },
    }
}

#[test]
fn scenario_crash_does_not_block_success() {
    let slot = sample_slot(4);
    let outcomes = vec![
        AttemptOutcome::InfrastructureFailure(String::from("task aborted")),
        AttemptOutcome::Success(vec![slot]),
    ];
    match conclude(&outcomes) {
        Ok(slots) => {
            assert_eq!(slots, vec![slot]);
        },
        Err(_) => panic!("the crash must not invalidate the success"),
    }
}

#[test]
fn scenario_zero_attempts_gives_empty_report() {
    let outcomes: Vec<AttemptOutcome> = vec![];
    assert!(resolve(&outcomes).is_none());
    let report = Report::new(&outcomes);
    assert_eq!(report.num_async_errs, 0);
    assert_eq!(report.num_req_errs, 0);
    assert_eq!(report.example_async_err, None);
    assert_eq!(report.example_req_err, None);
}

#[test]
fn resolver_picks_earliest_launched_success() {
    let first = sample_slot(2);
    let second = sample_slot(6);
    let outcomes = vec![
        AttemptOutcome::DomainFailure(String::from("empty")),
        AttemptOutcome::Success(vec![first]),
        AttemptOutcome::Success(vec![second]),
    ];
    let won = resolve(&outcomes).expect("a success exists");
    assert_eq!(won, vec![first]);
}

#[test]
fn resolver_and_reporter_are_idempotent() {
    let outcomes = vec![
        AttemptOutcome::InfrastructureFailure(String::from("aborted")),
        AttemptOutcome::DomainFailure(String::from("empty")),
        AttemptOutcome::DomainFailure(String::from("malformed")),
    ];
    let r1 = resolve(&outcomes);
    let r2 = resolve(&outcomes);
    assert_eq!(r1, r2);
    let a = Report::new(&outcomes);
    let b = Report::new(&outcomes);
    assert_eq!(a.num_async_errs, b.num_async_errs);
    assert_eq!(a.num_req_errs, b.num_req_errs);
    assert_eq!(a.example_async_err, b.example_async_err);
    assert_eq!(a.example_req_err, b.example_req_err);
}

#[test]
fn report_counts_partition_failures_and_keep_first_examples() {
    let outcomes = vec![
        AttemptOutcome::DomainFailure(String::from("first domain")),
        AttemptOutcome::InfrastructureFailure(String::from("first infra")),
        AttemptOutcome::DomainFailure(String::from("second domain")),
        AttemptOutcome::InfrastructureFailure(String::from("second infra")),
        AttemptOutcome::InfrastructureFailure(String::from("third infra")),
    ];
    let report = Report::new(&outcomes);
    assert_eq!(report.num_async_errs, 3);
    assert_eq!(report.num_req_errs, 2);
    assert_eq!(report.num_async_errs + report.num_req_errs, outcomes.len());
    assert_eq!(report.example_async_err, Some(String::from("first infra")));
    assert_eq!(report.example_req_err, Some(String::from("first domain")));
}

#[test]
fn empty_slot_list_is_a_domain_failure() {
    match classify_slots(vec![]) {
        Ok(_) => panic!("an empty slot list must never be a success"),
        Err(e) => assert_eq!(e.message().as_str(), "empty slots when finding slots"),
    }
    match classify_slots(vec![sample_slot(2)]) {
        Ok(slots) => assert_eq!(slots, vec![sample_slot(2)]),
        Err(_) => panic!("a non-empty slot list is a success"),
    }
}

#[test]
fn find_response_without_venues_is_a_domain_failure() {
    match classify_find_response(vec![]) {
        Ok(_) => panic!("no venue means no slots"),
        Err(e) => assert_eq!(e.message().as_str(), "empty venues when finding slots"),
    }
    match classify_find_response(vec![vec![]]) {
        Ok(_) => panic!("an empty slot list must never be a success"),
        Err(e) => assert_eq!(e.message().as_str(), "empty slots when finding slots"),
    }
    let slots = vec![sample_slot(2), sample_slot(4)];
    match classify_find_response(vec![vec![sample_slot(8)], slots.clone()]) {
        Ok(won) => assert_eq!(won, slots),
        Err(_) => panic!("the last venue holds non-empty slots"),
    }
}

#[test]
fn join_results_classify_into_the_three_outcomes() {
    let slots = vec![sample_slot(2)];
    let ok: Result<Result<Vec<Slot>, SimpleError>, String> = Ok(Ok(slots.clone()));
    match outcome_of_join(ok) {
        AttemptOutcome::Success(v) => assert_eq!(v, slots),
        _ => panic!("a probe result with slots is a success"),
    }
    let domain: Result<Result<Vec<Slot>, SimpleError>, String> =
        Ok(Err(SimpleError::new("empty slots when finding slots")));
    match outcome_of_join(domain) {
        AttemptOutcome::DomainFailure(m) => assert_eq!(m, "empty slots when finding slots"),
        _ => panic!("a probe error is a domain failure"),
    }
    let infra: Result<Result<Vec<Slot>, SimpleError>, String> =
        Err(String::from("task aborted"));
    match outcome_of_join(infra) {
        AttemptOutcome::InfrastructureFailure(m) => assert_eq!(m, "task aborted"),
        _ => panic!("a failed join is an infrastructure failure"),
    }
}

#[test]
fn authorization_header_quotes_the_api_key() {
    let value = authorization_header_value("some-api-key");
    assert_eq!(value, "ResyAPI api_key=\"some-api-key\"");
    assert_eq!(authorization_header_value(""), "ResyAPI api_key=\"\"");
}

#[test]
fn simple_error_keeps_its_message() {
    let e = SimpleError::new("something went wrong");
    assert_eq!(e.message().as_str(), "something went wrong");
    assert_eq!(e.into_message(), "something went wrong");
}
