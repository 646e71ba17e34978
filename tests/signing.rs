use cxsign::activity::{QrVariant, SignKind};
use cxsign::signer::{
    after_attempt, after_pre_sign, after_transport_error, classify_response, is_already_signed,
    merge_outcomes, report_line, requirement, uses_locations, Requirement, SignResult, Step,
    ALL_LOCATIONS_UNAVAILABLE, ALREADY_SIGNED,
};

fn fail(m: &str) -> SignResult {
    SignResult::Fail(m.to_owned())
}

/// Runs one branch over the replies its candidates would get; returns the
/// positions tried and the result.
fn run(pre: SignResult, replies: &[SignResult], located: bool) -> (Vec<usize>, SignResult) {
    let mut tried = Vec::new();
    let mut step = after_pre_sign(&pre, replies.len(), located);
    loop {
        match step {
            Step::Try(i) => {
                tried.push(i);
                step = after_attempt(i, replies.len(), replies[i].clone(), located);
            }
            Step::Done(r) => return (tried, r),
        }
    }
}

#[test]
fn pre_check_success_tries_nothing() {
    let (tried, r) = run(SignResult::Success, &[fail("x"), SignResult::Success], true);
    assert!(tried.is_empty());
    assert_eq!(r, SignResult::Success);
}

#[test]
fn stops_at_first_success() {
    let (tried, r) = run(fail("no"), &[fail("far"), SignResult::Success, SignResult::Success], true);
    assert_eq!(tried, vec![0, 1]);
    assert_eq!(r, SignResult::Success);
}

#[test]
fn already_signed_counts_as_success() {
    let (tried, r) = run(fail("no"), &[fail(ALREADY_SIGNED), fail("far")], true);
    assert_eq!(tried, vec![0]);
    assert_eq!(r, SignResult::Success);
    assert!(is_already_signed(&ALREADY_SIGNED.to_owned()));
    assert!(!is_already_signed(&"far".to_owned()));
}

#[test]
fn third_candidate_for_one_account_none_for_other() {
    let a = run(fail("no"), &[fail("far"), fail("far"), SignResult::Success], true);
    let b = run(fail("no"), &[fail("far"), fail("far"), fail("far")], true);
    assert_eq!(a.0, vec![0, 1, 2]);
    assert_eq!(b.0, vec![0, 1, 2]);
    let merged = merge_outcomes(&vec!["A".to_owned(), "B".to_owned()], &vec![Ok(a.1), Ok(b.1)]);
    assert_eq!(merged[0], ("A".to_owned(), SignResult::Success));
    assert_eq!(merged[1], ("B".to_owned(), fail("all locations unavailable")));
}

#[test]
fn no_candidate_fails_without_attempt() {
    let (tried, r) = run(fail("no"), &[], true);
    assert!(tried.is_empty());
    assert_eq!(r, fail(ALL_LOCATIONS_UNAVAILABLE));
}

#[test]
fn mechanism_without_location_reports_reply_as_is() {
    let (tried, r) = run(fail("no"), &[fail("closed")], false);
    assert_eq!(tried, vec![0]);
    assert_eq!(r, fail("closed"));
}

#[test]
fn transport_error_stops_only_its_branch() {
    let b = match after_transport_error("connection reset".to_owned()) {
        Step::Done(r) => r,
        Step::Try(_) => panic!("a transport error ends the branch"),
    };
    let a = run(fail("no"), &[SignResult::Success], true).1;
    let merged = merge_outcomes(
        &vec!["A".to_owned(), "B".to_owned(), "C".to_owned()],
        &vec![Ok(a), Ok(b), Err("timed out".to_owned())],
    );
    assert_eq!(merged.len(), 3);
    assert_eq!(merged[0].1, SignResult::Success);
    assert_eq!(merged[1].1, fail("connection reset"));
    assert_eq!(merged[2], ("C".to_owned(), fail("timed out")));
}

#[test]
fn responses_are_read() {
    assert_eq!(classify_response("success"), SignResult::Success);
    assert_eq!(classify_response("Not in range"), fail("Not in range"));
    assert!(matches!(classify_response(""), SignResult::Fail(m) if !m.is_empty()));
}

#[test]
fn requirements_per_mechanism() {
    assert_eq!(requirement(SignKind::Common), Requirement::Nothing);
    assert_eq!(requirement(SignKind::Location), Requirement::Place);
    assert_eq!(requirement(SignKind::Photo), Requirement::Photo);
    assert_eq!(requirement(SignKind::QrCode(QrVariant::Refresh)), Requirement::Token);
    assert_eq!(requirement(SignKind::Gesture), Requirement::Code);
    assert_eq!(requirement(SignKind::SignCode), Requirement::Code);
    assert_eq!(requirement(SignKind::Unknown), Requirement::Unsupported);
    assert!(uses_locations(SignKind::Location));
    assert!(uses_locations(SignKind::QrCode(QrVariant::Normal)));
    assert!(!uses_locations(SignKind::Photo));
}

#[test]
fn report_lines_name_account_and_task() {
    assert_eq!(report_line("Maths", "alice", &SignResult::Success), "account [alice] signed in to [Maths]");
    assert_eq!(
        report_line("Maths", "bob", &fail("all locations unavailable")),
        "account [bob] failed in [Maths]: all locations unavailable"
    );
}
