use cxsign::activity::{
    check_in_code, order_by_start, sort_by_start, Activity, Course, OtherActivity, QrVariant,
    RawActivity, Sign, SignDetail, SignKind,
};

fn course() -> Course {
    Course { id: 7, name: "Physics".to_owned() }
}

fn raw(id: i64, other_id: Option<&str>, status: i32, start_ms: u64) -> RawActivity {
    RawActivity {
        id,
        name: format!("activity {id}"),
        other_id: other_id.map(|s| s.to_owned()),
        status,
        start_time: start_ms,
    }
}

fn detail(is_photo: bool, is_refresh_qrcode: bool) -> SignDetail {
    SignDetail { c: "c0".to_owned(), is_photo, is_refresh_qrcode }
}

fn sign(id: i64, status: i32, start: i64) -> Sign {
    Sign {
        active_id: id,
        name: format!("sign {id}"),
        course: course(),
        code: 0,
        status_code: status,
        start_timestamp: start,
        kind: SignKind::Common,
        detail: detail(false, false),
    }
}

fn other(id: i64) -> OtherActivity {
    OtherActivity { id, name: format!("other {id}"), course: course(), status: 1, start_time_secs: 0 }
}

fn ids(signs: &[Sign]) -> Vec<i64> {
    signs.iter().map(|s| s.active_id).collect()
}

#[test]
fn code_reads_integers_in_range() {
    assert_eq!(check_in_code("0"), Some(0));
    assert_eq!(check_in_code("5"), Some(5));
    assert_eq!(check_in_code("+2"), Some(2));
    assert_eq!(check_in_code("-0"), Some(0));
    assert_eq!(check_in_code("004"), Some(4));
}

#[test]
fn code_rejects_out_of_range_and_text() {
    assert_eq!(check_in_code("6"), None);
    assert_eq!(check_in_code("-1"), None);
    assert_eq!(check_in_code("17"), None);
    assert_eq!(check_in_code("99999999999999999999999"), None);
    assert_eq!(check_in_code(""), None);
    assert_eq!(check_in_code("-"), None);
    assert_eq!(check_in_code("2a"), None);
    assert_eq!(check_in_code(" 2"), None);
}

#[test]
fn kinds_follow_code_and_detail() {
    let c = course();
    let cases: Vec<(&str, SignDetail, SignKind)> = vec![
        ("0", detail(false, false), SignKind::Common),
        ("0", detail(true, false), SignKind::Photo),
        ("2", detail(false, false), SignKind::QrCode(QrVariant::Normal)),
        ("2", detail(false, true), SignKind::QrCode(QrVariant::Refresh)),
        ("3", detail(false, false), SignKind::Gesture),
        ("4", detail(false, false), SignKind::Location),
        ("5", detail(false, false), SignKind::SignCode),
        ("1", detail(false, false), SignKind::Unknown),
    ];
    for (code, d, kind) in cases {
        match Activity::from_raw(&c, &raw(1, Some(code), 1, 5_000), &Some(d)) {
            Activity::Sign(s) => {
                assert_eq!(s.kind, kind);
                assert_eq!(s.start_timestamp, 5);
                assert_eq!(s.course.id, 7);
            }
            Activity::Other(_) => panic!("code {code} is a check-in"),
        }
    }
}

#[test]
fn non_check_ins_become_other_activities() {
    let c = course();
    let raws = vec![raw(1, Some("9"), 2, 12_345), raw(2, None, 1, 0), raw(3, Some("4"), 1, 0)];
    let details = vec![None, None, Some(detail(false, false))];
    let acts = Activity::get_list_from_course(&c, &raws, &details);
    assert_eq!(acts.len(), 3);
    match &acts[0] {
        Activity::Other(o) => {
            assert_eq!(o.id, 1);
            assert_eq!(o.status, 2);
            assert_eq!(o.start_time_secs, 12);
            assert_eq!(o.name, "activity 1");
        }
        Activity::Sign(_) => panic!("9 is outside the check-in range"),
    }
    assert!(matches!(&acts[1], Activity::Other(o) if o.id == 2));
    assert!(matches!(&acts[2], Activity::Sign(s) if s.kind == SignKind::Location));
}

#[test]
fn every_activity_lands_in_one_list() {
    let now = 10_000;
    let acts = vec![
        Activity::Sign(sign(1, 1, 9_000)),
        Activity::Other(other(2)),
        Activity::Sign(sign(3, 2, 9_000)),
        Activity::Sign(sign(4, 1, now - 7_200)),
        Activity::Sign(sign(5, 1, 9_500)),
        Activity::Other(other(6)),
    ];
    let (valid, invalid, others) = Activity::get_all_activities(acts, now);
    assert_eq!(valid.len() + invalid.len() + others.len(), 6);
    assert_eq!(ids(&valid), vec![5, 1]);
    assert_eq!(ids(&invalid), vec![3, 4]);
    assert_eq!(others.iter().map(|o| o.id).collect::<Vec<_>>(), vec![2, 6]);
}

#[test]
fn empty_input_gives_empty_lists() {
    let (valid, invalid, others) = Activity::get_all_activities(Vec::new(), 0);
    assert!(valid.is_empty() && invalid.is_empty() && others.is_empty());
}

#[test]
fn valid_signs_are_most_recent_first_and_stable() {
    let signs = vec![sign(1, 1, 100), sign(2, 1, 300), sign(3, 1, 100), sign(4, 1, 200), sign(5, 1, 300)];
    assert_eq!(ids(&sort_by_start(&signs)), vec![2, 5, 4, 1, 3]);
}

#[test]
fn order_lists_positions() {
    assert_eq!(order_by_start(&vec![5, 9, 5, 1]), vec![1, 0, 2, 3]);
    assert_eq!(order_by_start(&vec![]), Vec::<usize>::new());
}

#[test]
fn window_is_open_for_two_hours() {
    let s = sign(1, 1, 1_000);
    assert!(s.is_valid(1_000));
    assert!(s.is_valid(8_199));
    assert!(!s.is_valid(8_200));
    assert!(!sign(1, 2, 1_000).is_valid(1_000));
}
