use cxsign::location::{parse_location, resolve_candidates, Location, Preset, SavedLocation, GLOBAL_SCOPE};

fn loc(addr: &str) -> Location {
    Location::new(addr, "1.0", "2.0", "3.0")
}

fn saved(id: i64, course: i64, addr: &str) -> SavedLocation {
    SavedLocation { id, course, location: loc(addr) }
}

fn preset(active_id: i64) -> Preset {
    Preset { active_id, exact: loc("preset"), shifted: loc("preset shifted") }
}

fn addrs(v: &[Location]) -> Vec<String> {
    v.iter().map(|l| l.addr.clone()).collect()
}

#[test]
fn parse_reads_four_fields() {
    let l = parse_location("Hall,116.3,39.9,50").unwrap();
    assert_eq!(l.addr, "Hall");
    assert_eq!(l.lon, "116.3");
    assert_eq!(l.lat, "39.9");
    assert_eq!(l.alt, "50");
    let e = parse_location(",,,").unwrap();
    assert_eq!(e.addr, "");
    assert_eq!(e.alt, "");
}

#[test]
fn parse_rejects_other_shapes() {
    assert!(parse_location("Hall").is_none());
    assert!(parse_location("Hall,1,2").is_none());
    assert!(parse_location("Hall,1,2,3,4").is_none());
    assert!(parse_location("").is_none());
}

#[test]
fn explicit_location_is_the_only_candidate() {
    let store = vec![saved(1, 7, "course"), saved(2, GLOBAL_SCOPE, "global")];
    let explicit = Some(loc("given"));
    let r = resolve_candidates(7, 42, &explicit, Some(1), &vec![preset(42)], &store, true);
    assert_eq!(addrs(&r), vec!["given"]);
}

#[test]
fn candidates_come_preset_course_global() {
    let store = vec![saved(2, GLOBAL_SCOPE, "global"), saved(1, 7, "course"), saved(3, 8, "elsewhere")];
    let shifted = resolve_candidates(7, 42, &None, None, &vec![preset(41), preset(42)], &store, true);
    assert_eq!(addrs(&shifted), vec!["preset shifted", "course", "global"]);
    let exact = resolve_candidates(7, 42, &None, None, &vec![preset(42)], &store, false);
    assert_eq!(addrs(&exact), vec!["preset", "course", "global"]);
}

#[test]
fn no_preset_leaves_saved_locations() {
    let store = vec![saved(1, 7, "course"), saved(2, GLOBAL_SCOPE, "global")];
    let r = resolve_candidates(7, 42, &None, None, &vec![preset(5)], &store, true);
    assert_eq!(addrs(&r), vec!["course", "global"]);
    assert!(resolve_candidates(7, 42, &None, None, &vec![], &vec![], true).is_empty());
}

#[test]
fn selected_saved_location_is_the_only_candidate() {
    let store = vec![saved(1, 7, "course"), saved(2, GLOBAL_SCOPE, "global")];
    let r = resolve_candidates(7, 42, &None, Some(2), &vec![preset(42)], &store, true);
    assert_eq!(addrs(&r), vec!["global"]);
    assert!(resolve_candidates(7, 42, &None, Some(9), &vec![preset(42)], &store, true).is_empty());
}
