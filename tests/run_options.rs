use cxsign::activity::{Course, QrVariant, Sign, SignDetail, SignKind};
use cxsign::location::{Location, Preset, SavedLocation, GLOBAL_SCOPE};
use cxsign::proof_source::QrSource;
use cxsign::qrcode::DefaultQrCodeSignner;
use cxsign::run::{find_task, inputs_ready, select_accounts, split_fields, Missing, Pick};

fn loc(addr: &str, lon: &str) -> Location {
    Location::new(addr, lon, "2.0", "3.0")
}

fn task(id: i64) -> Sign {
    Sign {
        active_id: id,
        name: String::new(),
        course: Course { id: 1, name: String::new() },
        code: 0,
        status_code: 1,
        start_timestamp: 0,
        kind: SignKind::Common,
        detail: SignDetail { c: String::new(), is_photo: false, is_refresh_qrcode: false },
    }
}

fn signer(location_str: Option<&str>, no_rand_shift: bool) -> DefaultQrCodeSignner {
    DefaultQrCodeSignner::new(location_str.map(|s| s.to_owned()), None, None, false, no_rand_shift)
}

fn presets() -> Vec<Preset> {
    vec![Preset { active_id: 9, exact: loc("teacher", "10.0"), shifted: loc("teacher", "10.00001") }]
}

fn store() -> Vec<SavedLocation> {
    vec![
        SavedLocation { id: 1, course: GLOBAL_SCOPE, location: loc("global", "1.0") },
        SavedLocation { id: 2, course: 4, location: loc("course", "1.0") },
    ]
}

#[test]
fn qr_signer_full_location_string() {
    let r = signer(Some("gate,5,6,7"), false).locations(4, 9, &presets(), &store());
    assert_eq!(r.len(), 1);
    assert_eq!((r[0].addr.as_str(), r[0].lon.as_str(), r[0].alt.as_str()), ("gate", "5", "7"));
}

#[test]
fn qr_signer_label_takes_preset_coordinates() {
    let r = signer(Some("library"), true).locations(4, 9, &presets(), &store());
    assert_eq!(r.len(), 1);
    assert_eq!((r[0].addr.as_str(), r[0].lon.as_str()), ("library", "10.0"));
    assert!(signer(Some("library"), true).locations(4, 8, &presets(), &store()).is_empty());
}

#[test]
fn qr_signer_without_string_uses_every_source() {
    let r = signer(None, false).locations(4, 9, &presets(), &store());
    let got: Vec<(&str, &str)> = r.iter().map(|l| (l.addr.as_str(), l.lon.as_str())).collect();
    assert_eq!(got, vec![("teacher", "10.00001"), ("course", "1.0"), ("global", "1.0")]);
    assert_eq!(signer(Some(""), true).locations(4, 9, &presets(), &store()).len(), 3);
}

#[test]
fn qr_signer_token_source() {
    let s = DefaultQrCodeSignner::new(None, Some("dir".to_owned()), Some("enc1".to_owned()), true, false);
    assert!(matches!(s.token_source(QrVariant::Refresh), QrSource::Given(t) if t == "enc1"));
    let s = DefaultQrCodeSignner::new(None, None, None, true, false);
    assert!(matches!(s.token_source(QrVariant::Refresh), QrSource::Screen { live: true, precise: true }));
}

#[test]
fn inputs_per_mechanism() {
    let none: Option<String> = None;
    let some = Some("x".to_owned());
    assert_eq!(inputs_ready(SignKind::Photo, &none, &some), Err(Missing::Photo));
    assert_eq!(inputs_ready(SignKind::Photo, &some, &none), Ok(()));
    assert_eq!(inputs_ready(SignKind::Gesture, &some, &none), Err(Missing::Code));
    assert_eq!(inputs_ready(SignKind::SignCode, &none, &some), Ok(()));
    assert_eq!(inputs_ready(SignKind::Unknown, &some, &some), Err(Missing::Unsupported));
    assert_eq!(inputs_ready(SignKind::Common, &none, &none), Ok(()));
    assert_eq!(inputs_ready(SignKind::QrCode(QrVariant::Normal), &none, &none), Ok(()));
}

#[test]
fn tasks_are_found_valid_first() {
    let valid = vec![task(1), task(2)];
    let invalid = vec![task(2), task(3)];
    assert_eq!(find_task(&valid, &invalid, 2), Some(Pick::Valid(1)));
    assert_eq!(find_task(&valid, &invalid, 3), Some(Pick::Invalid(1)));
    assert_eq!(find_task(&valid, &invalid, 4), None);
}

#[test]
fn fields_split_on_commas() {
    assert_eq!(split_fields("a,b,,c"), vec!["a", "b", "", "c"]);
    assert_eq!(split_fields(""), vec![""]);
}

#[test]
fn accounts_are_selected_by_name() {
    let known = vec!["alice".to_owned(), "bob".to_owned(), "carol".to_owned()];
    assert_eq!(select_accounts(&known, &None), Ok(vec![0, 1, 2]));
    assert_eq!(select_accounts(&known, &Some("carol,alice".to_owned())), Ok(vec![2, 0]));
    assert_eq!(select_accounts(&known, &Some("bob,dave".to_owned())), Err("dave".to_owned()));
}
