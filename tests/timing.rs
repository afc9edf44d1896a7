use static_site_generator::config::{FileTimes, Timing};

#[test]
fn created_from_metadata_when_available() {
    let meta = FileTimes { modified: Some(50), created: Some(10) };
    let prev = Timing { created: 5, modified: 7 };
    let t = Timing::from_metadata_and_prev(&meta, Some(&prev)).unwrap();
    assert_eq!(t, Timing { created: 10, modified: 50 });
}

#[test]
fn created_falls_back_to_previous_timing() {
    let meta = FileTimes { modified: Some(50), created: None };
    let prev = Timing { created: 5, modified: 7 };
    let t = Timing::from_metadata_and_prev(&meta, Some(&prev)).unwrap();
    assert_eq!(t.created, 5);
    assert_eq!(t.modified, 50);
}

#[test]
fn created_falls_back_to_modified() {
    let meta = FileTimes { modified: Some(50), created: None };
    let t = Timing::from_metadata_and_prev(&meta, None).unwrap();
    assert_eq!(t, Timing { created: 50, modified: 50 });
}

#[test]
fn missing_modification_time_fails() {
    let meta = FileTimes { modified: None, created: Some(3) };
    assert!(Timing::from_metadata_and_prev(&meta, None).is_err());
}
