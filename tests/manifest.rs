use static_site_generator::config::{Config, Timing};

fn t(c: i64, m: i64) -> Timing {
    Timing { created: c, modified: m }
}

#[test]
fn empty_manifest_has_no_entries() {
    let c = Config::default();
    assert_eq!(c.len(), 0);
    assert_eq!(c.get(&"a".to_string()), None);
}

#[test]
fn insert_replaces_previous_timing() {
    let mut c = Config::empty();
    c.insert("a".to_string(), t(1, 2));
    c.insert("b".to_string(), t(3, 4));
    c.insert("a".to_string(), t(5, 6));
    assert_eq!(c.len(), 2);
    assert_eq!(c.get(&"a".to_string()), Some(t(5, 6)));
    assert_eq!(c.get(&"b".to_string()), Some(t(3, 4)));
}

#[test]
fn new_keeps_last_entry_of_a_name() {
    let c = Config::new(vec![("x".to_string(), t(1, 1)), ("x".to_string(), t(2, 2))]);
    assert_eq!(c.len(), 1);
    assert_eq!(c.get(&"x".to_string()), Some(t(2, 2)));
}

#[test]
fn entries_round_trip() {
    let c = Config::new(vec![
        ("post".to_string(), t(100, 200)),
        ("photo".to_string(), t(-5, 7)),
        ("style".to_string(), t(0, 0)),
    ]);
    let back = Config::new(c.entries());
    assert!(back.same_timings(&c));
    assert_eq!(back.get(&"photo".to_string()), Some(t(-5, 7)));
}

#[test]
fn same_timings_compares_every_field() {
    let a = Config::new(vec![("a".to_string(), t(1, 2))]);
    let b = Config::new(vec![("a".to_string(), t(1, 3))]);
    let c = Config::new(vec![("a".to_string(), t(1, 2)), ("b".to_string(), t(1, 2))]);
    assert!(!a.same_timings(&b));
    assert!(!a.same_timings(&c));
    assert!(!c.same_timings(&a));
    assert!(a.same_timings(&Config::new(vec![("a".to_string(), t(1, 2))])));
}
