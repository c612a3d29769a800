//! Container identifiers and the session records built from them.

use boa::container::BoaContainer;
use boa::ids::fresh_container_id;
use boa::logger::Logger;
use boa::registry::Registry;

#[test]
fn fresh_id_carries_the_prefix() {
    let id = fresh_container_id("boa");
    assert_eq!(id.chars().count(), 3 + 37);
    assert!(id.starts_with("boa-"));
}

#[test]
fn fresh_ids_differ() {
    let a = fresh_container_id("boa");
    let b = fresh_container_id("boa");
    assert_ne!(a, b);
}

#[test]
fn fresh_session_is_not_started() {
    let c = BoaContainer::fresh("boa-1".to_string());
    assert_eq!(c.container_id, "boa-1");
    assert!(!c.started);
    assert!(!c.executing);
    assert_eq!(c.logger.prefix, "[boa-server#.boa-1]");
}

#[test]
fn logger_keeps_its_prefix() {
    let l = Logger::new("boa-server~/ws".to_string());
    assert_eq!(l.prefix, "boa-server~/ws");
    assert_eq!(l.clone().prefix, "boa-server~/ws");
}

#[test]
fn registry_keeps_identifiers_unique() {
    let mut r = Registry::new();
    assert!(r.insert(BoaContainer::fresh("a".to_string())));
    assert!(r.insert(BoaContainer::fresh("b".to_string())));
    assert!(!r.insert(BoaContainer::fresh("a".to_string())));
    assert!(r.contains("a"));
    assert!(r.contains("b"));
    assert!(!r.contains("c"));

    let got = r.get("a").expect("a is present");
    assert_eq!(got.container_id, "a");

    assert!(r.set_started("a"));
    assert!(!r.set_started("c"));
    assert!(r.get("a").unwrap().started);
    assert!(!r.get("b").unwrap().started);

    let removed = r.remove("a").expect("a is present");
    assert_eq!(removed.container_id, "a");
    assert!(!r.contains("a"));
    assert!(r.remove("a").is_none());

    let rest = r.drain();
    assert_eq!(rest.len(), 1);
    assert_eq!(rest[0].container_id, "b");
    assert!(!r.contains("b"));
}
