use flurry::profile::{Profile, Store};
use flurry::settings::Settings;

fn profile(name: &str, address: &str, quality: u8) -> Profile {
    Profile {
        name: name.into(),
        address: address.into(),
        settings: Settings {
            quality,
            ..Settings::default()
        },
    }
}

fn names(store: &Store) -> Vec<&str> {
    store.profiles.iter().map(|p| p.name.as_str()).collect()
}

#[test]
fn stores_begin_empty() {
    let s = Store::default();
    assert!(s.profiles.is_empty() && s.last.is_none());
    assert!(s.get("").is_none());
}

#[test]
fn saved_profiles_are_found() {
    let mut s = Store::default();
    s.upsert(profile("a", "1", 10));
    s.upsert(profile("b", "2", 20));
    s.upsert(profile("a", "3", 30));
    assert_eq!(names(&s), ["a", "b"]);
    assert_eq!(s.last.as_deref(), Some("a"));
    assert!(*s.get("a").unwrap() == profile("a", "3", 30));
    assert!(*s.get("b").unwrap() == profile("b", "2", 20));
    assert!(s.get("c").is_none());
}

#[test]
fn deleted_profiles_are_gone() {
    let mut s = Store::default();
    for name in ["a", "b", "c"] {
        s.upsert(profile(name, name, 1));
    }
    s.delete("b");
    assert_eq!(names(&s), ["a", "c"]);
    assert_eq!(s.last.as_deref(), Some("c"));
    s.delete("c");
    assert_eq!(names(&s), ["a"]);
    assert_eq!(s.last, None);
    s.delete("nobody");
    assert_eq!(names(&s), ["a"]);
}

#[test]
fn all_of_a_name_are_deleted_and_the_first_is_found() {
    let mut s = Store {
        profiles: vec![profile("a", "1", 1), profile("b", "2", 2), profile("a", "3", 3)],
        last: Some("b".into()),
    };
    assert_eq!(s.get("a").unwrap().address, "1");
    s.upsert(profile("a", "4", 4));
    assert_eq!(s.profiles[0].address, "4");
    assert_eq!(s.profiles[2].address, "3");
    s.delete("a");
    assert_eq!(names(&s), ["b"]);
    assert_eq!(s.last, None);
}

#[test]
fn deleting_undoes_a_first_save() {
    let mut s = Store::default();
    s.upsert(profile("a", "1", 1));
    s.upsert(profile("b", "2", 2));
    s.delete("b");
    assert_eq!(names(&s), ["a"]);
    assert_eq!(s.last, None);
}

#[test]
fn profiles_compare_by_contents() {
    let p = profile("a", "1", 1);
    assert!(p == p.clone());
    assert!(p != profile("b", "1", 1));
    assert!(p != profile("a", "2", 1));
    assert!(p != profile("a", "1", 2));
}
