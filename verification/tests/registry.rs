use puppetterm::json::{get, Json};
use puppetterm::registry::Registry;

#[test]
fn read_after_write_and_remove() {
    let mut r: Registry<String> = Registry::new();
    assert_eq!(r.len(), 0);
    r.insert("mail".to_string(), "10.0.0.1".to_string());
    r.insert("web".to_string(), "10.0.0.2".to_string());
    assert_eq!(r.get("mail").map(|s| s.as_str()), Some("10.0.0.1"));
    r.insert("mail".to_string(), "10.0.0.3".to_string());
    assert_eq!(r.len(), 2);
    assert_eq!(r.get("mail").map(|s| s.as_str()), Some("10.0.0.3"));
    assert_eq!(r.remove("mail").as_deref(), Some("10.0.0.3"));
    assert!(r.get("mail").is_none());
    assert!(r.remove("mail").is_none());
    assert_eq!(r.get("web").map(|s| s.as_str()), Some("10.0.0.2"));
}

#[test]
fn taking_the_single_entry() {
    let mut r: Registry<u32> = Registry::new();
    assert!(r.take_single().is_none());
    r.insert("a".to_string(), 1);
    r.insert("b".to_string(), 2);
    assert!(r.take_single().is_none());
    assert_eq!(r.len(), 2);
    r.remove("a");
    assert_eq!(r.take_single(), Some(("b".to_string(), 2)));
    assert_eq!(r.len(), 0);
}

#[test]
fn json_member_lookup() {
    let v = Json::Object(vec![
        ("a".to_string(), Json::Bool(true)),
        ("b".to_string(), Json::Null),
    ]);
    assert!(matches!(get(&v, "a"), Some(Json::Bool(true))));
    assert!(matches!(get(&v, "b"), Some(Json::Null)));
    assert!(get(&v, "c").is_none());
    assert!(get(&Json::Array(vec![]), "a").is_none());
}
