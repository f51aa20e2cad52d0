use puppetterm::audit::{
    action_source, approval_label, audit_db_path, detail_dir, detail_file, request_action,
    request_id,
};
use puppetterm::chat_history::{
    chat_db_path, conversation_id_from, conversation_title, new_conversation_id,
};
use puppetterm::json::Json;

#[test]
fn database_locations() {
    assert_eq!(audit_db_path(Some("/data/a.db"), Some("/home/u")), "/data/a.db");
    assert_eq!(audit_db_path(None, Some("/home/u")), "/home/u/.config/puppetterm/audit.db");
    assert_eq!(audit_db_path(None, None), "./.config/puppetterm/audit.db");
    assert_eq!(chat_db_path(None, Some("/home/u/")), "/home/u/.config/puppetterm/chat.db");
    assert_eq!(chat_db_path(Some("x.db"), None), "x.db");
}

#[test]
fn detail_files_sit_next_to_the_database() {
    assert_eq!(detail_dir("/home/u/.config/puppetterm/audit.db"), "/home/u/.config/puppetterm/audit-details");
    assert_eq!(detail_dir("audit.db"), "audit-details");
    assert_eq!(detail_dir("/"), "audit-details");
    assert_eq!(detail_file("/d", 42), "/d/42.json");
    assert_eq!(detail_file("/d", -1), "/d/-1.json");
}

#[test]
fn approval_and_source() {
    assert_eq!(approval_label(Some(true)), "approved");
    assert_eq!(approval_label(Some(false)), "rejected");
    assert_eq!(approval_label(None), "auto");
    assert_eq!(action_source(Some("ai")), "ai");
    assert_eq!(action_source(Some("")), "user");
    assert_eq!(action_source(None), "user");
}

#[test]
fn request_fields() {
    let req = Json::Object(vec![
        ("action".to_string(), Json::Str("service".to_string())),
        ("request_id".to_string(), Json::Str("r-9".to_string())),
    ]);
    assert_eq!(request_action(&req), "service");
    assert_eq!(request_id(&req), "r-9");
    assert_eq!(request_action(&Json::Null), "unknown");
    assert_eq!(request_id(&Json::Null), "");
    let odd = Json::Object(vec![("action".to_string(), Json::Number("1".to_string()))]);
    assert_eq!(request_action(&odd), "unknown");
}

#[test]
fn auto_title() {
    let t = puppetterm::chat_history::auto_title("please restart nginx and show logs");
    assert!(t.starts_with("please restart"));
    assert!(t.len() <= 61);
    let long = "x".repeat(61);
    assert_eq!(puppetterm::chat_history::auto_title(&long), format!("{}…", "x".repeat(60)));
    assert_eq!(puppetterm::chat_history::auto_title(&"y".repeat(60)), "y".repeat(60));
}

#[test]
fn new_conversation_titles() {
    assert_eq!(conversation_title("  "), "New chat");
    assert_eq!(conversation_title(" Test chat "), "Test chat");
}

#[test]
fn conversation_ids() {
    assert_eq!(conversation_id_from(&[0u8; 16]), "AAAAAAAAAAAAAAAAAAAAAA");
    let a = new_conversation_id().unwrap();
    let b = new_conversation_id().unwrap();
    assert_eq!(a.len(), 22);
    assert_ne!(a, b);
}
