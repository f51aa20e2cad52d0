//! The append-only audit log: where it lives, where full outputs go, and how
//! one agent action becomes an audit row (source, approval, action, request
//! id).

use vstd::prelude::*;
use crate::json::{
    get,
    get_spec,
    Json,
};
use crate::paths::{
    config_file_path,
    join,
    override_or_config_file,
    parent,
    path_join,
    path_parent,
};
use crate::text::{
    dec_int,
    i64_to_dec,
    push_str,
};

verus! {

/// One audit entry as stored.
pub struct AuditRow {
    pub id: i64,
    pub ts: String,
    pub host: String,
    pub source: String,
    pub action: String,
    pub params: Option<String>,
    pub approval: String,
    pub exit: Option<i64>,
    pub result: Option<String>,
}

/// The audit database: `PUPPETTERM_AUDIT_DB` when set, else
/// `$HOME/.config/puppetterm/audit.db` (with `.` for a missing home).
pub fn audit_db_path(over: Option<&str>, home: Option<&str>) -> (r: String)
    ensures
        r@ == override_or_config_file(
            match over {
                Some(p) => Some(p@),
                None => None,
            },
            match home {
                Some(h) => Some(h@),
                None => None,
            },
            "audit.db"@,
        ),
{
    config_file_path(over, home, "audit.db")
}

/// `audit-details` next to the database, or relative when the database path
/// has no parent.
pub open spec fn detail_dir_spec(db: Seq<char>) -> Seq<char> {
    match path_parent(db) {
        Some(p) => path_join(p, "audit-details"@),
        None => "audit-details"@,
    }
}

/// The directory holding per-entry full-output files, for the database at
/// `db_path`.
pub fn detail_dir(db_path: &str) -> (r: String)
    ensures
        r@ == detail_dir_spec(db_path@),
{
    match parent(db_path) {
        Some(p) => join(p.as_str(), "audit-details"),
        None => "audit-details".to_owned(),
    }
}

/// `<dir>/<id>.json`.
pub open spec fn detail_file_spec(dir: Seq<char>, id: i64) -> Seq<char> {
    path_join(dir, dec_int(id as int) + ".json"@)
}

/// The file holding the full output of entry `id`.
pub fn detail_file(dir: &str, id: i64) -> (r: String)
    ensures
        r@ == detail_file_spec(dir@, id),
{
    let mut name = i64_to_dec(id);
    push_str(&mut name, ".json");
    join(dir, name.as_str())
}

/// The approval state recorded for an action: `approved`, `rejected`, or
/// `auto` when nobody was asked.
pub open spec fn approval_spec(approved: Option<bool>) -> Seq<char> {
    match approved {
        Some(true) => "approved"@,
        Some(false) => "rejected"@,
        None => "auto"@,
    }
}

/// Decides [`approval_spec`].
pub fn approval_label(approved: Option<bool>) -> (r: String)
    ensures
        r@ == approval_spec(approved),
{
    match approved {
        Some(true) => "approved".to_owned(),
        Some(false) => "rejected".to_owned(),
        None => "auto".to_owned(),
    }
}

/// Who ran an action: the given source, `user` when none was given.
pub open spec fn source_spec(source: Option<Seq<char>>) -> Seq<char> {
    match source {
        Some(s) if s.len() > 0 => s,
        _ => "user"@,
    }
}

/// Decides [`source_spec`] (an empty source counts as none).
pub fn action_source(source: Option<&str>) -> (r: String)
    ensures
        r@ == source_spec(
            match source {
                Some(s) => Some(s@),
                None => None,
            },
        ),
{
    match source {
        Some(s) => {
            if !s.is_empty() {
                return s.to_owned();
            }
        },
        None => {},
    }
    "user".to_owned()
}

/// The string member `key` of a request, or `default` when it is missing or
/// not a string.
pub open spec fn str_member(v: Json, key: Seq<char>, default: Seq<char>) -> Seq<char> {
    match get_spec(v, key) {
        Some(Json::Str(s)) => s@,
        _ => default,
    }
}

/// Decides [`str_member`] (`value.get(key).and_then(as_str).unwrap_or(default)`).
pub fn request_str(v: &Json, key: &str, default: &str) -> (r: String)
    ensures
        r@ == str_member(*v, key@, default@),
{
    match get(v, key) {
        Some(Json::Str(s)) => s.clone(),
        _ => default.to_owned(),
    }
}

/// The action an agent request names (`unknown` when it names none).
pub fn request_action(request: &Json) -> (r: String)
    ensures
        r@ == str_member(*request, "action"@, "unknown"@),
{
    request_str(request, "action", "unknown")
}

/// The id an agent request carries (empty when it carries none).
pub fn request_id(request: &Json) -> (r: String)
    ensures
        r@ == str_member(*request, "request_id"@, ""@),
{
    request_str(request, "request_id", "")
}

} // verus!
