//! Chat history: the records of saved AI conversations, where the database
//! lives, conversation ids and titles.

use vstd::prelude::*;
use crate::crypto::{b64_url, b64_url_encode, random_bytes, unpadded_len};
use crate::paths::{config_file_path, override_or_config_file};
use crate::text::{concat, push_str, take_chars, trim, trim_str};

verus! {

/// A conversation's header.
pub struct ConversationMeta {
    pub id: String,
    pub host: String,
    pub title: String,
    pub created_at: String,
    pub updated_at: String,
    pub message_count: i64,
}

/// One stored message; `tool_calls` is the JSON text of the call array.
pub struct ChatMsg {
    pub role: String,
    pub content: Option<String>,
    pub tool_call_id: Option<String>,
    pub tool_calls: Option<String>,
}

/// A conversation with all its messages in order.
pub struct FullConversation {
    pub meta: ConversationMeta,
    pub messages: Vec<ChatMsg>,
}

/// The chat database: `PUPPETTERM_CHAT_DB` when set, else
/// `$HOME/.config/puppetterm/chat.db` (with `.` for a missing home).
pub fn chat_db_path(over: Option<&str>, home: Option<&str>) -> (r: String)
    ensures
        r@ == override_or_config_file(
            match over {
                Some(p) => Some(p@),
                None => None,
            },
            match home {
                Some(h) => Some(h@),
                None => None,
            },
            "chat.db"@,
        ),
{
    config_file_path(over, home, "chat.db")
}

/// The title a new conversation gets: the trimmed title, or `New chat`
/// when that is empty.
pub open spec fn new_title_spec(title: Seq<char>) -> Seq<char> {
    if trim(title).len() == 0 {
        "New chat"@
    } else {
        trim(title)
    }
}

/// Decides [`new_title_spec`].
pub fn conversation_title(title: &str) -> (r: String)
    ensures
        r@ == new_title_spec(title@),
{
    let t = trim_str(title);
    if t.as_str().is_empty() {
        "New chat".to_owned()
    } else {
        t
    }
}

/// The title derived from a first user message: the message itself, or its
/// first sixty characters followed by `…` when it is longer.
pub open spec fn auto_title_spec(first: Seq<char>) -> Seq<char> {
    if first.len() > 60 {
        first.take(60) + "…"@
    } else {
        first
    }
}

/// Decides [`auto_title_spec`].
pub fn auto_title(first: &str) -> (r: String)
    ensures
        r@ == auto_title_spec(first@),
{
    let mut t = take_chars(first, 60);
    if first.unicode_len() > 60 {
        push_str(&mut t, "…");
    }
    t
}

/// The id of a conversation made from 16 random bytes: their URL-safe
/// unpadded base64.
pub fn conversation_id_from(bytes: &[u8]) -> (r: String)
    requires
        bytes@.len() == 16,
    ensures
        r@ == b64_url(bytes@),
        r@.len() == 22,
{
    assert(unpadded_len(16) == 22);
    proof {
        crate::crypto::lemma_b64_digits(bytes@, true);
    }
    b64_url_encode(bytes)
}

/// A fresh conversation id from the OS random source; fails with `rng: ...`
/// when the source fails.
pub fn new_conversation_id() -> (r: Result<String, String>)
    ensures
        r matches Ok(id) ==> exists|b: Seq<u8>| b.len() == 16 && id@ == b64_url(b),
        r matches Err(e) ==> exists|m: Seq<char>| e@ == "rng: "@ + m,
{
    match random_bytes(16) {
        Ok(b) => Ok(conversation_id_from(b.as_slice())),
        Err(e) => {
            let msg = concat("rng: ", e.as_str());
            assert(msg@ == "rng: "@ + e@);
            Err(msg)
        },
    }
}

/// An automatic title starts with the first message, up to sixty
/// characters: a message of at most sixty characters is the title itself, a
/// longer one is cut to its first sixty and marked with a single `…`.
pub proof fn law_auto_title_prefix(first: Seq<char>)
    ensures
        first.len() <= 60 ==> auto_title_spec(first) == first,
        first.len() > 60 ==> auto_title_spec(first).len() == 61 && auto_title_spec(first).take(60)
            == first.take(60) && auto_title_spec(first)[60] == '…',
        new_title_spec(first).len() > 0,
        trim(first).len() > 0 ==> new_title_spec(first) == trim(first),
{
    reveal_strlit("…");
    reveal_strlit("New chat");
    if first.len() > 60 {
        assert((first.take(60) + "…"@).take(60) =~= first.take(60));
    }
}

} // verus!
