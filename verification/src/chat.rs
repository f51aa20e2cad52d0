//! Chat completion types (OpenAI shape) and their translation to and from
//! the Anthropic Messages API.

use vstd::prelude::*;
use crate::json::Json;
use crate::text::{push_str, str_eq};

verus! {

/// Who wrote a chat message.
pub enum Role {
    System,
    User,
    Assistant,
    Tool,
}

/// The function a tool call invokes.
pub struct ToolCallFunction {
    pub name: String,
    /// JSON text of the arguments.
    pub arguments: String,
}

/// One tool call requested by the assistant.
pub struct ToolCall {
    pub id: String,
    /// Always `function`.
    pub kind: String,
    pub function: ToolCallFunction,
}

/// One message of a conversation.
pub struct ChatMessage {
    pub role: Role,
    pub content: Option<String>,
    pub tool_call_id: Option<String>,
    pub tool_calls: Option<Vec<ToolCall>>,
}

/// A callable function offered to the model.
pub struct FunctionDef {
    pub name: String,
    pub description: String,
    /// JSON schema of the arguments.
    pub parameters: Json,
}

/// A tool offered to the model.
pub struct ToolDef {
    /// Always `function`.
    pub kind: String,
    pub function: FunctionDef,
}

/// One completion choice.
pub struct ChatChoice {
    pub index: Option<i64>,
    pub finish_reason: Option<String>,
    pub message: Option<ChatMessage>,
}

/// A chat completion response.
pub struct ChatResponse {
    pub id: Option<String>,
    pub choices: Vec<ChatChoice>,
    pub usage: Option<Json>,
}

// ---------------------------------------------------------------------------
// views
// ---------------------------------------------------------------------------

/// A tool call as text: (id, function name, arguments).
pub type CallV = (Seq<char>, Seq<char>, Seq<char>);

/// The view of a tool call.
pub open spec fn call_view(c: ToolCall) -> CallV {
    (c.id@, c.function.name@, c.function.arguments@)
}

/// The views of a list of tool calls.
pub open spec fn calls_view(cs: Seq<ToolCall>) -> Seq<CallV> {
    cs.map_values(|c: ToolCall| call_view(c))
}

/// An Anthropic content block, as text.
pub enum BlockV {
    Text(Seq<char>),
    ToolUse(Seq<char>, Seq<char>, Seq<char>),
    ToolResult(Seq<char>, Seq<char>),
}

/// Anthropic message content, as text.
pub enum ContentV {
    Text(Seq<char>),
    Blocks(Seq<BlockV>),
}

/// One content block of an Anthropic request message.
pub enum AnthropicBlock {
    Text(String),
    /// `input` is the JSON text of the arguments; text that is not valid
    /// JSON stands for `null` when the request is serialised.
    ToolUse { id: String, name: String, input: String },
    ToolResult { tool_use_id: String, content: String },
}

/// The content of an Anthropic request message.
pub enum AnthropicContent {
    Text(String),
    Blocks(Vec<AnthropicBlock>),
}

/// One Anthropic request message (`user` or `assistant`).
pub struct AnthropicMessage {
    pub role: String,
    pub content: AnthropicContent,
}

/// The view of a block.
pub open spec fn block_view(b: AnthropicBlock) -> BlockV {
    match b {
        AnthropicBlock::Text(t) => BlockV::Text(t@),
        AnthropicBlock::ToolUse { id, name, input } => BlockV::ToolUse(id@, name@, input@),
        AnthropicBlock::ToolResult { tool_use_id, content } => BlockV::ToolResult(
            tool_use_id@,
            content@,
        ),
    }
}

/// The view of a message: (role, content).
pub open spec fn amsg_view(m: AnthropicMessage) -> (Seq<char>, ContentV) {
    (
        m.role@,
        match m.content {
            AnthropicContent::Text(t) => ContentV::Text(t@),
            AnthropicContent::Blocks(bs) => ContentV::Blocks(
                bs@.map_values(|b: AnthropicBlock| block_view(b)),
            ),
        },
    )
}

// ---------------------------------------------------------------------------
// OpenAI history -> Anthropic messages
// ---------------------------------------------------------------------------

/// Conversion state: system texts, messages so far, pending tool results.
pub type AnthState = (Seq<Seq<char>>, Seq<(Seq<char>, ContentV)>, Seq<BlockV>);

/// Pending tool results become one `user` message.
pub open spec fn flush(out: Seq<(Seq<char>, ContentV)>, pending: Seq<BlockV>) -> Seq<(Seq<char>, ContentV)> {
    if pending.len() > 0 {
        out.push(("user"@, ContentV::Blocks(pending)))
    } else {
        out
    }
}

/// The blocks of an assistant message: its text, then one `tool_use` per
/// tool call.
pub open spec fn assistant_blocks(m: ChatMessage) -> Seq<BlockV> {
    (match m.content {
        Some(c) => seq![BlockV::Text(c@)],
        None => Seq::empty(),
    }) + match m.tool_calls {
        Some(tcs) => calls_view(tcs@).map_values(|c: CallV| BlockV::ToolUse(c.0, c.1, c.2)),
        None => Seq::empty(),
    }
}

/// The text of an optional string, empty when absent.
pub open spec fn text_or_empty(o: Option<String>) -> Seq<char> {
    match o {
        Some(s) => s@,
        None => Seq::empty(),
    }
}

/// The effect of one history message.
pub open spec fn anth_step(st: AnthState, m: ChatMessage) -> AnthState {
    match m.role {
        Role::System => match m.content {
            Some(c) => (st.0.push(c@), st.1, st.2),
            None => st,
        },
        Role::User => {
            let out = flush(st.1, st.2);
            match m.content {
                Some(c) => (st.0, out.push(("user"@, ContentV::Text(c@))), Seq::empty()),
                None => (st.0, out, Seq::empty()),
            }
        },
        Role::Assistant => {
            let out = flush(st.1, st.2);
            let blocks = assistant_blocks(m);
            if blocks.len() > 0 {
                (st.0, out.push(("assistant"@, ContentV::Blocks(blocks))), Seq::empty())
            } else {
                (st.0, out, Seq::empty())
            }
        },
        Role::Tool => (
            st.0,
            st.1,
            st.2.push(BlockV::ToolResult(text_or_empty(m.tool_call_id), text_or_empty(m.content))),
        ),
    }
}

/// The state after a whole history.
pub open spec fn anth_fold(ms: Seq<ChatMessage>) -> AnthState
    decreases ms.len(),
{
    if ms.len() == 0 {
        (Seq::empty(), Seq::empty(), Seq::empty())
    } else {
        anth_step(anth_fold(ms.drop_last()), ms.last())
    }
}

/// The parts joined with `sep` between them.
pub open spec fn join(parts: Seq<Seq<char>>, sep: Seq<char>) -> Seq<char>
    decreases parts.len(),
{
    if parts.len() == 0 {
        Seq::empty()
    } else if parts.len() == 1 {
        parts[0]
    } else {
        join(parts.drop_last(), sep) + sep + parts.last()
    }
}

/// The Anthropic system prompt (system messages joined by a blank line, or
/// none) and messages for an OpenAI-style history. Tool results are grouped
/// into one `user` message placed before the next user/assistant message or
/// at the end.
pub open spec fn to_anthropic_spec(ms: Seq<ChatMessage>) -> (Option<Seq<char>>, Seq<(Seq<char>, ContentV)>) {
    let st = anth_fold(ms);
    (
        if st.0.len() == 0 {
            None
        } else {
            Some(join(st.0, "\n\n"@))
        },
        flush(st.1, st.2),
    )
}

fn clone_str(s: &String) -> (r: String)
    ensures
        r@ == s@,
{
    s.clone()
}

fn flush_exec(out: &mut Vec<AnthropicMessage>, pending: &mut Vec<AnthropicBlock>)
    ensures
        final(out)@.map_values(|m: AnthropicMessage| amsg_view(m)) == flush(
            old(out)@.map_values(|m: AnthropicMessage| amsg_view(m)),
            old(pending)@.map_values(|b: AnthropicBlock| block_view(b)),
        ),
        final(pending)@.len() == 0,
{
    if pending.len() > 0 {
        let mut blocks: Vec<AnthropicBlock> = Vec::new();
        std::mem::swap(&mut blocks, pending);
        let ghost o = out@.map_values(|m: AnthropicMessage| amsg_view(m));
        let m = AnthropicMessage { role: "user".to_owned(), content: AnthropicContent::Blocks(blocks) };
        out.push(m);
        assert(out@.map_values(|m: AnthropicMessage| amsg_view(m)) == o.push(amsg_view(m)));
    }
}

/// Convert the app's OpenAI-style history into the Anthropic system prompt
/// and messages.
pub fn to_anthropic(messages: &Vec<ChatMessage>) -> (r: (Option<String>, Vec<AnthropicMessage>))
    ensures
        match r.0 {
            Some(s) => to_anthropic_spec(messages@).0 == Some(s@),
            None => to_anthropic_spec(messages@).0 is None,
        },
        r.1@.map_values(|m: AnthropicMessage| amsg_view(m)) == to_anthropic_spec(messages@).1,
{
    let mut system: Vec<String> = Vec::new();
    let mut out: Vec<AnthropicMessage> = Vec::new();
    let mut pending: Vec<AnthropicBlock> = Vec::new();
    let mut i: usize = 0;
    while i < messages.len()
        invariant
            i <= messages@.len(),
            anth_fold(messages@.take(i as int)) == (
                crate::text::views(system@),
                out@.map_values(|m: AnthropicMessage| amsg_view(m)),
                pending@.map_values(|b: AnthropicBlock| block_view(b)),
            ),
        decreases messages@.len() - i,
    {
        let ghost t1 = messages@.take(i as int + 1);
        assert(t1.drop_last() == messages@.take(i as int));
        assert(t1.last() == messages@[i as int]);
        let m = &messages[i];
        match m.role {
            Role::System => {
                if let Some(c) = &m.content {
                    let ghost s0 = crate::text::views(system@);
                    system.push(clone_str(c));
                    assert(crate::text::views(system@) == s0.push(c@));
                }
            },
            Role::User => {
                flush_exec(&mut out, &mut pending);
                assert(pending@.map_values(|b: AnthropicBlock| block_view(b)) =~= Seq::empty());
                if let Some(c) = &m.content {
                    let ghost o = out@.map_values(|m: AnthropicMessage| amsg_view(m));
                    let nm = AnthropicMessage {
                        role: "user".to_owned(),
                        content: AnthropicContent::Text(clone_str(c)),
                    };
                    out.push(nm);
                    assert(out@.map_values(|m: AnthropicMessage| amsg_view(m)) == o.push(
                        amsg_view(nm),
                    ));
                }
            },
            Role::Assistant => {
                flush_exec(&mut out, &mut pending);
                assert(pending@.map_values(|b: AnthropicBlock| block_view(b)) =~= Seq::empty());
                let mut blocks: Vec<AnthropicBlock> = Vec::new();
                if let Some(c) = &m.content {
                    blocks.push(AnthropicBlock::Text(clone_str(c)));
                }
                let ghost head = blocks@.map_values(|b: AnthropicBlock| block_view(b));
                assert(head == match m.content {
                    Some(c) => seq![BlockV::Text(c@)],
                    None => Seq::<BlockV>::empty(),
                });
                if let Some(tcs) = &m.tool_calls {
                    let mut j: usize = 0;
                    while j < tcs.len()
                        invariant
                            j <= tcs@.len(),
                            blocks@.map_values(|b: AnthropicBlock| block_view(b)) == head
                                + calls_view(tcs@.take(j as int)).map_values(
                                |c: CallV| BlockV::ToolUse(c.0, c.1, c.2),
                            ),
                        decreases tcs@.len() - j,
                    {
                        let ghost b0 = blocks@.map_values(|b: AnthropicBlock| block_view(b));
                        let tc = &tcs[j];
                        let blk = AnthropicBlock::ToolUse {
                            id: clone_str(&tc.id),
                            name: clone_str(&tc.function.name),
                            input: clone_str(&tc.function.arguments),
                        };
                        blocks.push(blk);
                        assert(blocks@.map_values(|b: AnthropicBlock| block_view(b)) == b0.push(
                            block_view(blk),
                        ));
                        assert(calls_view(tcs@.take(j as int + 1)).map_values(
                            |c: CallV| BlockV::ToolUse(c.0, c.1, c.2),
                        ) == calls_view(tcs@.take(j as int)).map_values(
                            |c: CallV| BlockV::ToolUse(c.0, c.1, c.2),
                        ).push(block_view(blk)));
                        j = j + 1;
                    }
                    assert(tcs@.take(tcs@.len() as int) == tcs@);
                } else {
                    assert(head + Seq::<BlockV>::empty() == head);
                }
                assert(blocks@.map_values(|b: AnthropicBlock| block_view(b)) == assistant_blocks(
                    *m,
                ));
                if blocks.len() > 0 {
                    let ghost o = out@.map_values(|m: AnthropicMessage| amsg_view(m));
                    let nm = AnthropicMessage {
                        role: "assistant".to_owned(),
                        content: AnthropicContent::Blocks(blocks),
                    };
                    out.push(nm);
                    assert(out@.map_values(|m: AnthropicMessage| amsg_view(m)) == o.push(
                        amsg_view(nm),
                    ));
                }
            },
            Role::Tool => {
                let ghost p0 = pending@.map_values(|b: AnthropicBlock| block_view(b));
                let blk = AnthropicBlock::ToolResult {
                    tool_use_id: match &m.tool_call_id {
                        Some(t) => clone_str(t),
                        None => String::new(),
                    },
                    content: match &m.content {
                        Some(c) => clone_str(c),
                        None => String::new(),
                    },
                };
                pending.push(blk);
                assert(pending@.map_values(|b: AnthropicBlock| block_view(b)) == p0.push(
                    block_view(blk),
                ));
            },
        }
        i = i + 1;
    }
    assert(messages@.take(messages@.len() as int) == messages@);
    flush_exec(&mut out, &mut pending);
    let system_text = if system.len() == 0 {
        None
    } else {
        Some(join_exec(&system, "\n\n"))
    };
    (system_text, out)
}

/// `parts.join(sep)`.
pub fn join_exec(parts: &Vec<String>, sep: &str) -> (r: String)
    ensures
        r@ == join(crate::text::views(parts@), sep@),
{
    let mut s = String::new();
    let mut i: usize = 0;
    while i < parts.len()
        invariant
            i <= parts@.len(),
            s@ == join(crate::text::views(parts@).take(i as int), sep@),
        decreases parts@.len() - i,
    {
        let ghost t1 = crate::text::views(parts@).take(i as int + 1);
        assert(t1.drop_last() == crate::text::views(parts@).take(i as int));
        if i > 0 {
            push_str(&mut s, sep);
        } else {
            assert(crate::text::views(parts@).take(0) =~= Seq::<Seq<char>>::empty());
        }
        push_str(&mut s, parts[i].as_str());
        i = i + 1;
    }
    assert(crate::text::views(parts@).take(parts@.len() as int) == crate::text::views(parts@));
    s
}

// ---------------------------------------------------------------------------
// Anthropic response -> OpenAI shape
// ---------------------------------------------------------------------------

/// One content block of an Anthropic response; `input` is the JSON text of a
/// `tool_use` block's input.
pub struct ResponseBlock {
    pub kind: String,
    pub text: Option<String>,
    pub id: Option<String>,
    pub name: Option<String>,
    pub input: Option<String>,
}

/// The concatenated text of the `text` blocks.
pub open spec fn response_text(bs: Seq<ResponseBlock>) -> Seq<char>
    decreases bs.len(),
{
    if bs.len() == 0 {
        Seq::empty()
    } else {
        let b = bs.last();
        response_text(bs.drop_last()) + if b.kind@ == "text"@ {
            text_or_empty(b.text)
        } else {
            Seq::empty()
        }
    }
}

/// The tool calls of the `tool_use` blocks that carry an id and a name.
pub open spec fn response_calls(bs: Seq<ResponseBlock>) -> Seq<CallV>
    decreases bs.len(),
{
    if bs.len() == 0 {
        Seq::empty()
    } else {
        let b = bs.last();
        response_calls(bs.drop_last()) + if b.kind@ != "text"@ && b.kind@ == "tool_use"@
            && b.id is Some && b.name is Some {
            seq![(b.id->0@, b.name->0@, text_or_empty(b.input))]
        } else {
            Seq::empty()
        }
    }
}

/// The finish reason: `tool_calls` when the model stopped to use a tool,
/// else `stop`.
pub open spec fn finish_reason_for(stop_reason: Option<String>) -> Seq<char> {
    if stop_reason matches Some(s) && s@ == "tool_use"@ {
        "tool_calls"@
    } else {
        "stop"@
    }
}

/// Normalise an Anthropic response to the shared OpenAI-style response: one
/// assistant choice (index 0) whose content is the concatenated text (none
/// when empty) and whose tool calls are the `tool_use` blocks (none when
/// there are none); no id and no usage.
pub fn normalize_anthropic(blocks: &Vec<ResponseBlock>, stop_reason: &Option<String>) -> (r: ChatResponse)
    ensures
        r.id is None,
        r.usage is None,
        r.choices@.len() == 1,
        r.choices@[0].index == Some(0i64),
        r.choices@[0].finish_reason matches Some(f) && f@ == finish_reason_for(*stop_reason),
        r.choices@[0].message matches Some(m) && {
            &&& m.role is Assistant
            &&& m.tool_call_id is None
            &&& if response_text(blocks@).len() == 0 {
                m.content is None
            } else {
                m.content matches Some(c) && c@ == response_text(blocks@)
            }
            &&& if response_calls(blocks@).len() == 0 {
                m.tool_calls is None
            } else {
                m.tool_calls matches Some(tcs) && calls_view(tcs@) == response_calls(blocks@)
                    && forall|k: int| 0 <= k < tcs@.len() ==> (#[trigger] tcs@[k]).kind@ == "function"@
            }
        },
{
    let mut content = String::new();
    let mut calls: Vec<ToolCall> = Vec::new();
    let mut i: usize = 0;
    while i < blocks.len()
        invariant
            i <= blocks@.len(),
            content@ == response_text(blocks@.take(i as int)),
            calls_view(calls@) == response_calls(blocks@.take(i as int)),
            forall|k: int| 0 <= k < calls@.len() ==> (#[trigger] calls@[k]).kind@ == "function"@,
        decreases blocks@.len() - i,
    {
        let ghost t1 = blocks@.take(i as int + 1);
        assert(t1.drop_last() == blocks@.take(i as int));
        assert(t1.last() == blocks@[i as int]);
        let b = &blocks[i];
        if str_eq(b.kind.as_str(), "text") {
            match &b.text {
                Some(t) => push_str(&mut content, t.as_str()),
                None => {
                    assert(content@ + Seq::<char>::empty() == content@);
                },
            }
            assert(calls_view(calls@) + Seq::<CallV>::empty() == calls_view(calls@));
        } else {
            let ghost c0 = content@;
            assert(c0 + Seq::<char>::empty() == c0);
            if str_eq(b.kind.as_str(), "tool_use") {
                match (&b.id, &b.name) {
                    (Some(id), Some(name)) => {
                        let args = match &b.input {
                            Some(x) => clone_str(x),
                            None => String::new(),
                        };
                        let ghost v0 = calls_view(calls@);
                        let tc = ToolCall {
                            id: clone_str(id),
                            kind: "function".to_owned(),
                            function: ToolCallFunction { name: clone_str(name), arguments: args },
                        };
                        calls.push(tc);
                        assert(calls_view(calls@) == v0.push(call_view(tc)));
                    },
                    _ => {
                        assert(calls_view(calls@) + Seq::<CallV>::empty() == calls_view(calls@));
                    },
                }
            } else {
                assert(calls_view(calls@) + Seq::<CallV>::empty() == calls_view(calls@));
            }
        }
        i = i + 1;
    }
    assert(blocks@.take(blocks@.len() as int) == blocks@);
    let finish = match stop_reason {
        Some(s) => if str_eq(s.as_str(), "tool_use") {
            "tool_calls".to_owned()
        } else {
            "stop".to_owned()
        },
        None => "stop".to_owned(),
    };
    let msg = ChatMessage {
        role: Role::Assistant,
        content: if content.as_str().is_empty() {
            None
        } else {
            Some(content)
        },
        tool_call_id: None,
        tool_calls: if calls.len() == 0 {
            None
        } else {
            Some(calls)
        },
    };
    let mut choices: Vec<ChatChoice> = Vec::new();
    choices.push(ChatChoice { index: Some(0), finish_reason: Some(finish), message: Some(msg) });
    ChatResponse { id: None, choices, usage: None }
}

// ---------------------------------------------------------------------------
// Anthropic request
// ---------------------------------------------------------------------------

/// A tool as the Anthropic API describes it.
pub struct AnthropicTool {
    pub name: String,
    pub description: String,
    pub input_schema: Json,
}

/// An Anthropic Messages API request body.
pub struct AnthropicRequest {
    pub model: String,
    pub max_tokens: u32,
    pub system: Option<String>,
    pub messages: Vec<AnthropicMessage>,
    pub tools: Option<Vec<AnthropicTool>>,
}

/// Build the Anthropic request: the converted history, the tools renamed to
/// Anthropic's fields, and 4096 tokens when no limit is given.
pub fn anthropic_request(
    model: &str,
    messages: &Vec<ChatMessage>,
    tools: Option<Vec<ToolDef>>,
    max_tokens: Option<u32>,
) -> (r: AnthropicRequest)
    ensures
        r.model@ == model@,
        r.max_tokens == match max_tokens {
            Some(n) => n,
            None => 4096u32,
        },
        match r.system {
            Some(s) => to_anthropic_spec(messages@).0 == Some(s@),
            None => to_anthropic_spec(messages@).0 is None,
        },
        r.messages@.map_values(|m: AnthropicMessage| amsg_view(m)) == to_anthropic_spec(
            messages@,
        ).1,
        r.tools is Some <==> tools is Some,
        tools matches Some(ts) ==> r.tools->0@.len() == ts@.len() && forall|k: int|
            0 <= k < ts@.len() ==> {
                &&& (#[trigger] r.tools->0@[k]).name@ == ts@[k].function.name@
                &&& r.tools->0@[k].description@ == ts@[k].function.description@
                &&& r.tools->0@[k].input_schema == ts@[k].function.parameters
            },
{
    let (system, amessages) = to_anthropic(messages);
    let atools = match tools {
        Some(ts) => {
            let ghost orig = ts@;
            let mut out: Vec<AnthropicTool> = Vec::new();
            let mut ts = ts;
            let mut rev: Vec<AnthropicTool> = Vec::new();
            // take tools from the back, then restore the order
            while ts.len() > 0
                invariant
                    ts@.len() + rev@.len() == orig.len(),
                    ts@ == orig.take(ts@.len() as int),
                    forall|k: int|
                        0 <= k < rev@.len() ==> {
                            let t = orig[orig.len() - 1 - k];
                            &&& (#[trigger] rev@[k]).name@ == t.function.name@
                            &&& rev@[k].description@ == t.function.description@
                            &&& rev@[k].input_schema == t.function.parameters
                        },
                decreases ts@.len(),
            {
                let t = ts.pop().unwrap();
                rev.push(AnthropicTool {
                    name: t.function.name,
                    description: t.function.description,
                    input_schema: t.function.parameters,
                });
            }
            while rev.len() > 0
                invariant
                    out@.len() + rev@.len() == orig.len(),
                    forall|k: int|
                        0 <= k < rev@.len() ==> {
                            let t = orig[orig.len() - 1 - k];
                            &&& (#[trigger] rev@[k]).name@ == t.function.name@
                            &&& rev@[k].description@ == t.function.description@
                            &&& rev@[k].input_schema == t.function.parameters
                        },
                    forall|k: int|
                        0 <= k < out@.len() ==> {
                            let t = orig[k];
                            &&& (#[trigger] out@[k]).name@ == t.function.name@
                            &&& out@[k].description@ == t.function.description@
                            &&& out@[k].input_schema == t.function.parameters
                        },
                decreases rev@.len(),
            {
                let t = rev.pop().unwrap();
                out.push(t);
            }
            Some(out)
        },
        None => None,
    };
    AnthropicRequest {
        model: model.to_owned(),
        max_tokens: match max_tokens {
            Some(n) => n,
            None => 4096,
        },
        system,
        messages: amessages,
        tools: atools,
    }
}

// ---------------------------------------------------------------------------
// laws
// ---------------------------------------------------------------------------

/// The last message of `ms` that is not a system message is a tool result.
pub open spec fn ends_in_tool_run(ms: Seq<ChatMessage>) -> bool
    decreases ms.len(),
{
    if ms.len() == 0 {
        false
    } else if ms.last().role is System {
        ends_in_tool_run(ms.drop_last())
    } else {
        ms.last().role is Tool
    }
}

/// Tool results are pending exactly while the history ends in a run of tool
/// messages (system messages aside).
proof fn lemma_pending_iff_tool_run(ms: Seq<ChatMessage>)
    ensures
        anth_fold(ms).2.len() > 0 <==> ends_in_tool_run(ms),
    decreases ms.len(),
{
    if ms.len() > 0 {
        lemma_pending_iff_tool_run(ms.drop_last());
    }
}

/// Appending a tool message to a history: the system prompt is unchanged; if
/// the history already ends in tool results (system messages aside), the new
/// result joins the last `user` message, after the results already there;
/// otherwise it starts a new `user` message of its own. So a run of tool
/// messages becomes exactly one `user` message holding all their results in
/// order.
pub proof fn law_tool_results_grouped(ms: Seq<ChatMessage>, m: ChatMessage)
    requires
        m.role is Tool,
    ensures
        ({
            let before = to_anthropic_spec(ms);
            let after = to_anthropic_spec(ms.push(m));
            let tr = BlockV::ToolResult(text_or_empty(m.tool_call_id), text_or_empty(m.content));
            &&& after.0 == before.0
            &&& ends_in_tool_run(ms) ==> before.1.len() > 0 && before.1.last().0 == "user"@ && (
            before.1.last().1 matches ContentV::Blocks(bs) && after.1 == before.1.drop_last().push(
                ("user"@, ContentV::Blocks(bs.push(tr))),
            ))
            &&& !ends_in_tool_run(ms) ==> after.1 == before.1.push(
                ("user"@, ContentV::Blocks(seq![tr])),
            )
        }),
{
    lemma_pending_iff_tool_run(ms);
    let ms2 = ms.push(m);
    assert(ms2.drop_last() == ms);
    assert(ms2.last() == m);
    let st = anth_fold(ms);
    let tr = BlockV::ToolResult(text_or_empty(m.tool_call_id), text_or_empty(m.content));
    assert(anth_fold(ms2) == anth_step(st, m));
    assert(anth_fold(ms2) == (st.0, st.1, st.2.push(tr)));
    if st.2.len() > 0 {
        assert(flush(st.1, st.2).drop_last() =~= st.1);
    } else {
        assert(st.2.push(tr) =~= seq![tr]);
    }
}

/// An empty history has no system prompt and no messages.
pub proof fn law_empty_history()
    ensures
        to_anthropic_spec(Seq::empty()) == (None::<Seq<char>>, Seq::<(Seq<char>, ContentV)>::empty()),
{
}

/// Appending a user, assistant or system message to a history:
/// - a user message with text ends the messages with one `user` text message,
///   after every earlier message and pending tool result; without text it
///   changes nothing;
/// - an assistant message with text or tool calls ends them with one
///   `assistant` message: its text block (if any) followed by one `tool_use`
///   block per tool call, in order; with neither it changes nothing;
/// - a system message with text leaves the messages alone and is added to
///   the system prompt after a blank line.
pub proof fn law_history_append(ms: Seq<ChatMessage>, m: ChatMessage)
    ensures
        ({
            let before = to_anthropic_spec(ms);
            let after = to_anthropic_spec(ms.push(m));
            &&& m.role is User ==> after.0 == before.0 && match m.content {
                Some(c) => after.1 == before.1.push(("user"@, ContentV::Text(c@))),
                None => after.1 == before.1,
            }
            &&& m.role is Assistant ==> after.0 == before.0 && {
                let nt: int = if m.content is Some { 1 } else { 0 };
                let calls: Seq<ToolCall> = match m.tool_calls {
                    Some(tcs) => tcs@,
                    None => Seq::empty(),
                };
                if nt + calls.len() == 0 {
                    after.1 == before.1
                } else {
                    after.1.len() == before.1.len() + 1 && after.1.drop_last() == before.1
                        && after.1.last().0 == "assistant"@ && (after.1.last().1 matches ContentV::Blocks(bs)
                        && bs.len() == nt + calls.len() && (m.content matches Some(c) ==> bs[0]
                        == BlockV::Text(c@)) && forall|k: int| 0 <= k < calls.len() ==> bs[nt + k]
                        == BlockV::ToolUse(
                        calls[k].id@,
                        calls[k].function.name@,
                        calls[k].function.arguments@,
                    ))
                }
            }
            &&& m.role is System ==> after.1 == before.1 && match m.content {
                Some(c) => after.0 == Some(
                    match before.0 {
                        Some(p) => p + "\n\n"@ + c@,
                        None => c@,
                    },
                ),
                None => after.0 == before.0,
            }
        }),
{
    let ms2 = ms.push(m);
    assert(ms2.drop_last() == ms);
    assert(ms2.last() == m);
    let st = anth_fold(ms);
    assert(anth_fold(ms2) == anth_step(st, m));
    if m.role is User || m.role is Assistant {
        let out = flush(st.1, st.2);
        assert(flush(out, Seq::<BlockV>::empty()) == out);
    }
    if m.role is Assistant {
        let blocks = assistant_blocks(m);
        let calls: Seq<ToolCall> = match m.tool_calls {
            Some(tcs) => tcs@,
            None => Seq::empty(),
        };
        let nt: int = if m.content is Some { 1 } else { 0 };
        assert(blocks.len() == nt + calls.len());
        assert forall|k: int| 0 <= k < calls.len() implies blocks[nt + k] == BlockV::ToolUse(
            calls[k].id@,
            calls[k].function.name@,
            calls[k].function.arguments@,
        ) by {
            assert(calls_view(calls)[k] == call_view(calls[k]));
        }
    }
    if m.role is System {
        if let Some(c) = m.content {
            let parts = st.0;
            if parts.len() > 0 {
                assert(parts.push(c@).drop_last() == parts);
            }
        }
    }
}

/// The `tool_use` blocks of a response that carry an id and a name.
pub open spec fn is_call_block(b: ResponseBlock) -> bool {
    b.kind@ == "tool_use"@ && b.id is Some && b.name is Some
}

/// Every `tool_use` block with an id and a name becomes a tool call, in the
/// order of the blocks, and nothing else does: the k-th call is the k-th such
/// block (its id, name and input).
pub proof fn law_every_tool_use_is_called(bs: Seq<ResponseBlock>)
    ensures
        response_calls(bs) == bs.filter(|b: ResponseBlock| is_call_block(b)).map_values(
            |b: ResponseBlock| (b.id->0@, b.name->0@, text_or_empty(b.input)),
        ),
    decreases bs.len(),
{
    reveal(Seq::filter);
    assert("tool_use"@ != "text"@) by {
        reveal_strlit("tool_use");
        reveal_strlit("text");
        assert("tool_use"@.len() != "text"@.len());
    }
    if bs.len() > 0 {
        law_every_tool_use_is_called(bs.drop_last());
        let f = |b: ResponseBlock| (b.id->0@, b.name->0@, text_or_empty(b.input));
        let p = |b: ResponseBlock| is_call_block(b);
        let prev = bs.drop_last().filter(p);
        if is_call_block(bs.last()) {
            assert(prev.push(bs.last()).map_values(f) =~= prev.map_values(f).push(f(bs.last())));
            assert(response_calls(bs) =~= response_calls(bs.drop_last()).push(f(bs.last())));
        } else {
            assert(response_calls(bs) =~= response_calls(bs.drop_last()));
        }
    }
}

/// The text of a response is the texts of its `text` blocks, concatenated
/// in order; other blocks add nothing.
pub proof fn law_response_text_concatenates(bs: Seq<ResponseBlock>)
    ensures
        response_text(bs) == bs.filter(|b: ResponseBlock| b.kind@ == "text"@).map_values(
            |b: ResponseBlock| text_or_empty(b.text),
        ).flatten(),
    decreases bs.len(),
{
    reveal(Seq::filter);
    let p = |b: ResponseBlock| b.kind@ == "text"@;
    let f = |b: ResponseBlock| text_or_empty(b.text);
    let parts = bs.filter(p).map_values(f);
    parts.lemma_flatten_and_flatten_alt_are_equivalent();
    if bs.len() > 0 {
        law_response_text_concatenates(bs.drop_last());
        let prev = bs.drop_last().filter(p).map_values(f);
        prev.lemma_flatten_and_flatten_alt_are_equivalent();
        if p(bs.last()) {
            assert(parts =~= prev.push(f(bs.last())));
            assert(parts.drop_last() =~= prev);
        } else {
            assert(parts =~= prev);
            assert(response_text(bs) =~= response_text(bs.drop_last()));
        }
    }
}

} // verus!
