use puppetterm::chat::{
    anthropic_request, join_exec, normalize_anthropic, to_anthropic, AnthropicBlock,
    AnthropicContent, ChatMessage, FunctionDef, ResponseBlock, Role, ToolCall, ToolCallFunction,
    ToolDef,
};
use puppetterm::json::Json;

fn msg(role: Role, content: Option<&str>) -> ChatMessage {
    ChatMessage { role, content: content.map(|c| c.to_string()), tool_call_id: None, tool_calls: None }
}

fn history() -> Vec<ChatMessage> {
    let mut assistant = msg(Role::Assistant, Some("checking"));
    assistant.tool_calls = Some(vec![ToolCall {
        id: "call_1".to_string(),
        kind: "function".to_string(),
        function: ToolCallFunction { name: "run".to_string(), arguments: "{\"cmd\":\"uptime\"}".to_string() },
    }]);
    let mut tool = msg(Role::Tool, Some("up 3 days"));
    tool.tool_call_id = Some("call_1".to_string());
    vec![
        msg(Role::System, Some("be brief")),
        msg(Role::System, Some("use tools")),
        msg(Role::User, Some("how long is web up?")),
        assistant,
        tool,
    ]
}

#[test]
fn history_converts_to_anthropic() {
    let (system, messages) = to_anthropic(&history());
    assert_eq!(system.as_deref(), Some("be brief\n\nuse tools"));
    assert_eq!(messages.len(), 3);
    assert_eq!(messages[0].role, "user");
    assert!(matches!(&messages[0].content, AnthropicContent::Text(t) if t == "how long is web up?"));
    assert_eq!(messages[1].role, "assistant");
    match &messages[1].content {
        AnthropicContent::Blocks(bs) => {
            assert!(matches!(&bs[0], AnthropicBlock::Text(t) if t == "checking"));
            assert!(matches!(&bs[1], AnthropicBlock::ToolUse { id, name, input }
                if id == "call_1" && name == "run" && input == "{\"cmd\":\"uptime\"}"));
        }
        _ => panic!("expected blocks"),
    }
    assert_eq!(messages[2].role, "user");
    assert!(matches!(&messages[2].content, AnthropicContent::Blocks(bs)
        if matches!(&bs[0], AnthropicBlock::ToolResult { tool_use_id, content } if tool_use_id == "call_1" && content == "up 3 days")));
}

#[test]
fn no_system_prompt_without_system_messages() {
    let (system, messages) = to_anthropic(&vec![msg(Role::User, Some("hi")), msg(Role::Assistant, None)]);
    assert!(system.is_none());
    assert_eq!(messages.len(), 1);
}

#[test]
fn joining() {
    assert_eq!(join_exec(&vec!["a".to_string(), "b".to_string(), "c".to_string()], ", "), "a, b, c");
    assert_eq!(join_exec(&vec![], ", "), "");
}

#[test]
fn anthropic_answers_become_one_choice() {
    let blocks = vec![
        ResponseBlock { kind: "text".to_string(), text: Some("Let me ".to_string()), id: None, name: None, input: None },
        ResponseBlock { kind: "text".to_string(), text: Some("check.".to_string()), id: None, name: None, input: None },
        ResponseBlock {
            kind: "tool_use".to_string(),
            text: None,
            id: Some("tu_1".to_string()),
            name: Some("run".to_string()),
            input: Some("{\"cmd\":\"df\"}".to_string()),
        },
    ];
    let r = normalize_anthropic(&blocks, &Some("tool_use".to_string()));
    assert!(r.id.is_none());
    assert_eq!(r.choices.len(), 1);
    let c = &r.choices[0];
    assert_eq!(c.index, Some(0));
    assert_eq!(c.finish_reason.as_deref(), Some("tool_calls"));
    let m = c.message.as_ref().unwrap();
    assert!(matches!(m.role, Role::Assistant));
    assert_eq!(m.content.as_deref(), Some("Let me check."));
    let calls = m.tool_calls.as_ref().unwrap();
    assert_eq!(calls[0].id, "tu_1");
    assert_eq!(calls[0].kind, "function");
    assert_eq!(calls[0].function.arguments, "{\"cmd\":\"df\"}");

    let r = normalize_anthropic(&vec![], &Some("end_turn".to_string()));
    let m = r.choices[0].message.as_ref().unwrap();
    assert!(m.content.is_none());
    assert!(m.tool_calls.is_none());
    assert_eq!(r.choices[0].finish_reason.as_deref(), Some("stop"));
}

#[test]
fn anthropic_request_body() {
    let tools = vec![ToolDef {
        kind: "function".to_string(),
        function: FunctionDef {
            name: "get_weather".to_string(),
            description: "Get weather for a city".to_string(),
            parameters: Json::Object(vec![("type".to_string(), Json::Str("object".to_string()))]),
        },
    }];
    let r = anthropic_request("model-x", &history(), Some(tools), None);
    assert_eq!(r.model, "model-x");
    assert_eq!(r.max_tokens, 4096);
    assert_eq!(r.system.as_deref(), Some("be brief\n\nuse tools"));
    let t = r.tools.unwrap();
    assert_eq!(t[0].name, "get_weather");
    assert_eq!(t[0].description, "Get weather for a city");
    let r = anthropic_request("m", &vec![msg(Role::User, Some("x"))], None, Some(64));
    assert_eq!(r.max_tokens, 64);
    assert!(r.tools.is_none());
}
