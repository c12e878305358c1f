use amp_acp::conversation::{AmpContentBlock, AmpConversation, AmpMessage, AmpTextContentBlock, DiffError};
use amp_acp::json::JsonValue;
use amp_acp::protocol::{
    mcp_settings, EndTurnResponse, EnvironmentVariable, HttpHeader, InitializeResponse,
    JsonRPCResponse, McpServer, NewSessionResponse,
};
use amp_acp::stream::{handle_stream_record, AmpStreamEvent, SnapshotSession};
use amp_acp::tracker::ToolCallTracker;
use amp_acp::update::SessionUpdate;

fn s(x: &str) -> String {
    String::from(x)
}

fn jstr(x: &str) -> JsonValue {
    JsonValue::String(s(x))
}

fn obj(members: Vec<(&str, JsonValue)>) -> JsonValue {
    JsonValue::Object(members.into_iter().map(|(k, v)| (s(k), v)).collect())
}

fn text_record(t: &str) -> JsonValue {
    obj(vec![("type", jstr("text")), ("text", jstr(t))])
}

fn message_record(role: &str, content: Vec<JsonValue>) -> JsonValue {
    obj(vec![("role", jstr(role)), ("content", JsonValue::Array(content))])
}

fn event(kind: &str, msg: JsonValue, parent: Option<&str>) -> JsonValue {
    let parent = match parent {
        Some(p) => jstr(p),
        None => JsonValue::Null,
    };
    obj(vec![
        ("type", jstr(kind)),
        ("message", msg),
        ("parent_tool_use_id", parent),
        ("session_id", jstr("T-1")),
    ])
}

fn conversation(texts: Vec<(&str, &str)>) -> AmpConversation {
    AmpConversation {
        messages: texts
            .into_iter()
            .map(|(role, t)| AmpMessage {
                role: s(role),
                content: vec![AmpContentBlock::Text(AmpTextContentBlock { text: s(t) })],
            })
            .collect(),
    }
}

fn chunk_text(u: &SessionUpdate) -> String {
    match u {
        SessionUpdate::AgentMessageChunk(c) => c.content.text.clone(),
        SessionUpdate::UserMessageChunk(c) => format!("user:{}", c.content.text),
        _ => String::from("<other>"),
    }
}

#[test]
fn stream_records_drive_the_turn() {
    let mut tracker = ToolCallTracker::new();
    let sys = obj(vec![("type", jstr("system")), ("subtype", jstr("init"))]);
    let step = handle_stream_record(&sys, &mut tracker).unwrap();
    assert!(step.updates.is_empty() && !step.finished);

    let assistant = event("assistant", message_record("assistant", vec![text_record("Working on it")]), None);
    let step = handle_stream_record(&assistant, &mut tracker).unwrap();
    assert!(!step.finished);
    assert_eq!(step.updates.len(), 1);
    assert_eq!(chunk_text(&step.updates[0]), "Working on it");

    let nested = event("assistant", message_record("assistant", vec![text_record("inner")]), Some("toolu_1"));
    let step = handle_stream_record(&nested, &mut tracker).unwrap();
    assert!(step.updates.is_empty());

    let user = event("user", message_record("user", vec![text_record("thanks")]), None);
    let step = handle_stream_record(&user, &mut tracker).unwrap();
    assert_eq!(chunk_text(&step.updates[0]), "user:thanks");

    let bad_assistant = event("assistant", jstr("not a message"), None);
    let step = handle_stream_record(&bad_assistant, &mut tracker).unwrap();
    assert!(step.updates.is_empty() && !step.finished);

    let done = obj(vec![("type", jstr("result")), ("subtype", jstr("success"))]);
    let step = handle_stream_record(&done, &mut tracker).unwrap();
    assert!(step.updates.is_empty() && step.finished);
}

#[test]
fn malformed_stream_records_are_reported() {
    let mut tracker = ToolCallTracker::new();
    assert!(handle_stream_record(&JsonValue::Null, &mut tracker).is_err());
    assert!(handle_stream_record(&obj(vec![("type", jstr("bogus"))]), &mut tracker).is_err());
    let user_without_session = obj(vec![
        ("type", jstr("user")),
        ("message", message_record("user", vec![])),
    ]);
    assert!(handle_stream_record(&user_without_session, &mut tracker).is_err());
    let user_with_bad_message = event("user", jstr("x"), None);
    assert!(AmpStreamEvent::from_json(&user_with_bad_message).is_err());
}

#[test]
fn snapshot_session_sends_only_new_content() {
    let mut session = SnapshotSession::new();
    let first = session.observe(conversation(vec![("user", "hi"), ("assistant", "Hel")])).unwrap();
    assert!(first.is_empty());
    let second = session.observe(conversation(vec![("user", "hi"), ("assistant", "Hello")])).unwrap();
    assert_eq!(second.len(), 1);
    assert_eq!(chunk_text(&second[0]), "lo");
    let same = session.observe(conversation(vec![("user", "hi"), ("assistant", "Hello")])).unwrap();
    assert!(same.is_empty());
    let third = session
        .observe(conversation(vec![("user", "hi"), ("assistant", "Hello"), ("assistant", "Bye")]))
        .unwrap();
    assert_eq!(third.len(), 1);
    assert_eq!(chunk_text(&third[0]), "Bye");
    let shrunk = session.observe(conversation(vec![("user", "hi")]));
    assert!(matches!(shrunk, Err(DiffError::InvariantViolation)));
    let after = session
        .observe(conversation(vec![("user", "hi"), ("assistant", "Hello"), ("assistant", "Bye!")]))
        .unwrap();
    assert_eq!(chunk_text(&after[0]), "!");
}

#[test]
fn conversation_reads_from_snapshot_record() {
    let record = obj(vec![(
        "messages",
        JsonValue::Array(vec![
            message_record("user", vec![text_record("q")]),
            message_record(
                "assistant",
                vec![
                    obj(vec![("type", jstr("thinking")), ("thinking", jstr("hmm"))]),
                    obj(vec![("type", jstr("tool_use")), ("id", jstr("t")), ("name", jstr("Bash")), ("input", obj(vec![]))]),
                    obj(vec![("type", jstr("tool_result")), ("toolUseID", jstr("t")), ("run", JsonValue::Null)]),
                ],
            ),
        ]),
    )]);
    let c = AmpConversation::from_json(&record).unwrap();
    assert_eq!(c.messages.len(), 2);
    assert_eq!(c.messages[1].content.len(), 3);
    assert!(matches!(c.messages[1].content[2], AmpContentBlock::ToolResult(_)));
    let bad = obj(vec![("messages", JsonValue::Array(vec![message_record("user", vec![obj(vec![("type", jstr("image"))])])]))]);
    assert!(AmpConversation::from_json(&bad).is_none());
}

#[test]
fn mcp_servers_replace_the_settings_entry() {
    let config = obj(vec![("theme", jstr("dark")), ("amp.mcpServers", jstr("old"))]);
    let servers = vec![
        McpServer::Stdio {
            name: s("files"),
            command: s("mcp-files"),
            args: vec![s("--root"), s("/tmp")],
            env: vec![EnvironmentVariable { name: s("TOKEN"), value: s("SECRET-REDACTED") }],
        },
        McpServer::Http { name: s("web"), url: s("http://localhost:1"), headers: vec![HttpHeader { name: s("A"), value: s("b") }] },
    ];
    let out = mcp_settings(&config, &servers).unwrap();
    match &out {
        JsonValue::Object(members) => {
            assert_eq!(members.len(), 2);
            assert_eq!(members[0].0, "theme");
            assert_eq!(members[1].0, "amp.mcpServers");
        }
        _ => panic!("expected an object"),
    }
    let entry = out.get("amp.mcpServers").unwrap();
    let files = entry.get("files").unwrap();
    assert!(files.get("command").unwrap().same(&jstr("mcp-files")));
    assert!(files.get("args").unwrap().same(&JsonValue::Array(vec![jstr("--root"), jstr("/tmp")])));
    assert!(files.get("env").unwrap().same(&obj(vec![("TOKEN", jstr("SECRET-REDACTED"))])));
    let web = entry.get("web").unwrap();
    assert!(web.get("type").unwrap().same(&jstr("http")));
    assert!(web.get("headers").unwrap().same(&obj(vec![("A", jstr("b"))])));
    let fresh = mcp_settings(&JsonValue::Null, &vec![]).unwrap();
    assert!(fresh.same(&obj(vec![("amp.mcpServers", obj(vec![]))])));
    assert!(mcp_settings(&JsonValue::Array(vec![]), &servers).is_none());
}

#[test]
fn protocol_responses() {
    let r = JsonRPCResponse::new(7, EndTurnResponse::end_turn());
    assert_eq!(r.jsonrpc, "2.0");
    assert_eq!(r.id, 7);
    assert_eq!(r.result.stop_reason, "end_turn");
    let init = InitializeResponse::for_bridge();
    assert_eq!(init.protocol_version, 1);
    assert!(init.agent_capabilities.load_session);
    assert!(init.auth_methods.is_empty());
    assert_eq!(NewSessionResponse::from_output("T-abc\n").session_id, "T-abc");
    assert_eq!(NewSessionResponse::from_output("a\nb\n").session_id, "ab");
}
