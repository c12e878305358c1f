use amp_acp::classify::{classify, extract_thinking, process_message};
use amp_acp::conversation::{
    text_delta, AmpContentBlock, AmpConversation, AmpDiff, AmpMessage, AmpTextContentBlock,
    AmpThinkingContentBlock, AmpToolResultContentBlock, AmpToolUseContentBlock, DiffError,
    TextDelta,
};
use amp_acp::hunk::get_line_number_from_diff_str;
use amp_acp::inputs::{PlanEntryPriority, PlanEntryStatus};
use amp_acp::json::{JsonNumber, JsonValue};
use amp_acp::tool::{amp_tool_to_tool_kind, AmpTool, ToolKind};
use amp_acp::tracker::ToolCallTracker;
use amp_acp::update::{AgentToolCallResultContent, SessionUpdate, ToolCallStatus};

fn s(x: &str) -> String {
    String::from(x)
}

fn jstr(x: &str) -> JsonValue {
    JsonValue::String(s(x))
}

fn obj(members: Vec<(&str, JsonValue)>) -> JsonValue {
    JsonValue::Object(members.into_iter().map(|(k, v)| (s(k), v)).collect())
}

fn text(x: &str) -> AmpContentBlock {
    AmpContentBlock::Text(AmpTextContentBlock { text: s(x) })
}

fn thinking(x: &str) -> AmpContentBlock {
    AmpContentBlock::Thinking(AmpThinkingContentBlock { thinking: s(x) })
}

fn tool_use(id: &str, name: &str, input: JsonValue) -> AmpContentBlock {
    AmpContentBlock::ToolUse(AmpToolUseContentBlock { id: s(id), name: s(name), input })
}

fn tool_result(id: &str, run: JsonValue) -> AmpContentBlock {
    AmpContentBlock::ToolResult(AmpToolResultContentBlock { tool_use_id: s(id), run })
}

fn message(role: &str, content: Vec<AmpContentBlock>) -> AmpMessage {
    AmpMessage { role: s(role), content }
}

fn text_of(b: &AmpContentBlock) -> String {
    match b {
        AmpContentBlock::Text(t) => t.text.clone(),
        AmpContentBlock::Thinking(t) => format!("thinking:{}", t.thinking),
        _ => String::from("<other>"),
    }
}

fn message_text(u: &SessionUpdate) -> Option<String> {
    match u {
        SessionUpdate::AgentMessageChunk(c) => Some(c.content.text.clone()),
        _ => None,
    }
}

#[test]
fn diff_text_content_blocks() {
    let a = message("assistant", vec![text("aa")]);
    let b = message("assistant", vec![text("Hey, how are you?")]);
    let diff = a.diff(&b);
    assert!(matches!(diff, Ok(Some(_))));
    let d = diff.unwrap().unwrap();
    assert_eq!(d.role, "assistant");
    assert_eq!(d.content.len(), 1);
    assert_eq!(text_of(&d.content[0]), "Hey, how are you?");
}

#[test]
fn diff_conversation() {
    let a = AmpConversation {
        messages: vec![
            message("assistant", vec![thinking(""), text("")]),
            message("assistant", vec![thinking(""), text("")]),
        ],
    };
    let b = AmpConversation {
        messages: vec![
            message("assistant", vec![thinking("i am thinking alot"), text("hey")]),
            message("assistant", vec![thinking("wwwwww"), text(".com")]),
        ],
    };
    let diff = a.diff(&b);
    assert!(matches!(diff, Ok(Some(_))));
    let d = diff.unwrap().unwrap();
    assert_eq!(d.messages.len(), 2);
    assert_eq!(text_of(&d.messages[0].content[0]), "thinking:i am thinking alot");
    assert_eq!(text_of(&d.messages[0].content[1]), "hey");
    assert_eq!(text_of(&d.messages[1].content[0]), "thinking:wwwwww");
    assert_eq!(text_of(&d.messages[1].content[1]), ".com");
}

#[test]
fn diff_of_same_conversation_is_empty() {
    let a = AmpConversation {
        messages: vec![
            message("user", vec![text("hi")]),
            message("assistant", vec![thinking("hmm"), text("hello"), tool_use("t1", "Bash", obj(vec![("cmd", jstr("ls"))]))]),
        ],
    };
    assert!(matches!(a.diff(&a), Ok(None)));
}

#[test]
fn diff_of_growth_gives_appended_parts_in_order() {
    let a = AmpConversation {
        messages: vec![
            message("user", vec![text("hi")]),
            message("assistant", vec![thinking("let me"), text("Hel")]),
        ],
    };
    let b = AmpConversation {
        messages: vec![
            message("user", vec![text("hi")]),
            message("assistant", vec![thinking("let me see"), text("Hello"), text("more")]),
            message("user", vec![text("next")]),
            message("assistant", vec![text("last")]),
        ],
    };
    let d = a.diff(&b).unwrap().unwrap();
    assert_eq!(d.messages.len(), 3);
    assert_eq!(d.messages[0].role, "assistant");
    let parts: Vec<String> = d.messages[0].content.iter().map(text_of).collect();
    assert_eq!(parts, vec!["thinking: see", "lo", "more"]);
    assert_eq!(d.messages[1].role, "user");
    assert_eq!(text_of(&d.messages[1].content[0]), "next");
    assert_eq!(d.messages[2].role, "assistant");
    assert_eq!(text_of(&d.messages[2].content[0]), "last");
}

#[test]
fn diff_of_shrunk_conversation_fails() {
    let a = AmpConversation { messages: vec![message("user", vec![text("a")]), message("assistant", vec![])] };
    let b = AmpConversation { messages: vec![message("user", vec![text("a")])] };
    assert!(matches!(a.diff(&b), Err(DiffError::InvariantViolation)));
    let m = message("assistant", vec![text("a"), text("b")]);
    let n = message("assistant", vec![text("a")]);
    assert!(matches!(m.diff(&n), Err(DiffError::InvariantViolation)));
}

#[test]
fn diff_with_role_change_fails() {
    let a = AmpConversation { messages: vec![message("user", vec![text("a")])] };
    let b = AmpConversation { messages: vec![message("assistant", vec![text("a")])] };
    assert!(matches!(a.diff(&b), Err(DiffError::UnsupportedTranscriptShape)));
}

#[test]
fn rewritten_text_is_flagged_and_sent_whole() {
    match text_delta("Hello", "Help me") {
        TextDelta::Rewritten(t) => assert_eq!(t, "Help me"),
        TextDelta::Appended(_) => panic!("expected a rewrite"),
    }
    match text_delta("Hello", "Hello, world") {
        TextDelta::Appended(t) => assert_eq!(t, ", world"),
        TextDelta::Rewritten(_) => panic!("expected an append"),
    }
    let a = message("assistant", vec![text("Hello")]);
    let b = message("assistant", vec![text("Help me")]);
    let d = a.diff(&b).unwrap().unwrap();
    assert_eq!(text_of(&d.content[0]), "Help me");
}

#[test]
fn changed_tool_call_is_sent_again_and_results_are_not_diffed() {
    let a = message("assistant", vec![tool_use("t1", "Bash", obj(vec![("cmd", jstr("l"))])), tool_result("t0", jstr("x"))]);
    let b = message("assistant", vec![tool_use("t1", "Bash", obj(vec![("cmd", jstr("ls"))])), tool_result("t0", jstr("y"))]);
    let d = a.diff(&b).unwrap().unwrap();
    assert_eq!(d.content.len(), 1);
    match &d.content[0] {
        AmpContentBlock::ToolUse(t) => {
            assert_eq!(t.id, "t1");
            assert!(t.input.same(&obj(vec![("cmd", jstr("ls"))])));
        }
        _ => panic!("expected a tool call"),
    }
}

#[test]
fn message_streaming_scenario() {
    let a = AmpConversation { messages: vec![message("assistant", vec![text("Hello")])] };
    let b = AmpConversation { messages: vec![message("assistant", vec![text("Hello, world")])] };
    let d = a.diff(&b).unwrap().unwrap();
    let mut tracker = ToolCallTracker::new();
    let mut updates = Vec::new();
    for m in &d.messages {
        updates.extend(process_message(m, false, &mut tracker));
    }
    assert_eq!(updates.len(), 1);
    assert_eq!(message_text(&updates[0]), Some(s(", world")));
}

#[test]
fn edit_correlation_scenario() {
    let mut tracker = ToolCallTracker::new();
    let edit = tool_use(
        "t1",
        "edit_file",
        obj(vec![("path", jstr("a.rs")), ("old_str", jstr("x")), ("new_str", jstr("y"))]),
    );
    let first = classify(&edit, "assistant", false, &mut tracker);
    assert!(first.is_empty());
    assert_eq!(tracker.len(), 1);
    let run = obj(vec![("result", obj(vec![("diff", jstr("```diff\n@@ -5,1 +5,1 @@\n-x\n+y\n```"))]))]);
    let result = tool_result("t1", run);
    let second = classify(&result, "assistant", false, &mut tracker);
    assert_eq!(second.len(), 1);
    assert_eq!(tracker.len(), 0);
    match &second[0] {
        SessionUpdate::ToolCallUpdate(u) => {
            assert_eq!(u.tool_call_id, "t1");
            assert_eq!(u.status, ToolCallStatus::Completed);
            assert_eq!(u.content.len(), 1);
            match &u.content[0] {
                AgentToolCallResultContent::Diff(d) => {
                    assert_eq!(d.path, "a.rs");
                    assert_eq!(d.old_text, Some(s("x")));
                    assert_eq!(d.new_text, "y");
                }
                _ => panic!("expected a diff"),
            }
            let locations = u.locations.as_ref().unwrap();
            assert_eq!(locations.len(), 1);
            assert_eq!(locations[0].path, "a.rs");
            assert_eq!(locations[0].line, Some(5));
        }
        _ => panic!("expected a tool call update"),
    }
}

#[test]
fn edit_result_without_hunk_has_no_line() {
    let mut tracker = ToolCallTracker::new();
    let edit = tool_use("e", "edit_file", obj(vec![("path", jstr("b.rs")), ("new_str", jstr("z"))]));
    assert!(classify(&edit, "assistant", false, &mut tracker).is_empty());
    let out = classify(&tool_result("e", obj(vec![("result", obj(vec![]))])), "assistant", false, &mut tracker);
    match &out[0] {
        SessionUpdate::ToolCallUpdate(u) => {
            match &u.content[0] {
                AgentToolCallResultContent::Diff(d) => assert_eq!(d.old_text, None),
                _ => panic!("expected a diff"),
            }
            assert_eq!(u.locations.as_ref().unwrap()[0].line, None);
        }
        _ => panic!("expected a tool call update"),
    }
}

#[test]
fn duplicate_edit_id_keeps_first_edit() {
    let mut tracker = ToolCallTracker::new();
    let first = tool_use("t", "edit_file", obj(vec![("path", jstr("first.rs")), ("new_str", jstr("1"))]));
    let second = tool_use("t", "edit_file", obj(vec![("path", jstr("second.rs")), ("new_str", jstr("2"))]));
    classify(&first, "assistant", false, &mut tracker);
    classify(&second, "assistant", false, &mut tracker);
    assert_eq!(tracker.len(), 1);
    let out = classify(&tool_result("t", JsonValue::Null), "assistant", false, &mut tracker);
    match &out[0] {
        SessionUpdate::ToolCallUpdate(u) => match &u.content[0] {
            AgentToolCallResultContent::Diff(d) => assert_eq!(d.path, "first.rs"),
            _ => panic!("expected a diff"),
        },
        _ => panic!("expected a tool call update"),
    }
}

#[test]
fn result_without_pending_edit_carries_raw_output() {
    let mut tracker = ToolCallTracker::new();
    let run = obj(vec![("status", jstr("done"))]);
    let out = classify(&tool_result("zz", run), "assistant", false, &mut tracker);
    assert_eq!(out.len(), 1);
    match &out[0] {
        SessionUpdate::ToolCallUpdate(u) => {
            assert_eq!(u.tool_call_id, "zz");
            assert_eq!(u.status, ToolCallStatus::Completed);
            assert!(u.locations.is_none());
            match &u.content[0] {
                AgentToolCallResultContent::Payload(p) => assert!(p.same(&obj(vec![("status", jstr("done"))]))),
                _ => panic!("expected the raw output"),
            }
        }
        _ => panic!("expected a tool call update"),
    }
}

fn todo(id: &str, content: &str, status: &str, priority: &str) -> JsonValue {
    obj(vec![
        ("id", jstr(id)),
        ("content", jstr(content)),
        ("status", jstr(status)),
        ("priority", jstr(priority)),
    ])
}

#[test]
fn plan_tool_scenario() {
    let mut tracker = ToolCallTracker::new();
    let input = obj(vec![(
        "todos",
        JsonValue::Array(vec![
            todo("1", "write code", "completed", "high"),
            todo("2", "test it", "todo", "medium"),
            todo("3", "ship", "in-progress", "low"),
        ]),
    )]);
    let out = classify(&tool_use("p", "todo_write", input), "assistant", false, &mut tracker);
    assert_eq!(out.len(), 1);
    match &out[0] {
        SessionUpdate::Plan(plan) => {
            assert_eq!(plan.entries.len(), 3);
            assert_eq!(plan.entries[0].content, "write code");
            assert_eq!(plan.entries[0].status, PlanEntryStatus::Completed);
            assert_eq!(plan.entries[0].priority, PlanEntryPriority::High);
            assert_eq!(plan.entries[1].status, PlanEntryStatus::Pending);
            assert_eq!(plan.entries[1].priority, PlanEntryPriority::Medium);
            assert_eq!(plan.entries[2].status, PlanEntryStatus::InProgress);
            assert_eq!(plan.entries[2].priority, PlanEntryPriority::Low);
        }
        _ => panic!("expected a plan"),
    }
}

#[test]
fn plan_tool_with_bad_input_starts_a_call() {
    let mut tracker = ToolCallTracker::new();
    let input = obj(vec![("todos", JsonValue::Array(vec![todo("1", "x", "someday", "high")]))]);
    let out = classify(&tool_use("p", "todo_write", input), "assistant", false, &mut tracker);
    match &out[0] {
        SessionUpdate::ToolCall(c) => {
            assert_eq!(c.title, "Todo write");
            assert_eq!(c.kind, ToolKind::Think);
        }
        _ => panic!("expected a tool call"),
    }
}

#[test]
fn unknown_tool_scenario() {
    let mut tracker = ToolCallTracker::new();
    let out = classify(&tool_use("u", "frobnicate", obj(vec![])), "assistant", false, &mut tracker);
    assert_eq!(out.len(), 1);
    match &out[0] {
        SessionUpdate::ToolCall(c) => {
            assert_eq!(c.tool_call_id, "u");
            assert_eq!(c.kind, ToolKind::Other);
            assert_eq!(c.title, "frobnicate");
            assert_eq!(c.status, ToolCallStatus::Pending);
            assert!(c.locations.is_empty());
            assert!(c.content.is_empty());
        }
        _ => panic!("expected a tool call"),
    }
}

fn started_title(name: &str, input: JsonValue) -> String {
    let mut tracker = ToolCallTracker::new();
    let out = classify(&tool_use("x", name, input), "assistant", false, &mut tracker);
    match &out[0] {
        SessionUpdate::ToolCall(c) => c.title.clone(),
        _ => panic!("expected a tool call"),
    }
}

#[test]
fn tool_titles_come_from_input() {
    assert_eq!(started_title("Bash", obj(vec![("cmd", jstr("cargo test"))])), "cargo test");
    assert_eq!(started_title("web_search", obj(vec![("query", jstr("verus"))])), "Searching for \"verus\"");
    assert_eq!(started_title("read_web_page", obj(vec![("url", jstr("https://example.org"))])), "Reading https://example.org");
    assert_eq!(
        started_title("Read", obj(vec![("path", jstr("/no/such/dir/file.txt"))])),
        "Read /no/such/dir/file.txt"
    );
    assert_eq!(started_title("Grep", obj(vec![])), "Grep");
    assert_eq!(started_title("Bash", obj(vec![("command", jstr("ls"))])), "Bash");
    assert_eq!(started_title("web_search", obj(vec![("query", jstr("q")), ("max_results", JsonValue::Number(JsonNumber::NegInt(-1)))])), "Web search");
}

#[test]
fn create_file_title_links_file_and_shows_content() {
    let mut tracker = ToolCallTracker::new();
    let input = obj(vec![("path", jstr("src/new_mod.rs")), ("content", jstr("fn main() {}"))]);
    let out = classify(&tool_use("c", "create_file", input), "assistant", false, &mut tracker);
    match &out[0] {
        SessionUpdate::ToolCall(c) => {
            assert_eq!(c.title, "Created [new_mod.rs](file://src/new_mod.rs)");
            assert_eq!(c.kind, ToolKind::Edit);
            match &c.content[0] {
                AgentToolCallResultContent::Content(b) => assert_eq!(b.content.text, "fn main() {}"),
                _ => panic!("expected text content"),
            }
        }
        _ => panic!("expected a tool call"),
    }
}

#[test]
fn oracle_and_task_calls_carry_meta() {
    let mut tracker = ToolCallTracker::new();
    let out = classify(&tool_use("o", "oracle", obj(vec![])), "assistant", false, &mut tracker);
    match &out[0] {
        SessionUpdate::ToolCall(c) => {
            assert_eq!(c.title, "Consulting the Oracle");
            let meta = c.meta.as_ref().unwrap();
            assert!(matches!(meta.get("_isOracle"), Some(JsonValue::Bool(true))));
        }
        _ => panic!("expected a tool call"),
    }
    let out = classify(&tool_use("t", "Task", obj(vec![])), "assistant", false, &mut tracker);
    match &out[0] {
        SessionUpdate::ToolCall(c) => {
            assert!(matches!(c.meta.as_ref().unwrap().get("_isSubagent"), Some(JsonValue::Bool(true))));
        }
        _ => panic!("expected a tool call"),
    }
}

#[test]
fn taxonomy_maps_table_and_defaults_to_other() {
    assert_eq!(ToolKind::amp_tool_to_tool_kind("Bash"), ToolKind::Execute);
    assert_eq!(ToolKind::amp_tool_to_tool_kind("edit_file"), ToolKind::Edit);
    assert_eq!(ToolKind::amp_tool_to_tool_kind("finder"), ToolKind::Search);
    assert_eq!(ToolKind::amp_tool_to_tool_kind("oracle"), ToolKind::Think);
    assert_eq!(ToolKind::amp_tool_to_tool_kind("Read"), ToolKind::Read);
    assert_eq!(ToolKind::amp_tool_to_tool_kind("read_web_page"), ToolKind::Fetch);
    assert_eq!(ToolKind::amp_tool_to_tool_kind("mermaid"), ToolKind::Other);
    assert_eq!(ToolKind::amp_tool_to_tool_kind("frobnicate"), ToolKind::Other);
    assert_eq!(ToolKind::amp_tool_to_tool_kind(""), ToolKind::Other);
    assert_eq!(ToolKind::amp_tool_to_tool_kind("bash"), ToolKind::Other);
    assert_eq!(amp_tool_to_tool_kind(&AmpTool::UndoEdit), ToolKind::Edit);
    assert_eq!(AmpTool::from_name("glob"), AmpTool::Glob);
    assert_eq!(AmpTool::from_name("Glob"), AmpTool::Other);
    assert_eq!(AmpTool::EditFile.to_string(), "Editing file");
}

#[test]
fn hunk_parsing() {
    assert_eq!(get_line_number_from_diff_str("...@@ -1,2 +3,4 @@..."), Some(3));
    assert_eq!(get_line_number_from_diff_str("no hunk here"), None);
    assert_eq!(get_line_number_from_diff_str("@@ -363,8 +363,9 @@\n fn main()"), Some(363));
    assert_eq!(get_line_number_from_diff_str("@@ -1 +7 @@"), Some(7));
    assert_eq!(get_line_number_from_diff_str("@@ -1,2 +x,4 @@"), None);
    assert_eq!(get_line_number_from_diff_str("@@-1,2@@"), None);
    assert_eq!(get_line_number_from_diff_str("@@ -1 +99999999999 @@"), None);
    assert_eq!(get_line_number_from_diff_str("@@ -1 +4294967295 @@"), Some(4294967295));
}

#[test]
fn thinking_segments_are_split_out() {
    let (th, tx) = extract_thinking("Intro <thinking> plan it </thinking>middle<thinking></thinking> end");
    assert_eq!(th, vec![s("plan it"), s("")]);
    assert_eq!(tx, vec![s("Intro "), s("middle"), s(" end")]);
    let (th, tx) = extract_thinking("open <thinking>never closed");
    assert!(th.is_empty());
    assert_eq!(tx, vec![s("open <thinking>never closed")]);
    let (th, tx) = extract_thinking("");
    assert!(th.is_empty() && tx.is_empty());
}

#[test]
fn text_unit_updates_order_thoughts_then_text() {
    let mut tracker = ToolCallTracker::new();
    let out = classify(&text("Hi <thinking>why</thinking>   <thinking> </thinking>there"), "assistant", false, &mut tracker);
    assert_eq!(out.len(), 3);
    match &out[0] {
        SessionUpdate::AgentThoughtChunk(c) => assert_eq!(c.content.text, "why"),
        _ => panic!("expected a thought"),
    }
    assert_eq!(message_text(&out[1]), Some(s("Hi ")));
    assert_eq!(message_text(&out[2]), Some(s("there")));
    let user = classify(&text("question"), "user", false, &mut tracker);
    match &user[0] {
        SessionUpdate::UserMessageChunk(c) => assert_eq!(c.content.text, "question"),
        _ => panic!("expected a user chunk"),
    }
    assert!(classify(&text("   "), "assistant", false, &mut tracker).is_empty());
    assert!(classify(&text("from a sub-agent"), "assistant", true, &mut tracker).is_empty());
    let th = classify(&thinking("raw reasoning"), "assistant", true, &mut tracker);
    match &th[0] {
        SessionUpdate::AgentThoughtChunk(c) => assert_eq!(c.content.text, "raw reasoning"),
        _ => panic!("expected a thought"),
    }
}
