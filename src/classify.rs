//! Turning content units into client updates.
use vstd::prelude::*;
use crate::text::{chars_of, str_eq, find_chars, find_from, occurs_at, sub_chars, trim, trim_bounds};
use crate::conversation::{
    AmpContentBlock, AmpMessage, AmpToolResultContentBlock, AmpToolUseContentBlock, BlockModel,
    MessageModel, blocks_model,
};
use crate::hunk::{diff_start_line, get_line_number_from_diff_str};
use crate::inputs::{
    bash_input_of, create_input_of, edit_of, plan_entries, plan_of, read_input_of,
    search_input_of, todos_model, web_read_input_of, AmpBashToolInput, AmpCreateToolInput,
    AmpEditFileToolCall, AmpPlanWriteToolCall, AmpReadToolInput, AmpWebReadToolInput,
    AmpWebSearchToolInput, EditModel,
};
use crate::json::{member, string_of, JsonModel, JsonValue};
use crate::tool::{amp_tool_to_tool_kind, kind_of_tool, tool_caption, tool_of_name, AmpTool};
use crate::tracker::ToolCallTracker;
use crate::update::{
    contents_model, AgentMessageChunk, AgentThoughtChunk, AgentToolCallResultContent,
    AgentToolCallResultContentBlock, AgentToolCallResultDiffBlock, ContentModel, LocationModel,
    SessionUpdate, TextContentBlock, ToolCall, ToolCallLocation, ToolCallStatus, ToolCallUpdate,
    UpdateModel, updates_model,
};

verus! {

/// The marker that opens a reasoning segment inside message text.
pub open spec fn open_marker() -> Seq<char> {
    seq!['<', 't', 'h', 'i', 'n', 'k', 'i', 'n', 'g', '>']
}

/// The marker that closes a reasoning segment.
pub open spec fn close_marker() -> Seq<char> {
    seq!['<', '/', 't', 'h', 'i', 'n', 'k', 'i', 'n', 'g', '>']
}

pub proof fn lemma_find_from_bounds(s: Seq<char>, pat: Seq<char>, from: int)
    ensures
        find_from(s, pat, from) matches Some(i) ==> from <= i && occurs_at(s, i, pat),
    decreases s.len() + 1 - from,
{
    if !(from < 0 || from + pat.len() > s.len()) && !occurs_at(s, from, pat) {
        lemma_find_from_bounds(s, pat, from + 1);
    }
}

/// The text of `s` from `pos` on, as one segment, where it is not empty.
pub open spec fn rest_of(s: Seq<char>, pos: int) -> Seq<Seq<char>> {
    if pos < s.len() {
        seq![s.subrange(pos, s.len() as int)]
    } else {
        Seq::empty()
    }
}

/// The reasoning segments (each trimmed) and the other text segments of `s`
/// from `pos` on. A reasoning segment runs from an opening marker to the next
/// closing marker; an opening marker with no closing marker after it is
/// ordinary text.
pub open spec fn split_thinking(s: Seq<char>, pos: int) -> (Seq<Seq<char>>, Seq<Seq<char>>)
    decreases s.len() - pos,
    via split_thinking_decreases
{
    if pos < 0 || pos > s.len() {
        (Seq::empty(), Seq::empty())
    } else {
        match find_from(s, open_marker(), pos) {
            None => (Seq::empty(), rest_of(s, pos)),
            Some(st) => match find_from(s, close_marker(), st + 10) {
                None => (Seq::empty(), rest_of(s, pos)),
                Some(en) => {
                    let pre = if st > pos {
                        seq![s.subrange(pos, st)]
                    } else {
                        Seq::empty()
                    };
                    let next = split_thinking(s, en + 11);
                    (seq![trim(s.subrange(st + 10, en))] + next.0, pre + next.1)
                },
            },
        }
    }
}

#[via_fn]
proof fn split_thinking_decreases(s: Seq<char>, pos: int) {
    lemma_find_from_bounds(s, open_marker(), pos);
    if let Some(st) = find_from(s, open_marker(), pos) {
        lemma_find_from_bounds(s, close_marker(), st + 10);
    }
}

pub open spec fn strings_model(v: Seq<String>) -> Seq<Seq<char>> {
    v.map_values(|s: String| s@)
}

fn push_text(v: &mut Vec<String>, s: String)
    ensures
        strings_model(final(v)@) == strings_model(old(v)@).push(s@),
{
    let ghost t = s@;
    v.push(s);
    assert(strings_model(v@) =~= strings_model(old(v)@).push(t));
}

/// Splits message text into its reasoning segments, each trimmed, and its
/// other text segments, each in order.
#[verifier::loop_isolation(false)]
pub fn extract_thinking(text: &str) -> (r: (Vec<String>, Vec<String>))
    ensures
        (strings_model(r.0@), strings_model(r.1@)) == split_thinking(text@, 0),
{
    let s = chars_of(text);
    let open: Vec<char> = vec!['<', 't', 'h', 'i', 'n', 'k', 'i', 'n', 'g', '>'];
    let close: Vec<char> = vec!['<', '/', 't', 'h', 'i', 'n', 'k', 'i', 'n', 'g', '>'];
    assert(open@ =~= open_marker());
    assert(close@ =~= close_marker());
    let mut thinking: Vec<String> = Vec::new();
    let mut texts: Vec<String> = Vec::new();
    let mut pos: usize = 0;
    assert(strings_model(thinking@) =~= Seq::<Seq<char>>::empty());
    assert(strings_model(texts@) =~= Seq::<Seq<char>>::empty());
    assert(split_thinking(s@, 0).0 =~= Seq::<Seq<char>>::empty() + split_thinking(s@, 0).0);
    assert(split_thinking(s@, 0).1 =~= Seq::<Seq<char>>::empty() + split_thinking(s@, 0).1);
    loop
        invariant
            s@ == text@,
            pos <= s.len(),
            split_thinking(s@, 0).0 == strings_model(thinking@) + split_thinking(s@, pos as int).0,
            split_thinking(s@, 0).1 == strings_model(texts@) + split_thinking(s@, pos as int).1,
        decreases s.len() - pos,
    {
        let st = match find_chars(&s, &open, pos) {
            Some(st) => st,
            None => break,
        };
        let en = match find_chars(&s, &close, st + 10) {
            Some(en) => en,
            None => break,
        };
        let ghost before_th = strings_model(thinking@);
        let ghost before_tx = strings_model(texts@);
        let ghost next = split_thinking(s@, en + 11);
        if st > pos {
            push_text(&mut texts, String::from_str(text.substring_char(pos, st)));
            assert(before_tx + split_thinking(s@, pos as int).1 =~= strings_model(texts@)
                + next.1);
        } else {
            assert(split_thinking(s@, pos as int).1 =~= next.1);
        }
        let segment = sub_chars(&s, st + 10, en);
        let (a, b) = trim_bounds(&segment);
        assert(s@.subrange(st + 10 + a, st + 10 + b) =~= segment@.subrange(a as int, b as int));
        push_text(&mut thinking, String::from_str(text.substring_char(st + 10 + a, st + 10 + b)));
        assert(before_th + split_thinking(s@, pos as int).0 =~= strings_model(thinking@) + next.0);
        pos = en + 11;
    }
    let ghost before_tx = strings_model(texts@);
    if pos < s.len() {
        push_text(&mut texts, String::from_str(text.substring_char(pos, s.len())));
    }
    assert(split_thinking(s@, pos as int).0 =~= Seq::<Seq<char>>::empty());
    assert(strings_model(thinking@) + Seq::<Seq<char>>::empty() =~= strings_model(thinking@));
    assert(before_tx + rest_of(s@, pos as int) =~= strings_model(texts@));
    (thinking, texts)
}

/// One reasoning update per non-empty reasoning segment, in order.
pub open spec fn thought_updates(parts: Seq<Seq<char>>) -> Seq<UpdateModel>
    decreases parts.len(),
{
    if parts.len() == 0 {
        Seq::empty()
    } else {
        let acc = thought_updates(parts.drop_last());
        if parts.last().len() > 0 {
            acc.push(UpdateModel::AgentThought(parts.last()))
        } else {
            acc
        }
    }
}

/// One message update per text segment that is not all whitespace, in
/// order: a user chunk for a user's message, else an agent chunk.
pub open spec fn message_updates(parts: Seq<Seq<char>>, from_user: bool) -> Seq<UpdateModel>
    decreases parts.len(),
{
    if parts.len() == 0 {
        Seq::empty()
    } else {
        let acc = message_updates(parts.drop_last(), from_user);
        let p = parts.last();
        if trim(p).len() == 0 {
            acc
        } else if from_user {
            acc.push(UpdateModel::UserMessage(p))
        } else {
            acc.push(UpdateModel::AgentMessage(p))
        }
    }
}

/// The updates for a text unit of a message with role `role`; none for the
/// text of a nested invocation.
pub open spec fn text_updates(text: Seq<char>, role: Seq<char>, nested: bool) -> Seq<
    UpdateModel,
> {
    if nested {
        Seq::empty()
    } else {
        let parts = split_thinking(text, 0);
        thought_updates(parts.0) + message_updates(parts.1, role == "user"@)
    }
}

fn push_update(v: &mut Vec<SessionUpdate>, u: SessionUpdate)
    ensures
        updates_model(final(v)@) == updates_model(old(v)@).push(u@),
{
    let ghost m = u@;
    v.push(u);
    assert(updates_model(v@) =~= updates_model(old(v)@).push(m));
}

/// Appends the updates for a text unit to `out`.
pub fn text_unit_updates(text: &str, role: &str, nested: bool, out: &mut Vec<SessionUpdate>)
    ensures
        updates_model(final(out)@) == updates_model(old(out)@) + text_updates(
            text@,
            role@,
            nested,
        ),
{
    if nested {
        assert(updates_model(out@) + Seq::<UpdateModel>::empty() =~= updates_model(out@));
        return;
    }
    let (thinking, texts) = extract_thinking(text);
    let ghost th = strings_model(thinking@);
    let ghost tx = strings_model(texts@);
    let ghost start = updates_model(out@);
    let mut i: usize = 0;
    while i < thinking.len()
        invariant
            i <= thinking.len(),
            th == strings_model(thinking@),
            updates_model(out@) == start + thought_updates(th.take(i as int)),
        decreases thinking.len() - i,
    {
        assert(th.take(i + 1).drop_last() =~= th.take(i as int));
        if thinking[i].as_str().unicode_len() > 0 {
            let ghost before = updates_model(out@);
            push_update(
                &mut *out,
                SessionUpdate::AgentThoughtChunk(
                    AgentThoughtChunk { content: TextContentBlock { text: thinking[i].clone() } },
                ),
            );
            assert(start + thought_updates(th.take(i + 1)) =~= before.push(
                UpdateModel::AgentThought(th[i as int]),
            ));
        }
        i = i + 1;
    }
    assert(th.take(thinking.len() as int) =~= th);
    let ghost mid = updates_model(out@);
    let from_user = str_eq(role, "user");
    let mut j: usize = 0;
    while j < texts.len()
        invariant
            j <= texts.len(),
            tx == strings_model(texts@),
            updates_model(out@) == mid + message_updates(tx.take(j as int), from_user),
        decreases texts.len() - j,
    {
        assert(tx.take(j + 1).drop_last() =~= tx.take(j as int));
        let part = chars_of(texts[j].as_str());
        let (a, b) = trim_bounds(&part);
        if a < b {
            let chunk = AgentMessageChunk { content: TextContentBlock { text: texts[j].clone() } };
            if from_user {
                push_update(&mut *out, SessionUpdate::UserMessageChunk(chunk));
            } else {
                push_update(&mut *out, SessionUpdate::AgentMessageChunk(chunk));
            }
            assert(mid + message_updates(tx.take(j + 1), from_user) =~= updates_model(out@));
        }
        j = j + 1;
    }
    assert(tx.take(texts.len() as int) =~= tx);
    assert(start + thought_updates(th) + message_updates(tx, from_user) =~= start + (
    thought_updates(th) + message_updates(tx, from_user)));
}

/// What the file system says of the path that a tool call names: whether it
/// is a regular file, and its final component.
pub struct PathInfo {
    pub is_file: bool,
    pub file_name: String,
}

pub struct PathFacts {
    pub is_file: bool,
    pub file_name: Seq<char>,
}

impl View for PathInfo {
    type V = PathFacts;

    open spec fn view(&self) -> PathFacts {
        PathFacts { is_file: self.is_file, file_name: self.file_name@ }
    }
}

/// Relies on `std::path::Path::is_file`: whether a regular file stands at
/// `path` at the time of the call.
#[verifier::external_body]
fn path_is_file(path: &str) -> bool {
    std::path::Path::new(path).is_file()
}

/// Relies on `std::path::Path::file_name`: the final component of `path`, or
/// empty text where it has none or it is not valid text.
#[verifier::external_body]
fn file_name(path: &str) -> String {
    std::path::Path::new(path).file_name().and_then(|n| n.to_str()).unwrap_or_default().to_string()
}

/// Asks the file system about `path`.
fn probe_path(path: &str) -> PathInfo {
    PathInfo { is_file: path_is_file(path), file_name: file_name(path) }
}

/// `verb [name](file://path)`: a title that links to a file.
pub open spec fn link_title(verb: Seq<char>, name: Seq<char>, path: Seq<char>) -> Seq<char> {
    verb + " ["@ + name + "](file://"@ + path + ")"@
}

/// The title of a started call of `tool` with raw identifier `name`.
pub open spec fn tool_title(tool: AmpTool, name: Seq<char>, input: JsonModel, path: PathFacts) -> Seq<
    char,
> {
    match tool {
        AmpTool::Read => match read_input_of(input) {
            Some(p) => if path.is_file {
                link_title("Read"@, path.file_name, p)
            } else {
                "Read "@ + p
            },
            None => tool_caption(tool),
        },
        AmpTool::CreateFile => match create_input_of(input) {
            Some(pc) => link_title("Created"@, path.file_name, pc.0),
            None => tool_caption(tool),
        },
        AmpTool::Bash => match bash_input_of(input) {
            Some(c) => c,
            None => tool_caption(tool),
        },
        AmpTool::WebSearch => match search_input_of(input) {
            Some(q) => "Searching for \""@ + q + "\""@,
            None => tool_caption(tool),
        },
        AmpTool::ReadWebPage => match web_read_input_of(input) {
            Some(u) => "Reading "@ + u,
            None => tool_caption(tool),
        },
        AmpTool::Other => name,
        _ => tool_caption(tool),
    }
}

/// What a started call of `tool` shows: the content that a file creation
/// writes, else nothing.
pub open spec fn tool_content(tool: AmpTool, input: JsonModel) -> Seq<ContentModel> {
    if tool == AmpTool::CreateFile && create_input_of(input) is Some {
        seq![ContentModel::Text(create_input_of(input)->Some_0.1)]
    } else {
        Seq::empty()
    }
}

pub open spec fn oracle_meta() -> JsonModel {
    JsonModel::Object(
        seq![
            ("_isOracle"@, JsonModel::Bool(true)),
            ("_modelType"@, JsonModel::String("reasoning"@)),
            ("_description"@, JsonModel::String("Using more powerful reasoning model (GPT-5)"@)),
        ],
    )
}

pub open spec fn task_meta() -> JsonModel {
    JsonModel::Object(
        seq![
            ("_isSubagent"@, JsonModel::Bool(true)),
            ("_description"@, JsonModel::String("Spawning independent subagent with own context"@)),
        ],
    )
}

/// The extra data attached to a started call of `tool`.
pub open spec fn tool_meta(tool: AmpTool) -> Option<JsonModel> {
    match tool {
        AmpTool::Oracle => Some(oracle_meta()),
        AmpTool::Task => Some(task_meta()),
        _ => None,
    }
}

/// The updates for a tool call unit, and the pending edits after it: an edit
/// is recorded and shows nothing yet; a plan write shows the plan; any other
/// call, or one whose input does not parse, shows a started call.
pub open spec fn tool_use_outcome(
    id: Seq<char>,
    name: Seq<char>,
    input: JsonModel,
    pending: Map<Seq<char>, EditModel>,
    path: PathFacts,
) -> (Seq<UpdateModel>, Map<Seq<char>, EditModel>) {
    let tool = tool_of_name(name);
    if tool == AmpTool::EditFile && edit_of(input) is Some {
        (
            Seq::empty(),
            if pending.contains_key(id) {
                pending
            } else {
                pending.insert(id, edit_of(input)->Some_0)
            },
        )
    } else if tool == AmpTool::TodoWrite && plan_of(input) is Some {
        (seq![UpdateModel::Plan(plan_entries(plan_of(input)->Some_0))], pending)
    } else {
        (
            seq![
                UpdateModel::ToolCall {
                    id,
                    title: tool_title(tool, name, input, path),
                    kind: kind_of_tool(tool),
                    status: ToolCallStatus::Pending,
                    content: tool_content(tool, input),
                    locations: Seq::empty(),
                    meta: tool_meta(tool),
                },
            ],
            pending,
        )
    }
}

fn link(verb: &str, name: &String, path: &String) -> (r: String)
    ensures
        r@ == link_title(verb@, name@, path@),
{
    let mut t = String::from_str(verb);
    t.append(" [");
    t.append(name.as_str());
    t.append("](file://");
    t.append(path.as_str());
    t.append(")");
    t
}

fn meta_for(tool: AmpTool) -> (r: Option<JsonValue>)
    ensures
        match r {
            Some(v) => tool_meta(tool) == Some(v@),
            None => tool_meta(tool) is None,
        },
{
    match tool {
        AmpTool::Oracle => {
            let k0 = String::from_str("_isOracle");
            let k1 = String::from_str("_modelType");
            let v1 = String::from_str("reasoning");
            let k2 = String::from_str("_description");
            let v2 = String::from_str("Using more powerful reasoning model (GPT-5)");
            let members = vec![
                (k0, JsonValue::Bool(true)),
                (k1, JsonValue::String(v1)),
                (k2, JsonValue::String(v2)),
            ];
            let v = JsonValue::Object(members);
            proof {
                reveal_with_fuel(crate::json::json_model, 2);
                if let JsonModel::Object(ms) = v@ {
                    assert(ms[0] == ("_isOracle"@, JsonModel::Bool(true)));
                    assert(ms[1] == ("_modelType"@, JsonModel::String("reasoning"@)));
                    assert(ms[2] == (
                        "_description"@,
                        JsonModel::String("Using more powerful reasoning model (GPT-5)"@),
                    ));
                    assert(ms =~= oracle_meta()->Object_0);
                }
            }
            Some(v)
        },
        AmpTool::Task => {
            let k0 = String::from_str("_isSubagent");
            let k1 = String::from_str("_description");
            let v1 = String::from_str("Spawning independent subagent with own context");
            let members = vec![(k0, JsonValue::Bool(true)), (k1, JsonValue::String(v1))];
            let v = JsonValue::Object(members);
            proof {
                reveal_with_fuel(crate::json::json_model, 2);
                if let JsonModel::Object(ms) = v@ {
                    assert(ms[0] == ("_isSubagent"@, JsonModel::Bool(true)));
                    assert(ms[1] == (
                        "_description"@,
                        JsonModel::String("Spawning independent subagent with own context"@),
                    ));
                    assert(ms =~= task_meta()->Object_0);
                }
            }
            Some(v)
        },
        _ => None,
    }
}

/// The title of a started call; see `tool_title`.
fn title_for(tool: AmpTool, block: &AmpToolUseContentBlock, path: &PathInfo) -> (r: String)
    ensures
        r@ == tool_title(tool, block.name@, block.input@, path@),
{
    match tool {
        AmpTool::Read => match AmpReadToolInput::from_json(&block.input) {
            Some(t) => if path.is_file {
                link("Read", &path.file_name, &t.path)
            } else {
                String::from_str("Read ").concat(t.path.as_str())
            },
            None => tool.to_string(),
        },
        AmpTool::CreateFile => match AmpCreateToolInput::from_json(&block.input) {
            Some(t) => link("Created", &path.file_name, &t.path),
            None => tool.to_string(),
        },
        AmpTool::Bash => match AmpBashToolInput::from_json(&block.input) {
            Some(t) => t.cmd,
            None => tool.to_string(),
        },
        AmpTool::WebSearch => match AmpWebSearchToolInput::from_json(&block.input) {
            Some(t) => String::from_str("Searching for \"").concat(t.query.as_str()).concat("\""),
            None => tool.to_string(),
        },
        AmpTool::ReadWebPage => match AmpWebReadToolInput::from_json(&block.input) {
            Some(t) => String::from_str("Reading ").concat(t.url.as_str()),
            None => tool.to_string(),
        },
        AmpTool::Other => block.name.clone(),
        _ => tool.to_string(),
    }
}

/// The path that a call of `tool` names, where its title links to a file.
fn linked_path(tool: AmpTool, block: &AmpToolUseContentBlock) -> Option<String> {
    match tool {
        AmpTool::Read => match AmpReadToolInput::from_json(&block.input) {
            Some(t) => Some(t.path),
            None => None,
        },
        AmpTool::CreateFile => match AmpCreateToolInput::from_json(&block.input) {
            Some(t) => Some(t.path),
            None => None,
        },
        _ => None,
    }
}

/// Appends the updates for a tool call unit to `out` and records an edit in
/// `tracker`, given what the file system says of the path it names.
pub fn tool_use_updates_with(
    block: &AmpToolUseContentBlock,
    path: &PathInfo,
    tracker: &mut ToolCallTracker,
    out: &mut Vec<SessionUpdate>,
)
    requires
        old(tracker).wf(),
    ensures
        final(tracker).wf(),
        updates_model(final(out)@) == updates_model(old(out)@) + tool_use_outcome(
            block.id@,
            block.name@,
            block.input@,
            old(tracker)@,
            path@,
        ).0,
        final(tracker)@ == tool_use_outcome(
            block.id@,
            block.name@,
            block.input@,
            old(tracker)@,
            path@,
        ).1,
{
    let tool = AmpTool::from_name(block.name.as_str());
    if tool == AmpTool::EditFile {
        if let Some(edit) = AmpEditFileToolCall::from_json(&block.input) {
            tracker.insert(block.id.clone(), edit);
            assert(updates_model(out@) + Seq::<UpdateModel>::empty() =~= updates_model(out@));
            return;
        }
    }
    if tool == AmpTool::TodoWrite {
        if let Some(plan) = AmpPlanWriteToolCall::from_json(&block.input) {
            push_update(out, SessionUpdate::Plan(plan.to_acp_plan()));
            assert(updates_model(old(out)@).push(UpdateModel::Plan(plan_entries(todos_model(plan.todos@))))
                =~= updates_model(old(out)@) + tool_use_outcome(
                block.id@,
                block.name@,
                block.input@,
                old(tracker)@,
                path@,
            ).0);
            return;
        }
    }
    let title = title_for(tool, block, path);
    let mut content: Vec<AgentToolCallResultContent> = Vec::new();
    if tool == AmpTool::CreateFile {
        if let Some(t) = AmpCreateToolInput::from_json(&block.input) {
            content.push(
                AgentToolCallResultContent::Content(
                    AgentToolCallResultContentBlock { content: TextContentBlock { text: t.content } },
                ),
            );
        }
    }
    assert(contents_model(content@) =~= tool_content(tool, block.input@));
    let locations: Vec<ToolCallLocation> = Vec::new();
    let call = ToolCall {
        tool_call_id: block.id.clone(),
        title,
        kind: amp_tool_to_tool_kind(&tool),
        status: ToolCallStatus::Pending,
        content,
        locations,
        meta: meta_for(tool),
    };
    push_update(out, SessionUpdate::ToolCall(call));
    assert(crate::update::locations_model(locations@) =~= Seq::empty());
    assert(updates_model(out@) =~= updates_model(old(out)@) + tool_use_outcome(
        block.id@,
        block.name@,
        block.input@,
        old(tracker)@,
        path@,
    ).0);
}

/// Appends the updates for a tool call unit to `out` and records an edit in
/// `tracker`. Where the call's title links to a file, the file system is
/// asked about it, so the title holds whatever it answered.
pub fn tool_use_updates(
    block: &AmpToolUseContentBlock,
    tracker: &mut ToolCallTracker,
    out: &mut Vec<SessionUpdate>,
)
    requires
        old(tracker).wf(),
    ensures
        final(tracker).wf(),
        exists|path: PathFacts|
            {
                &&& updates_model(final(out)@) == updates_model(old(out)@) + tool_use_outcome(
                    block.id@,
                    block.name@,
                    block.input@,
                    old(tracker)@,
                    path,
                ).0
                &&& final(tracker)@ == tool_use_outcome(
                    block.id@,
                    block.name@,
                    block.input@,
                    old(tracker)@,
                    path,
                ).1
            },
{
    let tool = AmpTool::from_name(block.name.as_str());
    let path = match linked_path(tool, block) {
        Some(p) => probe_path(p.as_str()),
        None => PathInfo { is_file: false, file_name: String::new() },
    };
    tool_use_updates_with(block, &path, tracker, out);
}

/// The diff text that a tool's output carries under `result.diff`.
pub open spec fn result_diff_text(run: JsonModel) -> Option<Seq<char>> {
    match member(run, "result"@) {
        Some(r) => string_of(member(r, "diff"@)),
        None => None,
    }
}

/// The update for a tool result unit, and the pending edits after it. The
/// result of a pending edit takes the edit out and shows it as a diff, at the
/// line that the output's diff text names where it names one; any other
/// result shows the tool's raw output.
pub open spec fn tool_result_outcome(
    id: Seq<char>,
    run: JsonModel,
    pending: Map<Seq<char>, EditModel>,
) -> (Seq<UpdateModel>, Map<Seq<char>, EditModel>) {
    if pending.contains_key(id) {
        let e = pending[id];
        let line = match result_diff_text(run) {
            Some(d) => diff_start_line(d),
            None => None,
        };
        (
            seq![
                UpdateModel::ToolCallUpdate {
                    id,
                    status: ToolCallStatus::Completed,
                    content: seq![
                        ContentModel::Diff {
                            path: e.path,
                            old_text: e.old_text,
                            new_text: e.new_text,
                        },
                    ],
                    changed_locations: Some(seq![LocationModel { path: e.path, line }]),
                },
            ],
            pending.remove(id),
        )
    } else {
        (
            seq![
                UpdateModel::ToolCallUpdate {
                    id,
                    status: ToolCallStatus::Completed,
                    content: seq![ContentModel::Payload(run)],
                    changed_locations: None,
                },
            ],
            pending,
        )
    }
}

fn result_diff(run: &JsonValue) -> (r: Option<&String>)
    ensures
        r.deep_view() == result_diff_text(run@),
{
    match run.get("result") {
        Some(result) => match result.get("diff") {
            Some(diff) => diff.as_str(),
            None => None,
        },
        None => None,
    }
}

/// Appends the update for a tool result unit to `out`, taking its pending
/// edit out of `tracker`.
pub fn tool_result_updates(
    block: &AmpToolResultContentBlock,
    tracker: &mut ToolCallTracker,
    out: &mut Vec<SessionUpdate>,
)
    requires
        old(tracker).wf(),
    ensures
        final(tracker).wf(),
        updates_model(final(out)@) == updates_model(old(out)@) + tool_result_outcome(
            block.tool_use_id@,
            block.run@,
            old(tracker)@,
        ).0,
        final(tracker)@ == tool_result_outcome(block.tool_use_id@, block.run@, old(tracker)@).1,
{
    let update = match tracker.remove(block.tool_use_id.as_str()) {
        Some(edit) => {
            let line = match result_diff(&block.run) {
                Some(d) => get_line_number_from_diff_str(d.as_str()),
                None => None,
            };
            let location = ToolCallLocation { path: edit.path.clone(), line };
            let diff = AgentToolCallResultDiffBlock {
                path: edit.path,
                old_text: edit.old_str,
                new_text: edit.new_str,
            };
            let content = vec![AgentToolCallResultContent::Diff(diff)];
            let locations = vec![location];
            let u = ToolCallUpdate {
                tool_call_id: block.tool_use_id.clone(),
                status: ToolCallStatus::Completed,
                content,
                locations: Some(locations),
            };
            assert(contents_model(u.content@) =~= tool_result_outcome(
                block.tool_use_id@,
                block.run@,
                old(tracker)@,
            ).0[0]->ToolCallUpdate_content);
            assert(crate::update::locations_model(locations@) =~= tool_result_outcome(
                block.tool_use_id@,
                block.run@,
                old(tracker)@,
            ).0[0]->ToolCallUpdate_changed_locations->Some_0);
            u
        },
        None => {
            let content = vec![AgentToolCallResultContent::Payload(block.run.duplicate())];
            let u = ToolCallUpdate {
                tool_call_id: block.tool_use_id.clone(),
                status: ToolCallStatus::Completed,
                content,
                locations: None,
            };
            assert(contents_model(u.content@) =~= tool_result_outcome(
                block.tool_use_id@,
                block.run@,
                old(tracker)@,
            ).0[0]->ToolCallUpdate_content);
            u
        },
    };
    push_update(out, SessionUpdate::ToolCallUpdate(update));
    assert(updates_model(out@) =~= updates_model(old(out)@) + tool_result_outcome(
        block.tool_use_id@,
        block.run@,
        old(tracker)@,
    ).0);
}

/// The updates for one content unit of a message with role `role`, and the
/// pending edits after it; `nested` marks the message of a nested
/// invocation, whose text is not shown.
pub open spec fn block_outcome(
    b: BlockModel,
    role: Seq<char>,
    nested: bool,
    pending: Map<Seq<char>, EditModel>,
    path: PathFacts,
) -> (Seq<UpdateModel>, Map<Seq<char>, EditModel>) {
    match b {
        BlockModel::Text(t) => (text_updates(t, role, nested), pending),
        BlockModel::Thinking(t) => (seq![UpdateModel::AgentThought(t)], pending),
        BlockModel::ToolUse { id, name, input } => tool_use_outcome(id, name, input, pending, path),
        BlockModel::ToolResult { tool_use_id, run } => tool_result_outcome(tool_use_id, run, pending),
    }
}

/// The updates for the units of a message, in order, and the pending edits
/// after them; `paths` holds what the file system said for each unit.
pub open spec fn message_outcome(
    blocks: Seq<BlockModel>,
    role: Seq<char>,
    nested: bool,
    pending: Map<Seq<char>, EditModel>,
    paths: Seq<PathFacts>,
) -> (Seq<UpdateModel>, Map<Seq<char>, EditModel>)
    decreases blocks.len(),
{
    if blocks.len() == 0 {
        (Seq::empty(), pending)
    } else {
        let before = message_outcome(blocks.drop_last(), role, nested, pending, paths.drop_last());
        let last = block_outcome(blocks.last(), role, nested, before.1, paths.last());
        (before.0 + last.0, last.1)
    }
}

/// Appends the updates for one content unit to `out`, updating `tracker`.
pub fn block_updates(
    block: &AmpContentBlock,
    role: &str,
    nested: bool,
    tracker: &mut ToolCallTracker,
    out: &mut Vec<SessionUpdate>,
)
    requires
        old(tracker).wf(),
    ensures
        final(tracker).wf(),
        exists|path: PathFacts|
            {
                &&& updates_model(final(out)@) == updates_model(old(out)@) + block_outcome(
                    block@,
                    role@,
                    nested,
                    old(tracker)@,
                    path,
                ).0
                &&& final(tracker)@ == block_outcome(
                    block@,
                    role@,
                    nested,
                    old(tracker)@,
                    path,
                ).1
            },
{
    let ghost any = PathFacts { is_file: false, file_name: Seq::empty() };
    match block {
        AmpContentBlock::Text(t) => {
            text_unit_updates(t.text.as_str(), role, nested, out);
            assert(block_outcome(block@, role@, nested, old(tracker)@, any).0 == text_updates(
                t.text@,
                role@,
                nested,
            ));
            assert(block_outcome(block@, role@, nested, old(tracker)@, any).1 == tracker@);
        },
        AmpContentBlock::Thinking(t) => {
            let u = SessionUpdate::AgentThoughtChunk(
                AgentThoughtChunk { content: TextContentBlock { text: t.thinking.clone() } },
            );
            push_update(out, u);
            assert(updates_model(out@) =~= updates_model(old(out)@) + block_outcome(
                block@,
                role@,
                nested,
                old(tracker)@,
                any,
            ).0);
            assert(block_outcome(block@, role@, nested, old(tracker)@, any).1 == tracker@);
        },
        AmpContentBlock::ToolUse(t) => {
            tool_use_updates(t, tracker, out);
            proof {
                let path = choose|path: PathFacts|
                    {
                        &&& updates_model(out@) == updates_model(old(out)@) + tool_use_outcome(
                            t.id@,
                            t.name@,
                            t.input@,
                            old(tracker)@,
                            path,
                        ).0
                        &&& tracker@ == tool_use_outcome(
                            t.id@,
                            t.name@,
                            t.input@,
                            old(tracker)@,
                            path,
                        ).1
                    };
                assert(block_outcome(block@, role@, nested, old(tracker)@, path)
                    == tool_use_outcome(t.id@, t.name@, t.input@, old(tracker)@, path));
            }
        },
        AmpContentBlock::ToolResult(t) => {
            tool_result_updates(t, tracker, out);
            assert(block_outcome(block@, role@, nested, old(tracker)@, any) == tool_result_outcome(
                t.tool_use_id@,
                t.run@,
                old(tracker)@,
            ));
        },
    }
}

/// The updates for one content unit of a message with role `role`, in the
/// order the unit holds them; `nested` marks the message of a nested
/// invocation, whose text is not shown. Where the unit names a file, the
/// file system is asked about it.
pub fn classify(
    block: &AmpContentBlock,
    role: &str,
    nested: bool,
    tracker: &mut ToolCallTracker,
) -> (r: Vec<SessionUpdate>)
    requires
        old(tracker).wf(),
    ensures
        final(tracker).wf(),
        exists|path: PathFacts|
            {
                &&& updates_model(r@) == block_outcome(block@, role@, nested, old(tracker)@, path).0
                &&& final(tracker)@ == block_outcome(
                    block@,
                    role@,
                    nested,
                    old(tracker)@,
                    path,
                ).1
            },
{
    let mut out: Vec<SessionUpdate> = Vec::new();
    block_updates(block, role, nested, tracker, &mut out);
    assert(updates_model(Seq::<SessionUpdate>::empty()) =~= Seq::<UpdateModel>::empty());
    proof {
        let path = choose|path: PathFacts|
            {
                &&& updates_model(out@) == updates_model(Seq::<SessionUpdate>::empty())
                    + block_outcome(block@, role@, nested, old(tracker)@, path).0
                &&& tracker@ == block_outcome(block@, role@, nested, old(tracker)@, path).1
            };
        assert(Seq::<UpdateModel>::empty() + block_outcome(
            block@,
            role@,
            nested,
            old(tracker)@,
            path,
        ).0 =~= block_outcome(block@, role@, nested, old(tracker)@, path).0);
    }
    out
}

/// The updates for all units of `message`, in order; `nested` marks the
/// message of a nested invocation, whose text is not shown.
pub fn process_message(message: &AmpMessage, nested: bool, tracker: &mut ToolCallTracker) -> (r: Vec<
    SessionUpdate,
>)
    requires
        old(tracker).wf(),
    ensures
        final(tracker).wf(),
        exists|paths: Seq<PathFacts>|
            paths.len() == message.content.len() && (updates_model(r@), final(tracker)@)
                == message_outcome(message@.content, message@.role, nested, old(tracker)@, paths),
{
    let mut out: Vec<SessionUpdate> = Vec::new();
    let ghost blocks = message@.content;
    let ghost mut paths: Seq<PathFacts> = Seq::empty();
    let mut i: usize = 0;
    assert(updates_model(out@) =~= Seq::<UpdateModel>::empty());
    assert(blocks.take(0) =~= Seq::<BlockModel>::empty());
    while i < message.content.len()
        invariant
            i <= message.content.len(),
            blocks == blocks_model(message.content@),
            tracker.wf(),
            paths.len() == i,
            (updates_model(out@), tracker@) == message_outcome(
                blocks.take(i as int),
                message.role@,
                nested,
                old(tracker)@,
                paths,
            ),
        decreases message.content.len() - i,
    {
        let ghost before_out = updates_model(out@);
        let ghost before_pending = tracker@;
        block_updates(&message.content[i], message.role.as_str(), nested, tracker, &mut out);
        proof {
            let path = choose|path: PathFacts|
                {
                    &&& updates_model(out@) == before_out + block_outcome(
                        blocks[i as int],
                        message.role@,
                        nested,
                        before_pending,
                        path,
                    ).0
                    &&& tracker@ == block_outcome(
                        blocks[i as int],
                        message.role@,
                        nested,
                        before_pending,
                        path,
                    ).1
                };
            let old_paths = paths;
            paths = paths.push(path);
            assert(blocks.take(i + 1).drop_last() =~= blocks.take(i as int));
            assert(paths.drop_last() =~= old_paths);
        }
        i = i + 1;
    }
    assert(blocks.take(message.content.len() as int) =~= blocks);
    out
}

} // verus!
