//! The structured arguments of the tools whose calls are shown specially,
//! read from a tool call's JSON input.
use vstd::prelude::*;
use crate::json::{member, string_of, JsonModel, JsonNumber, JsonValue, NumberModel};
use crate::text::str_eq;

verus! {

/// The text of member `key` of `v`.
pub open spec fn str_field(v: JsonModel, key: Seq<char>) -> Option<Seq<char>> {
    string_of(member(v, key))
}

/// An optional text member: `Some(None)` where it is absent or null,
/// `Some(Some(s))` where it is the string `s`, `None` where it is anything
/// else.
pub open spec fn opt_str_field(v: JsonModel, key: Seq<char>) -> Option<Option<Seq<char>>> {
    match member(v, key) {
        None => Some(None),
        Some(JsonModel::Null) => Some(None),
        Some(JsonModel::String(s)) => Some(Some(s)),
        _ => None,
    }
}

/// Member `key` of `v` is absent, null, or satisfies `ok`.
pub open spec fn opt_field_ok(v: JsonModel, key: Seq<char>, ok: spec_fn(JsonModel) -> bool) -> bool {
    match member(v, key) {
        None => true,
        Some(JsonModel::Null) => true,
        Some(x) => ok(x),
    }
}

pub open spec fn is_i32(v: JsonModel) -> bool {
    match v {
        JsonModel::Number(NumberModel::PosInt(n)) => n <= i32::MAX,
        JsonModel::Number(NumberModel::NegInt(n)) => i32::MIN <= n <= i32::MAX,
        _ => false,
    }
}

pub open spec fn is_i32_array(v: JsonModel) -> bool {
    match v {
        JsonModel::Array(items) => forall|i: int| 0 <= i < items.len() ==> is_i32(#[trigger] items[i]),
        _ => false,
    }
}

pub open spec fn is_u32(v: JsonModel) -> bool {
    match v {
        JsonModel::Number(NumberModel::PosInt(n)) => n <= u32::MAX,
        _ => false,
    }
}

pub open spec fn is_bool(v: JsonModel) -> bool {
    v is Bool
}

/// The text of member `key` of `v`, where it is a string.
pub fn string_field(v: &JsonValue, key: &str) -> (r: Option<String>)
    ensures
        r.deep_view() == str_field(v@, key@),
{
    match v.get(key) {
        Some(x) => match x.as_str() {
            Some(s) => Some(s.clone()),
            None => None,
        },
        None => None,
    }
}

/// An optional text member: see `opt_str_field`.
pub fn opt_string_field(v: &JsonValue, key: &str) -> (r: Option<Option<String>>)
    ensures
        match r {
            Some(o) => opt_str_field(v@, key@) == Some(o.deep_view()),
            None => opt_str_field(v@, key@) is None,
        },
{
    match v.get(key) {
        None => Some(None),
        Some(JsonValue::Null) => Some(None),
        Some(JsonValue::String(s)) => Some(Some(s.clone())),
        Some(_) => None,
    }
}

/// The arguments of a file edit.
pub struct AmpEditFileToolCall {
    pub path: String,
    pub old_str: Option<String>,
    pub new_str: String,
}

pub struct EditModel {
    pub path: Seq<char>,
    pub old_text: Option<Seq<char>>,
    pub new_text: Seq<char>,
}

impl View for AmpEditFileToolCall {
    type V = EditModel;

    open spec fn view(&self) -> EditModel {
        EditModel {
            path: self.path@,
            old_text: self.old_str.deep_view(),
            new_text: self.new_str@,
        }
    }
}

/// The edit that a JSON input describes.
pub open spec fn edit_of(v: JsonModel) -> Option<EditModel> {
    match (str_field(v, "path"@), opt_str_field(v, "old_str"@), str_field(v, "new_str"@)) {
        (Some(p), Some(o), Some(n)) => Some(EditModel { path: p, old_text: o, new_text: n }),
        _ => None,
    }
}

impl AmpEditFileToolCall {
    pub fn from_json(v: &JsonValue) -> (r: Option<AmpEditFileToolCall>)
        ensures
            match r {
                Some(e) => edit_of(v@) == Some(e@),
                None => edit_of(v@) is None,
            },
    {
        let path = string_field(v, "path");
        let old_str = opt_string_field(v, "old_str");
        let new_str = string_field(v, "new_str");
        match (path, old_str, new_str) {
            (Some(path), Some(old_str), Some(new_str)) => Some(
                AmpEditFileToolCall { path, old_str, new_str },
            ),
            _ => None,
        }
    }

    pub fn duplicate(&self) -> (r: AmpEditFileToolCall)
        ensures
            r@ == self@,
    {
        let old_str = match &self.old_str {
            Some(s) => Some(s.clone()),
            None => None,
        };
        AmpEditFileToolCall { path: self.path.clone(), old_str, new_str: self.new_str.clone() }
    }
}

/// The state of a plan item as the agent writes it.
#[derive(Debug, Clone, Copy, PartialEq, Eq, Structural)]
pub enum AmpPlanTodoStatus {
    Completed,
    Todo,
    InProgress,
}

#[derive(Debug, Clone, Copy, PartialEq, Eq, Structural)]
pub enum AmpPlanTodoPriority {
    High,
    Medium,
    Low,
}

/// The state of a plan entry as the client shows it.
#[derive(Debug, Clone, Copy, PartialEq, Eq, Structural)]
pub enum PlanEntryStatus {
    Pending,
    InProgress,
    Completed,
}

#[derive(Debug, Clone, Copy, PartialEq, Eq, Structural)]
pub enum PlanEntryPriority {
    High,
    Medium,
    Low,
}

pub open spec fn status_of(s: Seq<char>) -> Option<AmpPlanTodoStatus> {
    if s == "completed"@ {
        Some(AmpPlanTodoStatus::Completed)
    } else if s == "todo"@ {
        Some(AmpPlanTodoStatus::Todo)
    } else if s == "in-progress"@ {
        Some(AmpPlanTodoStatus::InProgress)
    } else {
        None
    }
}

pub open spec fn priority_of(s: Seq<char>) -> Option<AmpPlanTodoPriority> {
    if s == "high"@ {
        Some(AmpPlanTodoPriority::High)
    } else if s == "medium"@ {
        Some(AmpPlanTodoPriority::Medium)
    } else if s == "low"@ {
        Some(AmpPlanTodoPriority::Low)
    } else {
        None
    }
}

pub open spec fn plan_status(s: AmpPlanTodoStatus) -> PlanEntryStatus {
    match s {
        AmpPlanTodoStatus::Completed => PlanEntryStatus::Completed,
        AmpPlanTodoStatus::Todo => PlanEntryStatus::Pending,
        AmpPlanTodoStatus::InProgress => PlanEntryStatus::InProgress,
    }
}

pub open spec fn plan_priority(p: AmpPlanTodoPriority) -> PlanEntryPriority {
    match p {
        AmpPlanTodoPriority::High => PlanEntryPriority::High,
        AmpPlanTodoPriority::Medium => PlanEntryPriority::Medium,
        AmpPlanTodoPriority::Low => PlanEntryPriority::Low,
    }
}

impl AmpPlanTodoStatus {
    pub fn from_name(s: &str) -> (r: Option<AmpPlanTodoStatus>)
        ensures
            r == status_of(s@),
    {
        if str_eq(s, "completed") {
            Some(AmpPlanTodoStatus::Completed)
        } else if str_eq(s, "todo") {
            Some(AmpPlanTodoStatus::Todo)
        } else if str_eq(s, "in-progress") {
            Some(AmpPlanTodoStatus::InProgress)
        } else {
            None
        }
    }

    pub fn to_acp_plan_status(&self) -> (r: PlanEntryStatus)
        ensures
            r == plan_status(*self),
    {
        match self {
            AmpPlanTodoStatus::Completed => PlanEntryStatus::Completed,
            AmpPlanTodoStatus::Todo => PlanEntryStatus::Pending,
            AmpPlanTodoStatus::InProgress => PlanEntryStatus::InProgress,
        }
    }
}

impl AmpPlanTodoPriority {
    pub fn from_name(s: &str) -> (r: Option<AmpPlanTodoPriority>)
        ensures
            r == priority_of(s@),
    {
        if str_eq(s, "high") {
            Some(AmpPlanTodoPriority::High)
        } else if str_eq(s, "medium") {
            Some(AmpPlanTodoPriority::Medium)
        } else if str_eq(s, "low") {
            Some(AmpPlanTodoPriority::Low)
        } else {
            None
        }
    }

    pub fn to_acp_plan_priority(&self) -> (r: PlanEntryPriority)
        ensures
            r == plan_priority(*self),
    {
        match self {
            AmpPlanTodoPriority::High => PlanEntryPriority::High,
            AmpPlanTodoPriority::Medium => PlanEntryPriority::Medium,
            AmpPlanTodoPriority::Low => PlanEntryPriority::Low,
        }
    }
}

/// One item of the agent's plan.
pub struct AmpPlanTodo {
    pub id: String,
    pub content: String,
    pub status: AmpPlanTodoStatus,
    pub priority: AmpPlanTodoPriority,
}

pub struct TodoModel {
    pub id: Seq<char>,
    pub content: Seq<char>,
    pub status: AmpPlanTodoStatus,
    pub priority: AmpPlanTodoPriority,
}

impl View for AmpPlanTodo {
    type V = TodoModel;

    open spec fn view(&self) -> TodoModel {
        TodoModel {
            id: self.id@,
            content: self.content@,
            status: self.status,
            priority: self.priority,
        }
    }
}

/// The plan item that a JSON object describes.
pub open spec fn todo_of(v: JsonModel) -> Option<TodoModel> {
    match (str_field(v, "id"@), str_field(v, "content"@), str_field(v, "status"@), str_field(
        v,
        "priority"@,
    )) {
        (Some(id), Some(content), Some(st), Some(pr)) => match (status_of(st), priority_of(pr)) {
            (Some(status), Some(priority)) => Some(TodoModel { id, content, status, priority }),
            _ => None,
        },
        _ => None,
    }
}

/// The plan items that a JSON array describes, where each element is one.
pub open spec fn todos_of(items: Seq<JsonModel>) -> Option<Seq<TodoModel>> {
    if forall|i: int| 0 <= i < items.len() ==> (#[trigger] todo_of(items[i])) is Some {
        Some(Seq::new(items.len(), |i: int| todo_of(items[i])->Some_0))
    } else {
        None
    }
}

/// The plan that a plan-write tool's JSON input describes.
pub open spec fn plan_of(v: JsonModel) -> Option<Seq<TodoModel>> {
    match member(v, "todos"@) {
        Some(JsonModel::Array(items)) => todos_of(items),
        _ => None,
    }
}

impl AmpPlanTodo {
    pub fn from_json(v: &JsonValue) -> (r: Option<AmpPlanTodo>)
        ensures
            match r {
                Some(t) => todo_of(v@) == Some(t@),
                None => todo_of(v@) is None,
            },
    {
        let id = string_field(v, "id");
        let content = string_field(v, "content");
        let status = string_field(v, "status");
        let priority = string_field(v, "priority");
        match (id, content, status, priority) {
            (Some(id), Some(content), Some(st), Some(pr)) => {
                let status = AmpPlanTodoStatus::from_name(st.as_str());
                let priority = AmpPlanTodoPriority::from_name(pr.as_str());
                match (status, priority) {
                    (Some(status), Some(priority)) => Some(
                        AmpPlanTodo { id, content, status, priority },
                    ),
                    _ => None,
                }
            },
            _ => None,
        }
    }
}

/// The input of the plan-write tool: the whole plan.
pub struct AmpPlanWriteToolCall {
    pub todos: Vec<AmpPlanTodo>,
}

pub open spec fn todos_model(v: Seq<AmpPlanTodo>) -> Seq<TodoModel> {
    v.map_values(|t: AmpPlanTodo| t@)
}

/// One entry of the plan that the client shows.
pub struct PlanEntry {
    pub content: String,
    pub status: PlanEntryStatus,
    pub priority: PlanEntryPriority,
}

pub struct Plan {
    pub entries: Vec<PlanEntry>,
}

pub struct PlanEntryModel {
    pub content: Seq<char>,
    pub status: PlanEntryStatus,
    pub priority: PlanEntryPriority,
}

impl View for PlanEntry {
    type V = PlanEntryModel;

    open spec fn view(&self) -> PlanEntryModel {
        PlanEntryModel { content: self.content@, status: self.status, priority: self.priority }
    }
}

impl View for Plan {
    type V = Seq<PlanEntryModel>;

    open spec fn view(&self) -> Seq<PlanEntryModel> {
        self.entries@.map_values(|e: PlanEntry| e@)
    }
}

/// The entry that the client shows for a plan item.
pub open spec fn entry_of(t: TodoModel) -> PlanEntryModel {
    PlanEntryModel {
        content: t.content,
        status: plan_status(t.status),
        priority: plan_priority(t.priority),
    }
}

/// The plan that the client shows for a list of plan items.
pub open spec fn plan_entries(todos: Seq<TodoModel>) -> Seq<PlanEntryModel> {
    todos.map_values(|t: TodoModel| entry_of(t))
}

impl AmpPlanWriteToolCall {
    #[verifier::loop_isolation(false)]
    pub fn from_json(v: &JsonValue) -> (r: Option<AmpPlanWriteToolCall>)
        ensures
            match r {
                Some(p) => plan_of(v@) == Some(todos_model(p.todos@)),
                None => plan_of(v@) is None,
            },
    {
        let items = match v.get("todos") {
            Some(JsonValue::Array(items)) => items,
            _ => return None,
        };
        let ghost models = match member(v@, "todos"@) {
            Some(JsonModel::Array(m)) => m,
            _ => Seq::empty(),
        };
        assert(models.len() == items.len());
        let mut todos: Vec<AmpPlanTodo> = Vec::new();
        let mut i: usize = 0;
        while i < items.len()
            invariant
                i <= items.len(),
                todos.len() == i,
                forall|k: int| 0 <= k < i ==> todo_of(models[k]) == Some((#[trigger] todos[k])@),
            decreases items.len() - i,
        {
            assert(models[i as int] == items[i as int]@);
            match AmpPlanTodo::from_json(&items[i]) {
                Some(t) => todos.push(t),
                None => {
                    assert(todo_of(models[i as int]) is None);
                    return None;
                },
            }
            i = i + 1;
        }
        assert forall|k: int| 0 <= k < models.len() implies (#[trigger] todo_of(models[k])) is Some by {
            assert(todo_of(models[k]) == Some(todos[k]@));
        }
        assert(todos_model(todos@) =~= Seq::new(
            models.len(),
            |k: int| todo_of(models[k])->Some_0,
        ));
        Some(AmpPlanWriteToolCall { todos })
    }

    /// The plan that the client shows: one entry per item, in order.
    pub fn to_acp_plan(&self) -> (r: Plan)
        ensures
            r@ == plan_entries(todos_model(self.todos@)),
    {
        let mut entries: Vec<PlanEntry> = Vec::new();
        let mut i: usize = 0;
        while i < self.todos.len()
            invariant
                i <= self.todos.len(),
                entries.len() == i,
                forall|k: int|
                    0 <= k < i ==> (#[trigger] entries[k])@ == entry_of(self.todos[k]@),
            decreases self.todos.len() - i,
        {
            let todo = &self.todos[i];
            entries.push(
                PlanEntry {
                    content: todo.content.clone(),
                    status: todo.status.to_acp_plan_status(),
                    priority: todo.priority.to_acp_plan_priority(),
                },
            );
            i = i + 1;
        }
        let r = Plan { entries };
        assert(r@ =~= plan_entries(todos_model(self.todos@)));
        r
    }
}

/// The integer that a JSON number with no fraction denotes.
pub open spec fn int_value(v: JsonModel) -> int {
    match v {
        JsonModel::Number(NumberModel::PosInt(n)) => n as int,
        JsonModel::Number(NumberModel::NegInt(n)) => n,
        _ => 0,
    }
}

/// The optional integer list under `key`, where it is absent, null, or a list
/// of `i32` values.
#[verifier::loop_isolation(false)]
pub fn opt_i32_array_field(v: &JsonValue, key: &str) -> (r: Option<Option<Vec<i32>>>)
    ensures
        r is Some <==> opt_field_ok(v@, key@, |x: JsonModel| is_i32_array(x)),
        r matches Some(Some(vs)) ==> member(v@, key@) matches Some(JsonModel::Array(items)) && vs@.len()
            == items.len() && forall|k: int| 0 <= k < vs@.len() ==> vs@[k] == int_value(
            #[trigger] items[k],
        ),
        r matches Some(None) ==> (member(v@, key@) is None || member(v@, key@) == Some(JsonModel::Null)),
{
    let items = match v.get(key) {
        None => return Some(None),
        Some(JsonValue::Null) => return Some(None),
        Some(JsonValue::Array(items)) => items,
        Some(_) => return None,
    };
    let ghost models = match member(v@, key@) {
        Some(JsonModel::Array(m)) => m,
        _ => Seq::empty(),
    };
    assert(models.len() == items.len());
    let mut out: Vec<i32> = Vec::new();
    let mut i: usize = 0;
    while i < items.len()
        invariant
            i <= items.len(),
            models.len() == items.len(),
            forall|k: int| 0 <= k < items.len() ==> #[trigger] models[k] == items[k]@,
            out@.len() == i,
            forall|k: int| 0 <= k < i ==> is_i32(#[trigger] models[k]),
            forall|k: int| 0 <= k < i ==> out@[k] == int_value(#[trigger] models[k]),
        decreases items.len() - i,
    {
        let n: i32 = match &items[i] {
            JsonValue::Number(JsonNumber::PosInt(n)) => {
                if *n > 0x7fff_ffff {
                    assert(!is_i32(models[i as int]));
                    return None;
                }
                *n as i32
            },
            JsonValue::Number(JsonNumber::NegInt(n)) => {
                if *n < -0x8000_0000 || *n > 0x7fff_ffff {
                    assert(!is_i32(models[i as int]));
                    return None;
                }
                *n as i32
            },
            _ => {
                assert(!is_i32(models[i as int]));
                return None;
            },
        };
        assert(n as int == int_value(models[i as int]));
        out.push(n);
        i = i + 1;
    }
    assert(is_i32_array(JsonModel::Array(models)));
    Some(Some(out))
}

/// The optional `u32` under `key`: `Some(None)` where it is absent or null.
pub fn opt_u32_field(v: &JsonValue, key: &str) -> (r: Option<Option<u32>>)
    ensures
        r is Some <==> opt_field_ok(v@, key@, |x: JsonModel| is_u32(x)),
        r matches Some(Some(n)) ==> member(v@, key@) == Some(
            JsonModel::Number(NumberModel::PosInt(n as nat)),
        ),
        r matches Some(None) ==> (member(v@, key@) is None || member(v@, key@) == Some(JsonModel::Null)),
{
    match v.get(key) {
        None => Some(None),
        Some(JsonValue::Null) => Some(None),
        Some(JsonValue::Number(JsonNumber::PosInt(n))) => {
            if *n > 0xffff_ffff {
                None
            } else {
                Some(Some(*n as u32))
            }
        },
        Some(_) => None,
    }
}

/// The optional flag under `key`: `Some(None)` where it is absent or null.
pub fn opt_bool_field(v: &JsonValue, key: &str) -> (r: Option<Option<bool>>)
    ensures
        r is Some <==> opt_field_ok(v@, key@, |x: JsonModel| is_bool(x)),
        r matches Some(Some(b)) ==> member(v@, key@) == Some(JsonModel::Bool(b)),
        r matches Some(None) ==> (member(v@, key@) is None || member(v@, key@) == Some(JsonModel::Null)),
{
    match v.get(key) {
        None => Some(None),
        Some(JsonValue::Null) => Some(None),
        Some(JsonValue::Bool(b)) => Some(Some(*b)),
        Some(_) => None,
    }
}

/// The arguments of a file read.
pub struct AmpReadToolInput {
    pub path: String,
    pub read_range: Option<Vec<i32>>,
}

/// The path that a file-read tool's JSON input names, where the input is
/// well formed.
pub open spec fn read_input_of(v: JsonModel) -> Option<Seq<char>> {
    if opt_field_ok(v, "read_range"@, |x: JsonModel| is_i32_array(x)) {
        str_field(v, "path"@)
    } else {
        None
    }
}

impl AmpReadToolInput {
    pub fn from_json(v: &JsonValue) -> (r: Option<AmpReadToolInput>)
        ensures
            match r {
                Some(t) => read_input_of(v@) == Some(t.path@),
                None => read_input_of(v@) is None,
            },
    {
        let path = string_field(v, "path");
        let read_range = opt_i32_array_field(v, "read_range");
        match (path, read_range) {
            (Some(path), Some(read_range)) => Some(AmpReadToolInput { path, read_range }),
            _ => None,
        }
    }
}

/// The arguments of a file creation.
pub struct AmpCreateToolInput {
    pub path: String,
    pub content: String,
}

/// The path and content that a file-creation tool's JSON input holds.
pub open spec fn create_input_of(v: JsonModel) -> Option<(Seq<char>, Seq<char>)> {
    match (str_field(v, "path"@), str_field(v, "content"@)) {
        (Some(p), Some(c)) => Some((p, c)),
        _ => None,
    }
}

impl AmpCreateToolInput {
    pub fn from_json(v: &JsonValue) -> (r: Option<AmpCreateToolInput>)
        ensures
            match r {
                Some(t) => create_input_of(v@) == Some((t.path@, t.content@)),
                None => create_input_of(v@) is None,
            },
    {
        let path = string_field(v, "path");
        let content = string_field(v, "content");
        match (path, content) {
            (Some(path), Some(content)) => Some(AmpCreateToolInput { path, content }),
            _ => None,
        }
    }
}

/// The arguments of a shell command.
pub struct AmpBashToolInput {
    pub cmd: String,
    pub cwd: Option<String>,
}

/// The command that a shell tool's JSON input holds.
pub open spec fn bash_input_of(v: JsonModel) -> Option<Seq<char>> {
    match (str_field(v, "cmd"@), opt_str_field(v, "cwd"@)) {
        (Some(c), Some(_)) => Some(c),
        _ => None,
    }
}

impl AmpBashToolInput {
    pub fn from_json(v: &JsonValue) -> (r: Option<AmpBashToolInput>)
        ensures
            match r {
                Some(t) => bash_input_of(v@) == Some(t.cmd@) && opt_str_field(v@, "cwd"@) == Some(
                    t.cwd.deep_view(),
                ),
                None => bash_input_of(v@) is None,
            },
    {
        let cmd = string_field(v, "cmd");
        let cwd = opt_string_field(v, "cwd");
        match (cmd, cwd) {
            (Some(cmd), Some(cwd)) => Some(AmpBashToolInput { cmd, cwd }),
            _ => None,
        }
    }
}

/// The arguments of a web search.
pub struct AmpWebSearchToolInput {
    pub query: String,
    pub max_results: Option<u32>,
}

/// The query that a web-search tool's JSON input holds.
pub open spec fn search_input_of(v: JsonModel) -> Option<Seq<char>> {
    if opt_field_ok(v, "max_results"@, |x: JsonModel| is_u32(x)) {
        str_field(v, "query"@)
    } else {
        None
    }
}

impl AmpWebSearchToolInput {
    pub fn from_json(v: &JsonValue) -> (r: Option<AmpWebSearchToolInput>)
        ensures
            match r {
                Some(t) => search_input_of(v@) == Some(t.query@),
                None => search_input_of(v@) is None,
            },
    {
        let query = string_field(v, "query");
        let max_results = opt_u32_field(v, "max_results");
        match (query, max_results) {
            (Some(query), Some(max_results)) => Some(AmpWebSearchToolInput { query, max_results }),
            _ => None,
        }
    }
}

/// The arguments of a web page read.
pub struct AmpWebReadToolInput {
    pub url: String,
    pub prompt: Option<String>,
    pub raw: Option<bool>,
}

/// The address that a web-read tool's JSON input holds.
pub open spec fn web_read_input_of(v: JsonModel) -> Option<Seq<char>> {
    if opt_str_field(v, "prompt"@) is Some && opt_field_ok(
        v,
        "raw"@,
        |x: JsonModel| is_bool(x),
    ) {
        str_field(v, "url"@)
    } else {
        None
    }
}

impl AmpWebReadToolInput {
    pub fn from_json(v: &JsonValue) -> (r: Option<AmpWebReadToolInput>)
        ensures
            match r {
                Some(t) => web_read_input_of(v@) == Some(t.url@),
                None => web_read_input_of(v@) is None,
            },
    {
        let url = string_field(v, "url");
        let prompt = opt_string_field(v, "prompt");
        let raw = opt_bool_field(v, "raw");
        match (url, prompt, raw) {
            (Some(url), Some(prompt), Some(raw)) => Some(AmpWebReadToolInput { url, prompt, raw }),
            _ => None,
        }
    }
}

} // verus!
