//! The updates that the bridge sends to the client.
use vstd::prelude::*;
use crate::inputs::{Plan, PlanEntryModel};
use crate::json::{JsonModel, JsonValue};
use crate::tool::ToolKind;

verus! {

pub struct TextContentBlock {
    pub text: String,
}

/// A piece of a message's text.
pub struct AgentMessageChunk {
    pub content: TextContentBlock,
}

/// A piece of the agent's reasoning.
pub struct AgentThoughtChunk {
    pub content: TextContentBlock,
}

#[derive(Debug, Clone, Copy, PartialEq, Eq, Structural)]
pub enum ToolCallStatus {
    Pending,
    InProgress,
    Completed,
    Failed,
}

/// Text attached to a tool call.
pub struct AgentToolCallResultContentBlock {
    pub content: TextContentBlock,
}

/// A file edit attached to a tool call.
pub struct AgentToolCallResultDiffBlock {
    pub path: String,
    pub old_text: Option<String>,
    pub new_text: String,
}

/// What a tool call shows.
pub enum AgentToolCallResultContent {
    Content(AgentToolCallResultContentBlock),
    Diff(AgentToolCallResultDiffBlock),
    /// A tool's raw JSON output, which the client is shown as JSON text.
    Payload(JsonValue),
}

/// A place in a file that a tool call touched; `line` where it is known.
pub struct ToolCallLocation {
    pub path: String,
    pub line: Option<u32>,
}

/// A tool call that has started.
pub struct ToolCall {
    pub tool_call_id: String,
    pub title: String,
    pub kind: ToolKind,
    pub status: ToolCallStatus,
    pub content: Vec<AgentToolCallResultContent>,
    pub locations: Vec<ToolCallLocation>,
    pub meta: Option<JsonValue>,
}

/// A change to a tool call that started earlier.
pub struct ToolCallUpdate {
    pub tool_call_id: String,
    pub status: ToolCallStatus,
    pub content: Vec<AgentToolCallResultContent>,
    pub locations: Option<Vec<ToolCallLocation>>,
}

/// One update for the client.
pub enum SessionUpdate {
    UserMessageChunk(AgentMessageChunk),
    AgentMessageChunk(AgentMessageChunk),
    AgentThoughtChunk(AgentThoughtChunk),
    ToolCall(ToolCall),
    ToolCallUpdate(ToolCallUpdate),
    Plan(Plan),
}

pub enum ContentModel {
    Text(Seq<char>),
    Diff { path: Seq<char>, old_text: Option<Seq<char>>, new_text: Seq<char> },
    Payload(JsonModel),
}

pub struct LocationModel {
    pub path: Seq<char>,
    pub line: Option<u32>,
}

pub enum UpdateModel {
    UserMessage(Seq<char>),
    AgentMessage(Seq<char>),
    AgentThought(Seq<char>),
    ToolCall {
        id: Seq<char>,
        title: Seq<char>,
        kind: ToolKind,
        status: ToolCallStatus,
        content: Seq<ContentModel>,
        locations: Seq<LocationModel>,
        meta: Option<JsonModel>,
    },
    ToolCallUpdate {
        id: Seq<char>,
        status: ToolCallStatus,
        content: Seq<ContentModel>,
        changed_locations: Option<Seq<LocationModel>>,
    },
    Plan(Seq<PlanEntryModel>),
}

impl View for AgentToolCallResultContent {
    type V = ContentModel;

    open spec fn view(&self) -> ContentModel {
        match self {
            AgentToolCallResultContent::Content(c) => ContentModel::Text(c.content.text@),
            AgentToolCallResultContent::Diff(d) => ContentModel::Diff {
                path: d.path@,
                old_text: d.old_text.deep_view(),
                new_text: d.new_text@,
            },
            AgentToolCallResultContent::Payload(v) => ContentModel::Payload(v@),
        }
    }
}

impl View for ToolCallLocation {
    type V = LocationModel;

    open spec fn view(&self) -> LocationModel {
        LocationModel { path: self.path@, line: self.line }
    }
}

pub open spec fn contents_model(v: Seq<AgentToolCallResultContent>) -> Seq<ContentModel> {
    v.map_values(|c: AgentToolCallResultContent| c@)
}

pub open spec fn locations_model(v: Seq<ToolCallLocation>) -> Seq<LocationModel> {
    v.map_values(|l: ToolCallLocation| l@)
}

pub open spec fn json_opt_model(v: Option<JsonValue>) -> Option<JsonModel> {
    match v {
        Some(j) => Some(j@),
        None => None,
    }
}

impl View for SessionUpdate {
    type V = UpdateModel;

    open spec fn view(&self) -> UpdateModel {
        match self {
            SessionUpdate::UserMessageChunk(c) => UpdateModel::UserMessage(c.content.text@),
            SessionUpdate::AgentMessageChunk(c) => UpdateModel::AgentMessage(c.content.text@),
            SessionUpdate::AgentThoughtChunk(c) => UpdateModel::AgentThought(c.content.text@),
            SessionUpdate::ToolCall(t) => UpdateModel::ToolCall {
                id: t.tool_call_id@,
                title: t.title@,
                kind: t.kind,
                status: t.status,
                content: contents_model(t.content@),
                locations: locations_model(t.locations@),
                meta: json_opt_model(t.meta),
            },
            SessionUpdate::ToolCallUpdate(u) => UpdateModel::ToolCallUpdate {
                id: u.tool_call_id@,
                status: u.status,
                content: contents_model(u.content@),
                changed_locations: match u.locations {
                    Some(l) => Some(locations_model(l@)),
                    None => None,
                },
            },
            SessionUpdate::Plan(p) => UpdateModel::Plan(p@),
        }
    }
}

pub open spec fn updates_model(v: Seq<SessionUpdate>) -> Seq<UpdateModel> {
    v.map_values(|u: SessionUpdate| u@)
}

} // verus!
