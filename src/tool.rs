//! The agent's tool identifiers and their place in the client's tool-kind
//! vocabulary.
use vstd::prelude::*;
use crate::text::str_eq;

verus! {

/// A tool that the agent may invoke, by its wire identifier; `Other` stands
/// for every identifier outside the table.
#[derive(Debug, Clone, Copy, PartialEq, Eq, Structural)]
pub enum AmpTool {
    Bash,
    CreateFile,
    EditFile,
    Finder,
    Glob,
    Grep,
    Mermaid,
    Oracle,
    Read,
    ReadMcpResource,
    ReadWebPage,
    Task,
    TodoRead,
    TodoWrite,
    UndoEdit,
    WebSearch,
    Other,
}

/// The category of a tool call that the client shows.
#[derive(Debug, Clone, Copy, PartialEq, Eq, Structural)]
pub enum ToolKind {
    Read,
    Edit,
    Delete,
    Move,
    Search,
    Execute,
    Think,
    Fetch,
    Other,
}

/// The tool that a wire identifier names.
pub open spec fn tool_of_name(s: Seq<char>) -> AmpTool {
    if s == "Bash"@ {
        AmpTool::Bash
    } else if s == "create_file"@ {
        AmpTool::CreateFile
    } else if s == "edit_file"@ {
        AmpTool::EditFile
    } else if s == "finder"@ {
        AmpTool::Finder
    } else if s == "glob"@ {
        AmpTool::Glob
    } else if s == "Grep"@ {
        AmpTool::Grep
    } else if s == "mermaid"@ {
        AmpTool::Mermaid
    } else if s == "oracle"@ {
        AmpTool::Oracle
    } else if s == "Read"@ {
        AmpTool::Read
    } else if s == "read_mcp_resource"@ {
        AmpTool::ReadMcpResource
    } else if s == "read_web_page"@ {
        AmpTool::ReadWebPage
    } else if s == "Task"@ {
        AmpTool::Task
    } else if s == "todo_read"@ {
        AmpTool::TodoRead
    } else if s == "todo_write"@ {
        AmpTool::TodoWrite
    } else if s == "undo_edit"@ {
        AmpTool::UndoEdit
    } else if s == "web_search"@ {
        AmpTool::WebSearch
    } else {
        AmpTool::Other
    }
}

/// Whether a wire identifier stands in the tool table.
pub open spec fn is_listed_tool(s: Seq<char>) -> bool {
    tool_of_name(s) != AmpTool::Other
}

/// The tool kind of each tool.
pub open spec fn kind_of_tool(t: AmpTool) -> ToolKind {
    match t {
        AmpTool::Bash => ToolKind::Execute,
        AmpTool::CreateFile => ToolKind::Edit,
        AmpTool::EditFile => ToolKind::Edit,
        AmpTool::Finder => ToolKind::Search,
        AmpTool::Glob => ToolKind::Execute,
        AmpTool::Grep => ToolKind::Execute,
        AmpTool::Mermaid => ToolKind::Other,
        AmpTool::Oracle => ToolKind::Think,
        AmpTool::Read => ToolKind::Read,
        AmpTool::ReadMcpResource => ToolKind::Fetch,
        AmpTool::ReadWebPage => ToolKind::Fetch,
        AmpTool::Task => ToolKind::Think,
        AmpTool::TodoRead => ToolKind::Think,
        AmpTool::TodoWrite => ToolKind::Think,
        AmpTool::UndoEdit => ToolKind::Edit,
        AmpTool::WebSearch => ToolKind::Search,
        AmpTool::Other => ToolKind::Other,
    }
}

/// The caption shown for a call of each tool.
pub open spec fn tool_caption(t: AmpTool) -> Seq<char> {
    match t {
        AmpTool::Oracle => "Consulting the Oracle"@,
        AmpTool::Read => "Reading file"@,
        AmpTool::ReadMcpResource => "Read mcp resource"@,
        AmpTool::ReadWebPage => "Read webpage"@,
        AmpTool::Task => "Task"@,
        AmpTool::TodoRead => "Todo read"@,
        AmpTool::TodoWrite => "Todo write"@,
        AmpTool::UndoEdit => "Undo edit"@,
        AmpTool::WebSearch => "Web search"@,
        AmpTool::Other => "Unknown"@,
        AmpTool::Bash => "Bash"@,
        AmpTool::CreateFile => "Creating file"@,
        AmpTool::EditFile => "Editing file"@,
        AmpTool::Finder => "Finder"@,
        AmpTool::Glob => "Glob"@,
        AmpTool::Grep => "Grep"@,
        AmpTool::Mermaid => "Mermaid"@,
    }
}

impl AmpTool {
    /// The tool that a wire identifier names; `Other` for any identifier
    /// outside the table.
    pub fn from_name(name: &str) -> (r: AmpTool)
        ensures
            r == tool_of_name(name@),
    {
        if str_eq(name, "Bash") {
            AmpTool::Bash
        } else if str_eq(name, "create_file") {
            AmpTool::CreateFile
        } else if str_eq(name, "edit_file") {
            AmpTool::EditFile
        } else if str_eq(name, "finder") {
            AmpTool::Finder
        } else if str_eq(name, "glob") {
            AmpTool::Glob
        } else if str_eq(name, "Grep") {
            AmpTool::Grep
        } else if str_eq(name, "mermaid") {
            AmpTool::Mermaid
        } else if str_eq(name, "oracle") {
            AmpTool::Oracle
        } else if str_eq(name, "Read") {
            AmpTool::Read
        } else if str_eq(name, "read_mcp_resource") {
            AmpTool::ReadMcpResource
        } else if str_eq(name, "read_web_page") {
            AmpTool::ReadWebPage
        } else if str_eq(name, "Task") {
            AmpTool::Task
        } else if str_eq(name, "todo_read") {
            AmpTool::TodoRead
        } else if str_eq(name, "todo_write") {
            AmpTool::TodoWrite
        } else if str_eq(name, "undo_edit") {
            AmpTool::UndoEdit
        } else if str_eq(name, "web_search") {
            AmpTool::WebSearch
        } else {
            AmpTool::Other
        }
    }

    /// The caption shown for a call of this tool.
    pub fn to_string(&self) -> (r: String)
        ensures
            r@ == tool_caption(*self),
    {
        let s = match self {
            AmpTool::Oracle => "Consulting the Oracle",
            AmpTool::Read => "Reading file",
            AmpTool::ReadMcpResource => "Read mcp resource",
            AmpTool::ReadWebPage => "Read webpage",
            AmpTool::Task => "Task",
            AmpTool::TodoRead => "Todo read",
            AmpTool::TodoWrite => "Todo write",
            AmpTool::UndoEdit => "Undo edit",
            AmpTool::WebSearch => "Web search",
            AmpTool::Other => "Unknown",
            AmpTool::Bash => "Bash",
            AmpTool::CreateFile => "Creating file",
            AmpTool::EditFile => "Editing file",
            AmpTool::Finder => "Finder",
            AmpTool::Glob => "Glob",
            AmpTool::Grep => "Grep",
            AmpTool::Mermaid => "Mermaid",
        };
        String::from_str(s)
    }
}

/// The tool kind under which a call of `amp_tool` is shown.
pub fn amp_tool_to_tool_kind(amp_tool: &AmpTool) -> (r: ToolKind)
    ensures
        r == kind_of_tool(*amp_tool),
{
    match amp_tool {
        AmpTool::Bash => ToolKind::Execute,
        AmpTool::CreateFile => ToolKind::Edit,
        AmpTool::EditFile => ToolKind::Edit,
        AmpTool::Finder => ToolKind::Search,
        AmpTool::Glob => ToolKind::Execute,
        AmpTool::Grep => ToolKind::Execute,
        AmpTool::Mermaid => ToolKind::Other,
        AmpTool::Oracle => ToolKind::Think,
        AmpTool::Read => ToolKind::Read,
        AmpTool::ReadMcpResource => ToolKind::Fetch,
        AmpTool::ReadWebPage => ToolKind::Fetch,
        AmpTool::Task => ToolKind::Think,
        AmpTool::TodoRead => ToolKind::Think,
        AmpTool::TodoWrite => ToolKind::Think,
        AmpTool::UndoEdit => ToolKind::Edit,
        AmpTool::WebSearch => ToolKind::Search,
        AmpTool::Other => ToolKind::Other,
    }
}

impl ToolKind {
    /// The tool kind for a raw tool identifier: the table's entry, or
    /// `Other` for any identifier outside the table.
    pub fn amp_tool_to_tool_kind(amp_tool: &str) -> (r: ToolKind)
        ensures
            r == kind_of_tool(tool_of_name(amp_tool@)),
            !is_listed_tool(amp_tool@) ==> r == ToolKind::Other,
    {
        amp_tool_to_tool_kind(&AmpTool::from_name(amp_tool))
    }
}

/// Every identifier outside the tool table is shown with kind `Other`.
pub proof fn lemma_unlisted_tool_is_other(s: Seq<char>)
    requires
        !is_listed_tool(s),
    ensures
        kind_of_tool(tool_of_name(s)) == ToolKind::Other,
{
}

} // verus!
