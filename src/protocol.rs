//! The messages of the JSON-RPC variant of the bridge, and the agent
//! settings that name the client's MCP servers.
use vstd::prelude::*;
use crate::json::{JsonModel, JsonValue};
use crate::text::{chars_of, str_eq};
use crate::update::SessionUpdate;

verus! {

pub struct JsonRPCResponse<T> {
    pub jsonrpc: String,
    pub id: u32,
    pub result: T,
}

impl<T> JsonRPCResponse<T> {
    /// A JSON-RPC 2.0 response to request `id`.
    pub fn new(id: u32, result: T) -> (r: JsonRPCResponse<T>)
        ensures
            r.jsonrpc@ == "2.0"@,
            r.id == id,
            r.result == result,
    {
        JsonRPCResponse { jsonrpc: String::from_str("2.0"), id, result }
    }
}

#[derive(Debug, Clone, Copy, PartialEq, Eq, Structural)]
pub enum JsonRPCResponseMethod {
    SessionUpdate,
}

/// A notification from the agent to the client.
pub struct AgentJsonRpcResponse<T> {
    pub jsonrpc: String,
    pub method: JsonRPCResponseMethod,
    pub params: T,
}

/// The parameters of a session update notification.
pub struct SessionUpdateResponse {
    pub session_id: String,
    pub update: SessionUpdate,
}

impl AgentJsonRpcResponse<SessionUpdateResponse> {
    /// The notification that carries `update` for session `session_id`.
    pub fn session_update(session_id: &String, update: SessionUpdate) -> (r:
        AgentJsonRpcResponse<SessionUpdateResponse>)
        ensures
            r.jsonrpc@ == "2.0"@,
            r.method == JsonRPCResponseMethod::SessionUpdate,
            r.params.session_id@ == session_id@,
            r.params.update == update,
    {
        AgentJsonRpcResponse {
            jsonrpc: String::from_str("2.0"),
            method: JsonRPCResponseMethod::SessionUpdate,
            params: SessionUpdateResponse { session_id: session_id.clone(), update },
        }
    }
}

pub struct FileSystemCapabilities {
    pub read_text_file: bool,
    pub write_text_file: bool,
}

pub struct ClientCapabilities {
    pub fs: FileSystemCapabilities,
    pub terminal: bool,
}

pub struct InitializeRequest {
    pub protocol_version: u32,
    pub client_capabilities: ClientCapabilities,
}

pub struct PromptCapabilities {
    pub image: bool,
    pub video: bool,
    pub embeded_context: bool,
}

pub struct MCP {
    pub http: bool,
    pub sse: bool,
}

pub struct AgentCapabilities {
    pub load_session: bool,
    pub prompt_capabilities: PromptCapabilities,
    pub mcp: MCP,
}

pub struct InitializeResponse {
    pub protocol_version: u32,
    pub agent_capabilities: AgentCapabilities,
    pub auth_methods: Vec<String>,
}

impl InitializeResponse {
    /// What the bridge answers to `initialize`: protocol version 1, sessions
    /// can be loaded, prompts are text only, no MCP transports, and no
    /// authentication.
    pub fn for_bridge() -> (r: InitializeResponse)
        ensures
            r.protocol_version == 1,
            r.agent_capabilities.load_session,
            !r.agent_capabilities.prompt_capabilities.image,
            !r.agent_capabilities.prompt_capabilities.video,
            !r.agent_capabilities.prompt_capabilities.embeded_context,
            !r.agent_capabilities.mcp.http,
            !r.agent_capabilities.mcp.sse,
            r.auth_methods@.len() == 0,
    {
        InitializeResponse {
            protocol_version: 1,
            agent_capabilities: AgentCapabilities {
                load_session: true,
                prompt_capabilities: PromptCapabilities {
                    image: false,
                    video: false,
                    embeded_context: false,
                },
                mcp: MCP { http: false, sse: false },
            },
            auth_methods: Vec::new(),
        }
    }
}

pub struct EnvironmentVariable {
    pub name: String,
    pub value: String,
}

/// An MCP server that the client runs as a command.
pub struct MCPServer {
    pub name: String,
    pub command: String,
    pub args: Vec<String>,
    pub env: Vec<EnvironmentVariable>,
}

pub struct NewSessionRequest {
    pub cwd: String,
    pub mcp_servers: Vec<MCPServer>,
}

pub struct NewSessionResponse {
    pub session_id: String,
}

/// `s` with every line break removed.
pub open spec fn without_newlines(s: Seq<char>) -> Seq<char>
    decreases s.len(),
{
    if s.len() == 0 {
        s
    } else if s.last() == '\n' {
        without_newlines(s.drop_last())
    } else {
        without_newlines(s.drop_last()).push(s.last())
    }
}

impl NewSessionResponse {
    /// The session that the agent's `threads new` command printed: its
    /// output with line breaks removed.
    pub fn from_output(output: &str) -> (r: NewSessionResponse)
        ensures
            r.session_id@ == without_newlines(output@),
    {
        let cs = chars_of(output);
        let mut id = String::new();
        let mut i: usize = 0;
        while i < cs.len()
            invariant
                cs@ == output@,
                i <= cs.len(),
                id@ == without_newlines(output@.take(i as int)),
            decreases cs.len() - i,
        {
            assert(output@.take(i + 1).drop_last() =~= output@.take(i as int));
            if cs[i] != '\n' {
                id.append(output.substring_char(i, i + 1));
                assert(output@.subrange(i as int, i + 1) =~= seq![cs@[i as int]]);
            }
            i = i + 1;
        }
        assert(output@.take(cs.len() as int) =~= output@);
        NewSessionResponse { session_id: id }
    }
}

pub struct EndTurnResponse {
    pub stop_reason: String,
}

impl EndTurnResponse {
    /// The answer to a prompt once the agent's turn is over.
    pub fn end_turn() -> (r: EndTurnResponse)
        ensures
            r.stop_reason@ == "end_turn"@,
    {
        EndTurnResponse { stop_reason: String::from_str("end_turn") }
    }
}

/// A header that an MCP server over HTTP is sent.
pub struct HttpHeader {
    pub name: String,
    pub value: String,
}

/// An MCP server as the client describes it.
pub enum McpServer {
    Stdio { name: String, command: String, args: Vec<String>, env: Vec<EnvironmentVariable> },
    Http { name: String, url: String, headers: Vec<HttpHeader> },
    Sse { name: String, url: String, headers: Vec<HttpHeader> },
}

/// The settings key under which the agent reads its MCP servers.
pub open spec fn servers_key() -> Seq<char> {
    "amp.mcpServers"@
}

/// A JSON object of string members, one per name-value pair, in order.
pub open spec fn string_object(pairs: Seq<(Seq<char>, Seq<char>)>) -> JsonModel {
    JsonModel::Object(pairs.map_values(|p: (Seq<char>, Seq<char>)| (p.0, JsonModel::String(p.1))))
}

pub open spec fn env_pairs(env: Seq<EnvironmentVariable>) -> Seq<(Seq<char>, Seq<char>)> {
    env.map_values(|e: EnvironmentVariable| (e.name@, e.value@))
}

pub open spec fn header_pairs(headers: Seq<HttpHeader>) -> Seq<(Seq<char>, Seq<char>)> {
    headers.map_values(|h: HttpHeader| (h.name@, h.value@))
}

pub open spec fn strings_array(v: Seq<String>) -> JsonModel {
    JsonModel::Array(v.map_values(|s: String| JsonModel::String(s@)))
}

/// The settings entry for one server: its name, and how the agent reaches
/// it.
pub open spec fn server_entry(s: McpServer) -> (Seq<char>, JsonModel) {
    match s {
        McpServer::Stdio { name, command, args, env } => (
            name@,
            JsonModel::Object(
                seq![
                    ("command"@, JsonModel::String(command@)),
                    ("args"@, strings_array(args@)),
                    ("env"@, string_object(env_pairs(env@))),
                ],
            ),
        ),
        McpServer::Http { name, url, headers } => (
            name@,
            JsonModel::Object(
                seq![
                    ("type"@, JsonModel::String("http"@)),
                    ("url"@, JsonModel::String(url@)),
                    ("headers"@, string_object(header_pairs(headers@))),
                ],
            ),
        ),
        McpServer::Sse { name, url, headers } => (
            name@,
            JsonModel::Object(
                seq![
                    ("type"@, JsonModel::String("sse"@)),
                    ("url"@, JsonModel::String(url@)),
                    ("headers"@, string_object(header_pairs(headers@))),
                ],
            ),
        ),
    }
}

/// Whether a member is named other than `key`.
pub open spec fn named_other_than(key: Seq<char>) -> spec_fn((Seq<char>, JsonModel)) -> bool {
    |m: (Seq<char>, JsonModel)| m.0 != key
}

/// `members` with every member named `key` dropped and `(key, v)` added last.
pub open spec fn with_member(
    members: Seq<(Seq<char>, JsonModel)>,
    key: Seq<char>,
    v: JsonModel,
) -> Seq<(Seq<char>, JsonModel)> {
    members.filter(named_other_than(key)).push((key, v))
}

/// The agent's settings with its MCP servers replaced by `servers`: settings
/// that are an object keep their other members, absent settings (null) become
/// an object; settings of any other shape cannot take the entry.
pub open spec fn settings_with_servers(config: JsonModel, servers: Seq<McpServer>) -> Option<
    JsonModel,
> {
    let entry = JsonModel::Object(servers.map_values(|s: McpServer| server_entry(s)));
    match config {
        JsonModel::Object(members) => Some(JsonModel::Object(with_member(members, servers_key(), entry))),
        JsonModel::Null => Some(JsonModel::Object(seq![(servers_key(), entry)])),
        _ => None,
    }
}

fn string_pairs_object(names: &Vec<String>, values: &Vec<String>) -> (r: JsonValue)
    requires
        names.len() == values.len(),
    ensures
        r@ == JsonModel::Object(
            Seq::new(
                names.len() as nat,
                |i: int| (names@[i]@, JsonModel::String(values@[i]@)),
            ),
        ),
{
    let mut members: Vec<(String, JsonValue)> = Vec::new();
    let mut i: usize = 0;
    while i < names.len()
        invariant
            names.len() == values.len(),
            i <= names.len(),
            members.len() == i,
            forall|k: int|
                0 <= k < i ==> (#[trigger] members@[k]).0@ == names@[k]@ && members@[k].1@
                    == JsonModel::String(values@[k]@),
        decreases names.len() - i,
    {
        members.push((names[i].clone(), JsonValue::String(values[i].clone())));
        i = i + 1;
    }
    let r = JsonValue::Object(members);
    proof {
        if let JsonModel::Object(ms) = r@ {
            assert(ms =~= Seq::new(
                names.len() as nat,
                |i: int| (names@[i]@, JsonModel::String(values@[i]@)),
            ));
        }
    }
    r
}

fn env_object(env: &Vec<EnvironmentVariable>) -> (r: JsonValue)
    ensures
        r@ == string_object(env_pairs(env@)),
{
    let mut names: Vec<String> = Vec::new();
    let mut values: Vec<String> = Vec::new();
    let mut i: usize = 0;
    while i < env.len()
        invariant
            i <= env.len(),
            names.len() == i,
            values.len() == i,
            forall|k: int|
                0 <= k < i ==> (#[trigger] names@[k])@ == env@[k].name@ && values@[k]@
                    == env@[k].value@,
        decreases env.len() - i,
    {
        names.push(env[i].name.clone());
        values.push(env[i].value.clone());
        i = i + 1;
    }
    let r = string_pairs_object(&names, &values);
    proof {
        if let JsonModel::Object(ms) = r@ {
            assert(ms =~= string_object(env_pairs(env@))->Object_0);
        }
    }
    r
}

fn header_object(headers: &Vec<HttpHeader>) -> (r: JsonValue)
    ensures
        r@ == string_object(header_pairs(headers@)),
{
    let mut names: Vec<String> = Vec::new();
    let mut values: Vec<String> = Vec::new();
    let mut i: usize = 0;
    while i < headers.len()
        invariant
            i <= headers.len(),
            names.len() == i,
            values.len() == i,
            forall|k: int|
                0 <= k < i ==> (#[trigger] names@[k])@ == headers@[k].name@ && values@[k]@
                    == headers@[k].value@,
        decreases headers.len() - i,
    {
        names.push(headers[i].name.clone());
        values.push(headers[i].value.clone());
        i = i + 1;
    }
    let r = string_pairs_object(&names, &values);
    proof {
        if let JsonModel::Object(ms) = r@ {
            assert(ms =~= string_object(header_pairs(headers@))->Object_0);
        }
    }
    r
}

fn strings_json(v: &Vec<String>) -> (r: JsonValue)
    ensures
        r@ == strings_array(v@),
{
    let mut items: Vec<JsonValue> = Vec::new();
    let mut i: usize = 0;
    while i < v.len()
        invariant
            i <= v.len(),
            items.len() == i,
            forall|k: int| 0 <= k < i ==> (#[trigger] items@[k])@ == JsonModel::String(v@[k]@),
        decreases v.len() - i,
    {
        items.push(JsonValue::String(v[i].clone()));
        i = i + 1;
    }
    let r = JsonValue::Array(items);
    proof {
        if let JsonModel::Array(xs) = r@ {
            assert(xs =~= strings_array(v@)->Array_0);
        }
    }
    r
}

fn entry_for(s: &McpServer) -> (r: (String, JsonValue))
    ensures
        (r.0@, r.1@) == server_entry(*s),
{
    match s {
        McpServer::Stdio { name, command, args, env } => {
            let k0 = String::from_str("command");
            let k1 = String::from_str("args");
            let k2 = String::from_str("env");
            let members = vec![
                (k0, JsonValue::String(command.clone())),
                (k1, strings_json(args)),
                (k2, env_object(env)),
            ];
            let v = JsonValue::Object(members);
            proof {
                reveal_with_fuel(crate::json::json_model, 2);
                if let JsonModel::Object(ms) = v@ {
                    assert(ms =~= server_entry(*s).1->Object_0);
                }
            }
            (name.clone(), v)
        },
        McpServer::Http { name, url, headers } => {
            let k0 = String::from_str("type");
            let v0 = String::from_str("http");
            let k1 = String::from_str("url");
            let k2 = String::from_str("headers");
            let members = vec![
                (k0, JsonValue::String(v0)),
                (k1, JsonValue::String(url.clone())),
                (k2, header_object(headers)),
            ];
            let v = JsonValue::Object(members);
            proof {
                reveal_with_fuel(crate::json::json_model, 2);
                if let JsonModel::Object(ms) = v@ {
                    assert(ms =~= server_entry(*s).1->Object_0);
                }
            }
            (name.clone(), v)
        },
        McpServer::Sse { name, url, headers } => {
            let k0 = String::from_str("type");
            let v0 = String::from_str("sse");
            let k1 = String::from_str("url");
            let k2 = String::from_str("headers");
            let members = vec![
                (k0, JsonValue::String(v0)),
                (k1, JsonValue::String(url.clone())),
                (k2, header_object(headers)),
            ];
            let v = JsonValue::Object(members);
            proof {
                reveal_with_fuel(crate::json::json_model, 2);
                if let JsonModel::Object(ms) = v@ {
                    assert(ms =~= server_entry(*s).1->Object_0);
                }
            }
            (name.clone(), v)
        },
    }
}

/// The agent's settings with its MCP servers replaced by `servers`; see
/// `settings_with_servers`.
#[verifier::loop_isolation(false)]
pub fn mcp_settings(config: &JsonValue, servers: &Vec<McpServer>) -> (r: Option<JsonValue>)
    ensures
        match r {
            Some(v) => settings_with_servers(config@, servers@) == Some(v@),
            None => settings_with_servers(config@, servers@) is None,
        },
{
    let mut entries: Vec<(String, JsonValue)> = Vec::new();
    let mut i: usize = 0;
    while i < servers.len()
        invariant
            i <= servers.len(),
            entries.len() == i,
            forall|k: int|
                0 <= k < i ==> ((#[trigger] entries@[k]).0@, entries@[k].1@) == server_entry(
                    servers@[k],
                ),
        decreases servers.len() - i,
    {
        entries.push(entry_for(&servers[i]));
        i = i + 1;
    }
    let entry = JsonValue::Object(entries);
    let ghost em = JsonModel::Object(servers@.map_values(|s: McpServer| server_entry(s)));
    proof {
        if let JsonModel::Object(ms) = entry@ {
            assert(ms =~= em->Object_0);
        }
    }
    match config {
        JsonValue::Object(members) => {
            let ghost ms = config@->Object_0;
            let mut kept: Vec<(String, JsonValue)> = Vec::new();
            let mut j: usize = 0;
            reveal(Seq::filter);
            assert(ms.take(0).filter(named_other_than(servers_key())) =~= Seq::<
                (Seq<char>, JsonModel),
            >::empty());
            while j < members.len()
                invariant
                    j <= members.len(),
                    ms.len() == members.len(),
                    Seq::new(kept.len() as nat, |k: int| (kept@[k].0@, kept@[k].1@)) == ms.take(
                        j as int,
                    ).filter(named_other_than(servers_key())),
                decreases members.len() - j,
            {
                let ghost before = Seq::new(kept.len() as nat, |k: int| (kept@[k].0@, kept@[k].1@));
                reveal(Seq::filter);
                assert(ms.take(j + 1).drop_last() =~= ms.take(j as int));
                assert(ms[j as int] == (members@[j as int].0@, members@[j as int].1@));
                if !str_eq(members[j].0.as_str(), "amp.mcpServers") {
                    kept.push((members[j].0.clone(), members[j].1.duplicate()));
                    assert(Seq::new(kept.len() as nat, |k: int| (kept@[k].0@, kept@[k].1@))
                        =~= before.push(ms[j as int]));
                } else {
                    assert(Seq::new(kept.len() as nat, |k: int| (kept@[k].0@, kept@[k].1@))
                        =~= before);
                }
                j = j + 1;
            }
            assert(ms.take(members.len() as int) =~= ms);
            let ghost filtered = Seq::new(kept.len() as nat, |k: int| (kept@[k].0@, kept@[k].1@));
            let ghost entry_model = entry@;
            kept.push((String::from_str("amp.mcpServers"), entry));
            let r = JsonValue::Object(kept);
            proof {
                if let JsonModel::Object(rs) = r@ {
                    assert(rs =~= filtered.push((servers_key(), entry_model)));
                }
                assert(entry_model == em);
                assert(filtered == ms.filter(named_other_than(servers_key())));
                assert(r@ == JsonModel::Object(with_member(ms, servers_key(), em)));
            }
            Some(r)
        },
        JsonValue::Null => {
            let ghost entry_model = entry@;
            let r = JsonValue::Object(vec![(String::from_str("amp.mcpServers"), entry)]);
            proof {
                if let JsonModel::Object(rs) = r@ {
                    assert(rs =~= seq![(servers_key(), entry_model)]);
                }
                assert(entry_model == em);
            }
            Some(r)
        },
        _ => None,
    }
}

} // verus!
