//! The MCP (JSON-RPC 2.0) endpoint's dispatch: which reply each request gets.

use vstd::prelude::*;
use crate::text::{concat, same_chars};

verus! {

/// The reply a JSON-RPC request gets.
#[derive(Debug, Clone, PartialEq, Eq)]
pub enum McpReply {
    /// Not a JSON-RPC 2.0 request: refused with `-32600`.
    InvalidRequest,
    /// The server's description and capabilities.
    Initialize,
    /// A notification, accepted without a body.
    Accepted,
    /// An empty result.
    Ping,
    /// The (empty) list of tools.
    ToolsList,
    /// The (empty) list of resources.
    ResourcesList,
    /// The (empty) list of prompts.
    PromptsList,
    /// An unknown method: refused with `-32601` and this message.
    MethodNotFound(String),
}

/// The reply to a known method, if `method` is one.
pub open spec fn known_reply(method: Seq<char>) -> Option<McpReply> {
    if method == "initialize"@ {
        Some(McpReply::Initialize)
    } else if method == "notifications/initialized"@ {
        Some(McpReply::Accepted)
    } else if method == "ping"@ {
        Some(McpReply::Ping)
    } else if method == "tools/list"@ {
        Some(McpReply::ToolsList)
    } else if method == "resources/list"@ {
        Some(McpReply::ResourcesList)
    } else if method == "prompts/list"@ {
        Some(McpReply::PromptsList)
    } else {
        None
    }
}

/// Whether a reply is the one a request should get: a request that does not
/// declare JSON-RPC 2.0 is invalid; a known method gets its reply; any other
/// method is not found, the reply carrying `Method not found: ` and the method.
pub open spec fn answers(jsonrpc: Option<Seq<char>>, method: Seq<char>, r: McpReply) -> bool {
    if jsonrpc != Some("2.0"@) {
        r == McpReply::InvalidRequest
    } else {
        match known_reply(method) {
            Some(k) => r == k,
            None => r matches McpReply::MethodNotFound(m) && m@ == "Method not found: "@ + method,
        }
    }
}

/// Chooses the reply to a JSON-RPC request.
pub fn dispatch(jsonrpc: Option<&str>, method: &str) -> (r: McpReply)
    ensures
        answers(
            match jsonrpc {
                Some(v) => Some(v@),
                None => None,
            },
            method@,
            r,
        ),
{
    let is_v2 = match jsonrpc {
        Some(v) => same_chars(v, "2.0"),
        None => false,
    };
    if !is_v2 {
        return McpReply::InvalidRequest;
    }
    if same_chars(method, "initialize") {
        McpReply::Initialize
    } else if same_chars(method, "notifications/initialized") {
        McpReply::Accepted
    } else if same_chars(method, "ping") {
        McpReply::Ping
    } else if same_chars(method, "tools/list") {
        McpReply::ToolsList
    } else if same_chars(method, "resources/list") {
        McpReply::ResourcesList
    } else if same_chars(method, "prompts/list") {
        McpReply::PromptsList
    } else {
        McpReply::MethodNotFound(concat("Method not found: ", method))
    }
}

impl McpReply {
    /// The HTTP status the reply is sent with.
    pub fn status(&self) -> (r: u16)
        ensures
            r == match *self {
                McpReply::InvalidRequest => 400u16,
                McpReply::Accepted => 202u16,
                _ => 200u16,
            },
    {
        match self {
            McpReply::InvalidRequest => 400,
            McpReply::Accepted => 202,
            _ => 200,
        }
    }
}

impl McpReply {
    /// The JSON-RPC error a refusal carries: its code and message.
    pub fn error(&self) -> (r: Option<(i32, String)>)
        ensures
            match *self {
                McpReply::InvalidRequest => r matches Some((c, m)) && c == -32600 && m@
                    == "Invalid Request"@,
                McpReply::MethodNotFound(t) => r matches Some((c, m)) && c == -32601 && m == t,
                _ => r is None,
            },
    {
        match self {
            McpReply::InvalidRequest => Some((-32600, "Invalid Request".to_owned())),
            McpReply::MethodNotFound(t) => Some((-32601, t.clone())),
            _ => None,
        }
    }

    /// The (empty) list a listing reply carries, by name.
    pub fn listed(&self) -> (r: Option<&'static str>)
        ensures
            match *self {
                McpReply::ToolsList => r matches Some(n) && n@ == "tools"@,
                McpReply::ResourcesList => r matches Some(n) && n@ == "resources"@,
                McpReply::PromptsList => r matches Some(n) && n@ == "prompts"@,
                _ => r is None,
            },
    {
        match self {
            McpReply::ToolsList => Some("tools"),
            McpReply::ResourcesList => Some("resources"),
            McpReply::PromptsList => Some("prompts"),
            _ => None,
        }
    }
}

/// The server's description, sent in reply to `initialize` and to a GET of the endpoint.
pub struct ServerDescription {
    pub protocol_version: &'static str,
    pub name: &'static str,
    pub version: &'static str,
    pub instructions: &'static str,
    /// Whether the server announces changes to its list of tools.
    pub tools_list_changed: bool,
}

pub fn server_description() -> (r: ServerDescription)
    ensures
        r.protocol_version@ == "2024-11-05"@,
        r.name@ == "local-rag-mcp"@,
        r.version@ == "0.1.0"@,
        r.instructions@ == "Local development MCP endpoint for rag-api. Tool methods are scaffolded."@,
        !r.tools_list_changed,
{
    ServerDescription {
        protocol_version: "2024-11-05",
        name: "local-rag-mcp",
        version: "0.1.0",
        instructions: "Local development MCP endpoint for rag-api. Tool methods are scaffolded.",
        tools_list_changed: false,
    }
}

/// A request that does not declare JSON-RPC 2.0 is refused whatever its method.
pub proof fn law_version_checked_first(jsonrpc: Option<Seq<char>>, method: Seq<char>, r: McpReply)
    requires
        jsonrpc != Some("2.0"@),
        answers(jsonrpc, method, r),
    ensures
        r == McpReply::InvalidRequest,
{
}

} // verus!
