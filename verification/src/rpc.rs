//! The JSON-RPC side of the cockpit: which request gets which reply.

use crate::engine::outcome_view;
use crate::error::{CockpitError, ErrorModel};
use crate::json::{Json, JsonModel};
use crate::text::{all_white_space, is_trimmed, is_white_space, trim};
use vstd::prelude::*;

verus! {

/// The code of a reply to a line that is no request.
pub const PARSE_ERROR: i64 = -32700;

/// The code of a reply to a method that the server does not have.
pub const METHOD_NOT_FOUND: i64 = -32601;

/// A request, once its line was decoded.
#[derive(Debug)]
pub struct JsonRpcRequest {
    pub jsonrpc: Option<String>,
    pub id: Option<Json>,
    pub method: String,
    pub params: Option<Json>,
}

/// The tools that a client can call.
#[derive(Debug, Clone, Copy, PartialEq, Eq, Structural)]
pub enum Tool {
    InspectLocks,
    KillProcessLock,
    InspectAsyncTasks,
    GetRuntimeHealth,
}

/// What to do about a request.
#[derive(Debug)]
pub enum Directive {
    /// Write nothing.
    Silent,
    /// Write this document.
    Reply(Json),
    /// Run the tool with the arguments, and reply under the id.
    CallTool { id: Json, tool: Tool, arguments: Json },
}

/// A request, with its parts as mathematical values.
pub struct RequestModel {
    pub jsonrpc: Option<Seq<char>>,
    pub id: Option<JsonModel>,
    pub method: Seq<char>,
    pub params: Option<JsonModel>,
}

/// A directive, with its parts as mathematical values.
pub enum DirectiveModel {
    Silent,
    Reply(JsonModel),
    CallTool { id: JsonModel, tool: Tool, arguments: JsonModel },
}

pub open spec fn json_option(json: Option<Json>) -> Option<JsonModel> {
    match json {
        Some(j) => Some(j@),
        None => None,
    }
}

impl View for JsonRpcRequest {
    type V = RequestModel;

    open spec fn view(&self) -> RequestModel {
        RequestModel {
            jsonrpc: self.jsonrpc.deep_view(),
            id: json_option(self.id),
            method: self.method@,
            params: json_option(self.params),
        }
    }
}

impl View for Directive {
    type V = DirectiveModel;

    open spec fn view(&self) -> DirectiveModel {
        match *self {
            Directive::Silent => DirectiveModel::Silent,
            Directive::Reply(json) => DirectiveModel::Reply(json@),
            Directive::CallTool { id, tool, arguments } => DirectiveModel::CallTool {
                id: id@,
                tool,
                arguments: arguments@,
            },
        }
    }
}

/// A reply with a result.
pub open spec fn success(id: JsonModel, result: JsonModel) -> JsonModel {
    JsonModel::object().with("jsonrpc"@, JsonModel::Text("2.0"@)).with("id"@, id).with(
        "result"@,
        result,
    )
}

/// A reply with a protocol error.
pub open spec fn failure(id: JsonModel, code: i64, message: Seq<char>) -> JsonModel {
    JsonModel::object().with("jsonrpc"@, JsonModel::Text("2.0"@)).with("id"@, id).with(
        "error"@,
        JsonModel::object().with("code"@, JsonModel::integer(code)).with(
            "message"@,
            JsonModel::Text(message),
        ),
    )
}

/// The result of a tool call: one piece of text.
pub open spec fn content(text: Seq<char>) -> JsonModel {
    JsonModel::object().with(
        "content"@,
        JsonModel::array().and(
            JsonModel::object().with("type"@, JsonModel::Text("text"@)).with(
                "text"@,
                JsonModel::Text(text),
            ),
        ),
    )
}

/// The reply to a tool call that went through.
pub open spec fn tool_success(id: JsonModel, text: Seq<char>) -> JsonModel {
    success(id, content(text))
}

/// The reply to a tool call that did not.
pub open spec fn tool_failure(id: JsonModel, text: Seq<char>) -> JsonModel {
    JsonModel::object().with("jsonrpc"@, JsonModel::Text("2.0"@)).with("id"@, id).with(
        "isError"@,
        JsonModel::Bool(true),
    ).with("result"@, content(text))
}

/// The result of `initialize`.
pub open spec fn handshake() -> JsonModel {
    JsonModel::object().with("protocolVersion"@, JsonModel::Text("2024-11-05"@)).with(
        "capabilities"@,
        JsonModel::object().with(
            "tools"@,
            JsonModel::object().with("listChanged"@, JsonModel::Bool(false)),
        ),
    ).with(
        "serverInfo"@,
        JsonModel::object().with("name"@, JsonModel::Text("agent_cockpit"@)).with(
            "version"@,
            JsonModel::Text("0.1.0"@),
        ),
    )
}

/// The result of a discovery probe.
pub open spec fn readiness() -> JsonModel {
    JsonModel::object().with("status"@, JsonModel::Text("ready"@)).with(
        "server"@,
        JsonModel::Text("agent_cockpit"@),
    ).with("version"@, JsonModel::Text("0.1.0"@))
}

/// The schema of one argument.
pub open spec fn parameter(kind: Seq<char>, description: Seq<char>) -> JsonModel {
    JsonModel::object().with("type"@, JsonModel::Text(kind)).with(
        "description"@,
        JsonModel::Text(description),
    )
}

/// The schema of a tool's arguments.
pub open spec fn schema(properties: JsonModel) -> JsonModel {
    JsonModel::object().with("type"@, JsonModel::Text("object"@)).with("properties"@, properties)
}

/// The entry of one tool.
pub open spec fn tool_entry(
    name: Seq<char>,
    description: Seq<char>,
    input: JsonModel,
) -> JsonModel {
    JsonModel::object().with("name"@, JsonModel::Text(name)).with(
        "description"@,
        JsonModel::Text(description),
    ).with("inputSchema"@, input)
}

pub open spec fn inspect_locks_entry() -> JsonModel {
    tool_entry(
        "inspect_locks"@,
        "Scans for active processes holding locks on workspace target executables, zombie test runners, orphaned cargo processes, and shadow antigravity_mcp_runs instances."@,
        schema(
            JsonModel::object().with(
                "process_name"@,
                parameter(
                    "string"@,
                    "Optional case-insensitive substring filter for process name (e.g. 'cargo', 'antigravity')"@,
                ),
            ).with(
                "path_filter"@,
                parameter(
                    "string"@,
                    "Optional substring filter matching process executable path"@,
                ),
            ),
        ),
    )
}

pub open spec fn kill_process_lock_entry() -> JsonModel {
    tool_entry(
        "kill_process_lock"@,
        "Safely terminates target locking processes by PID to eliminate 'os error 5 (Access is denied)' without an IDE reboot."@,
        schema(
            JsonModel::object().with(
                "pid"@,
                parameter("integer"@, "The target process ID (PID) to terminate"@),
            ).with(
                "force"@,
                parameter("boolean"@, "Optional flag to force immediate termination"@),
            ),
        ).with("required"@, JsonModel::array().and(JsonModel::Text("pid"@))),
    )
}

pub open spec fn inspect_async_tasks_entry() -> JsonModel {
    tool_entry(
        "inspect_async_tasks"@,
        "Inspects real-time Tokio async task execution metrics and flags starved futures (poll times > 50ms) across workspace daemons (pushframe, vta) without terminal noise."@,
        schema(
            JsonModel::object().with(
                "process_name"@,
                parameter(
                    "string"@,
                    "Optional filter by daemon process name (e.g. 'pushframe')"@,
                ),
            ).with("target_pid"@, parameter("integer"@, "Optional target process ID"@)).with(
                "min_poll_duration_ms"@,
                parameter(
                    "integer"@,
                    "Threshold in milliseconds to flag a task as starved (default: 50)"@,
                ),
            ).with(
                "limit"@,
                parameter(
                    "integer"@,
                    "Maximum number of starved tasks to return to protect LLM context (default: 20, max: 50)"@,
                ),
            ),
        ),
    )
}

pub open spec fn get_runtime_health_entry() -> JsonModel {
    tool_entry(
        "get_runtime_health"@,
        "Returns high-level Tokio async runtime health metrics: tracked tasks, starved task counts, mean poll latency, and memory footprint."@,
        schema(JsonModel::object()),
    )
}

/// The result of `tools/list`.
pub open spec fn catalogue() -> JsonModel {
    JsonModel::object().with(
        "tools"@,
        JsonModel::array().and(inspect_locks_entry()).and(kill_process_lock_entry()).and(
            inspect_async_tasks_entry(),
        ).and(get_runtime_health_entry()),
    )
}

/// The tool with a name.
pub open spec fn tool_named(name: Seq<char>) -> Option<Tool> {
    if name == "inspect_locks"@ {
        Some(Tool::InspectLocks)
    } else if name == "kill_process_lock"@ {
        Some(Tool::KillProcessLock)
    } else if name == "inspect_async_tasks"@ {
        Some(Tool::InspectAsyncTasks)
    } else if name == "get_runtime_health"@ {
        Some(Tool::GetRuntimeHealth)
    } else {
        None
    }
}

impl RequestModel {
    /// The id under which the reply goes out: null where the request has none.
    pub open spec fn reply_id(self) -> JsonModel {
        match self.id {
            Some(id) => id,
            None => JsonModel::Null,
        }
    }

    /// The name of the called tool: empty where the parameters name none.
    pub open spec fn tool_name(self) -> Seq<char> {
        match self.params {
            Some(params) => match params.get("name"@) {
                Some(JsonModel::Text(name)) => name,
                _ => Seq::empty(),
            },
            None => Seq::empty(),
        }
    }

    /// The arguments of the called tool: an empty object where the parameters have none.
    pub open spec fn tool_arguments(self) -> JsonModel {
        match self.params {
            Some(params) => match params.get("arguments"@) {
                Some(arguments) => arguments,
                None => JsonModel::object(),
            },
            None => JsonModel::object(),
        }
    }

    /// Whether the request acknowledges the handshake, which is never answered.
    pub open spec fn is_acknowledgement(self) -> bool {
        self.method == "notifications/initialized"@ || self.method == "initialized"@
    }

    /// Whether the server knows the method.
    pub open spec fn is_known(self) -> bool {
        ||| self.method == "initialize"@
        ||| self.is_acknowledgement()
        ||| self.method == "server/discover"@
        ||| self.method == "ping"@
        ||| self.method == "tools/list"@
        ||| self.method == "tools/call"@
    }

    /// What the log says of the request.
    pub open spec fn notice(self) -> Option<Seq<char>> {
        if self.is_acknowledgement() {
            Some("Client handshake acknowledged."@)
        } else if self.is_known() {
            None
        } else {
            Some("Received unhandled method: "@ + self.method)
        }
    }

    /// What to do about the request.
    pub open spec fn directive(self) -> DirectiveModel {
        let id = self.reply_id();
        if self.method == "initialize"@ {
            DirectiveModel::Reply(success(id, handshake()))
        } else if self.is_acknowledgement() {
            DirectiveModel::Silent
        } else if self.method == "server/discover"@ || self.method == "ping"@ {
            DirectiveModel::Reply(success(id, readiness()))
        } else if self.method == "tools/list"@ {
            DirectiveModel::Reply(success(id, catalogue()))
        } else if self.method == "tools/call"@ {
            match tool_named(self.tool_name()) {
                Some(tool) => DirectiveModel::CallTool {
                    id,
                    tool,
                    arguments: self.tool_arguments(),
                },
                None => DirectiveModel::Reply(
                    tool_failure(id, "Unknown tool '"@ + self.tool_name() + "'"@),
                ),
            }
        } else if id is Null {
            DirectiveModel::Silent
        } else {
            DirectiveModel::Reply(
                failure(id, METHOD_NOT_FOUND, "Method '"@ + self.method + "' not implemented"@),
            )
        }
    }
}

fn same(text: &String, literal: &str) -> (equal: bool)
    ensures
        equal == (text@ == literal@),
{
    *text == literal.to_owned()
}

fn reply_base(id: Json) -> (json: Json)
    ensures
        json@ == JsonModel::object().with("jsonrpc"@, JsonModel::Text("2.0"@)).with("id"@, id@),
{
    Json::object().with("jsonrpc", Json::text("2.0")).with("id", id)
}

fn success_reply(id: Json, result: Json) -> (reply: Json)
    ensures
        reply@ == success(id@, result@),
{
    reply_base(id).with("result", result)
}

fn failure_reply(id: Json, code: i64, message: &str) -> (reply: Json)
    ensures
        reply@ == failure(id@, code, message@),
{
    let error = Json::object().with("code", Json::integer(code)).with("message", Json::text(message));
    reply_base(id).with("error", error)
}

fn content_json(text: &str) -> (result: Json)
    ensures
        result@ == content(text@),
{
    let piece = Json::object().with("type", Json::text("text")).with("text", Json::text(text));
    Json::object().with("content", Json::array().and(piece))
}

/// The reply to a tool call that went through.
pub fn tool_success_reply(id: Json, text: &str) -> (reply: Json)
    ensures
        reply@ == tool_success(id@, text@),
{
    success_reply(id, content_json(text))
}

/// The reply to a tool call that did not.
pub fn tool_failure_reply(id: Json, text: &str) -> (reply: Json)
    ensures
        reply@ == tool_failure(id@, text@),
{
    reply_base(id).with("isError", Json::Bool(true)).with("result", content_json(text))
}

/// The reply with a list, given as its JSON text; without one, the list is shown as empty.
pub fn list_reply(id: Json, rendered: Option<String>) -> (reply: Json)
    ensures
        reply@ == tool_success(
            id@,
            match rendered {
                Some(text) => text@,
                None => "[]"@,
            },
        ),
{
    match rendered {
        Some(text) => tool_success_reply(id, text.as_str()),
        None => tool_success_reply(id, "[]"),
    }
}

/// The reply with the health figures, given as their JSON text; without one, they are shown as an
/// empty object.
pub fn health_reply(id: Json, rendered: Option<String>) -> (reply: Json)
    ensures
        reply@ == tool_success(
            id@,
            match rendered {
                Some(text) => text@,
                None => "{}"@,
            },
        ),
{
    match rendered {
        Some(text) => tool_success_reply(id, text.as_str()),
        None => tool_success_reply(id, "{}"),
    }
}

/// The reply to a termination request, by its outcome.
pub open spec fn kill_reply_model(
    id: JsonModel,
    outcome: Result<Seq<char>, ErrorModel>,
) -> JsonModel {
    match outcome {
        Ok(text) => tool_success(id, text),
        Err(error) => tool_failure(id, "Error terminating process: "@ + error.message()),
    }
}

/// The reply to a termination request, by its outcome.
pub fn kill_reply(id: Json, outcome: Result<String, CockpitError>) -> (reply: Json)
    ensures
        reply@ == kill_reply_model(id@, outcome_view(outcome)),
{
    match outcome {
        Ok(text) => tool_success_reply(id, text.as_str()),
        Err(error) => {
            let mut text = "Error terminating process: ".to_owned();
            text.append(error.message().as_str());
            tool_failure_reply(id, text.as_str())
        },
    }
}

/// The reply to a termination request whose arguments could not be decoded.
pub fn invalid_arguments_reply(id: Json, reason: &str) -> (reply: Json)
    ensures
        reply@ == tool_failure(id@, "Invalid tool arguments: "@ + reason@),
{
    let mut text = "Invalid tool arguments: ".to_owned();
    text.append(reason);
    tool_failure_reply(id, text.as_str())
}

fn handshake_json() -> (result: Json)
    ensures
        result@ == handshake(),
{
    let tools = Json::object().with("listChanged", Json::Bool(false));
    let info = Json::object().with("name", Json::text("agent_cockpit")).with(
        "version",
        Json::text("0.1.0"),
    );
    Json::object().with("protocolVersion", Json::text("2024-11-05")).with(
        "capabilities",
        Json::object().with("tools", tools),
    ).with("serverInfo", info)
}

fn readiness_json() -> (result: Json)
    ensures
        result@ == readiness(),
{
    Json::object().with("status", Json::text("ready")).with(
        "server",
        Json::text("agent_cockpit"),
    ).with("version", Json::text("0.1.0"))
}

fn parameter_json(kind: &str, description: &str) -> (json: Json)
    ensures
        json@ == parameter(kind@, description@),
{
    Json::object().with("type", Json::text(kind)).with("description", Json::text(description))
}

fn schema_json(properties: Json) -> (json: Json)
    ensures
        json@ == schema(properties@),
{
    Json::object().with("type", Json::text("object")).with("properties", properties)
}

fn tool_json(name: &str, description: &str, input: Json) -> (json: Json)
    ensures
        json@ == tool_entry(name@, description@, input@),
{
    Json::object().with("name", Json::text(name)).with(
        "description",
        Json::text(description),
    ).with("inputSchema", input)
}

fn inspect_locks_json() -> (json: Json)
    ensures
        json@ == inspect_locks_entry(),
{
    let properties = Json::object().with(
        "process_name",
        parameter_json(
            "string",
            "Optional case-insensitive substring filter for process name (e.g. 'cargo', 'antigravity')",
        ),
    ).with(
        "path_filter",
        parameter_json("string", "Optional substring filter matching process executable path"),
    );
    tool_json(
        "inspect_locks",
        "Scans for active processes holding locks on workspace target executables, zombie test runners, orphaned cargo processes, and shadow antigravity_mcp_runs instances.",
        schema_json(properties),
    )
}

fn kill_process_lock_json() -> (json: Json)
    ensures
        json@ == kill_process_lock_entry(),
{
    let properties = Json::object().with(
        "pid",
        parameter_json("integer", "The target process ID (PID) to terminate"),
    ).with(
        "force",
        parameter_json("boolean", "Optional flag to force immediate termination"),
    );
    tool_json(
        "kill_process_lock",
        "Safely terminates target locking processes by PID to eliminate 'os error 5 (Access is denied)' without an IDE reboot.",
        schema_json(properties).with("required", Json::array().and(Json::text("pid"))),
    )
}

fn inspect_async_tasks_json() -> (json: Json)
    ensures
        json@ == inspect_async_tasks_entry(),
{
    let properties = Json::object().with(
        "process_name",
        parameter_json("string", "Optional filter by daemon process name (e.g. 'pushframe')"),
    ).with("target_pid", parameter_json("integer", "Optional target process ID")).with(
        "min_poll_duration_ms",
        parameter_json(
            "integer",
            "Threshold in milliseconds to flag a task as starved (default: 50)",
        ),
    ).with(
        "limit",
        parameter_json(
            "integer",
            "Maximum number of starved tasks to return to protect LLM context (default: 20, max: 50)",
        ),
    );
    tool_json(
        "inspect_async_tasks",
        "Inspects real-time Tokio async task execution metrics and flags starved futures (poll times > 50ms) across workspace daemons (pushframe, vta) without terminal noise.",
        schema_json(properties),
    )
}

fn get_runtime_health_json() -> (json: Json)
    ensures
        json@ == get_runtime_health_entry(),
{
    tool_json(
        "get_runtime_health",
        "Returns high-level Tokio async runtime health metrics: tracked tasks, starved task counts, mean poll latency, and memory footprint.",
        schema_json(Json::object()),
    )
}

fn catalogue_json() -> (result: Json)
    ensures
        result@ == catalogue(),
{
    let tools = Json::array().and(inspect_locks_json()).and(kill_process_lock_json()).and(
        inspect_async_tasks_json(),
    ).and(get_runtime_health_json());
    Json::object().with("tools", tools)
}

/// The tool with a name.
pub fn find_tool(name: &String) -> (tool: Option<Tool>)
    ensures
        tool == tool_named(name@),
{
    if same(name, "inspect_locks") {
        Some(Tool::InspectLocks)
    } else if same(name, "kill_process_lock") {
        Some(Tool::KillProcessLock)
    } else if same(name, "inspect_async_tasks") {
        Some(Tool::InspectAsyncTasks)
    } else if same(name, "get_runtime_health") {
        Some(Tool::GetRuntimeHealth)
    } else {
        None
    }
}

/// Decides what to do about a request.
pub fn dispatch(request: JsonRpcRequest) -> (directive: Directive)
    ensures
        directive@ == request@.directive(),
{
    let JsonRpcRequest { jsonrpc: _, id, method, params } = request;
    let id = match id {
        Some(id) => id,
        None => Json::Null,
    };
    if same(&method, "initialize") {
        Directive::Reply(success_reply(id, handshake_json()))
    } else if same(&method, "notifications/initialized") || same(&method, "initialized") {
        Directive::Silent
    } else if same(&method, "server/discover") || same(&method, "ping") {
        Directive::Reply(success_reply(id, readiness_json()))
    } else if same(&method, "tools/list") {
        Directive::Reply(success_reply(id, catalogue_json()))
    } else if same(&method, "tools/call") {
        let params = match params {
            Some(params) => params,
            None => Json::Null,
        };
        let name = match params.get("name") {
            Some(Json::Text(name)) => name.clone(),
            _ => String::new(),
        };
        match find_tool(&name) {
            Some(tool) => {
                let arguments = match params.into_member("arguments") {
                    Some(arguments) => arguments,
                    None => Json::object(),
                };
                Directive::CallTool { id, tool, arguments }
            },
            None => {
                let mut text = "Unknown tool '".to_owned();
                text.append(name.as_str());
                text.append("'");
                Directive::Reply(tool_failure_reply(id, text.as_str()))
            },
        }
    } else {
        match id {
            Json::Null => Directive::Silent,
            id => {
                let mut text = "Method '".to_owned();
                text.append(method.as_str());
                text.append("' not implemented");
                Directive::Reply(failure_reply(id, METHOD_NOT_FOUND, text.as_str()))
            },
        }
    }
}

/// The line for the log about a request, where it calls for one: an acknowledged handshake, or a
/// method that the server does not have.
pub fn notice(request: &JsonRpcRequest) -> (text: Option<String>)
    ensures
        text.deep_view() == request@.notice(),
{
    let method = &request.method;
    if same(method, "notifications/initialized") || same(method, "initialized") {
        Some("Client handshake acknowledged.".to_owned())
    } else if same(method, "initialize") || same(method, "server/discover") || same(
        method,
        "ping",
    ) || same(method, "tools/list") || same(method, "tools/call") {
        None
    } else {
        let mut text = "Received unhandled method: ".to_owned();
        text.append(method.as_str());
        Some(text)
    }
}

/// The request on a line: the line without surrounding white space, or nothing for a blank line.
pub fn request_text(line: &str) -> (request: Option<&str>)
    ensures
        request is None <==> all_white_space(line@),
        request matches Some(text) ==> text@.len() > 0 && is_trimmed(line@, text@),
{
    let trimmed = trim(line);
    proof {
        let text = line@;
        let (start, end) = choose|start: int, end: int|
            {
                &&& 0 <= start <= end <= text.len()
                &&& trimmed@ == #[trigger] text.subrange(start, end)
                &&& all_white_space(text.take(start))
                &&& all_white_space(text.skip(end))
            };
        if trimmed@.len() == 0 {
            assert forall|i: int| 0 <= i < text.len() implies is_white_space(#[trigger] text[i]) by {
                if i < start {
                    assert(text.take(start)[i] == text[i]);
                } else {
                    assert(text.skip(end)[i - end] == text[i]);
                }
            }
        } else {
            assert(text[start] == trimmed@.first());
        }
    }
    if trimmed.is_empty() {
        None
    } else {
        Some(trimmed)
    }
}

/// What to do about a line that is not blank, by what it was decoded to.
pub open spec fn line_directive(decoded: Option<RequestModel>) -> DirectiveModel {
    match decoded {
        Some(request) => request.directive(),
        None => DirectiveModel::Reply(
            failure(JsonModel::Null, PARSE_ERROR, "Parse error"@),
        ),
    }
}

/// Decides what to do about a line that is not blank. A line that could not be decoded as a
/// request is answered with a parse error.
pub fn receive(decoded: Option<JsonRpcRequest>) -> (directive: Directive)
    ensures
        directive@ == line_directive(
            match decoded {
                Some(request) => Some(request@),
                None => None,
            },
        ),
{
    match decoded {
        Some(request) => dispatch(request),
        None => Directive::Reply(failure_reply(Json::Null, PARSE_ERROR, "Parse error")),
    }
}

} // verus!
