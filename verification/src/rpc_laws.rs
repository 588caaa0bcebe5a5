//! What holds of every exchange with a client.

use crate::error::ErrorModel;
use crate::json::{item_models, member_models, number_of, Json, JsonModel, Member};
use crate::rpc::{
    catalogue, content, failure, get_runtime_health_entry, handshake, inspect_async_tasks_entry,
    inspect_locks_entry, kill_process_lock_entry, kill_reply_model, line_directive, readiness,
    success, tool_failure, tool_named, tool_success, Directive, DirectiveModel, JsonRpcRequest,
    RequestModel, Tool,
};
use vstd::prelude::*;

verus! {

/// The member names of replies differ from one another.
proof fn lemma_reply_keys()
    ensures
        "jsonrpc"@ != "id"@,
        "jsonrpc"@ != "result"@,
        "jsonrpc"@ != "error"@,
        "jsonrpc"@ != "isError"@,
        "id"@ != "result"@,
        "id"@ != "error"@,
        "id"@ != "isError"@,
        "result"@ != "error"@,
        "result"@ != "isError"@,
        "error"@ != "isError"@,
{
    reveal_strlit("jsonrpc");
    reveal_strlit("id");
    reveal_strlit("result");
    reveal_strlit("error");
    reveal_strlit("isError");
    assert("jsonrpc"@.len() == 7);
    assert("id"@.len() == 2);
    assert("result"@.len() == 6);
    assert("error"@.len() == 5);
    assert("isError"@.len() == 7);
    assert("jsonrpc"@[0] != "isError"@[0]);
}

/// Whether a document is a reply under an id: it names the protocol version and the id, and it has
/// either a result or an error.
pub open spec fn is_reply_to(reply: JsonModel, id: JsonModel) -> bool {
    &&& reply.get("jsonrpc"@) == Some(JsonModel::Text("2.0"@))
    &&& reply.get("id"@) == Some(id)
    &&& reply.get("result"@) is Some <==> reply.get("error"@) is None
}

/// Every kind of reply carries the id that it was made for.
pub proof fn law_replies_carry_the_id(
    id: JsonModel,
    result: JsonModel,
    code: i64,
    text: Seq<char>,
    outcome: Result<Seq<char>, ErrorModel>,
)
    ensures
        is_reply_to(success(id, result), id),
        is_reply_to(failure(id, code, text), id),
        is_reply_to(tool_success(id, text), id),
        is_reply_to(tool_failure(id, text), id),
        is_reply_to(kill_reply_model(id, outcome), id),
        success(id, result).get("result"@) == Some(result),
        tool_success(id, text).get("result"@) == Some(content(text)),
        tool_failure(id, text).get("result"@) == Some(content(text)),
        failure(id, code, text).get("error"@) is Some,
{
    lemma_reply_keys();
}

/// A tool call that failed is marked, and one that went through is not.
pub proof fn law_failures_are_marked(id: JsonModel, outcome: Result<Seq<char>, ErrorModel>)
    ensures
        kill_reply_model(id, outcome).get("isError"@) == match outcome {
            Ok(_) => None,
            Err(_) => Some(JsonModel::Bool(true)),
        },
{
    lemma_reply_keys();
}

/// Whatever is written at once, and whatever tool is run, goes out under the id of the request.
pub proof fn law_directives_carry_the_id(request: RequestModel)
    ensures
        match request.directive() {
            DirectiveModel::Silent => true,
            DirectiveModel::Reply(reply) => is_reply_to(reply, request.reply_id()),
            DirectiveModel::CallTool { id, tool, arguments } => id == request.reply_id()
                && tool_named(request.tool_name()) == Some(tool),
        },
{
    lemma_reply_keys();
}

/// The methods that the server has differ from one another.
proof fn lemma_methods()
    ensures
        "initialize"@ != "initialized"@,
        "initialize"@ != "notifications/initialized"@,
        "server/discover"@ != "initialize"@,
        "server/discover"@ != "initialized"@,
        "server/discover"@ != "notifications/initialized"@,
        "ping"@ != "initialize"@,
        "ping"@ != "initialized"@,
        "ping"@ != "notifications/initialized"@,
        "tools/list"@ != "initialize"@,
        "tools/list"@ != "initialized"@,
        "tools/list"@ != "notifications/initialized"@,
        "tools/call"@ != "initialize"@,
        "tools/call"@ != "initialized"@,
        "tools/call"@ != "notifications/initialized"@,
{
    reveal_strlit("initialize");
    reveal_strlit("initialized");
    reveal_strlit("notifications/initialized");
    reveal_strlit("server/discover");
    reveal_strlit("ping");
    reveal_strlit("tools/list");
    reveal_strlit("tools/call");
    assert("initialize"@.len() == 10 && "initialize"@[0] == 'i');
    assert("initialized"@.len() == 11);
    assert("notifications/initialized"@.len() == 25);
    assert("server/discover"@.len() == 15);
    assert("ping"@.len() == 4);
    assert("tools/list"@.len() == 10 && "tools/list"@[0] == 't');
    assert("tools/call"@.len() == 10 && "tools/call"@[0] == 't');
}

/// The server keeps silent on the acknowledgement of the handshake, and on a method that it does
/// not have if there is no id to reply under; it answers everything else.
pub proof fn law_silence(request: RequestModel)
    ensures
        request.directive() is Silent <==> request.is_acknowledgement() || (!request.is_known()
            && request.reply_id() is Null),
{
    lemma_methods();
}

/// A line that is no request is always answered, under the null id.
pub proof fn law_malformed_lines_are_answered()
    ensures
        line_directive(None) matches DirectiveModel::Reply(reply) && is_reply_to(
            reply,
            JsonModel::Null,
        ) && reply.get("error"@) is Some,
{
    lemma_reply_keys();
}

/// The protocol version that a request states has no bearing on what is done about it.
pub proof fn law_version_is_not_read(request: RequestModel, jsonrpc: Option<Seq<char>>)
    ensures
        (RequestModel { jsonrpc, ..request }).directive() == request.directive(),
        (RequestModel { jsonrpc, ..request }).notice() == request.notice(),
{
}

/// A request that is not answered leaves a line in the log.
pub proof fn law_silence_is_logged(request: RequestModel)
    requires
        request.directive() is Silent,
    ensures
        request.notice() is Some,
{
}

/// A discovery probe always finds the server ready, with or without an id.
pub proof fn law_probes_never_fail(request: RequestModel)
    requires
        request.method == "server/discover"@ || request.method == "ping"@,
    ensures
        request.directive() == DirectiveModel::Reply(success(request.reply_id(), readiness())),
        readiness().get("status"@) == Some(JsonModel::Text("ready"@)),
{
    lemma_methods();
    reveal_strlit("status");
    reveal_strlit("server");
    reveal_strlit("version");
    assert("status"@.len() == 6 && "status"@[1] == 't');
    assert("server"@.len() == 6 && "server"@[1] == 'e');
    assert("version"@.len() == 7);
}

/// The names of an entry's members differ from one another.
proof fn lemma_entry_keys()
    ensures
        "name"@ != "description"@,
        "name"@ != "inputSchema"@,
        "description"@ != "inputSchema"@,
{
    reveal_strlit("name");
    reveal_strlit("description");
    reveal_strlit("inputSchema");
    assert("name"@.len() == 4);
    assert("description"@.len() == 11 && "description"@[0] == 'd');
    assert("inputSchema"@.len() == 11 && "inputSchema"@[0] == 'i');
}

/// The names of the tools differ from one another.
proof fn lemma_tool_names()
    ensures
        tool_named("inspect_locks"@) == Some(Tool::InspectLocks),
        tool_named("kill_process_lock"@) == Some(Tool::KillProcessLock),
        tool_named("inspect_async_tasks"@) == Some(Tool::InspectAsyncTasks),
        tool_named("get_runtime_health"@) == Some(Tool::GetRuntimeHealth),
{
    reveal_strlit("inspect_locks");
    reveal_strlit("kill_process_lock");
    reveal_strlit("inspect_async_tasks");
    reveal_strlit("get_runtime_health");
    assert("inspect_locks"@.len() == 13);
    assert("kill_process_lock"@.len() == 17);
    assert("inspect_async_tasks"@.len() == 19);
    assert("get_runtime_health"@.len() == 18);
}

/// The name that the catalogue gives a tool.
pub open spec fn entry_name(entry: JsonModel) -> Option<Seq<char>> {
    match entry.get("name"@) {
        Some(JsonModel::Text(name)) => Some(name),
        _ => None,
    }
}

/// The tools that can be called are those that the catalogue lists: a name is that of a tool
/// exactly where an entry has it, and no two of the four entries have one name.
pub proof fn law_catalogue_lists_the_tools(name: Seq<char>)
    ensures
        ({
            let entries = seq![
                inspect_locks_entry(),
                kill_process_lock_entry(),
                inspect_async_tasks_entry(),
                get_runtime_health_entry(),
            ];
            &&& catalogue().get("tools"@) == Some(JsonModel::Array(entries))
            &&& tool_named(name) is Some <==> exists|i: int|
                0 <= i < entries.len() && entry_name(#[trigger] entries[i]) == Some(name)
            &&& forall|i: int, j: int|
                0 <= i < j < entries.len() ==> entry_name(#[trigger] entries[i]) != entry_name(
                    #[trigger] entries[j],
                )
        }),
{
    lemma_entry_keys();
    lemma_tool_names();
    let entries = seq![
        inspect_locks_entry(),
        kill_process_lock_entry(),
        inspect_async_tasks_entry(),
        get_runtime_health_entry(),
    ];
    assert(JsonModel::array()->Array_0.push(entries[0]).push(entries[1]).push(entries[2]).push(
        entries[3],
    ) == entries);
    assert(entry_name(entries[0]) == Some("inspect_locks"@));
    assert(entry_name(entries[1]) == Some("kill_process_lock"@));
    assert(entry_name(entries[2]) == Some("inspect_async_tasks"@));
    assert(entry_name(entries[3]) == Some("get_runtime_health"@));
}

/// A call without usable parameters names no tool, and is answered as a failed call.
pub proof fn law_nameless_call_is_refused(request: RequestModel)
    requires
        request.method == "tools/call"@,
        request.tool_name().len() == 0,
    ensures
        request.directive() == DirectiveModel::Reply(
            tool_failure(request.reply_id(), "Unknown tool '"@ + Seq::<char>::empty() + "'"@),
        ),
{
    lemma_methods();
    reveal_strlit("inspect_locks");
    reveal_strlit("kill_process_lock");
    reveal_strlit("inspect_async_tasks");
    reveal_strlit("get_runtime_health");
    reveal_strlit("server/discover");
    reveal_strlit("ping");
    reveal_strlit("tools/list");
    reveal_strlit("tools/call");
    assert("tools/list"@[6] == 'l' && "tools/call"@[6] == 'c');
    assert("server/discover"@.len() == 15 && "ping"@.len() == 4 && "tools/call"@.len() == 10);
    assert("inspect_locks"@.len() == 13);
    assert("kill_process_lock"@.len() == 17);
    assert("inspect_async_tasks"@.len() == 19);
    assert("get_runtime_health"@.len() == 18);
    assert(request.tool_name() == Seq::<char>::empty());
}

/// The id of a reply: that of the request, and null where it has none.
pub open spec fn echoed_id(id: Option<JsonModel>) -> JsonModel {
    match id {
        Some(id) => id,
        None => JsonModel::Null,
    }
}

/// The methods that are not answered alike differ from one another.
proof fn lemma_more_methods()
    ensures
        "tools/list"@ != "tools/call"@,
        "server/discover"@ != "tools/list"@,
        "server/discover"@ != "tools/call"@,
        "ping"@ != "tools/list"@,
        "ping"@ != "tools/call"@,
{
    reveal_strlit("server/discover");
    reveal_strlit("ping");
    reveal_strlit("tools/list");
    reveal_strlit("tools/call");
    assert("tools/list"@[6] == 'l' && "tools/call"@[6] == 'c');
    assert("server/discover"@.len() == 15 && "ping"@.len() == 4);
    assert("tools/call"@.len() == 10 && "tools/list"@.len() == 10);
}

/// A name is that of a tool exactly where it is one of four.
pub proof fn law_tool_names(name: Seq<char>)
    ensures
        tool_named(name) == Some(Tool::InspectLocks) <==> name == "inspect_locks"@,
        tool_named(name) == Some(Tool::KillProcessLock) <==> name == "kill_process_lock"@,
        tool_named(name) == Some(Tool::InspectAsyncTasks) <==> name == "inspect_async_tasks"@,
        tool_named(name) == Some(Tool::GetRuntimeHealth) <==> name == "get_runtime_health"@,
{
    lemma_tool_names();
}

/// A call runs the tool that its parameters name, under the id of the request, with the arguments
/// that they hold; with none, it runs it with the empty object.
pub proof fn law_calls_run_the_named_tool(
    request: RequestModel,
    members: Map<Seq<char>, JsonModel>,
    name: Seq<char>,
    tool: Tool,
)
    requires
        request.method == "tools/call"@,
        request.params == Some(JsonModel::Object(members)),
        members.contains_key("name"@),
        members["name"@] == JsonModel::Text(name),
        match tool {
            Tool::InspectLocks => name == "inspect_locks"@,
            Tool::KillProcessLock => name == "kill_process_lock"@,
            Tool::InspectAsyncTasks => name == "inspect_async_tasks"@,
            Tool::GetRuntimeHealth => name == "get_runtime_health"@,
        },
    ensures
        request.directive() == (DirectiveModel::CallTool {
            id: echoed_id(request.id),
            tool,
            arguments: if members.contains_key("arguments"@) {
                members["arguments"@]
            } else {
                JsonModel::Object(Map::empty())
            },
        }),
{
    lemma_methods();
    lemma_more_methods();
    lemma_tool_names();
}

/// Whatever tool a request leads to, it gets the arguments that stand in the request, and the
/// reply goes out under the id of the request.
pub proof fn law_arguments_are_handed_over(
    request: RequestModel,
    members: Map<Seq<char>, JsonModel>,
)
    requires
        request.directive() is CallTool,
        request.params == Some(JsonModel::Object(members)),
    ensures
        request.method == "tools/call"@,
        request.directive()->id == echoed_id(request.id),
        members.contains_key("name"@) && members["name"@] is Text,
        tool_named(members["name"@]->Text_0) == Some(request.directive()->tool),
        members.contains_key("arguments"@) ==> request.directive()->arguments
            == members["arguments"@],
        !members.contains_key("arguments"@) ==> request.directive()->arguments
            == JsonModel::Object(Map::empty()),
{
    lemma_tool_names();
    reveal_strlit("inspect_locks");
    reveal_strlit("kill_process_lock");
    reveal_strlit("inspect_async_tasks");
    reveal_strlit("get_runtime_health");
    assert("inspect_locks"@.len() > 0);
    assert("kill_process_lock"@.len() > 0);
    assert("inspect_async_tasks"@.len() > 0);
    assert("get_runtime_health"@.len() > 0);
}

/// Other arguments lead to the same call with those arguments.
pub proof fn law_arguments_do_not_choose_the_tool(
    request: RequestModel,
    members: Map<Seq<char>, JsonModel>,
    arguments: JsonModel,
)
    requires
        request.method == "tools/call"@,
        request.params == Some(JsonModel::Object(members)),
    ensures
        ({
            let other = RequestModel {
                params: Some(JsonModel::Object(members.insert("arguments"@, arguments))),
                ..request
            };
            match request.directive() {
                DirectiveModel::CallTool { id, tool, .. } => other.directive()
                    == (DirectiveModel::CallTool { id, tool, arguments }),
                told => other.directive() == told,
            }
        }),
{
    lemma_methods();
    lemma_more_methods();
    reveal_strlit("name");
    reveal_strlit("arguments");
    assert("name"@.len() == 4 && "arguments"@.len() == 9);
}

/// A call of a name that is no tool's is answered as a failed call that shows the name.
pub proof fn law_unknown_tools_are_refused(
    request: RequestModel,
    members: Map<Seq<char>, JsonModel>,
    name: Seq<char>,
)
    requires
        request.method == "tools/call"@,
        request.params == Some(JsonModel::Object(members)),
        members.contains_key("name"@),
        members["name"@] == JsonModel::Text(name),
        name != "inspect_locks"@,
        name != "kill_process_lock"@,
        name != "inspect_async_tasks"@,
        name != "get_runtime_health"@,
    ensures
        request.directive() == DirectiveModel::Reply(
            tool_failure(echoed_id(request.id), "Unknown tool '"@ + name + "'"@),
        ),
{
    lemma_methods();
    lemma_more_methods();
}

/// A call whose parameters name no tool by a text leads to none.
pub proof fn law_calls_need_a_name(request: RequestModel)
    requires
        match request.params {
            Some(JsonModel::Object(members)) => members.contains_key("name"@) ==> !(
            members["name"@] is Text),
            _ => true,
        },
    ensures
        !(request.directive() is CallTool),
{
    reveal_strlit("inspect_locks");
    reveal_strlit("kill_process_lock");
    reveal_strlit("inspect_async_tasks");
    reveal_strlit("get_runtime_health");
    assert("inspect_locks"@.len() > 0);
    assert("kill_process_lock"@.len() > 0);
    assert("inspect_async_tasks"@.len() > 0);
    assert("get_runtime_health"@.len() > 0);
}

/// The members of every kind of reply.
pub proof fn law_reply_members(id: JsonModel, result: JsonModel, code: i64, text: Seq<char>)
    ensures
        success(id, result) == JsonModel::Object(
            map!["jsonrpc"@ => JsonModel::Text("2.0"@), "id"@ => id, "result"@ => result],
        ),
        failure(id, code, text) == JsonModel::Object(
            map![
                "jsonrpc"@ => JsonModel::Text("2.0"@),
                "id"@ => id,
                "error"@ => JsonModel::Object(
                    map![
                        "code"@ => JsonModel::Number(number_of(code)),
                        "message"@ => JsonModel::Text(text)
                    ],
                )
            ],
        ),
        content(text) == JsonModel::Object(
            map![
                "content"@ => JsonModel::Array(
                    seq![
                        JsonModel::Object(
                            map![
                                "type"@ => JsonModel::Text("text"@),
                                "text"@ => JsonModel::Text(text)
                            ],
                        ),
                    ],
                )
            ],
        ),
        tool_success(id, text) == success(id, content(text)),
        tool_failure(id, text) == JsonModel::Object(
            map![
                "jsonrpc"@ => JsonModel::Text("2.0"@),
                "id"@ => id,
                "isError"@ => JsonModel::Bool(true),
                "result"@ => content(text)
            ],
        ),
{
    let piece = JsonModel::Object(
        map!["type"@ => JsonModel::Text("text"@), "text"@ => JsonModel::Text(text)],
    );
    assert(Seq::<JsonModel>::empty().push(piece) == seq![piece]);
}

/// What each method is answered, whatever the parameters are: the handshake, the readiness, the
/// catalogue, silence on an acknowledgement; and an error that shows the method where there is
/// none of that name, if there is an id to answer.
pub proof fn law_answers_by_method(request: RequestModel)
    ensures
        ({
            let id = echoed_id(request.id);
            let told = request.directive();
            &&& request.method == "initialize"@ ==> told == DirectiveModel::Reply(
                success(id, handshake()),
            )
            &&& request.method == "server/discover"@ || request.method == "ping"@ ==> told
                == DirectiveModel::Reply(success(id, readiness()))
            &&& request.method == "tools/list"@ ==> told == DirectiveModel::Reply(
                success(id, catalogue()),
            )
            &&& request.method == "notifications/initialized"@ || request.method
                == "initialized"@ ==> told is Silent
            &&& request.method != "initialize"@ && request.method != "notifications/initialized"@
                && request.method != "initialized"@ && request.method != "server/discover"@
                && request.method != "ping"@ && request.method != "tools/list"@ && request.method
                != "tools/call"@ ==> told == if id is Null {
                DirectiveModel::Silent
            } else {
                DirectiveModel::Reply(
                    failure(id, (-32601) as i64, "Method '"@ + request.method + "' not implemented"@),
                )
            }
            &&& request.method == "tools/call"@ ==> !(told is Silent)
        }),
{
    lemma_methods();
    lemma_more_methods();
}

/// The parameters of a request matter to a call alone.
pub proof fn law_parameters_matter_to_calls_alone(
    request: RequestModel,
    params: Option<JsonModel>,
)
    requires
        request.method != "tools/call"@,
    ensures
        (RequestModel { params, ..request }).directive() == request.directive(),
{
}

/// The log says that a handshake was acknowledged, and names a method that the server does not
/// have; of other requests it says nothing.
pub proof fn law_log_by_method(request: RequestModel)
    ensures
        request.notice() == if request.method == "notifications/initialized"@ || request.method
            == "initialized"@ {
            Some("Client handshake acknowledged."@)
        } else if request.method == "initialize"@ || request.method == "server/discover"@
            || request.method == "ping"@ || request.method == "tools/list"@ || request.method
            == "tools/call"@ {
            None
        } else {
            Some("Received unhandled method: "@ + request.method)
        },
{
}

/// A line that is no request is answered with a parse error under the null id, and one that is a
/// request as that request is.
pub proof fn law_lines(request: RequestModel)
    ensures
        line_directive(None) == DirectiveModel::Reply(
            failure(JsonModel::Null, (-32700) as i64, "Parse error"@),
        ),
        line_directive(Some(request)) == request.directive(),
{
}

/// The reply to a termination request shows the text of its success, or is a failed call that
/// shows the message of its error.
pub proof fn law_kill_replies(id: JsonModel, text: Seq<char>, error: ErrorModel)
    ensures
        kill_reply_model(id, Ok(text)) == success(id, content(text)),
        kill_reply_model(id, Err(error)) == tool_failure(
            id,
            "Error terminating process: "@ + error.message(),
        ),
{
}

/// The figures that the handshake and a probe give.
pub proof fn law_server_presents_itself()
    ensures
        handshake() == JsonModel::Object(
            map![
                "protocolVersion"@ => JsonModel::Text("2024-11-05"@),
                "capabilities"@ => JsonModel::Object(
                    map![
                        "tools"@ => JsonModel::Object(map!["listChanged"@ => JsonModel::Bool(false)])
                    ],
                ),
                "serverInfo"@ => JsonModel::Object(
                    map![
                        "name"@ => JsonModel::Text("agent_cockpit"@),
                        "version"@ => JsonModel::Text("0.1.0"@)
                    ],
                )
            ],
        ),
        readiness() == JsonModel::Object(
            map![
                "status"@ => JsonModel::Text("ready"@),
                "server"@ => JsonModel::Text("agent_cockpit"@),
                "version"@ => JsonModel::Text("0.1.0"@)
            ],
        ),
{
}

/// A member that was put into an object is found under its key, in place of a former one, and the
/// others are found as before; what is no object has no members.
pub proof fn law_members(
    members: Map<Seq<char>, JsonModel>,
    key: Seq<char>,
    value: JsonModel,
    other_key: Seq<char>,
    other: JsonModel,
)
    ensures
        ({
            let before = JsonModel::Object(members);
            let after = before.with(key, value);
            &&& after.get(key) == Some(value)
            &&& other_key != key ==> after.get(other_key) == before.get(other_key)
            &&& before.get(key) is Some <==> members.contains_key(key)
            &&& members.contains_key(key) ==> before.get(key) == Some(members[key])
        }),
        !(other is Object) ==> other.get(key) is None && other.with(key, value) == other,
        JsonModel::object() == JsonModel::Object(Map::empty()),
        JsonModel::array() == JsonModel::Array(Seq::empty()),
{
}

/// An item that was put into an array is its last, behind those that it had.
pub proof fn law_items(items: Seq<JsonModel>, item: JsonModel, other: JsonModel)
    ensures
        JsonModel::Array(items).and(item) == JsonModel::Array(items.push(item)),
        !(other is Array) ==> other.and(item) == other,
{
}

/// What a document says: a scalar says itself, an array what its items say in their order.
pub proof fn law_documents(text: String, b: bool, items: Vec<Json>, i: int)
    ensures
        Json::Null@ is Null,
        Json::Bool(b)@ == JsonModel::Bool(b),
        Json::Text(text)@ == JsonModel::Text(text@),
        Json::Array(items)@ is Array,
        Json::Array(items)@->Array_0.len() == items@.len(),
        0 <= i < items@.len() ==> Json::Array(items)@->Array_0[i] == items@[i]@,
{
    lemma_items(items@);
}

proof fn lemma_items(items: Seq<Json>)
    ensures
        item_models(items).len() == items.len(),
        forall|i: int| 0 <= i < items.len() ==> #[trigger] item_models(items)[i] == items[i]@,
    decreases items.len(),
{
    if items.len() > 0 {
        let rest = items.drop_last();
        lemma_items(rest);
        assert forall|i: int| 0 <= i < items.len() implies #[trigger] item_models(items)[i]
            == items[i]@ by {
            if i < rest.len() {
                assert(item_models(rest)[i] == rest[i]@);
            }
        }
    }
}

/// What an object says: under a key, what the last of its members with that key says, and nothing
/// under a key that no member has.
pub proof fn law_objects(members: Vec<Member>, i: int, key: Seq<char>)
    ensures
        Json::Object(members)@ is Object,
        (0 <= i < members@.len() && forall|j: int|
            i < j < members@.len() ==> (#[trigger] members@[j]).key@ != members@[i].key@)
            ==> Json::Object(members)@->Object_0.contains_key(members@[i].key@)
            && Json::Object(members)@->Object_0[members@[i].key@] == members@[i].value@,
        (forall|j: int| 0 <= j < members@.len() ==> (#[trigger] members@[j]).key@ != key)
            ==> !Json::Object(members)@->Object_0.contains_key(key),
{
    if 0 <= i < members@.len() && forall|j: int|
        i < j < members@.len() ==> (#[trigger] members@[j]).key@ != members@[i].key@ {
        lemma_last_member(members@, i);
    }
    if forall|j: int| 0 <= j < members@.len() ==> (#[trigger] members@[j]).key@ != key {
        lemma_no_member(members@, key);
    }
}

proof fn lemma_last_member(members: Seq<Member>, i: int)
    requires
        0 <= i < members.len(),
        forall|j: int| i < j < members.len() ==> (#[trigger] members[j]).key@ != members[i].key@,
    ensures
        member_models(members).contains_key(members[i].key@),
        member_models(members)[members[i].key@] == members[i].value@,
    decreases members.len(),
{
    if i < members.len() - 1 {
        let rest = members.drop_last();
        assert forall|j: int| i < j < rest.len() implies (#[trigger] rest[j]).key@
            != rest[i].key@ by {
            assert(rest[j] == members[j]);
        }
        lemma_last_member(rest, i);
        assert(members[members.len() - 1].key@ != members[i].key@);
    }
}

proof fn lemma_no_member(members: Seq<Member>, key: Seq<char>)
    requires
        forall|j: int| 0 <= j < members.len() ==> (#[trigger] members[j]).key@ != key,
    ensures
        !member_models(members).contains_key(key),
    decreases members.len(),
{
    if members.len() > 0 {
        let rest = members.drop_last();
        assert forall|j: int| 0 <= j < rest.len() implies (#[trigger] rest[j]).key@ != key by {
            assert(rest[j] == members[j]);
        }
        lemma_no_member(rest, key);
        assert(members[members.len() - 1].key@ != key);
    }
}

/// The models of a request and of a directive show every part as it was given.
pub proof fn law_requests_show_their_parts(request: JsonRpcRequest, directive: Directive)
    ensures
        request@.jsonrpc == match request.jsonrpc {
            Some(version) => Some(version@),
            None => None,
        },
        request@.id == match request.id {
            Some(id) => Some(id@),
            None => None,
        },
        request@.method == request.method@,
        request@.params == match request.params {
            Some(params) => Some(params@),
            None => None,
        },
        directive@ == match directive {
            Directive::Silent => DirectiveModel::Silent,
            Directive::Reply(json) => DirectiveModel::Reply(json@),
            Directive::CallTool { id, tool, arguments } => (DirectiveModel::CallTool {
                id: id@,
                tool,
                arguments: arguments@,
            }),
        },
{
}

} // verus!
