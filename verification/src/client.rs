use vstd::prelude::*;
use crate::json::{JsonData, JsonValue, find_member, lookup, view_pairs, lemma_view_pairs};
use crate::protocol::{
    FromJson, JsonRpcNotification, JsonRpcRequest, JsonRpcResponse, JsonRpcServerRequest,
    McpPrompt, McpPromptMessage, McpResource, McpResourceTemplate, McpTool, Notification, NotificationModel,
    ServerCapabilities, data_of, decode_list, field, list_matches, list_ok, notification_for, optional_field,
    text_field,
};
use crate::table::Table;
use crate::text::{chars_of, owned, push_str, string_of_range, u64_to_text, i64_to_text, decimal, signed_decimal};

verus! {

/// Fixed results for requests that the server sends to the client, by method.
pub type CapabilityHandlers = Table<JsonValue>;

/// A lower-case hexadecimal digit.
pub open spec fn lower_hex_digit(c: char) -> bool {
    ('0' <= c && c <= '9') || ('a' <= c && c <= 'f')
}

/// The text of a random (version 4) UUID: 32 lower-case hexadecimal digits in groups of 8, 4,
/// 4, 4 and 12 with hyphens between them, the version digit `4` first in the third group and
/// the variant digit `8`, `9`, `a` or `b` first in the fourth.
pub open spec fn uuid_v4_text(s: Seq<char>) -> bool {
    &&& s.len() == 36
    &&& forall|i: int| 0 <= i < 36 ==> if i == 8 || i == 13 || i == 18 || i == 23 {
        s[i] == '-'
    } else {
        lower_hex_digit(#[trigger] s[i])
    }
    &&& s[14] == '4'
    &&& (s[19] == '8' || s[19] == '9' || s[19] == 'a' || s[19] == 'b')
}

/// Calls `uuid::Uuid::new_v4` and writes the result with `to_string`. `new_v4` sets the version
/// bits to 4 and the variant bits to `10` over random bits, and `to_string` writes the hyphenated
/// lower-case form; which digits the random bits give is not stated.
#[verifier::external_body]
fn random_request_id() -> (r: String)
    ensures
        uuid_v4_text(r@),
{
    uuid::Uuid::new_v4().to_string()
}

/// The JSON-RPC version the client speaks.
pub open spec fn jsonrpc_version() -> Seq<char> {
    "2.0"@
}

/// A new request for `method` with a fresh random id.
pub fn new_request(method: &str, params: Option<JsonValue>) -> (r: JsonRpcRequest)
    ensures
        r.jsonrpc@ == jsonrpc_version(),
        r.method@ == method@,
        data_of(r.params) == data_of(params),
        uuid_v4_text(r.id@),
{
    JsonRpcRequest { jsonrpc: owned("2.0"), id: random_request_id(), method: owned(method), params }
}

/// The notification the client sends once the server has answered `initialize`.
pub fn initialized_notification() -> (r: JsonRpcNotification)
    ensures
        r.jsonrpc@ == jsonrpc_version(),
        r.method@ == "notifications/initialized"@,
        r.params is None,
{
    JsonRpcNotification { jsonrpc: owned("2.0"), method: owned("notifications/initialized"), params: None }
}

// ---------------------------------------------------------------------------------------------
// Incoming messages
// ---------------------------------------------------------------------------------------------

/// Whether the object `d` has a member `key`.
pub open spec fn has_member(d: JsonData, key: Seq<char>) -> bool {
    d.get(key) is Some
}

/// A response: it has an id and a result or an error.
pub open spec fn is_response(d: JsonData) -> bool {
    has_member(d, "id"@) && (has_member(d, "result"@) || has_member(d, "error"@))
}

/// A notification: it has a method and no id.
pub open spec fn is_notification(d: JsonData) -> bool {
    !is_response(d) && has_member(d, "method"@) && !has_member(d, "id"@)
}

/// A request from the server: it has a method and an id.
pub open spec fn is_server_request(d: JsonData) -> bool {
    !is_response(d) && has_member(d, "method"@) && has_member(d, "id"@)
}

/// The members `jsonrpc`, `id` and then `last`, of a reply.
pub open spec fn reply_members(id: JsonData, last: (Seq<char>, JsonData)) -> JsonData {
    JsonData::Object(seq![("jsonrpc"@, JsonData::Str("2.0"@)), ("id"@, id), last])
}

/// The reply that carries `result`.
pub open spec fn success_reply(id: JsonData, result: JsonData) -> JsonData {
    reply_members(id, ("result"@, result))
}

/// The code of the method-not-found error.
pub open spec fn method_not_found_code() -> Seq<char> {
    seq!['-', '3', '2', '6', '0', '1']
}

/// The reply that says the method is not handled: error code -32601.
pub open spec fn method_not_found_reply(id: JsonData) -> JsonData {
    reply_members(id, ("error"@, JsonData::Object(seq![
        ("code"@, JsonData::Number(method_not_found_code())),
        ("message"@, JsonData::Str("Method not found"@)),
    ])))
}

/// What the client does with one message that came in.
#[derive(Debug)]
pub enum Incoming {
    /// A response, for the pending request with its id.
    Response(JsonRpcResponse),
    /// A request from the server: the reply to send back at once, and the notification that
    /// records it.
    ServerRequest { reply: JsonValue, notification: Notification },
    /// A notification from the server.
    Notification(Notification),
    /// A message that is none of these, or does not have their shape.
    Ignored,
}

/// What `route_message` gives for the message `d` when the handlers are `handlers`.
pub open spec fn routed_as(r: Incoming, d: JsonData, handlers: Map<Seq<char>, JsonValue>) -> bool {
    if is_response(d) {
        if JsonRpcResponse::json_ok(d) {
            r matches Incoming::Response(resp) && resp.json_matches(d)
        } else {
            r is Ignored
        }
    } else if is_notification(d) {
        if JsonRpcNotification::json_ok(d) {
            r matches Incoming::Notification(n) && n.model() == notification_for(
                text_field(field(d, "method"@, 1), false).unwrap(),
                optional_field(field(d, "params"@, 2)),
            )
        } else {
            r is Ignored
        }
    } else if is_server_request(d) {
        if JsonRpcServerRequest::json_ok(d) {
            let method = text_field(field(d, "method"@, 2), false).unwrap();
            let id = field(d, "id"@, 1).unwrap();
            let params = optional_field(field(d, "params"@, 3));
            r matches Incoming::ServerRequest { reply, notification } && if handlers.contains_key(method) {
                &&& reply.data() == success_reply(id, handlers[method].data())
                &&& notification.model() == (NotificationModel::ServerRequest { method, params, responded: true })
            } else {
                &&& reply.data() == method_not_found_reply(id)
                &&& notification.model() == (NotificationModel::ServerRequest { method, params, responded: false })
            }
        } else {
            r is Ignored
        }
    } else {
        r is Ignored
    }
}

fn reply_json(id: &JsonValue, key: &str, last: JsonValue) -> (r: JsonValue)
    ensures
        r.data() == reply_members(id.data(), (key@, last.data())),
{
    let mut members: Vec<(String, JsonValue)> = Vec::new();
    members.push((owned("jsonrpc"), JsonValue::Str(owned("2.0"))));
    members.push((owned("id"), id.duplicate()));
    let ghost ld = last.data();
    members.push((owned(key), last));
    proof {
        lemma_view_pairs(members@);
        assert(view_pairs(members@) =~= seq![("jsonrpc"@, JsonData::Str("2.0"@)), ("id"@, id.data()), (key@, ld)]);
    }
    JsonValue::Object(members)
}

/// The reply to a server request when a handler gives `result`.
pub fn success_reply_json(id: &JsonValue, result: &JsonValue) -> (r: JsonValue)
    ensures
        r.data() == success_reply(id.data(), result.data()),
{
    reply_json(id, "result", result.duplicate())
}

/// The reply to a server request that no handler takes.
pub fn method_not_found_json(id: &JsonValue) -> (r: JsonValue)
    ensures
        r.data() == method_not_found_reply(id.data()),
{
    let mut err: Vec<(String, JsonValue)> = Vec::new();
    err.push((owned("code"), JsonValue::Number(i64_to_text(-32601))));
    err.push((owned("message"), JsonValue::Str(owned("Method not found"))));
    proof {
        lemma_view_pairs(err@);
        reveal_with_fuel(decimal, 6);
        assert(signed_decimal(-32601) =~= method_not_found_code());
        assert(view_pairs(err@) =~= seq![
            ("code"@, JsonData::Number(method_not_found_code())),
            ("message"@, JsonData::Str("Method not found"@)),
        ]);
    }
    reply_json(id, "error", JsonValue::Object(err))
}

/// Decides what to do with a message from the server: a response goes to the pending request
/// with its id; a request from the server gets an immediate reply, with the configured result
/// for its method or a method-not-found error, and is recorded as a notification; a
/// notification is interpreted; anything else is ignored.
pub fn route_message(msg: &JsonValue, handlers: &CapabilityHandlers) -> (r: Incoming)
    ensures
        routed_as(r, msg.data(), handlers@),
{
    let has_id = msg.get("id").is_some();
    let has_method = msg.get("method").is_some();
    if has_id && (msg.get("result").is_some() || msg.get("error").is_some()) {
        match JsonRpcResponse::from_json(msg) {
            Some(resp) => Incoming::Response(resp),
            None => Incoming::Ignored,
        }
    } else if has_method && !has_id {
        match JsonRpcNotification::from_json(msg) {
            Some(n) => Incoming::Notification(Notification::from_jsonrpc(&n)),
            None => Incoming::Ignored,
        }
    } else if has_method && has_id {
        match JsonRpcServerRequest::from_json(msg) {
            Some(req) => {
                let params = match &req.params {
                    Some(p) => Some(p.duplicate()),
                    None => None,
                };
                match handlers.get(req.method.as_str()) {
                    Some(result) => {
                        let reply = success_reply_json(&req.id, result);
                        Incoming::ServerRequest {
                            reply,
                            notification: Notification::ServerRequest { method: req.method, params, responded: true },
                        }
                    },
                    None => {
                        let reply = method_not_found_json(&req.id);
                        Incoming::ServerRequest {
                            reply,
                            notification: Notification::ServerRequest { method: req.method, params, responded: false },
                        }
                    },
                }
            },
            None => Incoming::Ignored,
        }
    } else {
        Incoming::Ignored
    }
}

impl JsonRpcResponse {
    /// The id as text, when it is a string; the client's own requests use string ids.
    pub fn id_text(&self) -> (r: Option<&String>)
        ensures
            match r {
                Some(s) => self.id.data() == JsonData::Str(s@),
                None => !(self.id.data() is Str),
            },
    {
        self.id.as_str()
    }
}

// ---------------------------------------------------------------------------------------------
// Outcomes of requests
// ---------------------------------------------------------------------------------------------

/// Why a request gave no result.
#[derive(Debug)]
pub enum RequestError {
    /// The message could not be handed to the transport.
    SendFailed,
    /// No response came within the timeout, in seconds.
    TimedOut(u64),
    /// The server went away before it responded.
    ServerExited,
    /// The server answered with an error.
    Server { code: i32, message: String },
    /// The response had neither a result nor an error.
    EmptyResult,
    /// The result did not have the shape the method calls for.
    InvalidResult,
}

/// The text of a request error.
pub open spec fn request_error_text(e: RequestError) -> Seq<char> {
    match e {
        RequestError::SendFailed => "Transport send failed"@,
        RequestError::TimedOut(secs) => "Request timed out after "@ + decimal(secs as nat) + "s"@,
        RequestError::ServerExited => "Server process exited without responding"@,
        RequestError::Server { code, message } => "Server error "@ + signed_decimal(code as int) + ": "@ + message@,
        RequestError::EmptyResult => "Empty result"@,
        RequestError::InvalidResult => "Unexpected result shape"@,
    }
}

impl RequestError {
    /// The text of this error.
    pub fn message(&self) -> (r: String)
        ensures
            r@ == request_error_text(*self),
    {
        match self {
            RequestError::SendFailed => owned("Transport send failed"),
            RequestError::TimedOut(secs) => {
                let mut r = owned("Request timed out after ");
                let n = u64_to_text(*secs);
                push_str(&mut r, n.as_str());
                push_str(&mut r, "s");
                r
            },
            RequestError::ServerExited => owned("Server process exited without responding"),
            RequestError::Server { code, message } => {
                let mut r = owned("Server error ");
                let n = i64_to_text(*code as i64);
                push_str(&mut r, n.as_str());
                push_str(&mut r, ": ");
                push_str(&mut r, message.as_str());
                r
            },
            RequestError::EmptyResult => owned("Empty result"),
            RequestError::InvalidResult => owned("Unexpected result shape"),
        }
    }
}

/// The outcome of a response: its error, else its result, else `EmptyResult`.
pub fn response_outcome(resp: JsonRpcResponse) -> (r: Result<JsonValue, RequestError>)
    ensures
        match resp.error {
            Some(e) => r matches Err(RequestError::Server { code, message }) && code == e.code && message@ == e.message@,
            None => match resp.result {
                Some(v) => r matches Ok(x) && x.data() == v.data(),
                None => r matches Err(RequestError::EmptyResult),
            },
        },
{
    match resp.error {
        Some(e) => Err(RequestError::Server { code: e.code, message: e.message }),
        None => match resp.result {
            Some(v) => Ok(v),
            None => Err(RequestError::EmptyResult),
        },
    }
}

/// The list that a result holds under `key`: a missing member is an empty list.
pub open spec fn list_in_result<T: FromJson>(r: Result<Vec<T>, RequestError>, result: JsonData, key: Seq<char>) -> bool {
    match result.get(key) {
        None => r matches Ok(list) && list@.len() == 0,
        Some(items) => if list_ok::<T>(items) {
            r matches Ok(list) && list_matches(list@, items)
        } else {
            r matches Err(RequestError::InvalidResult)
        },
    }
}

/// Reads the list that a result holds under `key`.
pub fn list_from_result<T: FromJson>(result: &JsonValue, key: &str) -> (r: Result<Vec<T>, RequestError>)
    ensures
        list_in_result(r, result.data(), key@),
{
    match result.get(key) {
        None => Ok(Vec::new()),
        Some(items) => match decode_list::<T>(items) {
            Some(list) => Ok(list),
            None => Err(RequestError::InvalidResult),
        },
    }
}

/// The tools in a `tools/list` result.
pub fn tools_from_result(result: &JsonValue) -> (r: Result<Vec<McpTool>, RequestError>)
    ensures
        list_in_result(r, result.data(), "tools"@),
{
    list_from_result(result, "tools")
}

/// The resources in a `resources/list` result.
pub fn resources_from_result(result: &JsonValue) -> (r: Result<Vec<McpResource>, RequestError>)
    ensures
        list_in_result(r, result.data(), "resources"@),
{
    list_from_result(result, "resources")
}

/// The resource templates in a `resources/templates/list` result.
pub fn resource_templates_from_result(result: &JsonValue) -> (r: Result<Vec<McpResourceTemplate>, RequestError>)
    ensures
        list_in_result(r, result.data(), "resourceTemplates"@),
{
    list_from_result(result, "resourceTemplates")
}

/// The prompts in a `prompts/list` result.
pub fn prompts_from_result(result: &JsonValue) -> (r: Result<Vec<McpPrompt>, RequestError>)
    ensures
        list_in_result(r, result.data(), "prompts"@),
{
    list_from_result(result, "prompts")
}

/// The messages in a `prompts/get` result.
pub fn prompt_messages_from_result(result: &JsonValue) -> (r: Result<Vec<McpPromptMessage>, RequestError>)
    ensures
        list_in_result(r, result.data(), "messages"@),
{
    list_from_result(result, "messages")
}

/// The capabilities in an `initialize` result: its `capabilities` member read as capabilities,
/// or none at all when that member is missing or has another shape.
pub fn capabilities_from_result(result: &JsonValue) -> (r: ServerCapabilities)
    ensures
        match result.data().get("capabilities"@) {
            Some(c) => if ServerCapabilities::json_ok(c) {
                r.json_matches(c)
            } else {
                r.tools is None && r.resources is None && r.prompts is None && r.logging is None
            },
            None => r.tools is None && r.resources is None && r.prompts is None && r.logging is None,
        },
{
    match result.get("capabilities") {
        Some(c) => match ServerCapabilities::from_json(c) {
            Some(caps) => caps,
            None => ServerCapabilities::default(),
        },
        None => ServerCapabilities::default(),
    }
}

// ---------------------------------------------------------------------------------------------
// Requests
// ---------------------------------------------------------------------------------------------

/// The namespace of a method: the text before its first `/` (`roots/list` gives `roots`).
pub open spec fn namespace(m: Seq<char>) -> Seq<char>
    decreases m.len(),
{
    if m.len() == 0 || m[0] == '/' {
        Seq::empty()
    } else {
        seq![m[0]] + namespace(m.drop_first())
    }
}

/// The capability the client always announces: `roots`, with `listChanged`.
pub open spec fn roots_capability() -> JsonData {
    JsonData::Object(seq![("listChanged"@, JsonData::Bool(true))])
}

/// The client capabilities announced when handlers exist for `methods`: `roots`, then the
/// namespace of each method, once, in the order the methods come.
pub open spec fn advertised(methods: Seq<Seq<char>>) -> Seq<(Seq<char>, JsonData)>
    decreases methods.len(),
{
    if methods.len() == 0 {
        seq![("roots"@, roots_capability())]
    } else {
        let prev = advertised(methods.drop_last());
        let ns = namespace(methods.last());
        if lookup(prev, ns) is Some {
            prev
        } else {
            prev.push((ns, JsonData::Object(Seq::empty())))
        }
    }
}

/// The parameters of `initialize` when handlers exist for `methods`.
pub open spec fn initialize_params_for(methods: Seq<Seq<char>>) -> JsonData {
    JsonData::Object(initialize_members(methods))
}

/// The members of the `initialize` parameters.
pub open spec fn initialize_members(methods: Seq<Seq<char>>) -> Seq<(Seq<char>, JsonData)> {
    seq![
        ("protocolVersion"@, JsonData::Str("2024-11-05"@)),
        ("capabilities"@, JsonData::Object(advertised(methods))),
        ("clientInfo"@, JsonData::Object(seq![
            ("name"@, JsonData::Str("mcpinspector"@)),
            ("version"@, JsonData::Str("0.1.0"@)),
        ])),
    ]
}

proof fn lemma_namespace(m: Seq<char>, k: int)
    requires
        0 <= k <= m.len(),
        forall|j: int| 0 <= j < k ==> m[j] != '/',
        k == m.len() || m[k] == '/',
    ensures
        namespace(m) == m.take(k),
    decreases k,
{
    if k == 0 {
        assert(m.take(0) =~= Seq::<char>::empty());
    } else {
        assert forall|j: int| 0 <= j < k - 1 implies m.drop_first()[j] != '/' by {
            assert(m.drop_first()[j] == m[j + 1]);
        }
        lemma_namespace(m.drop_first(), k - 1);
        assert(seq![m[0]] + m.drop_first().take(k - 1) =~= m.take(k));
    }
}

/// The namespace of a method.
pub fn namespace_of(m: &str) -> (r: String)
    ensures
        r@ == namespace(m@),
{
    let cs = chars_of(m);
    let mut k: usize = 0;
    while k < cs.len() && cs[k] != '/'
        invariant
            k <= cs@.len(),
            forall|j: int| 0 <= j < k ==> cs@[j] != '/',
        decreases cs@.len() - k,
    {
        k = k + 1;
    }
    proof {
        lemma_namespace(cs@, k as int);
        assert(cs@.subrange(0, k as int) =~= cs@.take(k as int));
    }
    string_of_range(&cs, 0, k)
}

proof fn lemma_lookup_push(ps: Seq<(Seq<char>, JsonData)>, x: (Seq<char>, JsonData), key: Seq<char>)
    requires
        lookup(ps, key) is Some,
    ensures
        lookup(ps.push(x), key) == lookup(ps, key),
    decreases ps.len(),
{
    if ps[0].0 != key {
        lemma_lookup_push(ps.drop_first(), x, key);
        assert(ps.push(x).drop_first() =~= ps.drop_first().push(x));
    }
}

proof fn lemma_lookup_pushed(ps: Seq<(Seq<char>, JsonData)>, x: (Seq<char>, JsonData))
    requires
        lookup(ps, x.0) is None,
    ensures
        lookup(ps.push(x), x.0) == Some(x.1),
    decreases ps.len(),
{
    if ps.len() > 0 {
        lemma_lookup_pushed(ps.drop_first(), x);
        assert(ps.push(x).drop_first() =~= ps.drop_first().push(x));
    }
}

/// Every method that has a handler is announced under its namespace in `initialize`, and the
/// `roots` capability is always announced.
pub proof fn lemma_handlers_advertised(methods: Seq<Seq<char>>)
    ensures
        lookup(advertised(methods), "roots"@) is Some,
        forall|i: int| 0 <= i < methods.len() ==> #[trigger] lookup(advertised(methods), namespace(methods[i])) is Some,
    decreases methods.len(),
{
    if methods.len() == 0 {
    } else {
        let init = methods.drop_last();
        lemma_handlers_advertised(init);
        let prev = advertised(init);
        let ns = namespace(methods.last());
        if lookup(prev, ns) is None {
            let x = (ns, JsonData::Object(Seq::<(Seq<char>, JsonData)>::empty()));
            lemma_lookup_pushed(prev, x);
            lemma_lookup_push(prev, x, "roots"@);
            assert forall|i: int| 0 <= i < methods.len() implies #[trigger] lookup(advertised(methods), namespace(methods[i])) is Some by {
                if i < methods.len() - 1 {
                    assert(methods[i] == init[i]);
                    lemma_lookup_push(prev, x, namespace(init[i]));
                }
            }
        } else {
            assert forall|i: int| 0 <= i < methods.len() implies #[trigger] lookup(advertised(methods), namespace(methods[i])) is Some by {
                if i < methods.len() - 1 {
                    assert(methods[i] == init[i]);
                }
            }
        }
    }
}

fn text_member(key: &str, value: &str) -> (r: (String, JsonValue))
    ensures
        r.0@ == key@,
        r.1.data() == JsonData::Str(value@),
{
    (owned(key), JsonValue::Str(owned(value)))
}

/// The parameters of `initialize`: the protocol version, the capabilities the client
/// announces for its handlers, and the client's name and version.
pub fn initialize_params(handlers: &CapabilityHandlers) -> (r: JsonValue)
    ensures
        r.data() == initialize_params_for(handlers.keys()),
{
    let entries = handlers.as_slice();
    let mut caps: Vec<(String, JsonValue)> = Vec::new();
    let mut roots: Vec<(String, JsonValue)> = Vec::new();
    roots.push((owned("listChanged"), JsonValue::Bool(true)));
    proof {
        lemma_view_pairs(roots@);
        assert(view_pairs(roots@) =~= seq![("listChanged"@, JsonData::Bool(true))]);
    }
    caps.push((owned("roots"), JsonValue::Object(roots)));
    proof {
        lemma_view_pairs(caps@);
        assert(view_pairs(caps@) =~= advertised(handlers.keys().take(0)));
    }
    let mut i: usize = 0;
    while i < entries.len()
        invariant
            i <= entries@.len(),
            entries@ == handlers.entries(),
            view_pairs(caps@) == advertised(handlers.keys().take(i as int)),
        decreases entries@.len() - i,
    {
        let ns = namespace_of(entries[i].0.as_str());
        let ghost keys = handlers.keys();
        assert(keys.take(i + 1).drop_last() =~= keys.take(i as int));
        assert(keys.take(i + 1).last() == entries@[i as int].0@);
        match find_member(&caps, ns.as_str()) {
            Some(_) => {},
            None => {
                let ghost before = caps@;
                caps.push((ns, JsonValue::Object(Vec::new())));
                proof {
                    lemma_view_pairs(caps@);
                    lemma_view_pairs(before);
                    assert(caps@.drop_last() =~= before);
                    assert(view_pairs(Seq::<(String, JsonValue)>::empty()) =~= Seq::<(Seq<char>, JsonData)>::empty());
                }
            },
        }
        i = i + 1;
    }
    proof {
        assert(handlers.keys().take(i as int) =~= handlers.keys());
    }
    let mut info: Vec<(String, JsonValue)> = Vec::new();
    info.push(text_member("name", "mcpinspector"));
    info.push(text_member("version", "0.1.0"));
    let mut params: Vec<(String, JsonValue)> = Vec::new();
    params.push(text_member("protocolVersion", "2024-11-05"));
    params.push((owned("capabilities"), JsonValue::Object(caps)));
    params.push((owned("clientInfo"), JsonValue::Object(info)));
    proof {
        lemma_view_pairs(info@);
        lemma_view_pairs(params@);
        assert(view_pairs(info@) =~= seq![("name"@, JsonData::Str("mcpinspector"@)), ("version"@, JsonData::Str("0.1.0"@))]);
        assert(view_pairs(params@) =~= initialize_members(handlers.keys()));
    }
    JsonValue::Object(params)
}

/// The parameters of `tools/call`: the tool's name and its arguments, an empty object when
/// none are given.
pub open spec fn call_tool_params_for(name: Seq<char>, args: Option<JsonData>) -> JsonData {
    JsonData::Object(call_tool_members(name, args))
}

/// The members of the `tools/call` parameters.
pub open spec fn call_tool_members(name: Seq<char>, args: Option<JsonData>) -> Seq<(Seq<char>, JsonData)> {
    seq![
        ("name"@, JsonData::Str(name)),
        ("arguments"@, match args { Some(a) => a, None => JsonData::Object(Seq::empty()) }),
    ]
}

/// The parameters of `tools/call`.
pub fn call_tool_params(name: &str, args: Option<JsonValue>) -> (r: JsonValue)
    ensures
        r.data() == call_tool_params_for(name@, data_of(args)),
{
    let ghost ad0 = data_of(args);
    let a = match args {
        Some(a) => a,
        None => JsonValue::Object(Vec::new()),
    };
    let ghost ad = a.data();
    let mut members: Vec<(String, JsonValue)> = Vec::new();
    members.push(text_member("name", name));
    members.push((owned("arguments"), a));
    proof {
        lemma_view_pairs(members@);
        assert(view_pairs(Seq::<(String, JsonValue)>::empty()) =~= Seq::<(Seq<char>, JsonData)>::empty());
        assert(view_pairs(members@) =~= call_tool_members(name@, ad0));
    }
    JsonValue::Object(members)
}

/// The parameters of `resources/read`.
pub fn read_resource_params(uri: &str) -> (r: JsonValue)
    ensures
        r.data() == JsonData::Object(seq![("uri"@, JsonData::Str(uri@))]),
{
    let mut members: Vec<(String, JsonValue)> = Vec::new();
    members.push(text_member("uri", uri));
    proof {
        lemma_view_pairs(members@);
        assert(view_pairs(members@) =~= seq![("uri"@, JsonData::Str(uri@))]);
    }
    JsonValue::Object(members)
}

/// The parameters of `prompts/get`: the prompt's name and, when given, its arguments.
pub open spec fn get_prompt_params_for(name: Seq<char>, args: Option<JsonData>) -> JsonData {
    JsonData::Object(get_prompt_members(name, args))
}

/// The members of the `prompts/get` parameters.
pub open spec fn get_prompt_members(name: Seq<char>, args: Option<JsonData>) -> Seq<(Seq<char>, JsonData)> {
    seq![("name"@, JsonData::Str(name))] + match args {
        Some(a) => seq![("arguments"@, a)],
        None => Seq::empty(),
    }
}

/// The parameters of `prompts/get`.
pub fn get_prompt_params(name: &str, args: Option<JsonValue>) -> (r: JsonValue)
    ensures
        r.data() == get_prompt_params_for(name@, data_of(args)),
{
    let mut members: Vec<(String, JsonValue)> = Vec::new();
    members.push(text_member("name", name));
    let ghost ad = data_of(args);
    match args {
        Some(a) => members.push((owned("arguments"), a)),
        None => {},
    }
    proof {
        lemma_view_pairs(members@);
        assert(view_pairs(members@) =~= get_prompt_members(name@, ad));
    }
    JsonValue::Object(members)
}

/// A request from the server for `method`, after a handler for it was set to `payload`, is
/// answered at once with `payload` as its result, and recorded as responded.
pub proof fn lemma_handler_answers(handlers: Map<Seq<char>, JsonValue>, method: Seq<char>, payload: JsonValue, d: JsonData, r: Incoming)
    requires
        is_server_request(d),
        JsonRpcServerRequest::json_ok(d),
        text_field(field(d, "method"@, 2), false) == Some(method),
        routed_as(r, d, handlers.insert(method, payload)),
    ensures
        r matches Incoming::ServerRequest { reply, notification } && {
            &&& reply.data() == success_reply(field(d, "id"@, 1).unwrap(), payload.data())
            &&& notification.model() == (NotificationModel::ServerRequest {
                method,
                params: optional_field(field(d, "params"@, 3)),
                responded: true,
            })
        },
{
}

/// A request from the server for `method`, after its handler was removed, is answered at
/// once with the method-not-found error, and recorded as not responded.
pub proof fn lemma_removed_handler_not_found(handlers: Map<Seq<char>, JsonValue>, method: Seq<char>, d: JsonData, r: Incoming)
    requires
        is_server_request(d),
        JsonRpcServerRequest::json_ok(d),
        text_field(field(d, "method"@, 2), false) == Some(method),
        routed_as(r, d, handlers.remove(method)),
    ensures
        r matches Incoming::ServerRequest { reply, notification } && {
            &&& reply.data() == method_not_found_reply(field(d, "id"@, 1).unwrap())
            &&& notification.model() == (NotificationModel::ServerRequest {
                method,
                params: optional_field(field(d, "params"@, 3)),
                responded: false,
            })
        },
{
}

// ---------------------------------------------------------------------------------------------
// The client's requests
// ---------------------------------------------------------------------------------------------

/// `r` is a JSON-RPC 2.0 request for `method` with `params`, under a fresh random id.
pub open spec fn request_is(r: JsonRpcRequest, method: Seq<char>, params: Option<JsonData>) -> bool {
    &&& r.jsonrpc@ == jsonrpc_version()
    &&& r.method@ == method
    &&& data_of(r.params) == params
    &&& uuid_v4_text(r.id@)
}

/// The `initialize` request, announcing the capabilities for the handlers.
pub fn initialize_request(handlers: &CapabilityHandlers) -> (r: JsonRpcRequest)
    ensures
        request_is(r, "initialize"@, Some(initialize_params_for(handlers.keys()))),
{
    new_request("initialize", Some(initialize_params(handlers)))
}

/// The `tools/list` request.
pub fn list_tools_request() -> (r: JsonRpcRequest)
    ensures
        request_is(r, "tools/list"@, None),
{
    new_request("tools/list", None)
}

/// The `resources/list` request.
pub fn list_resources_request() -> (r: JsonRpcRequest)
    ensures
        request_is(r, "resources/list"@, None),
{
    new_request("resources/list", None)
}

/// The `resources/templates/list` request.
pub fn list_resource_templates_request() -> (r: JsonRpcRequest)
    ensures
        request_is(r, "resources/templates/list"@, None),
{
    new_request("resources/templates/list", None)
}

/// The `prompts/list` request.
pub fn list_prompts_request() -> (r: JsonRpcRequest)
    ensures
        request_is(r, "prompts/list"@, None),
{
    new_request("prompts/list", None)
}

/// The `tools/call` request for the tool `name` with `args`.
pub fn call_tool_request(name: &str, args: Option<JsonValue>) -> (r: JsonRpcRequest)
    ensures
        request_is(r, "tools/call"@, Some(call_tool_params_for(name@, data_of(args)))),
{
    new_request("tools/call", Some(call_tool_params(name, args)))
}

/// The `resources/read` request for `uri`.
pub fn read_resource_request(uri: &str) -> (r: JsonRpcRequest)
    ensures
        request_is(r, "resources/read"@, Some(JsonData::Object(seq![("uri"@, JsonData::Str(uri@))]))),
{
    new_request("resources/read", Some(read_resource_params(uri)))
}

/// The `prompts/get` request for the prompt `name` with `args`.
pub fn get_prompt_request(name: &str, args: Option<JsonValue>) -> (r: JsonRpcRequest)
    ensures
        request_is(r, "prompts/get"@, Some(get_prompt_params_for(name@, data_of(args)))),
{
    new_request("prompts/get", Some(get_prompt_params(name, args)))
}

/// Takes out of `pending` what waits for the response `resp`: the entry under the response's
/// id, when that id is a string; nothing when the id is of another kind or nothing waits
/// under it.
pub fn take_waiter<W>(pending: &mut Table<W>, resp: &JsonRpcResponse) -> (r: Option<W>)
    ensures
        match resp.id.data() {
            JsonData::Str(id) => {
                &&& final(pending)@ == old(pending)@.remove(id)
                &&& old(pending)@.contains_key(id) ==> r == Some(old(pending)@[id])
                &&& !old(pending)@.contains_key(id) ==> r is None
            },
            _ => *final(pending) == *old(pending) && r is None,
        },
{
    match resp.id_text() {
        Some(id) => pending.remove(id.as_str()),
        None => None,
    }
}

/// Every well-formed response goes to the request waiting for its id, whether it carries a
/// result or an error: a message with an id and a `result` or `error` member that reads as a
/// JSON-RPC response is routed as that response, whatever handlers are set.
pub proof fn lemma_responses_are_delivered(d: JsonData, handlers: Map<Seq<char>, JsonValue>, r: Incoming)
    requires
        routed_as(r, d, handlers),
        d.get("id"@) is Some,
        d.get("result"@) is Some || d.get("error"@) is Some,
        JsonRpcResponse::json_ok(d),
    ensures
        r matches Incoming::Response(resp) && resp.json_matches(d),
{
}

/// An error answer is delivered with its error: a response object with an id and an `error`
/// member holding a code and a message is routed as a response whose error has that code and
/// that message, so the waiting request fails with the server's error.
pub proof fn lemma_error_answers_are_delivered(d: JsonData, handlers: Map<Seq<char>, JsonValue>, r: Incoming, e: JsonData)
    requires
        routed_as(r, d, handlers),
        d is Object,
        e is Object,
        d.get("id"@) is Some,
        d.get("error"@) == Some(e),
        crate::protocol::JsonRpcError::json_ok(e),
        JsonRpcResponse::json_ok(d),
    ensures
        r matches Incoming::Response(resp) && (resp.error matches Some(x)
            && x.json_matches(e)
            && crate::protocol::code_field(e.get("code"@)) == Some(x.code as int)
            && e.get("message"@) == Some(JsonData::Str(x.message@))),
{
    assert(field(d, "error"@, 3) == Some(e));
    assert(field(e, "code"@, 0) == e.get("code"@));
    assert(field(e, "message"@, 1) == e.get("message"@));
}

} // verus!
