use vstd::prelude::*;
use crate::json::{JsonData, JsonValue, view_items, view_pairs, lemma_view_items, lemma_view_pairs};
use crate::protocol::{McpPrompt, McpResource, McpTool, Notification, ServerCapabilities, opt_data};
use crate::table::{Table, entries_map};
use crate::text::{copy_string, owned, push_str, string_views};

verus! {

/// How the client reaches a server.
#[derive(Debug, Clone, Copy, PartialEq, Eq, Structural)]
pub enum TransportType {
    Stdio,
    Http,
}

/// Strings keyed by strings (environment variables, HTTP headers).
pub type StringMap = Table<String>;

/// The text of each value of a map of strings.
pub open spec fn text_map(m: Map<Seq<char>, String>) -> Map<Seq<char>, Seq<char>> {
    m.map_values(|v: String| v@)
}

/// Where and how to connect to a server.
#[derive(Debug)]
pub struct ConnectionConfig {
    pub transport_type: TransportType,
    pub command: String,
    pub args: Vec<String>,
    pub env: StringMap,
    pub url: String,
    pub headers: StringMap,
}

impl Default for ConnectionConfig {
    fn default() -> (r: Self)
        ensures
            r.transport_type == TransportType::Stdio,
            r.command@ == Seq::<char>::empty(),
            r.args@.len() == 0,
            r.env@ == Map::<Seq<char>, String>::empty(),
            r.url@ == Seq::<char>::empty(),
            r.headers@ == Map::<Seq<char>, String>::empty(),
    {
        ConnectionConfig {
            transport_type: TransportType::Stdio,
            command: String::new(),
            args: Vec::new(),
            env: Table::new(),
            url: String::new(),
            headers: Table::new(),
        }
    }
}

/// The names offered for completion after `call`, `read` and `prompt`.
#[derive(Debug)]
pub struct CompleterState {
    pub tools: Vec<String>,
    pub resources: Vec<String>,
    pub prompts: Vec<String>,
}

/// The names of tools.
pub open spec fn tool_names(tools: Seq<McpTool>) -> Seq<Seq<char>> {
    tools.map_values(|t: McpTool| t.name@)
}

/// The URIs of resources.
pub open spec fn resource_uris(resources: Seq<McpResource>) -> Seq<Seq<char>> {
    resources.map_values(|r: McpResource| r.uri@)
}

/// The names of prompts.
pub open spec fn prompt_names(prompts: Seq<McpPrompt>) -> Seq<Seq<char>> {
    prompts.map_values(|p: McpPrompt| p.name@)
}

impl CompleterState {
    /// Nothing to complete.
    pub fn new() -> (r: Self)
        ensures
            r.tools@.len() == 0,
            r.resources@.len() == 0,
            r.prompts@.len() == 0,
    {
        CompleterState { tools: Vec::new(), resources: Vec::new(), prompts: Vec::new() }
    }

    /// Completes tool names from `tools`.
    pub fn set_tools(&mut self, tools: &Vec<McpTool>)
        ensures
            string_views(final(self).tools@) == tool_names(tools@),
            final(self).resources == old(self).resources,
            final(self).prompts == old(self).prompts,
    {
        let mut names: Vec<String> = Vec::new();
        let mut i: usize = 0;
        while i < tools.len()
            invariant
                i <= tools@.len(),
                string_views(names@) == tool_names(tools@).take(i as int),
            decreases tools@.len() - i,
        {
            let ghost before = names@;
            assert(string_views(before).len() == before.len());
            names.push(copy_string(&tools[i].name));
            assert(string_views(names@) =~= tool_names(tools@).take(i + 1)) by {
                assert forall|k: int| 0 <= k < i + 1 implies #[trigger] string_views(names@)[k] == tool_names(tools@).take(i + 1)[k] by {
                    if k < i {
                        assert(names@[k] == before[k]);
                    }
                }
            }
            i = i + 1;
        }
        assert(tool_names(tools@).take(i as int) =~= tool_names(tools@));
        self.tools = names;
    }

    /// Completes resource URIs from `resources`.
    pub fn set_resources(&mut self, resources: &Vec<McpResource>)
        ensures
            string_views(final(self).resources@) == resource_uris(resources@),
            final(self).tools == old(self).tools,
            final(self).prompts == old(self).prompts,
    {
        let mut names: Vec<String> = Vec::new();
        let mut i: usize = 0;
        while i < resources.len()
            invariant
                i <= resources@.len(),
                string_views(names@) == resource_uris(resources@).take(i as int),
            decreases resources@.len() - i,
        {
            let ghost before = names@;
            assert(string_views(before).len() == before.len());
            names.push(copy_string(&resources[i].uri));
            assert(string_views(names@) =~= resource_uris(resources@).take(i + 1)) by {
                assert forall|k: int| 0 <= k < i + 1 implies #[trigger] string_views(names@)[k] == resource_uris(resources@).take(i + 1)[k] by {
                    if k < i {
                        assert(names@[k] == before[k]);
                    }
                }
            }
            i = i + 1;
        }
        assert(resource_uris(resources@).take(i as int) =~= resource_uris(resources@));
        self.resources = names;
    }

    /// Completes prompt names from `prompts`.
    pub fn set_prompts(&mut self, prompts: &Vec<McpPrompt>)
        ensures
            string_views(final(self).prompts@) == prompt_names(prompts@),
            final(self).tools == old(self).tools,
            final(self).resources == old(self).resources,
    {
        let mut names: Vec<String> = Vec::new();
        let mut i: usize = 0;
        while i < prompts.len()
            invariant
                i <= prompts@.len(),
                string_views(names@) == prompt_names(prompts@).take(i as int),
            decreases prompts@.len() - i,
        {
            let ghost before = names@;
            assert(string_views(before).len() == before.len());
            names.push(copy_string(&prompts[i].name));
            assert(string_views(names@) =~= prompt_names(prompts@).take(i + 1)) by {
                assert forall|k: int| 0 <= k < i + 1 implies #[trigger] string_views(names@)[k] == prompt_names(prompts@).take(i + 1)[k] by {
                    if k < i {
                        assert(names@[k] == before[k]);
                    }
                }
            }
            i = i + 1;
        }
        assert(prompt_names(prompts@).take(i as int) =~= prompt_names(prompts@));
        self.prompts = names;
    }

    /// Forgets every name.
    pub fn clear(&mut self)
        ensures
            final(self).tools@.len() == 0,
            final(self).resources@.len() == 0,
            final(self).prompts@.len() == 0,
    {
        self.tools = Vec::new();
        self.resources = Vec::new();
        self.prompts = Vec::new();
    }
}

/// The request timeout when none is set, in seconds.
pub const DEFAULT_TIMEOUT_SECS: u64 = 10;

/// The state of an inspector session.
#[derive(Debug)]
pub struct ReplState {
    pub config: ConnectionConfig,
    pub server_name: String,
    pub capabilities: Option<ServerCapabilities>,
    pub pending_notifications: Vec<Notification>,
    pub completer_state: CompleterState,
    pub history: Vec<String>,
    pub timeout_secs: u64,
    pub debug: bool,
    /// Whether a client is connected to a server.
    pub connected: bool,
}

impl ReplState {
    /// A session that is not connected, with the default configuration, the server name
    /// `mcp-server` and the default timeout.
    pub fn new(completer_state: CompleterState) -> (r: Self)
        ensures
            r.config.transport_type == TransportType::Stdio,
            r.config.command@ == Seq::<char>::empty(),
            r.config.args@.len() == 0,
            r.config.env@ == Map::<Seq<char>, String>::empty(),
            r.config.url@ == Seq::<char>::empty(),
            r.config.headers@ == Map::<Seq<char>, String>::empty(),
            r.server_name@ == "mcp-server"@,
            r.capabilities is None,
            r.pending_notifications@.len() == 0,
            r.completer_state == completer_state,
            r.history@.len() == 0,
            r.timeout_secs == DEFAULT_TIMEOUT_SECS,
            !r.debug,
            !r.connected,
    {
        ReplState {
            config: ConnectionConfig::default(),
            server_name: owned("mcp-server"),
            capabilities: None,
            pending_notifications: Vec::new(),
            completer_state,
            history: Vec::new(),
            timeout_secs: DEFAULT_TIMEOUT_SECS,
            debug: false,
            connected: false,
        }
    }

    /// Whether a client is connected.
    pub fn is_connected(&self) -> (r: bool)
        ensures
            r == self.connected,
    {
        self.connected
    }
}

// ---------------------------------------------------------------------------------------------
// Export
// ---------------------------------------------------------------------------------------------

/// Entries of a map of strings as object members.
pub open spec fn string_members(entries: Seq<(String, String)>) -> Seq<(Seq<char>, JsonData)> {
    entries.map_values(|e: (String, String)| (e.0@, JsonData::Str(e.1@)))
}

/// Strings as array items.
pub open spec fn string_items(v: Seq<String>) -> Seq<JsonData> {
    v.map_values(|s: String| JsonData::Str(s@))
}

/// The member `key` holding the map `m`, when `m` is not empty.
pub open spec fn map_member(key: Seq<char>, m: StringMap) -> Seq<(Seq<char>, JsonData)> {
    if m.entries().len() == 0 {
        Seq::empty()
    } else {
        seq![(key, JsonData::Object(string_members(m.entries())))]
    }
}

/// The description of a server in a configuration file: `url` (with `env` and `headers`
/// when they are not empty) for HTTP; `command` and `args` (with `env` when it is not empty)
/// for stdio.
pub open spec fn server_entry_members(config: ConnectionConfig) -> Seq<(Seq<char>, JsonData)> {
    match config.transport_type {
        TransportType::Http => seq![("url"@, JsonData::Str(config.url@))]
            + map_member("env"@, config.env) + map_member("headers"@, config.headers),
        TransportType::Stdio => seq![
            ("command"@, JsonData::Str(config.command@)),
            ("args"@, JsonData::Array(string_items(config.args@))),
        ] + map_member("env"@, config.env),
    }
}

/// The exported configuration: `mcpServers` holding the server's description under its name.
pub open spec fn exported(name: Seq<char>, config: ConnectionConfig) -> JsonData {
    JsonData::Object(seq![("mcpServers"@, JsonData::Object(seq![(name, JsonData::Object(server_entry_members(config)))]))])
}

fn string_map_json(m: &StringMap) -> (r: JsonValue)
    ensures
        r.data() == JsonData::Object(string_members(m.entries())),
{
    let entries = m.as_slice();
    let mut out: Vec<(String, JsonValue)> = Vec::new();
    let mut i: usize = 0;
    while i < entries.len()
        invariant
            i <= entries@.len(),
            entries@ == m.entries(),
            view_pairs(out@) == string_members(m.entries()).take(i as int),
        decreases entries@.len() - i,
    {
        let ghost before = out@;
        proof { lemma_view_pairs(before); }
        out.push((copy_string(&entries[i].0), JsonValue::Str(copy_string(&entries[i].1))));
        proof {
            lemma_view_pairs(out@);
            assert(out@.drop_last() =~= before);
            assert(view_pairs(out@) =~= string_members(m.entries()).take(i + 1));
        }
        i = i + 1;
    }
    assert(string_members(m.entries()).take(i as int) =~= string_members(m.entries()));
    JsonValue::Object(out)
}

fn string_array_json(v: &Vec<String>) -> (r: JsonValue)
    ensures
        r.data() == JsonData::Array(string_items(v@)),
{
    let mut out: Vec<JsonValue> = Vec::new();
    let mut i: usize = 0;
    while i < v.len()
        invariant
            i <= v@.len(),
            view_items(out@) == string_items(v@).take(i as int),
        decreases v@.len() - i,
    {
        let ghost before = out@;
        proof { lemma_view_items(before); }
        out.push(JsonValue::Str(copy_string(&v[i])));
        proof {
            lemma_view_items(out@);
            assert(out@.drop_last() =~= before);
            assert(view_items(out@) =~= string_items(v@).take(i + 1));
        }
        i = i + 1;
    }
    assert(string_items(v@).take(i as int) =~= string_items(v@));
    JsonValue::Array(out)
}

fn push_map_member(out: &mut Vec<(String, JsonValue)>, key: &str, m: &StringMap)
    ensures
        view_pairs(final(out)@) == view_pairs(old(out)@) + map_member(key@, *m),
{
    proof { lemma_view_pairs(out@); }
    if !m.is_empty() {
        let ghost before = out@;
        out.push((owned(key), string_map_json(m)));
        proof {
            lemma_view_pairs(out@);
            lemma_view_pairs(before);
            assert(out@.drop_last() =~= before);
            assert(view_pairs(out@) =~= view_pairs(before) + map_member(key@, *m));
        }
    } else {
        assert(view_pairs(out@) =~= view_pairs(out@) + map_member(key@, *m));
    }
}

/// The configuration that desktop MCP clients read (the `mcpServers` format), for the session's server.
pub fn export_config(state: &ReplState) -> (r: JsonValue)
    ensures
        r.data() == exported(state.server_name@, state.config),
{
    let config = &state.config;
    let mut entry: Vec<(String, JsonValue)> = Vec::new();
    match config.transport_type {
        TransportType::Http => {
            entry.push((owned("url"), JsonValue::Str(copy_string(&config.url))));
            proof { lemma_view_pairs(entry@); }
            push_map_member(&mut entry, "env", &config.env);
            push_map_member(&mut entry, "headers", &config.headers);
        },
        TransportType::Stdio => {
            entry.push((owned("command"), JsonValue::Str(copy_string(&config.command))));
            entry.push((owned("args"), string_array_json(&config.args)));
            proof { lemma_view_pairs(entry@); }
            push_map_member(&mut entry, "env", &config.env);
        },
    }
    proof {
        lemma_view_pairs(entry@);
        assert(view_pairs(entry@) =~= server_entry_members(*config));
    }
    let mut servers: Vec<(String, JsonValue)> = Vec::new();
    servers.push((copy_string(&state.server_name), JsonValue::Object(entry)));
    let mut root: Vec<(String, JsonValue)> = Vec::new();
    root.push((owned("mcpServers"), JsonValue::Object(servers)));
    proof {
        lemma_view_pairs(servers@);
        lemma_view_pairs(root@);
        assert(view_pairs(servers@) =~= seq![(state.server_name@, JsonData::Object(server_entry_members(*config)))]);
        assert(view_pairs(root@) =~= seq![("mcpServers"@, JsonData::Object(seq![(state.server_name@, JsonData::Object(server_entry_members(*config)))]))]);
    }
    JsonValue::Object(root)
}

// ---------------------------------------------------------------------------------------------
// Configuration files
// ---------------------------------------------------------------------------------------------

/// The strings among `items`, in order.
pub open spec fn strings_in(items: Seq<JsonData>) -> Seq<Seq<char>>
    decreases items.len(),
{
    if items.len() == 0 {
        Seq::empty()
    } else {
        let prev = strings_in(items.drop_last());
        match items.last() {
            JsonData::Str(s) => prev.push(s),
            _ => prev,
        }
    }
}

/// `m` with each member of `members` whose value is a string stored under its name, in order.
pub open spec fn with_string_members(m: Map<Seq<char>, Seq<char>>, members: Seq<(Seq<char>, JsonData)>) -> Map<Seq<char>, Seq<char>>
    decreases members.len(),
{
    if members.len() == 0 {
        m
    } else {
        let prev = with_string_members(m, members.drop_last());
        match members.last().1 {
            JsonData::Str(s) => prev.insert(members.last().0, s),
            _ => prev,
        }
    }
}

/// `m` with the string members of `f` stored in it, when `f` is an object; `m` otherwise.
pub open spec fn merged(m: Map<Seq<char>, Seq<char>>, f: Option<JsonData>) -> Map<Seq<char>, Seq<char>> {
    match f {
        Some(JsonData::Object(ps)) => with_string_members(m, ps),
        _ => m,
    }
}

/// The arguments that an entry's `args` member gives: its strings, when it is an array.
pub open spec fn entry_args(f: Option<JsonData>) -> Seq<Seq<char>> {
    match f {
        Some(JsonData::Array(xs)) => strings_in(xs),
        _ => Seq::empty(),
    }
}

/// The message for an entry that has neither a command nor a URL.
pub open spec fn bad_entry_message(key: Seq<char>) -> Seq<char> {
    "Server entry '"@ + key + "' must have either 'command' or 'url'"@
}

proof fn lemma_text_map_insert(m: Map<Seq<char>, String>, k: Seq<char>, v: String)
    ensures
        text_map(m.insert(k, v)) == text_map(m).insert(k, v@),
{
    assert(text_map(m.insert(k, v)) =~= text_map(m).insert(k, v@));
}

/// Stores each string member of the object `source` in `target`.
pub fn merge_strings(target: &mut StringMap, source: Option<&JsonValue>)
    ensures
        text_map(final(target)@) == merged(text_map(old(target)@), opt_data(source)),
{
    match source {
        Some(JsonValue::Object(members)) => {
            proof { lemma_view_pairs(members@); }
            let mut i: usize = 0;
            while i < members.len()
                invariant
                    i <= members@.len(),
                    view_pairs(members@).len() == members@.len(),
                    forall|k: int| 0 <= k < members@.len() ==> #[trigger] view_pairs(members@)[k] == (members@[k].0@, members@[k].1.data()),
                    text_map(target@) == with_string_members(text_map(old(target)@), view_pairs(members@).take(i as int)),
                decreases members@.len() - i,
            {
                let ghost ps = view_pairs(members@).take(i + 1);
                assert(ps.drop_last() =~= view_pairs(members@).take(i as int));
                match &members[i].1 {
                    JsonValue::Str(v) => {
                        let ghost before = target@;
                        target.insert(copy_string(&members[i].0), copy_string(v));
                        proof {
                            lemma_text_map_insert(before, members@[i as int].0@, target@[members@[i as int].0@]);
                        }
                    },
                    _ => {},
                }
                i = i + 1;
            }
            assert(view_pairs(members@).take(i as int) =~= view_pairs(members@));
        },
        _ => {},
    }
}

/// The strings among the items of the array `source`, in order; empty when it is not an array.
pub fn strings_of(source: Option<&JsonValue>) -> (r: Vec<String>)
    ensures
        string_views(r@) == entry_args(opt_data(source)),
{
    let mut out: Vec<String> = Vec::new();
    match source {
        Some(JsonValue::Array(items)) => {
            proof { lemma_view_items(items@); }
            let mut i: usize = 0;
            while i < items.len()
                invariant
                    i <= items@.len(),
                    view_items(items@).len() == items@.len(),
                    forall|k: int| 0 <= k < items@.len() ==> #[trigger] view_items(items@)[k] == items@[k].data(),
                    string_views(out@) == strings_in(view_items(items@).take(i as int)),
                decreases items@.len() - i,
            {
                let ghost xs = view_items(items@).take(i + 1);
                assert(xs.drop_last() =~= view_items(items@).take(i as int));
                match &items[i] {
                    JsonValue::Str(v) => {
                        let ghost before = out@;
                        out.push(copy_string(v));
                        assert(string_views(out@) =~= string_views(before).push(v@));
                    },
                    _ => {},
                }
                i = i + 1;
            }
            assert(view_items(items@).take(i as int) =~= view_items(items@));
        },
        _ => {},
    }
    out
}

/// What applying the description `d` of the server `key` does to the session `o`, giving the
/// session `f` and the result `r` (see `apply_server_entry`).
pub open spec fn entry_applied(o: ReplState, f: ReplState, key: Seq<char>, d: JsonData, r: Result<(), String>) -> bool {
    &&& text_map(f.config.env@) == merged(text_map(o.config.env@), d.get("env"@))
    &&& f.server_name@ == key
    &&& f.capabilities == o.capabilities
    &&& f.pending_notifications == o.pending_notifications
    &&& f.completer_state == o.completer_state
    &&& f.history == o.history
    &&& f.timeout_secs == o.timeout_secs
    &&& f.debug == o.debug
    &&& f.connected == o.connected
    &&& match d.get("url"@) {
        Some(JsonData::Str(url)) => {
            &&& r is Ok
            &&& f.config.transport_type == TransportType::Http
            &&& f.config.url@ == url
            &&& text_map(f.config.headers@) == merged(text_map(o.config.headers@), d.get("headers"@))
            &&& f.config.command == o.config.command
            &&& f.config.args == o.config.args
        },
        _ => match d.get("command"@) {
            Some(JsonData::Str(cmd)) => {
                &&& r is Ok
                &&& f.config.transport_type == TransportType::Stdio
                &&& f.config.command@ == cmd
                &&& string_views(f.config.args@) == entry_args(d.get("args"@))
                &&& f.config.url == o.config.url
                &&& f.config.headers == o.config.headers
            },
            _ => {
                &&& r matches Err(msg) && msg@ == bad_entry_message(key)
                &&& f.config.transport_type == o.config.transport_type
                &&& f.config.command == o.config.command
                &&& f.config.args == o.config.args
                &&& f.config.url == o.config.url
                &&& f.config.headers == o.config.headers
            },
        },
    }
}

/// Takes the description of the server `key` from a configuration file: its `env` strings
/// are added to the environment and `key` becomes the server name; then a `url` makes it an
/// HTTP server (its `headers` strings are added), or else a `command` makes it a stdio server
/// with the strings of `args` as arguments. An entry with neither is refused (the environment
/// and the name have been taken by then).
pub fn apply_server_entry(state: &mut ReplState, key: &str, entry: &JsonValue) -> (r: Result<(), String>)
    ensures
        entry_applied(*old(state), *final(state), key@, entry.data(), r),
{
    merge_strings(&mut state.config.env, entry.get("env"));
    state.server_name = owned(key);
    match entry.get("url") {
        Some(JsonValue::Str(url)) => {
            state.config.transport_type = TransportType::Http;
            state.config.url = copy_string(url);
            merge_strings(&mut state.config.headers, entry.get("headers"));
            Ok(())
        },
        _ => match entry.get("command") {
            Some(JsonValue::Str(cmd)) => {
                state.config.transport_type = TransportType::Stdio;
                state.config.command = copy_string(cmd);
                state.config.args = strings_of(entry.get("args"));
                Ok(())
            },
            _ => {
                let mut msg = owned("Server entry '");
                push_str(&mut msg, key);
                push_str(&mut msg, "' must have either 'command' or 'url'");
                Err(msg)
            },
        },
    }
}

/// The servers that a configuration file describes: the members of its `mcpServers` object.
/// A file without such an object is refused.
pub fn servers_from_document(path: &str, doc: &JsonValue) -> (r: Result<Vec<(String, JsonValue)>, String>)
    ensures
        match doc.data().get("mcpServers"@) {
            Some(JsonData::Object(ps)) => r matches Ok(servers) && view_pairs(servers@) == ps,
            _ => r matches Err(msg) && msg@ == "'"@ + path@ + "' has no 'mcpServers' object"@,
        },
{
    match doc.get("mcpServers") {
        Some(servers) => match servers.duplicate() {
            JsonValue::Object(members) => {
                return Ok(members);
            },
            _ => {},
        },
        None => {},
    }
    let mut msg = owned("'");
    push_str(&mut msg, path);
    push_str(&mut msg, "' has no 'mcpServers' object");
    Err(msg)
}

/// The description of the server `key` among `servers`; a missing one is refused.
pub fn find_server<'a>(servers: &'a Vec<(String, JsonValue)>, key: &str, path: &str) -> (r: Result<&'a JsonValue, String>)
    ensures
        match crate::json::lookup(view_pairs(servers@), key@) {
            Some(d) => r matches Ok(v) && v.data() == d,
            None => r matches Err(msg) && msg@ == "Server '"@ + key@ + "' not found in '"@ + path@ + "'"@,
        },
{
    match crate::json::find_member(servers, key) {
        Some(i) => Ok(&servers[i].1),
        None => {
            let mut msg = owned("Server '");
            push_str(&mut msg, key);
            push_str(&mut msg, "' not found in '");
            push_str(&mut msg, path);
            push_str(&mut msg, "'");
            Err(msg)
        },
    }
}

proof fn lemma_merge_exported(entries: Seq<(String, String)>)
    ensures
        with_string_members(Map::empty(), string_members(entries)) == text_map(entries_map(entries)),
    decreases entries.len(),
{
    if entries.len() > 0 {
        lemma_merge_exported(entries.drop_last());
        assert(string_members(entries).drop_last() =~= string_members(entries.drop_last()));
        lemma_text_map_insert(entries_map(entries.drop_last()), entries.last().0@, entries.last().1);
    } else {
        assert(text_map(entries_map(entries)) =~= Map::empty());
    }
}

proof fn lemma_strings_exported(args: Seq<String>)
    ensures
        strings_in(string_items(args)) == string_views(args),
    decreases args.len(),
{
    if args.len() > 0 {
        lemma_strings_exported(args.drop_last());
        assert(string_items(args).drop_last() =~= string_items(args.drop_last()));
        assert(string_views(args) =~= string_views(args.drop_last()).push(args.last()@));
    } else {
        assert(string_views(args) =~= Seq::<Seq<char>>::empty());
    }
}

/// Reading an exported description back gives the server that was exported: an HTTP server's
/// URL, environment and headers, or a stdio server's command, arguments and environment, the
/// maps as they are when the session reading it had none yet.
pub proof fn lemma_export_then_apply(config: ConnectionConfig)
    ensures
        ({
            let d = JsonData::Object(server_entry_members(config));
            &&& merged(Map::empty(), d.get("env"@)) == text_map(config.env@)
            &&& match config.transport_type {
                TransportType::Http => {
                    &&& d.get("url"@) == Some(JsonData::Str(config.url@))
                    &&& merged(Map::empty(), d.get("headers"@)) == text_map(config.headers@)
                },
                TransportType::Stdio => {
                    &&& d.get("url"@) is None
                    &&& d.get("command"@) == Some(JsonData::Str(config.command@))
                    &&& entry_args(d.get("args"@)) == string_views(config.args@)
                },
            }
        }),
{
    reveal_strlit("url");
    reveal_strlit("env");
    reveal_strlit("headers");
    reveal_strlit("command");
    reveal_strlit("args");
    assert("url"@[0] == 'u' && "env"@[0] == 'e' && "headers"@[0] == 'h' && "command"@[0] == 'c' && "args"@[0] == 'a');
    assert("env"@ != "headers"@ && "url"@ != "headers"@ && "url"@ != "env"@);
    reveal_with_fuel(crate::json::lookup, 3);
    assert("command"@ != "url"@ && "command"@ != "env"@ && "args"@ != "url"@ && "args"@ != "env"@ && "args"@ != "command"@);
    lemma_merge_exported(config.env.entries());
    lemma_merge_exported(config.headers.entries());
    lemma_strings_exported(config.args@);
    let env_m = map_member("env"@, config.env);
    let hdr_m = map_member("headers"@, config.headers);
    let empty = Seq::<(Seq<char>, JsonData)>::empty();
    if config.env.entries().len() == 0 {
        assert(text_map(config.env@) =~= Map::empty());
        assert(env_m == empty);
    } else {
        assert(env_m.drop_first() =~= empty);
        assert(env_m[0].0 == "env"@);
    }
    if config.headers.entries().len() == 0 {
        assert(text_map(config.headers@) =~= Map::empty());
        assert(hdr_m == empty);
    } else {
        assert(hdr_m.drop_first() =~= empty);
    }
    match config.transport_type {
        TransportType::Http => {
            let head = seq![("url"@, JsonData::Str(config.url@))];
            assert(head.drop_first() =~= empty);
            crate::json::lemma_lookup_concat(head + env_m, hdr_m, "url"@);
            crate::json::lemma_lookup_concat(head, env_m, "url"@);
            crate::json::lemma_lookup_concat(head + env_m, hdr_m, "env"@);
            crate::json::lemma_lookup_concat(head, env_m, "env"@);
            crate::json::lemma_lookup_concat(head + env_m, hdr_m, "headers"@);
            crate::json::lemma_lookup_concat(head, env_m, "headers"@);
            let d = JsonData::Object(server_entry_members(config));
            assert(server_entry_members(config) == head + env_m + hdr_m);
            assert(d.get("url"@) == Some(JsonData::Str(config.url@)));
            assert(crate::json::lookup(env_m, "headers"@) is None);
            assert(d.get("headers"@) == crate::json::lookup(hdr_m, "headers"@));
            assert(merged(Map::empty(), d.get("headers"@)) == text_map(config.headers@));
            assert(d.get("env"@) == crate::json::lookup(env_m, "env"@));
            assert(merged(Map::empty(), d.get("env"@)) == text_map(config.env@));
        },
        TransportType::Stdio => {
            let head = seq![
                ("command"@, JsonData::Str(config.command@)),
                ("args"@, JsonData::Array(string_items(config.args@))),
            ];
            assert(head.drop_first().drop_first() =~= empty);
            crate::json::lemma_lookup_concat(head, env_m, "url"@);
            crate::json::lemma_lookup_concat(head, env_m, "command"@);
            crate::json::lemma_lookup_concat(head, env_m, "args"@);
            crate::json::lemma_lookup_concat(head, env_m, "env"@);
        },
    }
}

/// Exporting a session's server and applying the exported entry, under the session's name, to a
/// session without environment variables or headers yet (such as a new one) gives the server
/// back: the call succeeds, and the name, the transport, the environment, and the command and
/// arguments of a stdio server or the URL and headers of an HTTP server are those exported.
pub proof fn lemma_export_apply_round_trip(s: ReplState, o: ReplState, f: ReplState, d: JsonData, r: Result<(), String>)
    requires
        exported(s.server_name@, s.config).get("mcpServers"@) matches Some(servers) && servers.get(s.server_name@) == Some(d),
        o.config.env@ == Map::<Seq<char>, String>::empty(),
        o.config.headers@ == Map::<Seq<char>, String>::empty(),
        entry_applied(o, f, s.server_name@, d, r),
    ensures
        r is Ok,
        f.server_name@ == s.server_name@,
        f.config.transport_type == s.config.transport_type,
        text_map(f.config.env@) == text_map(s.config.env@),
        s.config.transport_type == TransportType::Stdio ==> f.config.command@ == s.config.command@
            && string_views(f.config.args@) == string_views(s.config.args@),
        s.config.transport_type == TransportType::Http ==> f.config.url@ == s.config.url@
            && text_map(f.config.headers@) == text_map(s.config.headers@),
{
    assert(d == JsonData::Object(server_entry_members(s.config)));
    lemma_export_then_apply(s.config);
    assert(text_map(o.config.env@) =~= Map::empty());
    assert(text_map(o.config.headers@) =~= Map::empty());
}

} // verus!
