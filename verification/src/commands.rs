use vstd::prelude::*;
use vstd::string::StrSliceExecFns;
use crate::client::CapabilityHandlers;
use crate::config::{ConnectionConfig, ReplState, TransportType, export_config, exported, prompt_names, resource_uris, text_map, tool_names};
use crate::display::{
    Output, Shade, Span, capability_rows, line_is, lines_are, notification_line, print_capabilities, print_notifications, span,
    span_is, spans_are, table_is, text_line, text_line_is, tools_shown, resources_shown, prompts_shown,
};
use crate::protocol::{McpPrompt, McpResource, McpTool, ServerCapabilities};
use crate::json::{JsonValue};
use crate::text::{
    back_over_white_space, chars_of, copy_string, str_equal, decimal, joined, is_white_space, owned, parse_u64, parse_u64_spec, push_char,
    push_str, split_whitespace, string_views, trim, trim_start, trimmed, u64_to_text, words,
};

verus! {

broadcast use vstd::string::group_string_axioms;

// ---------------------------------------------------------------------------------------------
// Words of a command line
// ---------------------------------------------------------------------------------------------

/// The words of a line as `shell_words::split` splits it, with quotes removed; `None` when a
/// quote is not closed.
pub uninterp spec fn shell_split(line: Seq<char>) -> Option<Seq<Seq<char>>>;

/// A character that `shell_words::split` takes as it is: a space, tab or line feed between
/// words, or a character that is neither white space nor a quote, a backslash or `#`.
pub open spec fn plain_char(c: char) -> bool {
    c == ' ' || c == '\t' || c == '\n' || (!is_white_space(c) && c != '\'' && c != '"' && c != '\\' && c != '#')
}

/// A line made of plain characters only.
pub open spec fn plain_line(s: Seq<char>) -> bool {
    forall|i: int| 0 <= i < s.len() ==> #[trigger] plain_char(s[i])
}

/// Calls `shell_words::split`. The contract names its result `shell_split(line)`, and states
/// what the crate's source shows of a line without quotes, backslashes, `#` or white space
/// other than spaces, tabs and line feeds: its words are the white-space separated ones.
#[verifier::external_body]
pub(crate) fn split_shell_words(line: &str) -> (r: Option<Vec<String>>)
    ensures
        r is Some <==> shell_split(line@) is Some,
        r is Some ==> shell_split(line@) == Some(string_views(r.unwrap()@)),
        plain_line(line@) ==> r is Some && string_views(r.unwrap()@) == words(line@),
{
    shell_words::split(line).ok()
}

/// The words of a command line: as a shell splits the trimmed line, or the white-space
/// separated words when a quote is not closed.
pub open spec fn command_words(line: Seq<char>) -> Seq<Seq<char>> {
    match shell_split(trim(line)) {
        Some(ws) => ws,
        None => words(line),
    }
}

/// Splits a command line into its words.
pub fn split_command_line(line: &str) -> (r: Vec<String>)
    ensures
        string_views(r@) == command_words(line@),
{
    let t = trimmed(line);
    match split_shell_words(t.as_str()) {
        Some(ws) => ws,
        None => split_whitespace(line),
    }
}

// ---------------------------------------------------------------------------------------------
// Raw JSON arguments
// ---------------------------------------------------------------------------------------------

/// `s` without the word at its start, the characters before the first white space.
pub open spec fn drop_word(s: Seq<char>) -> Seq<char>
    decreases s.len(),
{
    if s.len() == 0 || is_white_space(s[0]) {
        s
    } else {
        drop_word(s.drop_first())
    }
}

/// What is left of `s` after its first `n` white-space separated words.
pub open spec fn after_words(s: Seq<char>, n: nat) -> Seq<char>
    decreases n,
{
    if n == 0 {
        s
    } else {
        after_words(drop_word(trim_start(s)), (n - 1) as nat)
    }
}

/// The text of `line` after its first `skip` words, trimmed; `None` when nothing is left.
/// Quotes are not removed, so JSON keeps its string quotes.
pub open spec fn raw_json_text(line: Seq<char>, skip: nat) -> Option<Seq<char>> {
    let rest = trim(after_words(trim(line), skip));
    if rest.len() == 0 {
        None
    } else {
        Some(rest)
    }
}

fn skip_spaces_in(cs: &Vec<char>, from: usize, to: usize) -> (i: usize)
    requires
        from <= to <= cs@.len(),
    ensures
        from <= i <= to,
        trim_start(cs@.subrange(from as int, to as int)) == cs@.subrange(i as int, to as int),
{
    let mut i = from;
    while i < to && crate::text::char_is_whitespace(cs[i])
        invariant
            from <= i <= to <= cs@.len(),
            trim_start(cs@.subrange(from as int, to as int)) == trim_start(cs@.subrange(i as int, to as int)),
        decreases to - i,
    {
        assert(cs@.subrange(i as int, to as int).drop_first() =~= cs@.subrange(i + 1, to as int));
        i = i + 1;
    }
    i
}

fn skip_word_in(cs: &Vec<char>, from: usize, to: usize) -> (i: usize)
    requires
        from <= to <= cs@.len(),
    ensures
        from <= i <= to,
        drop_word(cs@.subrange(from as int, to as int)) == cs@.subrange(i as int, to as int),
{
    let mut i = from;
    while i < to && !crate::text::char_is_whitespace(cs[i])
        invariant
            from <= i <= to <= cs@.len(),
            drop_word(cs@.subrange(from as int, to as int)) == drop_word(cs@.subrange(i as int, to as int)),
        decreases to - i,
    {
        assert(cs@.subrange(i as int, to as int).drop_first() =~= cs@.subrange(i + 1, to as int));
        i = i + 1;
    }
    i
}

/// The raw text of `line` after its first `skip` words, trimmed, or `None` when nothing is
/// left. Commands take their JSON argument this way, so that shell quote removal does not
/// change the JSON.
pub fn raw_json_arg(line: &str, skip: usize) -> (r: Option<&str>)
    ensures
        match r {
            Some(s) => raw_json_text(line@, skip as nat) == Some(s@),
            None => raw_json_text(line@, skip as nat) is None,
        },
{
    let cs = chars_of(line);
    let (a, b) = crate::text::trim_bounds(&cs);
    let mut i = a;
    let mut k: usize = 0;
    while k < skip
        invariant
            a <= i <= b <= cs@.len(),
            k <= skip,
            after_words(trim(cs@), skip as nat) == after_words(cs@.subrange(i as int, b as int), (skip - k) as nat),
        decreases skip - k,
    {
        let j = skip_spaces_in(&cs, i, b);
        let e = skip_word_in(&cs, j, b);
        i = e;
        k = k + 1;
    }
    let c = skip_spaces_in(&cs, i, b);
    let d = back_over_white_space(&cs, c, b);
    if c == d {
        assert(trim(cs@.subrange(i as int, b as int)).len() == 0);
        None
    } else {
        Some(line.substring_char(c, d))
    }
}

// ---------------------------------------------------------------------------------------------
// Steps
// ---------------------------------------------------------------------------------------------

/// Work with a server or with files that a command leaves to the program around the library.
#[derive(Debug)]
pub enum Action {
    /// Start `command` with `args`, with the configured environment, and initialize it over
    /// stdio.
    Connect { command: String, args: Vec<String> },
    /// Initialize the server at `url` over HTTP, with the configured headers.
    ConnectHttp { url: String },
    ListTools,
    ListResources,
    ListPrompts,
    /// Call the tool `name`; `arguments` is the JSON text of its arguments, still to parse.
    CallTool { name: String, arguments: Option<String> },
    ReadResource { uri: String },
    /// Get the prompt `name`; `arguments` is the JSON text of its arguments, still to parse.
    GetPrompt { name: String, arguments: Option<String> },
    /// Answer server requests for `method` with the JSON document in `payload`, still to parse.
    SetHandler { method: String, payload: String },
    /// Write `config` pretty-printed to the file `filename`, or show it when there is none.
    Export { filename: Option<String>, config: JsonValue },
}

/// What comes after a command's outputs are shown.
#[derive(Debug)]
pub enum Next {
    /// Read the next command.
    Continue,
    /// Leave the inspector.
    Quit,
    /// The command failed with this message.
    Fail(String),
    /// Carry out this action.
    Perform(Action),
}

/// The outcome of a command: outputs to show, then what comes next.
#[derive(Debug)]
pub struct Step {
    pub outputs: Vec<Output>,
    pub next: Next,
}

/// `o` is the error message `t`.
pub open spec fn error_is(o: Output, t: Seq<char>) -> bool {
    o matches Output::Error(s) && s@ == t
}

/// `o` is the success message `t`.
pub open spec fn success_is(o: Output, t: Seq<char>) -> bool {
    o matches Output::Success(s) && s@ == t
}

/// `o` is the informational message `t`.
pub open spec fn info_is(o: Output, t: Seq<char>) -> bool {
    o matches Output::Info(s) && s@ == t
}

/// `r` shows only the error message `t` and goes on.
pub open spec fn usage_step(r: Step, t: Seq<char>) -> bool {
    r.outputs@.len() == 1 && error_is(r.outputs@[0], t) && r.next is Continue
}

/// `r` shows nothing and fails with the message `t`.
pub open spec fn fail_step(r: Step, t: Seq<char>) -> bool {
    &&& r.outputs@.len() == 0
    &&& r.next matches Next::Fail(m) && m@ == t
}

/// `r` shows only the success message `t` and goes on.
pub open spec fn success_step(r: Step, t: Seq<char>) -> bool {
    r.outputs@.len() == 1 && success_is(r.outputs@[0], t) && r.next is Continue
}

/// `r` shows only the informational message `t` and goes on.
pub open spec fn info_step(r: Step, t: Seq<char>) -> bool {
    r.outputs@.len() == 1 && info_is(r.outputs@[0], t) && r.next is Continue
}

fn message(a: &str, b: &str, c: &str) -> (r: String)
    ensures
        r@ == a@ + b@ + c@,
{
    let mut t = owned(a);
    push_str(&mut t, b);
    push_str(&mut t, c);
    t
}

fn concat(a: &str, b: &str) -> (r: String)
    ensures
        r@ == a@ + b@,
{
    let mut t = owned(a);
    push_str(&mut t, b);
    t
}

fn one(o: Output) -> (r: Vec<Output>)
    ensures
        r@ == seq![o],
{
    let mut v: Vec<Output> = Vec::new();
    v.push(o);
    assert(v@ =~= seq![o]);
    v
}

fn usage(t: &str) -> (r: Step)
    ensures
        usage_step(r, t@),
{
    Step { outputs: one(Output::Error(owned(t))), next: Next::Continue }
}

fn fail(t: String) -> (r: Step)
    ensures
        fail_step(r, t@),
{
    Step { outputs: Vec::new(), next: Next::Fail(t) }
}

fn perform(a: Action) -> (r: Step)
    ensures
        r.outputs@.len() == 0,
        r.next == Next::Perform(a),
{
    Step { outputs: Vec::new(), next: Next::Perform(a) }
}

// ---------------------------------------------------------------------------------------------
// Commands that only change the session
// ---------------------------------------------------------------------------------------------

/// `set-name <name>`: the server is named `name` in exported configurations.
pub open spec fn set_name_step(s: ReplState, t: ReplState, args: Seq<Seq<char>>, r: Step) -> bool {
    if args.len() == 0 {
        t == s && usage_step(r, "Usage: set-name <name>"@)
    } else {
        &&& t == (ReplState { server_name: t.server_name, ..s })
        &&& t.server_name@ == args[0]
        &&& success_step(r, "Server name set to '"@ + args[0] + "'"@)
    }
}

/// Names the server in exported configurations.
pub fn cmd_set_name(state: &mut ReplState, args: &Vec<String>) -> (r: Step)
    ensures
        set_name_step(*old(state), *final(state), string_views(args@), r),
{
    if args.len() == 0 {
        return usage("Usage: set-name <name>");
    }
    state.server_name = copy_string(&args[0]);
    Step { outputs: one(Output::Success(message("Server name set to '", state.server_name.as_str(), "'"))), next: Next::Continue }
}

/// `set-env <key> <value>`: servers started over stdio get the variable `key` set to `value`.
pub open spec fn set_env_step(s: ReplState, t: ReplState, args: Seq<Seq<char>>, r: Step) -> bool {
    if args.len() < 2 {
        t == s && usage_step(r, "Usage: set-env <key> <value>"@)
    } else {
        &&& t == (ReplState { config: ConnectionConfig { env: t.config.env, ..s.config }, ..s })
        &&& text_map(t.config.env@) == text_map(s.config.env@).insert(args[0], args[1])
        &&& success_step(r, "Set env "@ + args[0] + "="@ + args[1])
    }
}

/// Sets an environment variable for servers started over stdio.
pub fn cmd_set_env(state: &mut ReplState, args: &Vec<String>) -> (r: Step)
    ensures
        set_env_step(*old(state), *final(state), string_views(args@), r),
{
    if args.len() < 2 {
        return usage("Usage: set-env <key> <value>");
    }
    let ghost before = state.config.env@;
    state.config.env.insert(copy_string(&args[0]), copy_string(&args[1]));
    assert(text_map(state.config.env@) =~= text_map(before).insert(args@[0]@, args@[1]@));
    let mut t = owned("Set env ");
    push_str(&mut t, args[0].as_str());
    push_str(&mut t, "=");
    push_str(&mut t, args[1].as_str());
    Step { outputs: one(Output::Success(t)), next: Next::Continue }
}

/// `set-timeout <seconds>`: requests may take that many seconds; it must be a whole number,
/// at least 1.
pub open spec fn set_timeout_step(s: ReplState, t: ReplState, args: Seq<Seq<char>>, r: Step) -> bool {
    if args.len() == 0 {
        t == s && usage_step(r, "Usage: set-timeout <seconds>"@)
    } else {
        match parse_u64_spec(args[0]) {
            None => t == s && fail_step(r, "Invalid timeout '"@ + args[0] + "': must be a positive integer"@),
            Some(secs) => if secs == 0 {
                t == s && fail_step(r, "Timeout must be at least 1 second"@)
            } else {
                t == (ReplState { timeout_secs: secs, ..s }) && success_step(r, "Request timeout set to "@ + decimal(secs as nat) + "s"@)
            },
        }
    }
}

/// Sets how long a request may take.
pub fn cmd_set_timeout(state: &mut ReplState, args: &Vec<String>) -> (r: Step)
    ensures
        set_timeout_step(*old(state), *final(state), string_views(args@), r),
{
    if args.len() == 0 {
        return usage("Usage: set-timeout <seconds>");
    }
    match parse_u64(args[0].as_str()) {
        None => fail(message("Invalid timeout '", args[0].as_str(), "': must be a positive integer")),
        Some(secs) => {
            if secs == 0 {
                return fail(owned("Timeout must be at least 1 second"));
            }
            state.timeout_secs = secs;
            Step {
                outputs: one(Output::Success(message("Request timeout set to ", u64_to_text(secs).as_str(), "s"))),
                next: Next::Continue,
            }
        },
    }
}

/// `log`: the notifications that came in since the last `log` are shown and forgotten.
pub open spec fn log_step(s: ReplState, t: ReplState, r: Step) -> bool {
    let pending = s.pending_notifications@;
    &&& t == (ReplState { pending_notifications: t.pending_notifications, ..s })
    &&& t.pending_notifications@.len() == 0
    &&& r.next is Continue
    &&& pending.len() == 0 ==> r.outputs@.len() == 1 && text_line_is(r.outputs@[0], Shade::Yellow, "No notifications."@)
    &&& pending.len() > 0 ==> r.outputs@.len() == pending.len()
        && forall|i: int| 0 <= i < pending.len() ==> #[trigger] line_is(r.outputs@[i], notification_line(i, pending[i].model()))
}

/// Shows the notifications that came in, and forgets them.
pub fn cmd_log(state: &mut ReplState) -> (r: Step)
    ensures
        log_step(*old(state), *final(state), r),
{
    let outputs = print_notifications(&state.pending_notifications);
    state.pending_notifications = Vec::new();
    Step { outputs, next: Next::Continue }
}

/// `s` right-aligned in a field of `width` characters, as `{:>width}` writes it.
pub open spec fn right_aligned(s: Seq<char>, width: nat) -> Seq<char> {
    if s.len() < width {
        Seq::new((width - s.len()) as nat, |i: int| ' ') + s
    } else {
        s
    }
}

/// The line for entry `index` (from 0) of the history: its number, right-aligned in four
/// characters, two spaces and the command.
pub open spec fn history_line(index: int, entry: Seq<char>) -> Seq<char> {
    right_aligned(decimal((index + 1) as nat), 4) + "  "@ + entry
}

fn right_aligned_text(s: String, width: usize) -> (r: String)
    ensures
        r@ == right_aligned(s@, width as nat),
{
    let cs = chars_of(s.as_str());
    if cs.len() >= width {
        return s;
    }
    let mut out = String::new();
    let mut k: usize = 0;
    while k < width - cs.len()
        invariant
            cs@ == s@,
            cs@.len() < width,
            k <= width - cs@.len(),
            out@ == Seq::new(k as nat, |i: int| ' '),
        decreases width - cs@.len() - k,
    {
        push_char(&mut out, ' ');
        assert(out@ =~= Seq::new((k + 1) as nat, |i: int| ' '));
        k = k + 1;
    }
    push_str(&mut out, s.as_str());
    out
}

/// `history`: the commands entered so far are shown, numbered from 1.
pub open spec fn history_step(s: ReplState, r: Step) -> bool {
    let h = s.history@;
    &&& r.next is Continue
    &&& h.len() == 0 ==> r.outputs@.len() == 1 && text_line_is(r.outputs@[0], Shade::Yellow, "No history."@)
    &&& h.len() > 0 ==> r.outputs@.len() == h.len()
        && forall|i: int| 0 <= i < h.len() ==> #[trigger] text_line_is(r.outputs@[i], Shade::Plain, history_line(i, h[i]@))
}

/// Shows the commands entered so far.
pub fn cmd_history(state: &ReplState) -> (r: Step)
    ensures
        history_step(*state, r),
{
    let mut outputs: Vec<Output> = Vec::new();
    if state.history.len() == 0 {
        outputs.push(text_line(Shade::Yellow, "No history."));
        return Step { outputs, next: Next::Continue };
    }
    let mut i: usize = 0;
    while i < state.history.len()
        invariant
            i <= state.history@.len(),
            outputs@.len() == i,
            forall|k: int| 0 <= k < i ==> #[trigger] text_line_is(outputs@[k], Shade::Plain, history_line(k, state.history@[k]@)),
        decreases state.history@.len() - i,
    {
        let mut t = right_aligned_text(u64_to_text((i + 1) as u64), 4);
        push_str(&mut t, "  ");
        push_str(&mut t, state.history[i].as_str());
        outputs.push(text_line(Shade::Plain, t.as_str()));
        i = i + 1;
    }
    Step { outputs, next: Next::Continue }
}

// ---------------------------------------------------------------------------------------------
// Capability handlers
// ---------------------------------------------------------------------------------------------

/// `cap-set <method> <json>`: the method and the raw JSON text after it; the text is parsed
/// before the handler is set (see `set_handler`).
pub open spec fn cap_set_step(args: Seq<Seq<char>>, line: Seq<char>, r: Step) -> bool {
    if args.len() == 0 {
        &&& r.next is Continue
        &&& r.outputs@.len() == 2
        &&& error_is(r.outputs@[0], "Usage: cap-set <method> <json_response>"@)
        &&& error_is(r.outputs@[1], "  e.g. cap-set roots/list {\"roots\":[{\"uri\":\"file:///home/user/repos\",\"name\":\"repos\"}]}"@)
    } else {
        match raw_json_text(line, 2) {
            None => fail_step(r, "Missing JSON response argument"@),
            Some(text) => {
                &&& r.outputs@.len() == 0
                &&& r.next matches Next::Perform(Action::SetHandler { method, payload })
                    && method@ == args[0] && payload@ == text
            },
        }
    }
}

/// Takes the method and the JSON text of a handler.
pub fn cmd_cap_set(args: &Vec<String>, line: &str) -> (r: Step)
    ensures
        cap_set_step(string_views(args@), line@, r),
{
    if args.len() == 0 {
        let mut outputs: Vec<Output> = Vec::new();
        outputs.push(Output::Error(owned("Usage: cap-set <method> <json_response>")));
        outputs.push(Output::Error(owned("  e.g. cap-set roots/list {\"roots\":[{\"uri\":\"file:///home/user/repos\",\"name\":\"repos\"}]}")));
        return Step { outputs, next: Next::Continue };
    }
    match raw_json_arg(line, 2) {
        None => fail(owned("Missing JSON response argument")),
        Some(text) => perform(Action::SetHandler { method: copy_string(&args[0]), payload: owned(text) }),
    }
}

/// Sets the handler for `method` to answer with `payload`; a reminder follows when a server
/// is connected, since handlers are advertised when connecting.
pub fn set_handler(handlers: &mut CapabilityHandlers, method: &str, payload: JsonValue, connected: bool) -> (r: Vec<Output>)
    ensures
        final(handlers)@ == old(handlers)@.insert(method@, payload),
        r@.len() == if connected { 2nat } else { 1nat },
        success_is(r@[0], "Capability handler set for '"@ + method@ + "'"@),
        connected ==> info_is(r@[1], "Note: reconnect for capability to be advertised in initialize handshake."@),
{
    handlers.insert(owned(method), payload);
    let mut out: Vec<Output> = Vec::new();
    out.push(Output::Success(message("Capability handler set for '", method, "'")));
    if connected {
        out.push(Output::Info(owned("Note: reconnect for capability to be advertised in initialize handshake.")));
    }
    out
}

/// `cap-list`: the handlers are shown, or how to add one when there are none.
pub open spec fn cap_list_step(h: CapabilityHandlers, r: Step) -> bool {
    &&& r.next is Continue
    &&& h.entries().len() == 0 ==> lines_are(r.outputs@, seq![
        (Shade::Plain, "No client capability handlers configured."@),
        (Shade::Plain, "Use 'cap-set <method> <json>' to add one."@),
    ])
    &&& h.entries().len() > 0 ==> {
        &&& r.outputs@.len() == 1
        &&& r.outputs@[0] matches Output::Handlers(rows)
            && rows@.len() == h.entries().len()
            && forall|i: int| 0 <= i < rows@.len() ==> #[trigger] rows@[i].0@ == h.entries()[i].0@
                && rows@[i].1.data() == h.entries()[i].1.data()
    }
}

/// Shows the handlers.
pub fn cmd_cap_list(handlers: &CapabilityHandlers) -> (r: Step)
    ensures
        cap_list_step(*handlers, r),
{
    let mut outputs: Vec<Output> = Vec::new();
    if handlers.is_empty() {
        outputs.push(text_line(Shade::Plain, "No client capability handlers configured."));
        outputs.push(text_line(Shade::Plain, "Use 'cap-set <method> <json>' to add one."));
        return Step { outputs, next: Next::Continue };
    }
    let entries = handlers.as_slice();
    let mut rows: Vec<(String, JsonValue)> = Vec::new();
    let mut i: usize = 0;
    while i < entries.len()
        invariant
            i <= entries@.len(),
            entries@ == handlers.entries(),
            rows@.len() == i,
            forall|k: int| 0 <= k < i ==> #[trigger] rows@[k].0@ == entries@[k].0@ && rows@[k].1.data() == entries@[k].1.data(),
        decreases entries@.len() - i,
    {
        rows.push((copy_string(&entries[i].0), entries[i].1.duplicate()));
        i = i + 1;
    }
    outputs.push(Output::Handlers(rows));
    Step { outputs, next: Next::Continue }
}

/// `cap-remove <method>`: the handler for `method` is removed.
pub open spec fn cap_remove_step(hs: CapabilityHandlers, ht: CapabilityHandlers, args: Seq<Seq<char>>, r: Step) -> bool {
    if args.len() == 0 {
        ht == hs && usage_step(r, "Usage: cap-remove <method>"@)
    } else {
        &&& ht@ == hs@.remove(args[0])
        &&& hs@.contains_key(args[0]) ==> success_step(r, "Removed capability handler for '"@ + args[0] + "'"@)
        &&& !hs@.contains_key(args[0]) ==> info_step(r, "No handler registered for '"@ + args[0] + "'"@)
    }
}

/// Removes the handler for a method.
pub fn cmd_cap_remove(handlers: &mut CapabilityHandlers, args: &Vec<String>) -> (r: Step)
    ensures
        cap_remove_step(*old(handlers), *final(handlers), string_views(args@), r),
{
    if args.len() == 0 {
        return usage("Usage: cap-remove <method>");
    }
    let method = args[0].as_str();
    match handlers.remove(method) {
        Some(_) => Step { outputs: one(Output::Success(message("Removed capability handler for '", method, "'"))), next: Next::Continue },
        None => Step { outputs: one(Output::Info(message("No handler registered for '", method, "'"))), next: Next::Continue },
    }
}

// ---------------------------------------------------------------------------------------------
// Help
// ---------------------------------------------------------------------------------------------

/// The pieces `parts`, as shades and character sequences.
pub open spec fn part_views(parts: Seq<(Shade, String)>) -> Seq<(Shade, Seq<char>)> {
    parts.map_values(|p: (Shade, String)| (p.0, p.1@))
}

fn lines_of(parts: &Vec<(Shade, String)>) -> (r: Vec<Output>)
    ensures
        lines_are(r@, part_views(parts@)),
{
    let mut out: Vec<Output> = Vec::new();
    let mut i: usize = 0;
    while i < parts.len()
        invariant
            i <= parts@.len(),
            out@.len() == i,
            forall|k: int| 0 <= k < i ==> #[trigger] text_line_is(out@[k], parts@[k].0, parts@[k].1@),
        decreases parts@.len() - i,
    {
        out.push(text_line(parts[i].0, parts[i].1.as_str()));
        i = i + 1;
    }
    out
}

/// The full help: every command with what it does, by section.
pub open spec fn full_help() -> Seq<(Shade, Seq<char>)> {
    seq![
        (Shade::BoldUnderline, "MCP Inspector Commands"@),
        (Shade::Plain, ""@),
        (Shade::Heading, "Connection:"@),
        (Shade::Plain, "  connect <cmd> [args...]        Connect via stdio transport"@),
        (Shade::Plain, "  connect-http <url>             Connect via HTTP/SSE transport"@),
        (Shade::Plain, "  disconnect                     Disconnect from server"@),
        (Shade::Plain, "  reconnect                      Reconnect using the current connection command"@),
        (Shade::Plain, "  status                         Show connection status and capabilities"@),
        (Shade::Plain, ""@),
        (Shade::Heading, "Tools:"@),
        (Shade::Plain, "  tools                          List all available tools"@),
        (Shade::Plain, "  call <name> [json]             Execute a tool with optional JSON args"@),
        (Shade::Plain, ""@),
        (Shade::Heading, "Resources:"@),
        (Shade::Plain, "  resources                      List all resources"@),
        (Shade::Plain, "  read <uri>                     Read resource content"@),
        (Shade::Plain, ""@),
        (Shade::Heading, "Prompts:"@),
        (Shade::Plain, "  prompts                        List all prompts"@),
        (Shade::Plain, "  prompt <name> [json]           Get prompt with optional arguments"@),
        (Shade::Plain, ""@),
        (Shade::Heading, "Configuration:"@),
        (Shade::Plain, "  set-name <name>                Set server name for export"@),
        (Shade::Plain, "  set-env <key> <val>            Add environment variable"@),
        (Shade::Plain, "  set-timeout <seconds>          Set request timeout (default: 10s)"@),
        (Shade::Plain, "  export [filename]              Export desktop client JSON config"@),
        (Shade::Plain, ""@),
        (Shade::Heading, "Client Capabilities:"@),
        (Shade::Plain, "  cap-set <method> <json>        Register a handler for a server request"@),
        (Shade::Plain, "  cap-list                       Show all configured capability handlers"@),
        (Shade::Plain, "  cap-remove <method>            Remove a capability handler"@),
        (Shade::Plain, ""@),
        (Shade::Heading, "Other:"@),
        (Shade::Plain, "  log                            Show buffered server notifications"@),
        (Shade::Plain, "  history                        Show command history"@),
        (Shade::Plain, "  clear                          Clear terminal"@),
        (Shade::Plain, "  help [command]                 Show help"@),
        (Shade::Plain, "  quit / exit                    Exit"@),
        (Shade::Plain, ""@),
        (Shade::Plain, "Tip: Tab completion works for commands, tool names, resource URIs, and prompt names."@),
    ]
}

/// The help for one command; `None` for a command without its own help.
pub open spec fn command_help(cmd: Seq<char>) -> Option<Seq<(Shade, Seq<char>)>> {
    if cmd == "connect"@ {
        Some(seq![
            (Shade::Bold, "connect <command> [args...]"@),
            (Shade::Plain, "  Connect to an MCP server via stdio transport."@),
            (Shade::Plain, "  The command is spawned as a subprocess with optional arguments."@),
            (Shade::Plain, "  Example: connect npx -y @modelcontextprotocol/server-filesystem /tmp"@),
        ])
    } else if cmd == "connect-http"@ {
        Some(seq![
            (Shade::Bold, "connect-http <url>"@),
            (Shade::Plain, "  Connect to an MCP server via HTTP/SSE transport."@),
            (Shade::Plain, "  Example: connect-http http://localhost:3000/mcp"@),
        ])
    } else if cmd == "call"@ {
        Some(seq![
            (Shade::Bold, "call <tool_name> [json_args]"@),
            (Shade::Plain, "  Execute a tool with optional JSON arguments."@),
            (Shade::Plain, "  Example: call read_file {\"path\":\"/tmp/test.txt\"}"@),
        ])
    } else if cmd == "export"@ {
        Some(seq![
            (Shade::Bold, "export [filename]"@),
            (Shade::Plain, "  Export desktop-client-compatible JSON configuration."@),
            (Shade::Plain, "  If no filename given, prints to stdout."@),
            (Shade::Plain, "  Example: export myserver.json"@),
        ])
    } else if cmd == "cap-set"@ {
        Some(seq![
            (Shade::Bold, "cap-set <method> <json_response>"@),
            (Shade::Plain, "  Register a fixed JSON response for a server-initiated request."@),
            (Shade::Plain, "  Must be set before connecting — capabilities are advertised in initialize."@),
            (Shade::Plain, "  The capability namespace is derived from the method (e.g. 'roots/list' → 'roots')."@),
            (Shade::Plain, ""@),
            (Shade::Plain, "  Example (filesystem server roots):"@),
            (Shade::Plain, "    cap-set roots/list {\"roots\":[{\"uri\":\"file:///home/user/repos\",\"name\":\"repos\"}]}"@),
        ])
    } else if cmd == "cap-list"@ {
        Some(seq![
            (Shade::Bold, "cap-list"@),
            (Shade::Plain, "  Show all configured client capability handlers."@),
        ])
    } else if cmd == "cap-remove"@ {
        Some(seq![
            (Shade::Bold, "cap-remove <method>"@),
            (Shade::Plain, "  Remove a configured capability handler."@),
            (Shade::Plain, "  Example: cap-remove roots/list"@),
        ])
    } else {
        None
    }
}

fn full_help_parts() -> (r: Vec<(Shade, String)>)
    ensures
        part_views(r@) == full_help(),
{
    let mut v: Vec<(Shade, String)> = Vec::new();
    v.push((Shade::BoldUnderline, owned("MCP Inspector Commands")));
    v.push((Shade::Plain, owned("")));
    v.push((Shade::Heading, owned("Connection:")));
    v.push((Shade::Plain, owned("  connect <cmd> [args...]        Connect via stdio transport")));
    v.push((Shade::Plain, owned("  connect-http <url>             Connect via HTTP/SSE transport")));
    v.push((Shade::Plain, owned("  disconnect                     Disconnect from server")));
    v.push((Shade::Plain, owned("  reconnect                      Reconnect using the current connection command")));
    v.push((Shade::Plain, owned("  status                         Show connection status and capabilities")));
    v.push((Shade::Plain, owned("")));
    v.push((Shade::Heading, owned("Tools:")));
    v.push((Shade::Plain, owned("  tools                          List all available tools")));
    v.push((Shade::Plain, owned("  call <name> [json]             Execute a tool with optional JSON args")));
    v.push((Shade::Plain, owned("")));
    v.push((Shade::Heading, owned("Resources:")));
    v.push((Shade::Plain, owned("  resources                      List all resources")));
    v.push((Shade::Plain, owned("  read <uri>                     Read resource content")));
    v.push((Shade::Plain, owned("")));
    v.push((Shade::Heading, owned("Prompts:")));
    v.push((Shade::Plain, owned("  prompts                        List all prompts")));
    v.push((Shade::Plain, owned("  prompt <name> [json]           Get prompt with optional arguments")));
    v.push((Shade::Plain, owned("")));
    v.push((Shade::Heading, owned("Configuration:")));
    v.push((Shade::Plain, owned("  set-name <name>                Set server name for export")));
    v.push((Shade::Plain, owned("  set-env <key> <val>            Add environment variable")));
    v.push((Shade::Plain, owned("  set-timeout <seconds>          Set request timeout (default: 10s)")));
    v.push((Shade::Plain, owned("  export [filename]              Export desktop client JSON config")));
    v.push((Shade::Plain, owned("")));
    v.push((Shade::Heading, owned("Client Capabilities:")));
    v.push((Shade::Plain, owned("  cap-set <method> <json>        Register a handler for a server request")));
    v.push((Shade::Plain, owned("  cap-list                       Show all configured capability handlers")));
    v.push((Shade::Plain, owned("  cap-remove <method>            Remove a capability handler")));
    v.push((Shade::Plain, owned("")));
    v.push((Shade::Heading, owned("Other:")));
    v.push((Shade::Plain, owned("  log                            Show buffered server notifications")));
    v.push((Shade::Plain, owned("  history                        Show command history")));
    v.push((Shade::Plain, owned("  clear                          Clear terminal")));
    v.push((Shade::Plain, owned("  help [command]                 Show help")));
    v.push((Shade::Plain, owned("  quit / exit                    Exit")));
    v.push((Shade::Plain, owned("")));
    v.push((Shade::Plain, owned("Tip: Tab completion works for commands, tool names, resource URIs, and prompt names.")));
    assert(part_views(v@) =~= full_help());
    v
}

fn command_help_parts(cmd: &str) -> (r: Option<Vec<(Shade, String)>>)
    ensures
        match r {
            Some(v) => command_help(cmd@) == Some(part_views(v@)),
            None => command_help(cmd@) is None,
        },
{
    let mut v: Vec<(Shade, String)> = Vec::new();
    if str_equal(cmd, "connect") {
        v.push((Shade::Bold, owned("connect <command> [args...]")));
        v.push((Shade::Plain, owned("  Connect to an MCP server via stdio transport.")));
        v.push((Shade::Plain, owned("  The command is spawned as a subprocess with optional arguments.")));
        v.push((Shade::Plain, owned("  Example: connect npx -y @modelcontextprotocol/server-filesystem /tmp")));
    } else if str_equal(cmd, "connect-http") {
        v.push((Shade::Bold, owned("connect-http <url>")));
        v.push((Shade::Plain, owned("  Connect to an MCP server via HTTP/SSE transport.")));
        v.push((Shade::Plain, owned("  Example: connect-http http://localhost:3000/mcp")));
    } else if str_equal(cmd, "call") {
        v.push((Shade::Bold, owned("call <tool_name> [json_args]")));
        v.push((Shade::Plain, owned("  Execute a tool with optional JSON arguments.")));
        v.push((Shade::Plain, owned("  Example: call read_file {\"path\":\"/tmp/test.txt\"}")));
    } else if str_equal(cmd, "export") {
        v.push((Shade::Bold, owned("export [filename]")));
        v.push((Shade::Plain, owned("  Export desktop-client-compatible JSON configuration.")));
        v.push((Shade::Plain, owned("  If no filename given, prints to stdout.")));
        v.push((Shade::Plain, owned("  Example: export myserver.json")));
    } else if str_equal(cmd, "cap-set") {
        v.push((Shade::Bold, owned("cap-set <method> <json_response>")));
        v.push((Shade::Plain, owned("  Register a fixed JSON response for a server-initiated request.")));
        v.push((Shade::Plain, owned("  Must be set before connecting — capabilities are advertised in initialize.")));
        v.push((Shade::Plain, owned("  The capability namespace is derived from the method (e.g. 'roots/list' → 'roots').")));
        v.push((Shade::Plain, owned("")));
        v.push((Shade::Plain, owned("  Example (filesystem server roots):")));
        v.push((Shade::Plain, owned("    cap-set roots/list {\"roots\":[{\"uri\":\"file:///home/user/repos\",\"name\":\"repos\"}]}")));
    } else if str_equal(cmd, "cap-list") {
        v.push((Shade::Bold, owned("cap-list")));
        v.push((Shade::Plain, owned("  Show all configured client capability handlers.")));
    } else if str_equal(cmd, "cap-remove") {
        v.push((Shade::Bold, owned("cap-remove <method>")));
        v.push((Shade::Plain, owned("  Remove a configured capability handler.")));
        v.push((Shade::Plain, owned("  Example: cap-remove roots/list")));
    } else {
        return None;
    }
    assert(Some(part_views(v@)) =~= command_help(cmd@));
    Some(v)
}

/// The help that `help` shows: the help for the command named first, the full help when
/// none is named.
pub open spec fn help_lines(args: Seq<Seq<char>>) -> Seq<(Shade, Seq<char>)> {
    if args.len() == 0 {
        full_help()
    } else {
        match command_help(args[0]) {
            Some(lines) => lines,
            None => seq![(Shade::Plain, "No specific help for '"@ + args[0] + "'. Type 'help' for all commands."@)],
        }
    }
}

/// `help [command]`: shows the help.
pub fn cmd_help(args: &Vec<String>) -> (r: Step)
    ensures
        lines_are(r.outputs@, help_lines(string_views(args@))),
        r.next is Continue,
{
    let parts = if args.len() == 0 {
        full_help_parts()
    } else {
        match command_help_parts(args[0].as_str()) {
            Some(v) => v,
            None => {
                let mut v: Vec<(Shade, String)> = Vec::new();
                v.push((Shade::Plain, message("No specific help for '", args[0].as_str(), "'. Type 'help' for all commands.")));
                assert(part_views(v@) =~= help_lines(string_views(args@)));
                v
            },
        }
    };
    Step { outputs: lines_of(&parts), next: Next::Continue }
}

// ---------------------------------------------------------------------------------------------
// Connections
// ---------------------------------------------------------------------------------------------

/// `t` is `s` with the connection dropped: no capabilities, nothing to complete, not connected.
pub open spec fn disconnected(s: ReplState, t: ReplState) -> bool {
    &&& t == (ReplState { capabilities: None, completer_state: t.completer_state, connected: false, ..s })
    &&& t.completer_state.tools@.len() == 0
    &&& t.completer_state.resources@.len() == 0
    &&& t.completer_state.prompts@.len() == 0
}

/// `disconnect`: the connection is dropped, when there is one.
pub open spec fn disconnect_step(s: ReplState, t: ReplState, r: Step) -> bool {
    if s.connected {
        disconnected(s, t) && success_step(r, "Disconnected."@)
    } else {
        t == s && info_step(r, "Not connected."@)
    }
}

fn drop_connection(state: &mut ReplState)
    ensures
        disconnected(*old(state), *final(state)),
{
    state.capabilities = None;
    state.completer_state.clear();
    state.connected = false;
}

/// Drops the connection. The program around the library closes the client and stops the
/// server's process once the session is no longer connected.
pub fn cmd_disconnect(state: &mut ReplState) -> (r: Step)
    ensures
        disconnect_step(*old(state), *final(state), r),
{
    if !state.connected {
        return Step { outputs: one(Output::Info(owned("Not connected."))), next: Next::Continue };
    }
    drop_connection(state);
    Step { outputs: one(Output::Success(owned("Disconnected."))), next: Next::Continue }
}

/// The start of a connection to `target`: the current connection, if any, is dropped (and
/// reported), then `Connecting to '<target>'...` is shown.
pub open spec fn connecting(s: ReplState, t: ReplState, outs: Seq<Output>, target: Seq<char>) -> bool {
    let n = if s.connected { 1int } else { 0int };
    &&& outs.len() == n + 1
    &&& s.connected ==> disconnected(s, t) && success_is(outs[0], "Disconnected."@)
    &&& !s.connected ==> t == s
    &&& info_is(outs[n], "Connecting to '"@ + target + "'..."@)
}

fn begin_connection(state: &mut ReplState, target: &str) -> (r: Vec<Output>)
    ensures
        connecting(*old(state), *final(state), r@, target@),
{
    let mut out: Vec<Output> = Vec::new();
    if state.connected {
        drop_connection(state);
        out.push(Output::Success(owned("Disconnected.")));
    }
    out.push(Output::Info(message("Connecting to '", target, "'...")));
    out
}

/// A stdio connection to `command` with `args` is begun.
pub open spec fn connect_to_step(s: ReplState, t: ReplState, command: Seq<char>, args: Seq<Seq<char>>, r: Step) -> bool {
    &&& connecting(s, t, r.outputs@, command)
    &&& r.next matches Next::Perform(Action::Connect { command: c, args: a }) && c@ == command && string_views(a@) == args
}

/// An HTTP connection to `url` is begun.
pub open spec fn connect_http_to_step(s: ReplState, t: ReplState, url: Seq<char>, r: Step) -> bool {
    &&& connecting(s, t, r.outputs@, url)
    &&& r.next matches Next::Perform(Action::ConnectHttp { url: u }) && u@ == url
}

/// `connect <command> [args...]`.
pub open spec fn connect_step(s: ReplState, t: ReplState, args: Seq<Seq<char>>, r: Step) -> bool {
    if args.len() == 0 {
        t == s && usage_step(r, "Usage: connect <command> [args...]"@)
    } else {
        connect_to_step(s, t, args[0], args.skip(1), r)
    }
}

fn copy_strings(v: &Vec<String>, from: usize) -> (r: Vec<String>)
    requires
        from <= v@.len(),
    ensures
        string_views(r@) == string_views(v@).skip(from as int),
{
    let mut r: Vec<String> = Vec::new();
    let mut i = from;
    while i < v.len()
        invariant
            from <= i <= v@.len(),
            r@.len() == i - from,
            forall|k: int| 0 <= k < r@.len() ==> #[trigger] r@[k]@ == v@[from + k]@,
        decreases v@.len() - i,
    {
        r.push(copy_string(&v[i]));
        i = i + 1;
    }
    assert(string_views(r@) =~= string_views(v@).skip(from as int));
    r
}

fn connect_to(state: &mut ReplState, command: &String, args: Vec<String>) -> (r: Step)
    ensures
        connect_to_step(*old(state), *final(state), command@, string_views(args@), r),
{
    let outputs = begin_connection(state, command.as_str());
    Step { outputs, next: Next::Perform(Action::Connect { command: copy_string(command), args }) }
}

fn connect_http_to(state: &mut ReplState, url: &String) -> (r: Step)
    ensures
        connect_http_to_step(*old(state), *final(state), url@, r),
{
    let outputs = begin_connection(state, url.as_str());
    Step { outputs, next: Next::Perform(Action::ConnectHttp { url: copy_string(url) }) }
}

/// Begins a connection to a server started over stdio.
pub fn cmd_connect(state: &mut ReplState, args: &Vec<String>) -> (r: Step)
    ensures
        connect_step(*old(state), *final(state), string_views(args@), r),
{
    if args.len() == 0 {
        return usage("Usage: connect <command> [args...]");
    }
    connect_to(state, &args[0], copy_strings(args, 1))
}

/// `connect-http <url>`.
pub open spec fn connect_http_step(s: ReplState, t: ReplState, args: Seq<Seq<char>>, r: Step) -> bool {
    if args.len() == 0 {
        t == s && usage_step(r, "Usage: connect-http <url>"@)
    } else {
        connect_http_to_step(s, t, args[0], r)
    }
}

/// Begins a connection to a server over HTTP.
pub fn cmd_connect_http(state: &mut ReplState, args: &Vec<String>) -> (r: Step)
    ensures
        connect_http_step(*old(state), *final(state), string_views(args@), r),
{
    if args.len() == 0 {
        return usage("Usage: connect-http <url>");
    }
    connect_http_to(state, &args[0])
}

/// `reconnect`: connects again the way the session last connected.
pub open spec fn reconnect_step(s: ReplState, t: ReplState, r: Step) -> bool {
    match s.config.transport_type {
        TransportType::Stdio => if s.config.command@.len() == 0 {
            t == s && usage_step(r, "No previous stdio connection to reconnect to."@)
        } else {
            connect_to_step(s, t, s.config.command@, string_views(s.config.args@), r)
        },
        TransportType::Http => if s.config.url@.len() == 0 {
            t == s && usage_step(r, "No previous HTTP connection to reconnect to."@)
        } else {
            connect_http_to_step(s, t, s.config.url@, r)
        },
    }
}

/// Begins a connection like the last one.
pub fn cmd_reconnect(state: &mut ReplState) -> (r: Step)
    ensures
        reconnect_step(*old(state), *final(state), r),
{
    match state.config.transport_type {
        TransportType::Stdio => {
            if state.config.command.as_str().unicode_len() == 0 {
                return usage("No previous stdio connection to reconnect to.");
            }
            let command = copy_string(&state.config.command);
            let args = copy_strings(&state.config.args, 0);
            assert(string_views(state.config.args@).skip(0) =~= string_views(state.config.args@));
            connect_to(state, &command, args)
        },
        TransportType::Http => {
            if state.config.url.as_str().unicode_len() == 0 {
                return usage("No previous HTTP connection to reconnect to.");
            }
            let url = copy_string(&state.config.url);
            connect_http_to(state, &url)
        },
    }
}

/// Records a connection made over stdio to `command` with `args`: the session is connected
/// with the server's capabilities, and completes the names the server listed. The result
/// reports the connection and shows the capabilities.
pub fn connected_over_stdio(
    state: &mut ReplState,
    command: String,
    args: Vec<String>,
    caps: ServerCapabilities,
    tools: &Vec<McpTool>,
    resources: &Vec<McpResource>,
    prompts: &Vec<McpPrompt>,
) -> (r: Vec<Output>)
    ensures
        *final(state) == (ReplState {
            config: ConnectionConfig { transport_type: TransportType::Stdio, command, args, ..old(state).config },
            capabilities: Some(caps),
            completer_state: final(state).completer_state,
            connected: true,
            ..*old(state)
        }),
        string_views(final(state).completer_state.tools@) == tool_names(tools@),
        string_views(final(state).completer_state.resources@) == resource_uris(resources@),
        string_views(final(state).completer_state.prompts@) == prompt_names(prompts@),
        r@.len() == 2,
        success_is(r@[0], "Connected!"@),
        table_is(r@[1], seq!["Capability"@, "Supported"@], capability_rows(caps), false),
{
    state.completer_state.set_tools(tools);
    state.completer_state.set_resources(resources);
    state.completer_state.set_prompts(prompts);
    state.config.transport_type = TransportType::Stdio;
    state.config.command = command;
    state.config.args = args;
    let mut out = one(Output::Success(owned("Connected!")));
    let mut table = print_capabilities(&caps);
    out.append(&mut table);
    state.capabilities = Some(caps);
    state.connected = true;
    out
}

/// Records a connection made over HTTP to `url`: the session is connected with the server's
/// capabilities. The result reports the connection and shows the capabilities.
pub fn connected_over_http(state: &mut ReplState, url: String, caps: ServerCapabilities) -> (r: Vec<Output>)
    ensures
        *final(state) == (ReplState {
            config: ConnectionConfig { transport_type: TransportType::Http, url, ..old(state).config },
            capabilities: Some(caps),
            connected: true,
            ..*old(state)
        }),
        r@.len() == 2,
        success_is(r@[0], "Connected!"@),
        table_is(r@[1], seq!["Capability"@, "Supported"@], capability_rows(caps), false),
{
    state.config.transport_type = TransportType::Http;
    state.config.url = url;
    let mut out = one(Output::Success(owned("Connected!")));
    let mut table = print_capabilities(&caps);
    out.append(&mut table);
    state.capabilities = Some(caps);
    state.connected = true;
    out
}

/// The message for a server started over stdio that could not be initialized: the error,
/// and what the server wrote on its error stream when that is not blank.
pub open spec fn stdio_failure_text(error: Seq<char>, stderr: Seq<char>) -> Seq<char> {
    if trim(stderr).len() == 0 {
        error
    } else {
        error + "\n\nServer stderr:\n"@ + trim(stderr)
    }
}

/// The message for a server started over stdio that could not be initialized.
pub fn stdio_failure_message(error: &str, stderr: &str) -> (r: String)
    ensures
        r@ == stdio_failure_text(error@, stderr@),
{
    let e = trimmed(stderr);
    if e.as_str().unicode_len() == 0 {
        owned(error)
    } else {
        message(error, "\n\nServer stderr:\n", e.as_str())
    }
}

/// The message for an HTTP server that could not be initialized.
pub fn http_failure_message(error: &str) -> (r: String)
    ensures
        r@ == "Initialization failed: "@ + error@,
{
    concat("Initialization failed: ", error)
}

/// The message for JSON text that does not parse.
pub fn invalid_json_message(error: &str) -> (r: String)
    ensures
        r@ == "Invalid JSON: "@ + error@,
{
    concat("Invalid JSON: ", error)
}

/// The note shown before a tool is called.
pub fn calling_tool(name: &str) -> (r: Output)
    ensures
        info_is(r, "Calling tool '"@ + name@ + "'..."@),
{
    Output::Info(message("Calling tool '", name, "'..."))
}

// ---------------------------------------------------------------------------------------------
// Status
// ---------------------------------------------------------------------------------------------

/// `r` is the lines `ls`.
pub open spec fn line_specs_are(r: Seq<Output>, ls: Seq<Seq<(Shade, Seq<char>)>>) -> bool {
    &&& r.len() == ls.len()
    &&& forall|i: int| 0 <= i < ls.len() ==> #[trigger] line_is(r[i], ls[i])
}

/// The status lines of a connected session before its capabilities: the server's name, how
/// it is reached, and the environment variables set, when there are any.
pub open spec fn status_head(s: ReplState) -> Seq<Seq<(Shade, Seq<char>)>> {
    seq![
        seq![(Shade::Plain, "Status: "@), (Shade::Green, "Connected"@)],
        seq![(Shade::Plain, "Server: "@), (Shade::Cyan, s.server_name@)],
    ] + match s.config.transport_type {
        TransportType::Stdio => seq![
            seq![(Shade::Plain, "Transport: stdio"@)],
            seq![(Shade::Plain, "Command: "@ + s.config.command@ + " "@ + joined(string_views(s.config.args@), " "@))],
        ],
        TransportType::Http => seq![
            seq![(Shade::Plain, "Transport: http"@)],
            seq![(Shade::Plain, "URL: "@ + s.config.url@)],
        ],
    } + if s.config.env.entries().len() == 0 {
        Seq::empty()
    } else {
        seq![seq![(Shade::Plain, "Env vars: "@ + joined(s.config.env.keys(), ", "@))]]
    }
}

/// The last status lines of a connected session: the timeout, and how many notifications
/// wait when there are any.
pub open spec fn status_tail(s: ReplState) -> Seq<Seq<(Shade, Seq<char>)>> {
    seq![seq![(Shade::Plain, "Timeout: "@ + decimal(s.timeout_secs as nat) + "s"@)]] + if s.pending_notifications@.len() == 0 {
        Seq::empty()
    } else {
        seq![seq![
            (Shade::Yellow, decimal(s.pending_notifications@.len())),
            (Shade::Plain, " pending notification(s). Type 'log' to view."@),
        ]]
    }
}

/// `status`: how the session stands.
pub open spec fn status_shown(r: Seq<Output>, s: ReplState) -> bool {
    if !s.connected {
        line_specs_are(r, seq![seq![(Shade::Plain, "Status: "@), (Shade::Red, "Disconnected"@)]])
    } else {
        let head = status_head(s);
        let tail = status_tail(s);
        let h = head.len() as int;
        match s.capabilities {
            Some(caps) => {
                &&& r.len() == h + 3 + tail.len()
                &&& line_specs_are(r.take(h), head)
                &&& text_line_is(r[h], Shade::Plain, ""@)
                &&& text_line_is(r[h + 1], Shade::Plain, "Capabilities:"@)
                &&& table_is(r[h + 2], seq!["Capability"@, "Supported"@], capability_rows(caps), false)
                &&& line_specs_are(r.skip(h + 3), tail)
            },
            None => {
                &&& r.len() == h + tail.len()
                &&& line_specs_are(r.take(h), head)
                &&& line_specs_are(r.skip(h), tail)
            },
        }
    }
}

fn push_parts(out: &mut Vec<Output>, parts: Vec<(Shade, String)>)
    ensures
        final(out)@.len() == old(out)@.len() + 1,
        final(out)@.take(old(out)@.len() as int) == old(out)@,
        line_is(final(out)@.last(), part_views(parts@)),
{
    let mut spans: Vec<Span> = Vec::new();
    let mut i: usize = 0;
    while i < parts.len()
        invariant
            i <= parts@.len(),
            spans@.len() == i,
            forall|k: int| 0 <= k < i ==> #[trigger] span_is(spans@[k], parts@[k].0, parts@[k].1@),
        decreases parts@.len() - i,
    {
        spans.push(span(parts[i].0, copy_string(&parts[i].1)));
        i = i + 1;
    }
    let ghost before = out@;
    out.push(Output::Line(spans));
    assert(out@.take(before.len() as int) =~= before);
    assert(spans_are(spans@, part_views(parts@)));
}

fn part(shade: Shade, text: String) -> (r: Vec<(Shade, String)>)
    ensures
        part_views(r@) == seq![(shade, text@)],
{
    let mut v: Vec<(Shade, String)> = Vec::new();
    v.push((shade, text));
    assert(part_views(v@) =~= seq![(shade, text@)]);
    v
}

fn two_parts(a: Shade, x: String, b: Shade, y: String) -> (r: Vec<(Shade, String)>)
    ensures
        part_views(r@) == seq![(a, x@), (b, y@)],
{
    let mut v: Vec<(Shade, String)> = Vec::new();
    v.push((a, x));
    v.push((b, y));
    assert(part_views(v@) =~= seq![(a, x@), (b, y@)]);
    v
}

proof fn lemma_pushed_lines(before: Seq<Output>, after: Seq<Output>, ls: Seq<Seq<(Shade, Seq<char>)>>, l: Seq<(Shade, Seq<char>)>)
    requires
        line_specs_are(before, ls),
        after.len() == before.len() + 1,
        after.take(before.len() as int) == before,
        line_is(after.last(), l),
    ensures
        line_specs_are(after, ls.push(l)),
{
    assert forall|i: int| 0 <= i < ls.len() + 1 implies #[trigger] line_is(after[i], ls.push(l)[i]) by {
        if i < ls.len() {
            assert(after[i] == after.take(before.len() as int)[i]);
        }
    }
}

fn status_head_lines(state: &ReplState) -> (r: Vec<Output>)
    requires
        state.connected,
    ensures
        line_specs_are(r@, status_head(*state)),
{
    let mut out: Vec<Output> = Vec::new();
    let ghost ls: Seq<Seq<(Shade, Seq<char>)>> = Seq::empty();
    push_parts(&mut out, two_parts(Shade::Plain, owned("Status: "), Shade::Green, owned("Connected")));
    proof { lemma_pushed_lines(Seq::empty(), out@, ls, seq![(Shade::Plain, "Status: "@), (Shade::Green, "Connected"@)]); }
    let ghost ls = ls.push(seq![(Shade::Plain, "Status: "@), (Shade::Green, "Connected"@)]);
    let ghost before = out@;
    push_parts(&mut out, two_parts(Shade::Plain, owned("Server: "), Shade::Cyan, copy_string(&state.server_name)));
    proof { lemma_pushed_lines(before, out@, ls, seq![(Shade::Plain, "Server: "@), (Shade::Cyan, state.server_name@)]); }
    let ghost ls = ls.push(seq![(Shade::Plain, "Server: "@), (Shade::Cyan, state.server_name@)]);
    let ghost ls2 = ls;
    match state.config.transport_type {
        TransportType::Stdio => {
            let ghost before = out@;
            push_parts(&mut out, part(Shade::Plain, owned("Transport: stdio")));
            proof { lemma_pushed_lines(before, out@, ls, seq![(Shade::Plain, "Transport: stdio"@)]); }
            let ghost ls3 = ls.push(seq![(Shade::Plain, "Transport: stdio"@)]);
            let mut t = owned("Command: ");
            push_str(&mut t, state.config.command.as_str());
            push_str(&mut t, " ");
            push_str(&mut t, crate::text::join_with(&state.config.args, " ").as_str());
            let ghost before = out@;
            let ghost l = seq![(Shade::Plain, "Command: "@ + state.config.command@ + " "@ + joined(string_views(state.config.args@), " "@))];
            push_parts(&mut out, part(Shade::Plain, t));
            proof {
                lemma_pushed_lines(before, out@, ls3, l);
                assert(ls3.push(l) =~= ls2 + seq![seq![(Shade::Plain, "Transport: stdio"@)], l]);
            }
        },
        TransportType::Http => {
            let ghost before = out@;
            push_parts(&mut out, part(Shade::Plain, owned("Transport: http")));
            proof { lemma_pushed_lines(before, out@, ls, seq![(Shade::Plain, "Transport: http"@)]); }
            let ghost ls3 = ls.push(seq![(Shade::Plain, "Transport: http"@)]);
            let ghost before = out@;
            let ghost l = seq![(Shade::Plain, "URL: "@ + state.config.url@)];
            push_parts(&mut out, part(Shade::Plain, concat("URL: ", state.config.url.as_str())));
            proof {
                lemma_pushed_lines(before, out@, ls3, l);
                assert(ls3.push(l) =~= ls2 + seq![seq![(Shade::Plain, "Transport: http"@)], l]);
            }
        },
    }
    let ghost mid = out@;
    let ghost ls4 = ls2 + match state.config.transport_type {
        TransportType::Stdio => seq![
            seq![(Shade::Plain, "Transport: stdio"@)],
            seq![(Shade::Plain, "Command: "@ + state.config.command@ + " "@ + joined(string_views(state.config.args@), " "@))],
        ],
        TransportType::Http => seq![
            seq![(Shade::Plain, "Transport: http"@)],
            seq![(Shade::Plain, "URL: "@ + state.config.url@)],
        ],
    };
    if !state.config.env.is_empty() {
        let entries = state.config.env.as_slice();
        let mut keys: Vec<String> = Vec::new();
        let mut i: usize = 0;
        while i < entries.len()
            invariant
                i <= entries@.len(),
                entries@ == state.config.env.entries(),
                keys@.len() == i,
                forall|k: int| 0 <= k < i ==> #[trigger] keys@[k]@ == entries@[k].0@,
            decreases entries@.len() - i,
        {
            keys.push(copy_string(&entries[i].0));
            i = i + 1;
        }
        assert(string_views(keys@) =~= state.config.env.keys());
        let ghost l = seq![(Shade::Plain, "Env vars: "@ + joined(state.config.env.keys(), ", "@))];
        push_parts(&mut out, part(Shade::Plain, concat("Env vars: ", crate::text::join_with(&keys, ", ").as_str())));
        proof {
            lemma_pushed_lines(mid, out@, ls4, l);
            assert(ls4.push(l) =~= status_head(*state));
        }
    } else {
        assert(ls4 =~= status_head(*state));
    }
    out
}

fn status_tail_lines(state: &ReplState) -> (r: Vec<Output>)
    ensures
        line_specs_are(r@, status_tail(*state)),
{
    let mut out: Vec<Output> = Vec::new();
    let ghost l = seq![(Shade::Plain, "Timeout: "@ + decimal(state.timeout_secs as nat) + "s"@)];
    push_parts(&mut out, part(Shade::Plain, message("Timeout: ", u64_to_text(state.timeout_secs).as_str(), "s")));
    proof { lemma_pushed_lines(Seq::empty(), out@, Seq::empty(), l); }
    let count = state.pending_notifications.len();
    if count > 0 {
        let ghost before = out@;
        let ghost m = seq![
            (Shade::Yellow, decimal(count as nat)),
            (Shade::Plain, " pending notification(s). Type 'log' to view."@),
        ];
        push_parts(&mut out, two_parts(Shade::Yellow, u64_to_text(count as u64), Shade::Plain, owned(" pending notification(s). Type 'log' to view.")));
        proof {
            lemma_pushed_lines(before, out@, seq![l], m);
            assert(seq![l].push(m) =~= status_tail(*state));
        }
    } else {
        assert(Seq::<Seq<(Shade, Seq<char>)>>::empty().push(l) =~= status_tail(*state));
    }
    out
}

/// Shows how the session stands.
pub fn cmd_status(state: &ReplState) -> (r: Step)
    ensures
        status_shown(r.outputs@, *state),
        r.next is Continue,
{
    if !state.connected {
        let mut out: Vec<Output> = Vec::new();
        push_parts(&mut out, two_parts(Shade::Plain, owned("Status: "), Shade::Red, owned("Disconnected")));
        proof { lemma_pushed_lines(Seq::empty(), out@, Seq::empty(), seq![(Shade::Plain, "Status: "@), (Shade::Red, "Disconnected"@)]); }
        return Step { outputs: out, next: Next::Continue };
    }
    let mut out = status_head_lines(state);
    let ghost head = out@;
    let mut tail = status_tail_lines(state);
    let ghost tl = tail@;
    match &state.capabilities {
        Some(caps) => {
            out.push(text_line(Shade::Plain, ""));
            out.push(text_line(Shade::Plain, "Capabilities:"));
            let mut table = print_capabilities(caps);
            out.append(&mut table);
            out.append(&mut tail);
            proof {
                let h = head.len() as int;
                assert(out@.take(h) =~= head);
                assert(out@.skip(h + 3) =~= tl);
            }
        },
        None => {
            out.append(&mut tail);
            proof {
                let h = head.len() as int;
                assert(out@.take(h) =~= head);
                assert(out@.skip(h) =~= tl);
            }
        },
    }
    Step { outputs: out, next: Next::Continue }
}

// ---------------------------------------------------------------------------------------------
// Requests to the server
// ---------------------------------------------------------------------------------------------

/// A request that needs a connection: without one the command fails with `Not connected`,
/// with one it performs `act`.
pub open spec fn request_step(s: ReplState, r: Step, act: Action) -> bool {
    if !s.connected {
        fail_step(r, "Not connected"@)
    } else {
        r.outputs@.len() == 0 && r.next == Next::Perform(act)
    }
}

fn request(state: &ReplState, act: Action) -> (r: Step)
    ensures
        request_step(*state, r, act),
{
    if !state.connected {
        return fail(owned("Not connected"));
    }
    perform(act)
}

/// `tools`: lists the server's tools.
pub fn cmd_tools(state: &ReplState) -> (r: Step)
    ensures
        request_step(*state, r, Action::ListTools),
{
    request(state, Action::ListTools)
}

/// `resources`: lists the server's resources.
pub fn cmd_resources(state: &ReplState) -> (r: Step)
    ensures
        request_step(*state, r, Action::ListResources),
{
    request(state, Action::ListResources)
}

/// `prompts`: lists the server's prompts.
pub fn cmd_prompts(state: &ReplState) -> (r: Step)
    ensures
        request_step(*state, r, Action::ListPrompts),
{
    request(state, Action::ListPrompts)
}

/// Shows the tools a server listed, and completes their names from now on.
pub fn tools_listed(state: &mut ReplState, tools: &Vec<McpTool>) -> (r: Vec<Output>)
    ensures
        *final(state) == (ReplState { completer_state: final(state).completer_state, ..*old(state) }),
        string_views(final(state).completer_state.tools@) == tool_names(tools@),
        final(state).completer_state.resources == old(state).completer_state.resources,
        final(state).completer_state.prompts == old(state).completer_state.prompts,
        tools_shown(r@, tools@),
{
    state.completer_state.set_tools(tools);
    crate::display::print_tools(tools)
}

/// Shows the resources a server listed, and completes their URIs from now on.
pub fn resources_listed(state: &mut ReplState, resources: &Vec<McpResource>) -> (r: Vec<Output>)
    ensures
        *final(state) == (ReplState { completer_state: final(state).completer_state, ..*old(state) }),
        string_views(final(state).completer_state.resources@) == resource_uris(resources@),
        final(state).completer_state.tools == old(state).completer_state.tools,
        final(state).completer_state.prompts == old(state).completer_state.prompts,
        resources_shown(r@, resources@),
{
    state.completer_state.set_resources(resources);
    crate::display::print_resources(resources)
}

/// Shows the prompts a server listed, and completes their names from now on.
pub fn prompts_listed(state: &mut ReplState, prompts: &Vec<McpPrompt>) -> (r: Vec<Output>)
    ensures
        *final(state) == (ReplState { completer_state: final(state).completer_state, ..*old(state) }),
        string_views(final(state).completer_state.prompts@) == prompt_names(prompts@),
        final(state).completer_state.tools == old(state).completer_state.tools,
        final(state).completer_state.resources == old(state).completer_state.resources,
        prompts_shown(r@, prompts@),
{
    state.completer_state.set_prompts(prompts);
    crate::display::print_prompts(prompts)
}

/// A command that takes a name and optional raw JSON arguments (`call`, `prompt`): `usage`
/// without a name, `Not connected` without a connection, `Missing JSON argument` when words
/// follow the name but no text is left after the first two words; otherwise `act` is given
/// the name and the JSON text, if any.
pub open spec fn named_json_step(
    s: ReplState,
    args: Seq<Seq<char>>,
    line: Seq<char>,
    r: Step,
    usage_text: Seq<char>,
    act: spec_fn(Action, Seq<char>, Option<Seq<char>>) -> bool,
) -> bool {
    if args.len() == 0 {
        usage_step(r, usage_text)
    } else if !s.connected {
        fail_step(r, "Not connected"@)
    } else if args.len() > 1 && raw_json_text(line, 2) is None {
        fail_step(r, "Missing JSON argument"@)
    } else {
        &&& r.outputs@.len() == 0
        &&& r.next matches Next::Perform(a) && act(a, args[0], if args.len() > 1 { raw_json_text(line, 2) } else { None })
    }
}

/// The action that calls the tool `name` with the JSON text `json`.
pub open spec fn calls_tool(a: Action, name: Seq<char>, json: Option<Seq<char>>) -> bool {
    a matches Action::CallTool { name: n, arguments } && n@ == name && opt_view(arguments) == json
}

/// The action that gets the prompt `name` with the JSON text `json`.
pub open spec fn gets_prompt(a: Action, name: Seq<char>, json: Option<Seq<char>>) -> bool {
    a matches Action::GetPrompt { name: n, arguments } && n@ == name && opt_view(arguments) == json
}

/// The characters of an optional string.
pub open spec fn opt_view(s: Option<String>) -> Option<Seq<char>> {
    match s {
        Some(t) => Some(t@),
        None => None,
    }
}

fn json_argument(args: &Vec<String>, line: &str) -> (r: Result<Option<String>, String>)
    ensures
        args@.len() > 1 ==> match raw_json_text(line@, 2) {
            None => r matches Err(m) && m@ == "Missing JSON argument"@,
            Some(t) => r matches Ok(Some(j)) && j@ == t,
        },
        args@.len() <= 1 ==> r matches Ok(None),
{
    if args.len() > 1 {
        match raw_json_arg(line, 2) {
            None => Err(owned("Missing JSON argument")),
            Some(t) => Ok(Some(owned(t))),
        }
    } else {
        Ok(None)
    }
}

/// `call <tool_name> [json_args]`: calls a tool.
pub fn cmd_call(state: &ReplState, args: &Vec<String>, line: &str) -> (r: Step)
    ensures
        named_json_step(*state, string_views(args@), line@, r, "Usage: call <tool_name> [json_args]"@,
            |a: Action, n: Seq<char>, j: Option<Seq<char>>| calls_tool(a, n, j)),
{
    if args.len() == 0 {
        return usage("Usage: call <tool_name> [json_args]");
    }
    if !state.connected {
        return fail(owned("Not connected"));
    }
    match json_argument(args, line) {
        Err(m) => fail(m),
        Ok(arguments) => perform(Action::CallTool { name: copy_string(&args[0]), arguments }),
    }
}

/// `prompt <name> [json_args]`: gets a prompt.
pub fn cmd_prompt(state: &ReplState, args: &Vec<String>, line: &str) -> (r: Step)
    ensures
        named_json_step(*state, string_views(args@), line@, r, "Usage: prompt <name> [json_args]"@,
            |a: Action, n: Seq<char>, j: Option<Seq<char>>| gets_prompt(a, n, j)),
{
    if args.len() == 0 {
        return usage("Usage: prompt <name> [json_args]");
    }
    if !state.connected {
        return fail(owned("Not connected"));
    }
    match json_argument(args, line) {
        Err(m) => fail(m),
        Ok(arguments) => perform(Action::GetPrompt { name: copy_string(&args[0]), arguments }),
    }
}

/// `read <uri>`: reads a resource.
pub open spec fn read_step(s: ReplState, args: Seq<Seq<char>>, r: Step) -> bool {
    if args.len() == 0 {
        usage_step(r, "Usage: read <uri>"@)
    } else if !s.connected {
        fail_step(r, "Not connected"@)
    } else {
        &&& r.outputs@.len() == 0
        &&& r.next matches Next::Perform(Action::ReadResource { uri }) && uri@ == args[0]
    }
}

/// Reads a resource.
pub fn cmd_read(state: &ReplState, args: &Vec<String>) -> (r: Step)
    ensures
        read_step(*state, string_views(args@), r),
{
    if args.len() == 0 {
        return usage("Usage: read <uri>");
    }
    if !state.connected {
        return fail(owned("Not connected"));
    }
    perform(Action::ReadResource { uri: copy_string(&args[0]) })
}

/// `export [filename]`: the session's configuration, to write to the named file or to show.
pub open spec fn export_step(s: ReplState, args: Seq<Seq<char>>, r: Step) -> bool {
    &&& r.outputs@.len() == 0
    &&& r.next matches Next::Perform(Action::Export { filename, config })
        && config.data() == exported(s.server_name@, s.config)
        && opt_view(filename) == (if args.len() > 0 { Some(args[0]) } else { None })
}

/// Exports the session's configuration.
pub fn cmd_export(state: &ReplState, args: &Vec<String>) -> (r: Step)
    ensures
        export_step(*state, string_views(args@), r),
{
    let filename = if args.len() > 0 { Some(copy_string(&args[0])) } else { None };
    perform(Action::Export { filename, config: export_config(state) })
}

// ---------------------------------------------------------------------------------------------
// Dispatch
// ---------------------------------------------------------------------------------------------

/// What running the command with the words `parts`, typed as `line`, does to the session
/// `s` (giving `t`) and to the handlers `hs` (giving `ht`), and the step `r` it gives.
pub open spec fn command_done(
    s: ReplState,
    t: ReplState,
    hs: CapabilityHandlers,
    ht: CapabilityHandlers,
    parts: Seq<Seq<char>>,
    line: Seq<char>,
    r: Step,
) -> bool {
    if parts.len() == 0 {
        t == s && ht == hs && r.outputs@.len() == 0 && r.next is Continue
    } else {
        let name = parts[0];
        let args = parts.skip(1);
        if name == "cap-remove"@ {
            t == s && cap_remove_step(hs, ht, args, r)
        } else {
            &&& ht == hs
            &&& if name == "connect"@ {
                connect_step(s, t, args, r)
            } else if name == "connect-http"@ {
                connect_http_step(s, t, args, r)
            } else if name == "disconnect"@ {
                disconnect_step(s, t, r)
            } else if name == "reconnect"@ {
                reconnect_step(s, t, r)
            } else if name == "set-name"@ {
                set_name_step(s, t, args, r)
            } else if name == "set-env"@ {
                set_env_step(s, t, args, r)
            } else if name == "set-timeout"@ {
                set_timeout_step(s, t, args, r)
            } else if name == "log"@ {
                log_step(s, t, r)
            } else {
                &&& t == s
                &&& if name == "status"@ {
                    status_shown(r.outputs@, s) && r.next is Continue
                } else if name == "tools"@ {
                    request_step(s, r, Action::ListTools)
                } else if name == "resources"@ {
                    request_step(s, r, Action::ListResources)
                } else if name == "prompts"@ {
                    request_step(s, r, Action::ListPrompts)
                } else if name == "call"@ {
                    named_json_step(s, args, line, r, "Usage: call <tool_name> [json_args]"@,
                        |a: Action, n: Seq<char>, j: Option<Seq<char>>| calls_tool(a, n, j))
                } else if name == "read"@ {
                    read_step(s, args, r)
                } else if name == "prompt"@ {
                    named_json_step(s, args, line, r, "Usage: prompt <name> [json_args]"@,
                        |a: Action, n: Seq<char>, j: Option<Seq<char>>| gets_prompt(a, n, j))
                } else if name == "export"@ {
                    export_step(s, args, r)
                } else if name == "cap-set"@ {
                    cap_set_step(args, line, r)
                } else if name == "cap-list"@ {
                    cap_list_step(hs, r)
                } else if name == "help"@ {
                    lines_are(r.outputs@, help_lines(args)) && r.next is Continue
                } else if name == "history"@ {
                    history_step(s, r)
                } else if name == "clear"@ {
                    r.outputs@.len() == 1 && r.outputs@[0] is ClearScreen && r.next is Continue
                } else if name == "quit"@ || name == "exit"@ {
                    r.outputs@.len() == 0 && r.next is Quit
                } else {
                    usage_step(r, "Unknown command: '"@ + name + "'. Type 'help' for available commands."@)
                }
            }
        }
    }
}

/// Runs the command whose words are `parts`, typed as `line` (commands that take JSON read it
/// from the line, quotes and all). The session and the handlers change as the command says;
/// work with the server or files is left to the caller as the step's action.
pub fn run_command(state: &mut ReplState, handlers: &mut CapabilityHandlers, parts: &Vec<String>, line: &str) -> (r: Step)
    ensures
        command_done(*old(state), *final(state), *old(handlers), *final(handlers), string_views(parts@), line@, r),
{
    if parts.len() == 0 {
        return Step { outputs: Vec::new(), next: Next::Continue };
    }
    let name = parts[0].as_str();
    let args = copy_strings(parts, 1);
    if str_equal(name, "cap-remove") {
        return cmd_cap_remove(handlers, &args);
    }
    if str_equal(name, "connect") {
        cmd_connect(state, &args)
    } else if str_equal(name, "connect-http") {
        cmd_connect_http(state, &args)
    } else if str_equal(name, "disconnect") {
        cmd_disconnect(state)
    } else if str_equal(name, "reconnect") {
        cmd_reconnect(state)
    } else if str_equal(name, "set-name") {
        cmd_set_name(state, &args)
    } else if str_equal(name, "set-env") {
        cmd_set_env(state, &args)
    } else if str_equal(name, "set-timeout") {
        cmd_set_timeout(state, &args)
    } else if str_equal(name, "log") {
        cmd_log(state)
    } else if str_equal(name, "status") {
        cmd_status(state)
    } else if str_equal(name, "tools") {
        cmd_tools(state)
    } else if str_equal(name, "resources") {
        cmd_resources(state)
    } else if str_equal(name, "prompts") {
        cmd_prompts(state)
    } else if str_equal(name, "call") {
        cmd_call(state, &args, line)
    } else if str_equal(name, "read") {
        cmd_read(state, &args)
    } else if str_equal(name, "prompt") {
        cmd_prompt(state, &args, line)
    } else if str_equal(name, "export") {
        cmd_export(state, &args)
    } else if str_equal(name, "cap-set") {
        cmd_cap_set(&args, line)
    } else if str_equal(name, "cap-list") {
        cmd_cap_list(handlers)
    } else if str_equal(name, "help") {
        cmd_help(&args)
    } else if str_equal(name, "history") {
        cmd_history(state)
    } else if str_equal(name, "clear") {
        Step { outputs: one(Output::ClearScreen), next: Next::Continue }
    } else if str_equal(name, "quit") || str_equal(name, "exit") {
        Step { outputs: Vec::new(), next: Next::Quit }
    } else {
        usage(message("Unknown command: '", name, "'. Type 'help' for available commands.").as_str())
    }
}

/// Runs the command typed as `line`: its words are split as a shell would, or at white space
/// when a quote is not closed.
pub fn handle_command(state: &mut ReplState, handlers: &mut CapabilityHandlers, line: &str) -> (r: Step)
    ensures
        command_done(*old(state), *final(state), *old(handlers), *final(handlers), command_words(line@), line@, r),
{
    let parts = split_command_line(line);
    run_command(state, handlers, &parts, line)
}

// ---------------------------------------------------------------------------------------------
// Laws
// ---------------------------------------------------------------------------------------------

/// No command connects the session by itself (only a connection that the server completed
/// does, through `connected_over_stdio` or `connected_over_http`), every command keeps the
/// request timeout at one second or more, and no command changes the history.
pub proof fn lemma_commands_keep_session(
    s: ReplState,
    t: ReplState,
    hs: CapabilityHandlers,
    ht: CapabilityHandlers,
    parts: Seq<Seq<char>>,
    line: Seq<char>,
    r: Step,
)
    requires
        command_done(s, t, hs, ht, parts, line, r),
    ensures
        t.connected ==> s.connected,
        s.timeout_secs >= 1 ==> t.timeout_secs >= 1,
        t.history == s.history,
{
    if parts.len() > 0 {
        let name = parts[0];
        let args = parts.skip(1);
        if name == "reconnect"@ {
            match s.config.transport_type {
                TransportType::Stdio => {},
                TransportType::Http => {},
            }
        }
    }
}

/// A command that neither connects nor disconnects leaves the connection as it is: only
/// `connect`, `connect-http`, `disconnect` and `reconnect` drop it.
pub proof fn lemma_other_commands_keep_connection(
    s: ReplState,
    t: ReplState,
    hs: CapabilityHandlers,
    ht: CapabilityHandlers,
    parts: Seq<Seq<char>>,
    line: Seq<char>,
    r: Step,
)
    requires
        command_done(s, t, hs, ht, parts, line, r),
        parts.len() > 0 ==> parts[0] != "connect"@ && parts[0] != "connect-http"@ && parts[0] != "disconnect"@
            && parts[0] != "reconnect"@,
    ensures
        t.connected == s.connected,
        t.capabilities == s.capabilities,
{
}

/// After `disconnect` the session is not connected; a session that was connected then knows
/// no capabilities and completes no server names. The configuration and the notifications
/// stay.
pub proof fn lemma_disconnect_clears(
    s: ReplState,
    t: ReplState,
    hs: CapabilityHandlers,
    ht: CapabilityHandlers,
    line: Seq<char>,
    r: Step,
)
    requires
        command_done(s, t, hs, ht, seq!["disconnect"@], line, r),
    ensures
        !t.connected,
        s.connected ==> t.capabilities is None,
        s.connected ==> t.completer_state.tools@.len() == 0 && t.completer_state.resources@.len() == 0
            && t.completer_state.prompts@.len() == 0,
        t.config == s.config,
        t.pending_notifications == s.pending_notifications,
{
    reveal_strlit("cap-remove");
    reveal_strlit("connect");
    reveal_strlit("connect-http");
    reveal_strlit("disconnect");
    assert("cap-remove"@[0] != "disconnect"@[0]);
    assert(seq!["disconnect"@][0] == "disconnect"@);
}

/// `log` forgets what it shows: a second `log` right after the first shows
/// `No notifications.`.
pub proof fn lemma_log_twice(s: ReplState, t: ReplState, u: ReplState, first: Step, second: Step)
    requires
        log_step(s, t, first),
        log_step(t, u, second),
    ensures
        second.outputs@.len() == 1,
        text_line_is(second.outputs@[0], Shade::Yellow, "No notifications."@),
        u.pending_notifications@.len() == 0,
{
}

/// `reconnect` of a stdio session starts the recorded command again with all its recorded
/// arguments, in order: the same `Connect` action that connecting performed. So after
/// `connect c a...` succeeded and was recorded (`connected_over_stdio` sets the command to `c`
/// and the arguments to `a`), `reconnect` performs `Connect { command: c, args: a }`.
pub proof fn lemma_reconnect_repeats_connect(s: ReplState, t: ReplState, r: Step)
    requires
        s.config.transport_type == TransportType::Stdio,
        s.config.command@.len() > 0,
        reconnect_step(s, t, r),
    ensures
        r.next matches Next::Perform(Action::Connect { command, args })
            && command@ == s.config.command@
            && args@.len() == s.config.args@.len()
            && forall|i: int| 0 <= i < args@.len() ==> #[trigger] args@[i]@ == s.config.args@[i]@,
{
    assert(connect_to_step(s, t, s.config.command@, string_views(s.config.args@), r));
    match r.next {
        Next::Perform(Action::Connect { command, args }) => {
            assert(string_views(args@).len() == args@.len());
            assert(string_views(s.config.args@).len() == s.config.args@.len());
            assert forall|i: int| 0 <= i < args@.len() implies #[trigger] args@[i]@ == s.config.args@[i]@ by {
                assert(string_views(args@)[i] == string_views(s.config.args@)[i]);
            }
        },
        _ => {},
    }
}

/// Connecting and then reconnecting performs the same action twice: when `connect` performed
/// `Connect { command: c, args: a }` and the session then recorded `c` and `a` for stdio,
/// `reconnect` performs `Connect` with `c` and the arguments `a`.
pub proof fn lemma_connect_then_reconnect(
    s0: ReplState, s1: ReplState, words: Seq<Seq<char>>, r1: Step,
    s2: ReplState, s3: ReplState, r2: Step,
)
    requires
        connect_step(s0, s1, words, r1),
        words.len() > 0,
        words[0].len() > 0,
        s2.config.transport_type == TransportType::Stdio,
        r1.next matches Next::Perform(Action::Connect { command, args })
            && s2.config.command@ == command@ && string_views(s2.config.args@) == string_views(args@),
        reconnect_step(s2, s3, r2),
    ensures
        r1.next matches Next::Perform(Action::Connect { command: c1, args: a1 })
            && r2.next matches Next::Perform(Action::Connect { command: c2, args: a2 })
            && c1@ == c2@ && string_views(a1@) == string_views(a2@),
{
}

} // verus!
