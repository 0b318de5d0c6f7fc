use vstd::prelude::*;
use crate::json::{JsonData, JsonValue, member_names, view_pairs, lemma_view_pairs};
use crate::protocol::{McpContent, McpPrompt, McpPromptArgument, McpPromptMessage, McpResource, McpResourceTemplate, McpTool, Notification, NotificationModel, ServerCapabilities, data_of};
use crate::text::{copy_string, decimal, join_with, joined, owned, push_char, push_str, str_equal, string_views, u64_to_text};

verus! {

/// How a piece of text is shown on a terminal.
#[derive(Debug, Clone, Copy, PartialEq, Eq, Structural)]
pub enum Shade {
    Plain,
    Bold,
    BoldUnderline,
    /// Bold and yellow, for section headings.
    Heading,
    Red,
    Green,
    Yellow,
    Cyan,
    Blue,
    Magenta,
    Dimmed,
}

/// A piece of text and how it is shown.
#[derive(Debug)]
pub struct Span {
    pub shade: Shade,
    pub text: String,
}

/// What the inspector shows: messages, lines of text, tables and JSON documents.
#[derive(Debug)]
pub enum Output {
    /// An error message, shown on the error stream after `Error:`.
    Error(String),
    /// A success message, shown after a check mark.
    Success(String),
    /// An informational message, shown after an information sign.
    Info(String),
    /// A line made of pieces of text.
    Line(Vec<Span>),
    /// A table with a bold cyan header; `dynamic` tables wrap their cells to the terminal.
    Table { header: Vec<String>, rows: Vec<Vec<Span>>, dynamic: bool },
    /// A JSON document, pretty-printed.
    Json(JsonValue),
    /// The table of capability handlers: each method with its payload, pretty-printed.
    Handlers(Vec<(String, JsonValue)>),
    /// Clears the terminal.
    ClearScreen,
}

/// `s` is the text `t` shown with `shade`.
pub open spec fn span_is(s: Span, shade: Shade, t: Seq<char>) -> bool {
    s.shade == shade && s.text@ == t
}

/// The pieces `spans` are the pieces `parts`.
pub open spec fn spans_are(spans: Seq<Span>, parts: Seq<(Shade, Seq<char>)>) -> bool {
    &&& spans.len() == parts.len()
    &&& forall|i: int| 0 <= i < parts.len() ==> #[trigger] span_is(spans[i], parts[i].0, parts[i].1)
}

/// `o` is the line made of `parts`.
pub open spec fn line_is(o: Output, parts: Seq<(Shade, Seq<char>)>) -> bool {
    o matches Output::Line(spans) && spans_are(spans@, parts)
}

/// `o` is the line holding only `t`, shown with `shade`.
pub open spec fn text_line_is(o: Output, shade: Shade, t: Seq<char>) -> bool {
    line_is(o, seq![(shade, t)])
}

/// `o` is a table with the column names `names`, the rows `rows` and the layout `dynamic`.
pub open spec fn table_is(o: Output, names: Seq<Seq<char>>, rows: Seq<Seq<(Shade, Seq<char>)>>, dynamic: bool) -> bool {
    o matches Output::Table { header, rows: cells, dynamic: d } && {
        &&& string_views(header@) == names
        &&& d == dynamic
        &&& cells@.len() == rows.len()
        &&& forall|i: int| 0 <= i < rows.len() ==> #[trigger] spans_are(cells@[i]@, rows[i])
    }
}

/// A piece of text with its shade.
pub fn span(shade: Shade, text: String) -> (r: Span)
    ensures
        span_is(r, shade, text@),
{
    Span { shade, text }
}

/// The line holding only `text`, shown with `shade`.
pub fn text_line(shade: Shade, text: &str) -> (r: Output)
    ensures
        text_line_is(r, shade, text@),
{
    let mut spans: Vec<Span> = Vec::new();
    spans.push(span(shade, owned(text)));
    Output::Line(spans)
}

/// The line with no text.
pub fn empty_line() -> (r: Output)
    ensures
        line_is(r, Seq::empty()),
{
    Output::Line(Vec::new())
}

fn header_of(a: &str, b: &str, c: &str, d: Option<&str>) -> (r: Vec<String>)
    ensures
        string_views(r@) == match d {
            Some(d) => seq![a@, b@, c@, d@],
            None => seq![a@, b@, c@],
        },
{
    let mut h: Vec<String> = Vec::new();
    h.push(owned(a));
    h.push(owned(b));
    h.push(owned(c));
    match d {
        Some(d) => {
            h.push(owned(d));
            assert(string_views(h@) =~= seq![a@, b@, c@, d@]);
        },
        None => {
            assert(string_views(h@) =~= seq![a@, b@, c@]);
        },
    }
    h
}

// ---------------------------------------------------------------------------------------------
// Schemas
// ---------------------------------------------------------------------------------------------

/// The property names of a JSON schema, joined with `, `: empty when `properties` is missing
/// or is not an object.
pub open spec fn schema_keys(schema: JsonData) -> Seq<char> {
    match schema.get("properties"@) {
        Some(JsonData::Object(ps)) => joined(member_names(ps), ", "@),
        _ => Seq::empty(),
    }
}

/// The property names of a tool's input schema, joined with `, `.
pub fn extract_schema_keys(schema: &JsonValue) -> (r: String)
    ensures
        r@ == schema_keys(schema.data()),
{
    match schema.get("properties") {
        Some(JsonValue::Object(pairs)) => {
            let mut names: Vec<String> = Vec::new();
            let mut i: usize = 0;
            while i < pairs.len()
                invariant
                    i <= pairs@.len(),
                    names@.len() == i,
                    string_views(names@) == member_names(view_pairs(pairs@)).take(i as int),
                decreases pairs@.len() - i,
            {
                let ghost before = names@;
                names.push(copy_string(&pairs[i].0));
                proof {
                    lemma_view_pairs(pairs@);
                    assert(string_views(names@) =~= member_names(view_pairs(pairs@)).take(i + 1)) by {
                        assert(names@.drop_last() == before);
                        assert forall|j: int| 0 <= j < i + 1 implies #[trigger] string_views(names@)[j] == member_names(view_pairs(pairs@)).take(i + 1)[j] by {
                            if j < i {
                                assert(names@[j] == before[j]);
                            }
                        }
                    }
                }
                i = i + 1;
            }
            proof {
                lemma_view_pairs(pairs@);
                assert(member_names(view_pairs(pairs@)).take(i as int) =~= member_names(view_pairs(pairs@)));
            }
            join_with(&names, ", ")
        },
        _ => String::new(),
    }
}

// ---------------------------------------------------------------------------------------------
// Listings
// ---------------------------------------------------------------------------------------------

/// The row that shows a tool: its name in green, its description and its input keys.
pub open spec fn tool_row(t: McpTool) -> Seq<(Shade, Seq<char>)> {
    seq![(Shade::Green, t.name@), (Shade::Plain, t.description@), (Shade::Plain, schema_keys(t.input_schema.data()))]
}

/// The tools shown: a table, or a warning when there are none.
pub open spec fn tools_shown(r: Seq<Output>, tools: Seq<McpTool>) -> bool {
    &&& r.len() == 1
    &&& tools.len() == 0 ==> text_line_is(r[0], Shade::Yellow, "No tools available."@)
    &&& tools.len() > 0 ==> table_is(r[0], seq!["Name"@, "Description"@, "Input Keys"@],
        tools.map_values(|t: McpTool| tool_row(t)), true)
}

/// The lines that show the tools.
pub fn print_tools(tools: &Vec<McpTool>) -> (r: Vec<Output>)
    ensures
        tools_shown(r@, tools@),
{
    let mut out: Vec<Output> = Vec::new();
    if tools.len() == 0 {
        out.push(text_line(Shade::Yellow, "No tools available."));
        return out;
    }
    let mut rows: Vec<Vec<Span>> = Vec::new();
    let mut i: usize = 0;
    while i < tools.len()
        invariant
            i <= tools@.len(),
            rows@.len() == i,
            forall|k: int| 0 <= k < i ==> #[trigger] spans_are(rows@[k]@, tool_row(tools@[k])),
        decreases tools@.len() - i,
    {
        let t = &tools[i];
        let mut row: Vec<Span> = Vec::new();
        row.push(span(Shade::Green, copy_string(&t.name)));
        row.push(span(Shade::Plain, copy_string(&t.description)));
        row.push(span(Shade::Plain, extract_schema_keys(&t.input_schema)));
        assert(spans_are(row@, tool_row(*t)));
        rows.push(row);
        i = i + 1;
    }
    out.push(Output::Table { header: header_of("Name", "Description", "Input Keys", None), rows, dynamic: true });
    out
}

/// The row that shows a resource: its URI in green, its name, MIME type and description.
pub open spec fn resource_row(r: McpResource) -> Seq<(Shade, Seq<char>)> {
    seq![(Shade::Green, r.uri@), (Shade::Plain, r.name@), (Shade::Plain, r.mime_type@), (Shade::Plain, r.description@)]
}

/// The resources shown: a table, or a warning when there are none.
pub open spec fn resources_shown(r: Seq<Output>, resources: Seq<McpResource>) -> bool {
    &&& r.len() == 1
    &&& resources.len() == 0 ==> text_line_is(r[0], Shade::Yellow, "No resources available."@)
    &&& resources.len() > 0 ==> table_is(r[0], seq!["URI"@, "Name"@, "MIME Type"@, "Description"@],
        resources.map_values(|x: McpResource| resource_row(x)), true)
}

/// The lines that show the resources.
pub fn print_resources(resources: &Vec<McpResource>) -> (r: Vec<Output>)
    ensures
        resources_shown(r@, resources@),
{
    let mut out: Vec<Output> = Vec::new();
    if resources.len() == 0 {
        out.push(text_line(Shade::Yellow, "No resources available."));
        return out;
    }
    let mut rows: Vec<Vec<Span>> = Vec::new();
    let mut i: usize = 0;
    while i < resources.len()
        invariant
            i <= resources@.len(),
            rows@.len() == i,
            forall|k: int| 0 <= k < i ==> #[trigger] spans_are(rows@[k]@, resource_row(resources@[k])),
        decreases resources@.len() - i,
    {
        let x = &resources[i];
        let mut row: Vec<Span> = Vec::new();
        row.push(span(Shade::Green, copy_string(&x.uri)));
        row.push(span(Shade::Plain, copy_string(&x.name)));
        row.push(span(Shade::Plain, copy_string(&x.mime_type)));
        row.push(span(Shade::Plain, copy_string(&x.description)));
        assert(spans_are(row@, resource_row(*x)));
        rows.push(row);
        i = i + 1;
    }
    out.push(Output::Table { header: header_of("URI", "Name", "MIME Type", Some("Description")), rows, dynamic: true });
    out
}

/// The row that shows a resource template: its URI template in green, its name, MIME type
/// and description.
pub open spec fn template_row(t: McpResourceTemplate) -> Seq<(Shade, Seq<char>)> {
    seq![(Shade::Green, t.uri_template@), (Shade::Plain, t.name@), (Shade::Plain, t.mime_type@), (Shade::Plain, t.description@)]
}

/// The lines that show the resource templates: a bold title and a table; nothing when there
/// are none.
pub fn print_resource_templates(templates: &Vec<McpResourceTemplate>) -> (r: Vec<Output>)
    ensures
        templates@.len() == 0 ==> r@.len() == 0,
        templates@.len() > 0 ==> r@.len() == 2 && text_line_is(r@[0], Shade::Bold, "Resource Templates:"@)
            && table_is(r@[1], seq!["URI Template"@, "Name"@, "MIME Type"@, "Description"@],
            templates@.map_values(|x: McpResourceTemplate| template_row(x)), true),
{
    let mut out: Vec<Output> = Vec::new();
    if templates.len() == 0 {
        return out;
    }
    out.push(text_line(Shade::Bold, "Resource Templates:"));
    let mut rows: Vec<Vec<Span>> = Vec::new();
    let mut i: usize = 0;
    while i < templates.len()
        invariant
            i <= templates@.len(),
            rows@.len() == i,
            forall|k: int| 0 <= k < i ==> #[trigger] spans_are(rows@[k]@, template_row(templates@[k])),
        decreases templates@.len() - i,
    {
        let x = &templates[i];
        let mut row: Vec<Span> = Vec::new();
        row.push(span(Shade::Green, copy_string(&x.uri_template)));
        row.push(span(Shade::Plain, copy_string(&x.name)));
        row.push(span(Shade::Plain, copy_string(&x.mime_type)));
        row.push(span(Shade::Plain, copy_string(&x.description)));
        assert(spans_are(row@, template_row(*x)));
        rows.push(row);
        i = i + 1;
    }
    out.push(Output::Table { header: header_of("URI Template", "Name", "MIME Type", Some("Description")), rows, dynamic: true });
    out
}

/// How a prompt argument is listed: its name, with `*` after it when it is required.
pub open spec fn argument_label(a: McpPromptArgument) -> Seq<char> {
    if a.required { a.name@.push('*') } else { a.name@ }
}

/// The arguments of a prompt, listed with `, ` between them.
pub open spec fn argument_labels(args: Seq<McpPromptArgument>) -> Seq<char> {
    joined(args.map_values(|a: McpPromptArgument| argument_label(a)), ", "@)
}

/// The row that shows a prompt: its name in green, its description and its arguments.
pub open spec fn prompt_row(p: McpPrompt) -> Seq<(Shade, Seq<char>)> {
    seq![(Shade::Green, p.name@), (Shade::Plain, p.description@), (Shade::Plain, argument_labels(p.arguments@))]
}

fn labels_of(args: &Vec<McpPromptArgument>) -> (r: String)
    ensures
        r@ == argument_labels(args@),
{
    let mut labels: Vec<String> = Vec::new();
    let mut i: usize = 0;
    while i < args.len()
        invariant
            i <= args@.len(),
            labels@.len() == i,
            string_views(labels@) == args@.map_values(|a: McpPromptArgument| argument_label(a)).take(i as int),
        decreases args@.len() - i,
    {
        let ghost before = labels@;
        let mut label = copy_string(&args[i].name);
        if args[i].required {
            push_char(&mut label, '*');
        }
        labels.push(label);
        proof {
            let all = args@.map_values(|a: McpPromptArgument| argument_label(a));
            assert(string_views(labels@) =~= all.take(i + 1)) by {
                assert forall|j: int| 0 <= j < i + 1 implies #[trigger] string_views(labels@)[j] == all.take(i + 1)[j] by {
                    if j < i {
                        assert(labels@[j] == before[j]);
                    }
                }
            }
        }
        i = i + 1;
    }
    assert(args@.map_values(|a: McpPromptArgument| argument_label(a)).take(i as int) =~= args@.map_values(|a: McpPromptArgument| argument_label(a)));
    join_with(&labels, ", ")
}

/// The prompts shown: a table, or a warning when there are none.
pub open spec fn prompts_shown(r: Seq<Output>, prompts: Seq<McpPrompt>) -> bool {
    &&& r.len() == 1
    &&& prompts.len() == 0 ==> text_line_is(r[0], Shade::Yellow, "No prompts available."@)
    &&& prompts.len() > 0 ==> table_is(r[0], seq!["Name"@, "Description"@, "Arguments"@],
        prompts.map_values(|p: McpPrompt| prompt_row(p)), true)
}

/// The lines that show the prompts.
pub fn print_prompts(prompts: &Vec<McpPrompt>) -> (r: Vec<Output>)
    ensures
        prompts_shown(r@, prompts@),
{
    let mut out: Vec<Output> = Vec::new();
    if prompts.len() == 0 {
        out.push(text_line(Shade::Yellow, "No prompts available."));
        return out;
    }
    let mut rows: Vec<Vec<Span>> = Vec::new();
    let mut i: usize = 0;
    while i < prompts.len()
        invariant
            i <= prompts@.len(),
            rows@.len() == i,
            forall|k: int| 0 <= k < i ==> #[trigger] spans_are(rows@[k]@, prompt_row(prompts@[k])),
        decreases prompts@.len() - i,
    {
        let p = &prompts[i];
        let mut row: Vec<Span> = Vec::new();
        row.push(span(Shade::Green, copy_string(&p.name)));
        row.push(span(Shade::Plain, copy_string(&p.description)));
        row.push(span(Shade::Plain, labels_of(&p.arguments)));
        assert(spans_are(row@, prompt_row(*p)));
        rows.push(row);
        i = i + 1;
    }
    out.push(Output::Table { header: header_of("Name", "Description", "Arguments", None), rows, dynamic: true });
    out
}

/// The cell that says whether a capability is supported: `yes` in green or `no` in red.
pub open spec fn supported_cell(present: bool) -> (Shade, Seq<char>) {
    if present { (Shade::Green, "yes"@) } else { (Shade::Red, "no"@) }
}

/// The rows of the capability table: tools, resources, prompts and logging.
pub open spec fn capability_rows(caps: ServerCapabilities) -> Seq<Seq<(Shade, Seq<char>)>> {
    seq![
        seq![(Shade::Plain, "tools"@), supported_cell(caps.tools is Some)],
        seq![(Shade::Plain, "resources"@), supported_cell(caps.resources is Some)],
        seq![(Shade::Plain, "prompts"@), supported_cell(caps.prompts is Some)],
        seq![(Shade::Plain, "logging"@), supported_cell(caps.logging is Some)],
    ]
}

fn capability_row(name: &str, present: bool) -> (r: Vec<Span>)
    ensures
        spans_are(r@, seq![(Shade::Plain, name@), supported_cell(present)]),
{
    let mut row: Vec<Span> = Vec::new();
    row.push(span(Shade::Plain, owned(name)));
    if present {
        row.push(span(Shade::Green, owned("yes")));
    } else {
        row.push(span(Shade::Red, owned("no")));
    }
    row
}

/// The table that shows which capabilities a server supports.
pub fn print_capabilities(caps: &ServerCapabilities) -> (r: Vec<Output>)
    ensures
        r@.len() == 1,
        table_is(r@[0], seq!["Capability"@, "Supported"@], capability_rows(*caps), false),
{
    let mut rows: Vec<Vec<Span>> = Vec::new();
    rows.push(capability_row("tools", caps.tools.is_some()));
    rows.push(capability_row("resources", caps.resources.is_some()));
    rows.push(capability_row("prompts", caps.prompts.is_some()));
    rows.push(capability_row("logging", caps.logging.is_some()));
    let mut header: Vec<String> = Vec::new();
    header.push(owned("Capability"));
    header.push(owned("Supported"));
    assert(string_views(header@) =~= seq!["Capability"@, "Supported"@]);
    let mut out: Vec<Output> = Vec::new();
    out.push(Output::Table { header, rows, dynamic: false });
    out
}

// ---------------------------------------------------------------------------------------------
// Results
// ---------------------------------------------------------------------------------------------

/// The member `key` of `d` when it is a string.
pub open spec fn str_member(d: JsonData, key: Seq<char>) -> Option<Seq<char>> {
    match d.get(key) {
        Some(JsonData::Str(s)) => Some(s),
        _ => None,
    }
}

/// The text in `o`, or `fallback` when there is none.
pub open spec fn text_or(o: Option<Seq<char>>, fallback: Seq<char>) -> Seq<char> {
    match o {
        Some(s) => s,
        None => fallback,
    }
}

/// `[image/<mime>]`, how an image is mentioned.
pub open spec fn image_label(mime: Seq<char>) -> Seq<char> {
    "[image/"@ + mime + "]"@
}

/// `o` is the JSON document `d`.
pub open spec fn json_is(o: Output, d: JsonData) -> bool {
    o matches Output::Json(v) && v.data() == d
}

/// How one item of a tool result's `content` is shown: the text of a `text` item (the
/// default type), the MIME type of an `image` item, and any other item as JSON.
pub open spec fn content_item_shown(o: Output, item: JsonData) -> bool {
    let kind = text_or(str_member(item, "type"@), "text"@);
    if kind == "text"@ {
        text_line_is(o, Shade::Plain, text_or(str_member(item, "text"@), Seq::empty()))
    } else if kind == "image"@ {
        text_line_is(o, Shade::Yellow, image_label(text_or(str_member(item, "mimeType"@), Seq::empty())))
    } else {
        json_is(o, item)
    }
}

/// How a tool result is shown: each item of a `content` array, or else the `content` member,
/// or else the whole result, as JSON.
pub open spec fn tool_result_shown(r: Seq<Output>, result: JsonData) -> bool {
    match result.get("content"@) {
        Some(JsonData::Array(items)) => {
            &&& r.len() == items.len()
            &&& forall|i: int| 0 <= i < items.len() ==> #[trigger] content_item_shown(r[i], items[i])
        },
        Some(content) => r.len() == 1 && json_is(r[0], content),
        None => r.len() == 1 && json_is(r[0], result),
    }
}

fn str_member_of<'a>(v: &'a JsonValue, key: &str) -> (r: Option<&'a String>)
    ensures
        match r {
            Some(s) => str_member(v.data(), key@) == Some(s@),
            None => str_member(v.data(), key@) is None,
        },
{
    match v.get(key) {
        Some(JsonValue::Str(s)) => Some(s),
        _ => None,
    }
}

fn str_member_or(v: &JsonValue, key: &str, fallback: &str) -> (r: String)
    ensures
        r@ == text_or(str_member(v.data(), key@), fallback@),
{
    match str_member_of(v, key) {
        Some(s) => copy_string(s),
        None => owned(fallback),
    }
}

fn image_line(mime: &str) -> (r: Output)
    ensures
        text_line_is(r, Shade::Yellow, image_label(mime@)),
{
    let mut t = owned("[image/");
    push_str(&mut t, mime);
    push_str(&mut t, "]");
    let mut spans: Vec<Span> = Vec::new();
    spans.push(span(Shade::Yellow, t));
    Output::Line(spans)
}

/// The lines that show the result of a tool call.
pub fn print_tool_result(result: &JsonValue) -> (r: Vec<Output>)
    ensures
        tool_result_shown(r@, result.data()),
{
    let mut out: Vec<Output> = Vec::new();
    match result.get("content") {
        Some(content) => {
            match content.as_array() {
                Some(items) => {
                    let mut i: usize = 0;
                    while i < items.len()
                        invariant
                            i <= items@.len(),
                            out@.len() == i,
                            content.data() == JsonData::Array(crate::json::view_items(items@)),
                            forall|k: int| 0 <= k < i ==> #[trigger] content_item_shown(out@[k], items@[k].data()),
                        decreases items@.len() - i,
                    {
                        let item = &items[i];
                        let kind = str_member_or(item, "type", "text");
                        let o = if crate::text::str_equal(kind.as_str(), "text") {
                            text_line(Shade::Plain, str_member_or(item, "text", "").as_str())
                        } else if crate::text::str_equal(kind.as_str(), "image") {
                            image_line(str_member_or(item, "mimeType", "").as_str())
                        } else {
                            Output::Json(item.duplicate())
                        };
                        proof {
                            reveal_strlit("");
                            assert(""@ =~= Seq::<char>::empty());
                        }
                        out.push(o);
                        i = i + 1;
                    }
                    proof {
                        crate::json::lemma_view_items(items@);
                    }
                },
                None => {
                    out.push(Output::Json(content.duplicate()));
                },
            }
        },
        None => {
            out.push(Output::Json(result.duplicate()));
        },
    }
    out
}

/// `r` is the single-piece lines `lines`.
pub open spec fn lines_are(r: Seq<Output>, lines: Seq<(Shade, Seq<char>)>) -> bool {
    &&& r.len() == lines.len()
    &&& forall|i: int| 0 <= i < lines.len() ==> #[trigger] text_line_is(r[i], lines[i].0, lines[i].1)
}

/// `[binary data: <blob>]`, how binary content is mentioned; the blob is written as compact JSON.
pub open spec fn binary_label(blob: JsonData) -> Seq<char> {
    "[binary data: "@ + crate::json::compact(blob) + "]"@
}

/// The lines for the items of a resource's `contents`: the text of an item with a `text`
/// string, a mention of an item with a `blob`, nothing for any other item.
pub open spec fn resource_item_lines(items: Seq<JsonData>) -> Seq<(Shade, Seq<char>)>
    decreases items.len(),
{
    if items.len() == 0 {
        Seq::empty()
    } else {
        let rest = resource_item_lines(items.drop_last());
        let item = items.last();
        match str_member(item, "text"@) {
            Some(t) => rest.push((Shade::Plain, t)),
            None => match item.get("blob"@) {
                Some(b) => rest.push((Shade::Yellow, binary_label(b))),
                None => rest,
            },
        }
    }
}

/// How the result of reading a resource is shown: the lines for a `contents` array, nothing
/// for `contents` of another kind, the whole result as JSON without `contents`.
pub open spec fn resource_result_shown(r: Seq<Output>, result: JsonData) -> bool {
    match result.get("contents"@) {
        Some(JsonData::Array(items)) => lines_are(r, resource_item_lines(items)),
        Some(_) => r.len() == 0,
        None => r.len() == 1 && json_is(r[0], result),
    }
}

/// The lines that show the result of reading a resource.
pub fn print_resource_result(result: &JsonValue) -> (r: Vec<Output>)
    ensures
        resource_result_shown(r@, result.data()),
{
    let mut out: Vec<Output> = Vec::new();
    match result.get("contents") {
        Some(contents) => {
            match contents.as_array() {
                Some(items) => {
                    let ghost ds = crate::json::view_items(items@);
                    proof { crate::json::lemma_view_items(items@); }
                    let mut i: usize = 0;
                    while i < items.len()
                        invariant
                            i <= items@.len(),
                            ds == crate::json::view_items(items@),
                            ds.len() == items@.len(),
                            forall|k: int| 0 <= k < items@.len() ==> #[trigger] ds[k] == items@[k].data(),
                            lines_are(out@, resource_item_lines(ds.take(i as int))),
                        decreases items@.len() - i,
                    {
                        let item = &items[i];
                        let ghost before = out@;
                        assert(ds.take(i + 1).drop_last() =~= ds.take(i as int));
                        assert(ds.take(i + 1).last() == item.data());
                        match str_member_of(item, "text") {
                            Some(t) => {
                                out.push(text_line(Shade::Plain, t.as_str()));
                            },
                            None => {
                                match item.get("blob") {
                                    Some(b) => {
                                        let mut label = owned("[binary data: ");
                                        push_str(&mut label, b.to_compact_string().as_str());
                                        push_str(&mut label, "]");
                                        out.push(text_line(Shade::Yellow, label.as_str()));
                                    },
                                    None => {},
                                }
                            },
                        }
                        proof {
                            let lines = resource_item_lines(ds.take(i + 1));
                            assert forall|k: int| 0 <= k < lines.len() implies #[trigger] text_line_is(out@[k], lines[k].0, lines[k].1) by {
                                if k < before.len() {
                                    assert(out@[k] == before[k]);
                                }
                            }
                        }
                        i = i + 1;
                    }
                    assert(ds.take(i as int) =~= ds);
                },
                None => {},
            }
        },
        None => {
            out.push(Output::Json(result.duplicate()));
        },
    }
    out
}

// ---------------------------------------------------------------------------------------------
// Notifications and prompt messages
// ---------------------------------------------------------------------------------------------

/// The shade of a log level: red for `error`, yellow for `warning` and `warn`, blue otherwise.
pub open spec fn level_shade(level: Seq<char>) -> Shade {
    if level == "error"@ {
        Shade::Red
    } else if level == "warning"@ || level == "warn"@ {
        Shade::Yellow
    } else {
        Shade::Blue
    }
}

/// The compact JSON text of `params` after `lead`, or nothing without params.
pub open spec fn params_text(params: Option<JsonData>, lead: Seq<char>) -> Seq<char> {
    match params {
        Some(p) => lead + crate::json::compact(p),
        None => Seq::empty(),
    }
}

/// The line that shows the notification `n` at position `index` (from 0): `[index + 1]`
/// dimmed, a space, and then what happened.
pub open spec fn notification_line(index: int, n: NotificationModel) -> Seq<(Shade, Seq<char>)> {
    let prefix = (Shade::Dimmed, seq!['['] + decimal((index + 1) as nat) + seq![']']);
    let space = (Shade::Plain, " "@);
    match n {
        NotificationModel::Log { level, message } => seq![prefix, space, (level_shade(level), level), (Shade::Plain, ": "@ + message)],
        NotificationModel::ToolListChanged => seq![prefix, space, (Shade::Cyan, "tools/list_changed"@)],
        NotificationModel::ResourceListChanged => seq![prefix, space, (Shade::Cyan, "resources/list_changed"@)],
        NotificationModel::PromptListChanged => seq![prefix, space, (Shade::Cyan, "prompts/list_changed"@)],
        NotificationModel::ServerRequest { method, params, responded } => seq![
            prefix,
            space,
            (Shade::Magenta, "server→client: "@ + method),
            (Shade::Dimmed, params_text(params, " params="@)),
            (Shade::Plain, " — "@),
            if responded { (Shade::Green, "responded"@) } else { (Shade::Yellow, "no handler (replied method-not-found)"@) },
        ],
        NotificationModel::Unknown { method, params } => seq![prefix, space, (Shade::Dimmed, method), space, (Shade::Dimmed, params_text(params, Seq::empty()))],
    }
}

fn joined_text(a: &str, b: &str) -> (r: String)
    ensures
        r@ == a@ + b@,
{
    let mut t = owned(a);
    push_str(&mut t, b);
    t
}

fn params_string(params: &Option<JsonValue>, lead: &str) -> (r: String)
    ensures
        r@ == params_text(data_of(*params), lead@),
{
    match params {
        Some(p) => joined_text(lead, p.to_compact_string().as_str()),
        None => String::new(),
    }
}

fn spans_of(parts: &Vec<(Shade, String)>) -> (r: Vec<Span>)
    ensures
        r@.len() == parts@.len(),
        forall|i: int| 0 <= i < parts@.len() ==> #[trigger] span_is(r@[i], parts@[i].0, parts@[i].1@),
{
    let mut r: Vec<Span> = Vec::new();
    let mut i: usize = 0;
    while i < parts.len()
        invariant
            i <= parts@.len(),
            r@.len() == i,
            forall|k: int| 0 <= k < i ==> #[trigger] span_is(r@[k], parts@[k].0, parts@[k].1@),
        decreases parts@.len() - i,
    {
        r.push(span(parts[i].0, copy_string(&parts[i].1)));
        i = i + 1;
    }
    r
}

/// The pieces `parts`, as shades and character sequences.
pub open spec fn part_views(parts: Seq<(Shade, String)>) -> Seq<(Shade, Seq<char>)> {
    parts.map_values(|p: (Shade, String)| (p.0, p.1@))
}

proof fn lemma_spans_of(spans: Seq<Span>, parts: Seq<(Shade, String)>, expected: Seq<(Shade, Seq<char>)>)
    requires
        spans.len() == parts.len(),
        forall|i: int| 0 <= i < parts.len() ==> #[trigger] span_is(spans[i], parts[i].0, parts[i].1@),
        part_views(parts) == expected,
    ensures
        spans_are(spans, expected),
{
    assert forall|i: int| 0 <= i < expected.len() implies #[trigger] span_is(spans[i], expected[i].0, expected[i].1) by {
        assert(span_is(spans[i], parts[i].0, parts[i].1@));
    }
}

/// The line that shows one notification.
pub fn notification_line_of(index: usize, n: &Notification) -> (r: Output)
    requires
        index < usize::MAX,
    ensures
        line_is(r, notification_line(index as int, n.model())),
{
    let mut prefix = owned("[");
    push_str(&mut prefix, u64_to_text((index + 1) as u64).as_str());
    push_str(&mut prefix, "]");
    proof {
        reveal_strlit("[");
        reveal_strlit("]");
    }
    let mut parts: Vec<(Shade, String)> = Vec::new();
    parts.push((Shade::Dimmed, prefix));
    parts.push((Shade::Plain, owned(" ")));
    match n {
        Notification::Log { level, message } => {
            let shade = if str_equal(level.as_str(), "error") {
                Shade::Red
            } else if str_equal(level.as_str(), "warning") || str_equal(level.as_str(), "warn") {
                Shade::Yellow
            } else {
                Shade::Blue
            };
            parts.push((shade, copy_string(level)));
            parts.push((Shade::Plain, joined_text(": ", message.as_str())));
        },
        Notification::ToolListChanged => {
            parts.push((Shade::Cyan, owned("tools/list_changed")));
        },
        Notification::ResourceListChanged => {
            parts.push((Shade::Cyan, owned("resources/list_changed")));
        },
        Notification::PromptListChanged => {
            parts.push((Shade::Cyan, owned("prompts/list_changed")));
        },
        Notification::ServerRequest { method, params, responded } => {
            parts.push((Shade::Magenta, joined_text("server→client: ", method.as_str())));
            parts.push((Shade::Dimmed, params_string(params, " params=")));
            parts.push((Shade::Plain, owned(" — ")));
            if *responded {
                parts.push((Shade::Green, owned("responded")));
            } else {
                parts.push((Shade::Yellow, owned("no handler (replied method-not-found)")));
            }
        },
        Notification::Unknown { method, params } => {
            parts.push((Shade::Dimmed, copy_string(method)));
            parts.push((Shade::Plain, owned(" ")));
            parts.push((Shade::Dimmed, params_string(params, "")));
            proof {
                reveal_strlit("");
                assert(Seq::<char>::empty() + Seq::<char>::empty() =~= Seq::<char>::empty());
            }
        },
    }
    let spans = spans_of(&parts);
    proof {
        let expected = notification_line(index as int, n.model());
        assert(parts@[0].1@ =~= seq!['['] + decimal((index + 1) as nat) + seq![']']);
        match n {
            Notification::Unknown { method, params } => {
                assert(parts@[4].1@ =~= params_text(data_of(*params), Seq::empty()));
            },
            _ => {},
        }
        assert(part_views(parts@) =~= expected);
        lemma_spans_of(spans@, parts@, expected);
    }
    Output::Line(spans)
}

/// The lines that show the notifications, numbered from 1, or a warning when there are none.
pub fn print_notifications(notifications: &Vec<Notification>) -> (r: Vec<Output>)
    ensures
        notifications@.len() == 0 ==> r@.len() == 1 && text_line_is(r@[0], Shade::Yellow, "No notifications."@),
        notifications@.len() > 0 ==> r@.len() == notifications@.len()
            && forall|i: int| 0 <= i < notifications@.len() ==> #[trigger] line_is(r@[i], notification_line(i, notifications@[i].model())),
{
    let mut out: Vec<Output> = Vec::new();
    if notifications.len() == 0 {
        out.push(text_line(Shade::Yellow, "No notifications."));
        return out;
    }
    let mut i: usize = 0;
    while i < notifications.len()
        invariant
            i <= notifications@.len(),
            out@.len() == i,
            forall|k: int| 0 <= k < i ==> #[trigger] line_is(out@[k], notification_line(k, notifications@[k].model())),
        decreases notifications@.len() - i,
    {
        out.push(notification_line_of(i, &notifications[i]));
        i = i + 1;
    }
    out
}

/// The line that shows a prompt message: its role in bold, then its text or the MIME type
/// of its image.
pub open spec fn prompt_message_line(m: McpPromptMessage) -> Seq<(Shade, Seq<char>)> {
    match m.content {
        McpContent::Text { text } => seq![(Shade::Bold, m.role@), (Shade::Plain, ": "@ + text@)],
        McpContent::Image { data, mime_type } => seq![(Shade::Bold, m.role@), (Shade::Plain, ": "@), (Shade::Yellow, image_label(mime_type@))],
    }
}

/// The lines that show the messages of a prompt, each followed by an empty line.
pub fn print_prompt_messages(messages: &Vec<McpPromptMessage>) -> (r: Vec<Output>)
    ensures
        r@.len() == 2 * messages@.len(),
        forall|i: int| #![trigger messages@[i]] 0 <= i < messages@.len() ==>
            line_is(r@[2 * i], prompt_message_line(messages@[i])) && line_is(r@[2 * i + 1], Seq::empty()),
{
    let mut out: Vec<Output> = Vec::new();
    let mut i: usize = 0;
    while i < messages.len()
        invariant
            i <= messages@.len(),
            out@.len() == 2 * i,
            forall|k: int| #![trigger messages@[k]] 0 <= k < i ==>
                line_is(out@[2 * k], prompt_message_line(messages@[k])) && line_is(out@[2 * k + 1], Seq::empty()),
        decreases messages@.len() - i,
    {
        let m = &messages[i];
        let mut parts: Vec<(Shade, String)> = Vec::new();
        parts.push((Shade::Bold, copy_string(&m.role)));
        match &m.content {
            McpContent::Text { text } => {
                parts.push((Shade::Plain, joined_text(": ", text.as_str())));
            },
            McpContent::Image { data: _, mime_type } => {
                parts.push((Shade::Plain, owned(": ")));
                let mut label = owned("[image/");
                push_str(&mut label, mime_type.as_str());
                push_str(&mut label, "]");
                parts.push((Shade::Yellow, label));
            },
        }
        let spans = spans_of(&parts);
        proof {
            assert(part_views(parts@) =~= prompt_message_line(*m));
            lemma_spans_of(spans@, parts@, prompt_message_line(*m));
        }
        let ghost before = out@;
        let line = Output::Line(spans);
        let blank = empty_line();
        let ghost g = line;
        let ghost gb = blank;
        assert(line_is(g, prompt_message_line(messages@[i as int])));
        out.push(line);
        out.push(blank);
        proof {
            assert(out@ == before.push(g).push(gb));
            assert forall|k: int| #![trigger messages@[k]] 0 <= k < i + 1 implies
                line_is(out@[2 * k], prompt_message_line(messages@[k])) && line_is(out@[2 * k + 1], Seq::empty()) by {
                if k < i {
                    assert(2 * k + 1 < before.len());
                    assert(out@[2 * k] == before[2 * k]);
                    assert(out@[2 * k + 1] == before[2 * k + 1]);
                    assert(line_is(before[2 * k], prompt_message_line(messages@[k])));
                    assert(line_is(before[2 * k + 1], Seq::empty()));
                } else {
                    assert(out@[2 * k] == g);
                    assert(out@[2 * k + 1] == gb);
                }
            }
        }
        i = i + 1;
    }
    out
}

} // verus!
