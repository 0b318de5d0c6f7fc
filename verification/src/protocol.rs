use vstd::prelude::*;
use crate::json::{JsonData, JsonValue, compact, lookup, view_items, view_pairs, lemma_view_items, lemma_view_pairs};
use crate::text::{copy_string, owned, parse_i32, parse_integer_spec, str_equal};

verus! {

// ---------------------------------------------------------------------------------------------
// Reading records out of JSON
//
// A record is read from an object by member name, or from an array by position; members that
// are not fields are ignored. An array must give every field up to the last one that has no
// default, and no more items than there are fields.
// ---------------------------------------------------------------------------------------------

/// The field named `key`, at position `idx`, of a record written as `d`.
pub open spec fn field(d: JsonData, key: Seq<char>, idx: int) -> Option<JsonData> {
    match d {
        JsonData::Object(ps) => lookup(ps, key),
        JsonData::Array(xs) => if 0 <= idx < xs.len() { Some(xs[idx]) } else { None },
        _ => None,
    }
}

/// Whether `d` can hold a record of `total` fields whose first `required` fields must be
/// given when it is written as an array.
pub open spec fn shape_ok(d: JsonData, required: int, total: int) -> bool {
    match d {
        JsonData::Object(_) => true,
        JsonData::Array(xs) => required <= xs.len() <= total,
        _ => false,
    }
}

/// A text field: a string is taken as it is; a missing field is empty when it has a default.
pub open spec fn text_field(f: Option<JsonData>, defaulted: bool) -> Option<Seq<char>> {
    match f {
        Some(JsonData::Str(s)) => Some(s),
        None => if defaulted { Some(Seq::empty()) } else { None },
        _ => None,
    }
}

/// A defaulted boolean field: missing is `false`.
pub open spec fn bool_field(f: Option<JsonData>) -> Option<bool> {
    match f {
        Some(JsonData::Bool(b)) => Some(b),
        None => Some(false),
        _ => None,
    }
}

/// An optional value field: missing or `null` is `None`.
pub open spec fn optional_field(f: Option<JsonData>) -> Option<JsonData> {
    match f {
        Some(JsonData::Null) => None,
        Some(x) => Some(x),
        None => None,
    }
}

/// The model of an optional reference to a value.
pub open spec fn opt_data(v: Option<&JsonValue>) -> Option<JsonData> {
    match v {
        Some(x) => Some(x.data()),
        None => None,
    }
}

/// The model of an optional value.
pub open spec fn data_of(v: Option<JsonValue>) -> Option<JsonData> {
    match v {
        Some(x) => Some(x.data()),
        None => None,
    }
}

/// The characters of an optional string.
pub open spec fn opt_text(s: Option<String>) -> Option<Seq<char>> {
    match s {
        Some(x) => Some(x@),
        None => None,
    }
}

/// The field named `key`, at position `idx`, of the record written as `v`.
pub fn field_of<'a>(v: &'a JsonValue, key: &str, idx: usize) -> (r: Option<&'a JsonValue>)
    ensures
        opt_data(r) == field(v.data(), key@, idx as int),
{
    match v {
        JsonValue::Object(_) => v.get(key),
        JsonValue::Array(items) => {
            proof { lemma_view_items(items@); }
            if idx < items.len() {
                Some(&items[idx])
            } else {
                None
            }
        },
        _ => None,
    }
}

/// Whether `v` can hold a record of `total` fields whose first `required` fields are needed.
pub fn shape_of(v: &JsonValue, required: usize, total: usize) -> (r: bool)
    ensures
        r == shape_ok(v.data(), required as int, total as int),
{
    match v {
        JsonValue::Object(_) => true,
        JsonValue::Array(items) => {
            proof { lemma_view_items(items@); }
            required <= items.len() && items.len() <= total
        },
        _ => false,
    }
}

/// Reads a text field.
pub fn read_text(f: Option<&JsonValue>, defaulted: bool) -> (r: Option<String>)
    ensures
        opt_text(r) == text_field(opt_data(f), defaulted),
{
    match f {
        Some(JsonValue::Str(s)) => Some(copy_string(s)),
        None => if defaulted { Some(String::new()) } else { None },
        _ => None,
    }
}

/// Reads a defaulted boolean field.
pub fn read_bool(f: Option<&JsonValue>) -> (r: Option<bool>)
    ensures
        r == bool_field(opt_data(f)),
{
    match f {
        Some(JsonValue::Bool(b)) => Some(*b),
        None => Some(false),
        _ => None,
    }
}

/// Reads an optional value field.
pub fn read_optional(f: Option<&JsonValue>) -> (r: Option<JsonValue>)
    ensures
        data_of(r) == optional_field(opt_data(f)),
{
    match f {
        Some(JsonValue::Null) => None,
        Some(x) => Some(x.duplicate()),
        None => None,
    }
}

/// A record type that can be read from JSON.
pub trait FromJson: Sized {
    /// Whether `d` writes a record of this type.
    spec fn json_ok(d: JsonData) -> bool;

    /// Whether `self` is the record that `d` writes.
    spec fn json_matches(&self, d: JsonData) -> bool;

    /// Reads the record that `v` writes.
    fn from_json(v: &JsonValue) -> (r: Option<Self>)
        ensures
            r is Some <==> Self::json_ok(v.data()),
            r matches Some(x) ==> x.json_matches(v.data()),
    ;
}

/// Whether every item writes a record of type `T`.
pub open spec fn all_ok<T: FromJson>(xs: Seq<JsonData>) -> bool {
    forall|i: int| 0 <= i < xs.len() ==> #[trigger] T::json_ok(xs[i])
}

/// Whether `d` is an array of records of type `T`.
pub open spec fn list_ok<T: FromJson>(d: JsonData) -> bool {
    match d {
        JsonData::Array(xs) => all_ok::<T>(xs),
        _ => false,
    }
}

/// Whether `list` holds the records that the array `d` writes, in order.
pub open spec fn list_matches<T: FromJson>(list: Seq<T>, d: JsonData) -> bool {
    match d {
        JsonData::Array(xs) => list.len() == xs.len() && forall|i: int| 0 <= i < xs.len() ==> #[trigger] list[i].json_matches(xs[i]),
        _ => false,
    }
}

/// Reads an array of records.
#[verifier::loop_isolation(false)]
pub fn decode_list<T: FromJson>(v: &JsonValue) -> (r: Option<Vec<T>>)
    ensures
        r is Some <==> list_ok::<T>(v.data()),
        r matches Some(list) ==> list_matches(list@, v.data()),
{
    match v {
        JsonValue::Array(items) => {
            proof { lemma_view_items(items@); }
            let mut out: Vec<T> = Vec::new();
            let mut i: usize = 0;
            while i < items.len()
                invariant
                    i <= items@.len(),
                    view_items(items@).len() == items@.len(),
                    forall|k: int| 0 <= k < items@.len() ==> #[trigger] view_items(items@)[k] == items@[k].data(),
                    out@.len() == i,
                    forall|k: int| 0 <= k < i ==> T::json_ok(#[trigger] view_items(items@)[k]),
                    forall|k: int| 0 <= k < i ==> #[trigger] out@[k].json_matches(view_items(items@)[k]),
                decreases items@.len() - i,
            {
                match T::from_json(&items[i]) {
                    Some(x) => {
                        out.push(x);
                    },
                    None => {
                        assert(!T::json_ok(view_items(items@)[i as int]));
                        assert(v.data() == JsonData::Array(view_items(items@)));
                        assert(!all_ok::<T>(view_items(items@)));
                        return None;
                    },
                }
                i = i + 1;
            }
            Some(out)
        },
        _ => None,
    }
}

// ---------------------------------------------------------------------------------------------
// MCP records
// ---------------------------------------------------------------------------------------------

/// A tool that a server offers.
#[derive(Debug)]
pub struct McpTool {
    pub name: String,
    pub description: String,
    /// JSON key `inputSchema`.
    pub input_schema: JsonValue,
}

impl FromJson for McpTool {
    open spec fn json_ok(d: JsonData) -> bool {
        &&& shape_ok(d, 3, 3)
        &&& text_field(field(d, "name"@, 0), false) is Some
        &&& text_field(field(d, "description"@, 1), true) is Some
        &&& field(d, "inputSchema"@, 2) is Some
    }

    open spec fn json_matches(&self, d: JsonData) -> bool {
        &&& text_field(field(d, "name"@, 0), false) == Some(self.name@)
        &&& text_field(field(d, "description"@, 1), true) == Some(self.description@)
        &&& field(d, "inputSchema"@, 2) == Some(self.input_schema.data())
    }

    fn from_json(v: &JsonValue) -> (r: Option<Self>) {
        if !shape_of(v, 3, 3) {
            return None;
        }
        let name = match read_text(field_of(v, "name", 0), false) { Some(s) => s, None => return None };
        let description = match read_text(field_of(v, "description", 1), true) { Some(s) => s, None => return None };
        let input_schema = match field_of(v, "inputSchema", 2) { Some(x) => x.duplicate(), None => return None };
        Some(McpTool { name, description, input_schema })
    }
}

/// A resource that a server offers.
#[derive(Debug, Clone)]
pub struct McpResource {
    pub uri: String,
    pub name: String,
    /// JSON key `mimeType`.
    pub mime_type: String,
    pub description: String,
}

impl FromJson for McpResource {
    open spec fn json_ok(d: JsonData) -> bool {
        &&& shape_ok(d, 1, 4)
        &&& text_field(field(d, "uri"@, 0), false) is Some
        &&& text_field(field(d, "name"@, 1), true) is Some
        &&& text_field(field(d, "mimeType"@, 2), true) is Some
        &&& text_field(field(d, "description"@, 3), true) is Some
    }

    open spec fn json_matches(&self, d: JsonData) -> bool {
        &&& text_field(field(d, "uri"@, 0), false) == Some(self.uri@)
        &&& text_field(field(d, "name"@, 1), true) == Some(self.name@)
        &&& text_field(field(d, "mimeType"@, 2), true) == Some(self.mime_type@)
        &&& text_field(field(d, "description"@, 3), true) == Some(self.description@)
    }

    fn from_json(v: &JsonValue) -> (r: Option<Self>) {
        if !shape_of(v, 1, 4) {
            return None;
        }
        let uri = match read_text(field_of(v, "uri", 0), false) { Some(s) => s, None => return None };
        let name = match read_text(field_of(v, "name", 1), true) { Some(s) => s, None => return None };
        let mime_type = match read_text(field_of(v, "mimeType", 2), true) { Some(s) => s, None => return None };
        let description = match read_text(field_of(v, "description", 3), true) { Some(s) => s, None => return None };
        Some(McpResource { uri, name, mime_type, description })
    }
}

/// A parameterised resource that a server offers.
#[derive(Debug, Clone)]
pub struct McpResourceTemplate {
    /// JSON key `uriTemplate`.
    pub uri_template: String,
    pub name: String,
    /// JSON key `mimeType`.
    pub mime_type: String,
    pub description: String,
}

impl FromJson for McpResourceTemplate {
    open spec fn json_ok(d: JsonData) -> bool {
        &&& shape_ok(d, 1, 4)
        &&& text_field(field(d, "uriTemplate"@, 0), false) is Some
        &&& text_field(field(d, "name"@, 1), true) is Some
        &&& text_field(field(d, "mimeType"@, 2), true) is Some
        &&& text_field(field(d, "description"@, 3), true) is Some
    }

    open spec fn json_matches(&self, d: JsonData) -> bool {
        &&& text_field(field(d, "uriTemplate"@, 0), false) == Some(self.uri_template@)
        &&& text_field(field(d, "name"@, 1), true) == Some(self.name@)
        &&& text_field(field(d, "mimeType"@, 2), true) == Some(self.mime_type@)
        &&& text_field(field(d, "description"@, 3), true) == Some(self.description@)
    }

    fn from_json(v: &JsonValue) -> (r: Option<Self>) {
        if !shape_of(v, 1, 4) {
            return None;
        }
        let uri_template = match read_text(field_of(v, "uriTemplate", 0), false) { Some(s) => s, None => return None };
        let name = match read_text(field_of(v, "name", 1), true) { Some(s) => s, None => return None };
        let mime_type = match read_text(field_of(v, "mimeType", 2), true) { Some(s) => s, None => return None };
        let description = match read_text(field_of(v, "description", 3), true) { Some(s) => s, None => return None };
        Some(McpResourceTemplate { uri_template, name, mime_type, description })
    }
}

/// An argument of a prompt.
#[derive(Debug, Clone)]
pub struct McpPromptArgument {
    pub name: String,
    pub description: String,
    pub required: bool,
}

impl FromJson for McpPromptArgument {
    open spec fn json_ok(d: JsonData) -> bool {
        &&& shape_ok(d, 1, 3)
        &&& text_field(field(d, "name"@, 0), false) is Some
        &&& text_field(field(d, "description"@, 1), true) is Some
        &&& bool_field(field(d, "required"@, 2)) is Some
    }

    open spec fn json_matches(&self, d: JsonData) -> bool {
        &&& text_field(field(d, "name"@, 0), false) == Some(self.name@)
        &&& text_field(field(d, "description"@, 1), true) == Some(self.description@)
        &&& bool_field(field(d, "required"@, 2)) == Some(self.required)
    }

    fn from_json(v: &JsonValue) -> (r: Option<Self>) {
        if !shape_of(v, 1, 3) {
            return None;
        }
        let name = match read_text(field_of(v, "name", 0), false) { Some(s) => s, None => return None };
        let description = match read_text(field_of(v, "description", 1), true) { Some(s) => s, None => return None };
        let required = match read_bool(field_of(v, "required", 2)) { Some(b) => b, None => return None };
        Some(McpPromptArgument { name, description, required })
    }
}

/// A prompt that a server offers.
#[derive(Debug, Clone)]
pub struct McpPrompt {
    pub name: String,
    pub description: String,
    pub arguments: Vec<McpPromptArgument>,
}

/// A defaulted list field: missing is empty, otherwise an array of records.
pub open spec fn arguments_ok(f: Option<JsonData>) -> bool {
    match f {
        None => true,
        Some(d) => list_ok::<McpPromptArgument>(d),
    }
}

impl FromJson for McpPrompt {
    open spec fn json_ok(d: JsonData) -> bool {
        &&& shape_ok(d, 1, 3)
        &&& text_field(field(d, "name"@, 0), false) is Some
        &&& text_field(field(d, "description"@, 1), true) is Some
        &&& arguments_ok(field(d, "arguments"@, 2))
    }

    open spec fn json_matches(&self, d: JsonData) -> bool {
        &&& text_field(field(d, "name"@, 0), false) == Some(self.name@)
        &&& text_field(field(d, "description"@, 1), true) == Some(self.description@)
        &&& match field(d, "arguments"@, 2) {
            None => self.arguments@.len() == 0,
            Some(a) => list_matches(self.arguments@, a),
        }
    }

    fn from_json(v: &JsonValue) -> (r: Option<Self>) {
        if !shape_of(v, 1, 3) {
            return None;
        }
        let name = match read_text(field_of(v, "name", 0), false) { Some(s) => s, None => return None };
        let description = match read_text(field_of(v, "description", 1), true) { Some(s) => s, None => return None };
        let arguments = match field_of(v, "arguments", 2) {
            None => Vec::new(),
            Some(a) => match decode_list::<McpPromptArgument>(a) { Some(list) => list, None => return None },
        };
        Some(McpPrompt { name, description, arguments })
    }
}

/// The content of a prompt message, told apart by its `type` member.
#[derive(Debug, Clone)]
pub enum McpContent {
    Text { text: String },
    Image { data: String, mime_type: String },
}

/// Which variant a `type` tag names: `0` for text, `1` for image.
pub open spec fn content_variant(tag: JsonData) -> Option<u8> {
    match tag {
        JsonData::Str(s) => if s == "text"@ { Some(0) } else if s == "image"@ { Some(1) } else { None },
        JsonData::Number(n) => if n == seq!['0'] { Some(0) } else if n == seq!['1'] { Some(1) } else { None },
        _ => None,
    }
}

impl FromJson for McpContent {
    open spec fn json_ok(d: JsonData) -> bool {
        match d {
            JsonData::Object(ps) => match lookup(ps, "type"@) {
                Some(tag) => match content_variant(tag) {
                    Some(0) => text_field(lookup(ps, "text"@), false) is Some,
                    Some(1) => text_field(lookup(ps, "data"@), false) is Some && text_field(lookup(ps, "mimeType"@), false) is Some,
                    _ => false,
                },
                None => false,
            },
            JsonData::Array(xs) => xs.len() >= 1 && match content_variant(xs[0]) {
                Some(0) => xs.len() == 2 && xs[1] is Str,
                Some(1) => xs.len() == 3 && xs[1] is Str && xs[2] is Str,
                _ => false,
            },
            _ => false,
        }
    }

    open spec fn json_matches(&self, d: JsonData) -> bool {
        &&& (self is Text <==> content_variant(field(d, "type"@, 0).unwrap()) == Some(0u8))
        &&& match d {
            JsonData::Object(ps) => match self {
                McpContent::Text { text } => lookup(ps, "text"@) == Some(JsonData::Str(text@)),
                McpContent::Image { data, mime_type } => lookup(ps, "data"@) == Some(JsonData::Str(data@))
                    && lookup(ps, "mimeType"@) == Some(JsonData::Str(mime_type@)),
            },
            JsonData::Array(xs) => match self {
                McpContent::Text { text } => xs[1] == JsonData::Str(text@),
                McpContent::Image { data, mime_type } => xs[1] == JsonData::Str(data@) && xs[2] == JsonData::Str(mime_type@),
            },
            _ => false,
        }
    }

    fn from_json(v: &JsonValue) -> (r: Option<Self>) {
        let tag = match field_of(v, "type", 0) { Some(t) => t, None => return None };
        let variant: u8 = match tag {
            JsonValue::Str(s) => {
                if crate::text::str_equal(s.as_str(), "text") {
                    assert(tag.data() == JsonData::Str(s@));
                    assert(content_variant(tag.data()) == Some(0u8));
                    0
                } else if crate::text::str_equal(s.as_str(), "image") {
                    assert(content_variant(tag.data()) == Some(1u8));
                    1
                } else {
                    return None
                }
            },
            JsonValue::Number(n) => {
                if crate::text::str_equal(n.as_str(), "0") {
                    proof { reveal_strlit("0"); assert("0"@ =~= seq!['0']); }
                    assert(content_variant(tag.data()) == Some(0u8));
                    0
                } else if crate::text::str_equal(n.as_str(), "1") {
                    proof {
                        reveal_strlit("0");
                        reveal_strlit("1");
                        assert("0"@ =~= seq!['0']);
                        assert("1"@ =~= seq!['1']);
                        assert(seq!['1'][0] != seq!['0'][0]);
                    }
                    assert(content_variant(tag.data()) == Some(1u8));
                    1
                } else {
                    proof {
                        reveal_strlit("0");
                        reveal_strlit("1");
                        assert("0"@ =~= seq!['0']);
                        assert("1"@ =~= seq!['1']);
                    }
                    return None
                }
            },
            _ => return None,
        };
        assert(content_variant(tag.data()) == Some(variant));
        match v {
            JsonValue::Object(_) => {
                if variant == 0 {
                    let text = match read_text(v.get("text"), false) { Some(s) => s, None => return None };
                    Some(McpContent::Text { text })
                } else {
                    let data = match read_text(v.get("data"), false) { Some(s) => s, None => return None };
                    let mime_type = match read_text(v.get("mimeType"), false) { Some(s) => s, None => return None };
                    Some(McpContent::Image { data, mime_type })
                }
            },
            JsonValue::Array(items) => {
                proof { lemma_view_items(items@); }
                if variant == 0 {
                    if items.len() != 2 {
                        return None;
                    }
                    let text = match read_text(Some(&items[1]), false) { Some(s) => s, None => return None };
                    Some(McpContent::Text { text })
                } else {
                    if items.len() != 3 {
                        return None;
                    }
                    let data = match read_text(Some(&items[1]), false) { Some(s) => s, None => return None };
                    let mime_type = match read_text(Some(&items[2]), false) { Some(s) => s, None => return None };
                    Some(McpContent::Image { data, mime_type })
                }
            },
            _ => None,
        }
    }
}

/// A message of a prompt.
#[derive(Debug, Clone)]
pub struct McpPromptMessage {
    pub role: String,
    pub content: McpContent,
}

impl FromJson for McpPromptMessage {
    open spec fn json_ok(d: JsonData) -> bool {
        &&& shape_ok(d, 2, 2)
        &&& text_field(field(d, "role"@, 0), false) is Some
        &&& field(d, "content"@, 1) matches Some(c) && McpContent::json_ok(c)
    }

    open spec fn json_matches(&self, d: JsonData) -> bool {
        &&& text_field(field(d, "role"@, 0), false) == Some(self.role@)
        &&& field(d, "content"@, 1) matches Some(c) && self.content.json_matches(c)
    }

    fn from_json(v: &JsonValue) -> (r: Option<Self>) {
        if !shape_of(v, 2, 2) {
            return None;
        }
        let role = match read_text(field_of(v, "role", 0), false) { Some(s) => s, None => return None };
        let content = match field_of(v, "content", 1) {
            Some(c) => match McpContent::from_json(c) { Some(x) => x, None => return None },
            None => return None,
        };
        Some(McpPromptMessage { role, content })
    }
}

// ---------------------------------------------------------------------------------------------
// JSON-RPC 2.0 messages
// ---------------------------------------------------------------------------------------------

/// An error code field: an integer that fits in an `i32`.
pub open spec fn code_field(f: Option<JsonData>) -> Option<int> {
    match f {
        Some(JsonData::Number(n)) => match parse_integer_spec(n) {
            Some(k) => if i32::MIN <= k <= i32::MAX { Some(k) } else { None },
            None => None,
        },
        _ => None,
    }
}

/// The error member of a JSON-RPC response.
#[derive(Debug)]
pub struct JsonRpcError {
    pub code: i32,
    pub message: String,
    pub data: Option<JsonValue>,
}

impl FromJson for JsonRpcError {
    open spec fn json_ok(d: JsonData) -> bool {
        &&& shape_ok(d, 3, 3)
        &&& code_field(field(d, "code"@, 0)) is Some
        &&& text_field(field(d, "message"@, 1), false) is Some
    }

    open spec fn json_matches(&self, d: JsonData) -> bool {
        &&& code_field(field(d, "code"@, 0)) == Some(self.code as int)
        &&& text_field(field(d, "message"@, 1), false) == Some(self.message@)
        &&& data_of(self.data) == optional_field(field(d, "data"@, 2))
    }

    fn from_json(v: &JsonValue) -> (r: Option<Self>) {
        if !shape_of(v, 3, 3) {
            return None;
        }
        let code = match field_of(v, "code", 0) {
            Some(JsonValue::Number(n)) => match parse_i32(n.as_str()) { Some(k) => k, None => return None },
            _ => return None,
        };
        let message = match read_text(field_of(v, "message", 1), false) { Some(s) => s, None => return None };
        let data = read_optional(field_of(v, "data", 2));
        Some(JsonRpcError { code, message, data })
    }
}

/// A response to a request; `id` may be a string or a number.
#[derive(Debug)]
pub struct JsonRpcResponse {
    pub jsonrpc: String,
    pub id: JsonValue,
    pub result: Option<JsonValue>,
    pub error: Option<JsonRpcError>,
}

impl FromJson for JsonRpcResponse {
    open spec fn json_ok(d: JsonData) -> bool {
        &&& shape_ok(d, 4, 4)
        &&& text_field(field(d, "jsonrpc"@, 0), false) is Some
        &&& field(d, "id"@, 1) is Some
        &&& optional_field(field(d, "error"@, 3)) matches Some(e) ==> JsonRpcError::json_ok(e)
    }

    open spec fn json_matches(&self, d: JsonData) -> bool {
        &&& text_field(field(d, "jsonrpc"@, 0), false) == Some(self.jsonrpc@)
        &&& field(d, "id"@, 1) == Some(self.id.data())
        &&& data_of(self.result) == optional_field(field(d, "result"@, 2))
        &&& match optional_field(field(d, "error"@, 3)) {
            None => self.error is None,
            Some(e) => self.error matches Some(x) && x.json_matches(e),
        }
    }

    fn from_json(v: &JsonValue) -> (r: Option<Self>) {
        if !shape_of(v, 4, 4) {
            return None;
        }
        let jsonrpc = match read_text(field_of(v, "jsonrpc", 0), false) { Some(s) => s, None => return None };
        let id = match field_of(v, "id", 1) { Some(x) => x.duplicate(), None => return None };
        let result = read_optional(field_of(v, "result", 2));
        let error = match field_of(v, "error", 3) {
            None => None,
            Some(JsonValue::Null) => None,
            Some(e) => match JsonRpcError::from_json(e) { Some(x) => Some(x), None => return None },
        };
        Some(JsonRpcResponse { jsonrpc, id, result, error })
    }
}

/// A notification: a message with a method and no id.
#[derive(Debug)]
pub struct JsonRpcNotification {
    pub jsonrpc: String,
    pub method: String,
    pub params: Option<JsonValue>,
}

impl FromJson for JsonRpcNotification {
    open spec fn json_ok(d: JsonData) -> bool {
        &&& shape_ok(d, 3, 3)
        &&& text_field(field(d, "jsonrpc"@, 0), false) is Some
        &&& text_field(field(d, "method"@, 1), false) is Some
    }

    open spec fn json_matches(&self, d: JsonData) -> bool {
        &&& text_field(field(d, "jsonrpc"@, 0), false) == Some(self.jsonrpc@)
        &&& text_field(field(d, "method"@, 1), false) == Some(self.method@)
        &&& data_of(self.params) == optional_field(field(d, "params"@, 2))
    }

    fn from_json(v: &JsonValue) -> (r: Option<Self>) {
        if !shape_of(v, 3, 3) {
            return None;
        }
        let jsonrpc = match read_text(field_of(v, "jsonrpc", 0), false) { Some(s) => s, None => return None };
        let method = match read_text(field_of(v, "method", 1), false) { Some(s) => s, None => return None };
        let params = read_optional(field_of(v, "params", 2));
        Some(JsonRpcNotification { jsonrpc, method, params })
    }
}

/// A request sent by the server to the client (such as `roots/list`); `id` may be a string or
/// a number.
#[derive(Debug)]
pub struct JsonRpcServerRequest {
    pub jsonrpc: String,
    pub id: JsonValue,
    pub method: String,
    pub params: Option<JsonValue>,
}

impl FromJson for JsonRpcServerRequest {
    open spec fn json_ok(d: JsonData) -> bool {
        &&& shape_ok(d, 4, 4)
        &&& text_field(field(d, "jsonrpc"@, 0), false) is Some
        &&& field(d, "id"@, 1) is Some
        &&& text_field(field(d, "method"@, 2), false) is Some
    }

    open spec fn json_matches(&self, d: JsonData) -> bool {
        &&& text_field(field(d, "jsonrpc"@, 0), false) == Some(self.jsonrpc@)
        &&& field(d, "id"@, 1) == Some(self.id.data())
        &&& text_field(field(d, "method"@, 2), false) == Some(self.method@)
        &&& data_of(self.params) == optional_field(field(d, "params"@, 3))
    }

    fn from_json(v: &JsonValue) -> (r: Option<Self>) {
        if !shape_of(v, 4, 4) {
            return None;
        }
        let jsonrpc = match read_text(field_of(v, "jsonrpc", 0), false) { Some(s) => s, None => return None };
        let id = match field_of(v, "id", 1) { Some(x) => x.duplicate(), None => return None };
        let method = match read_text(field_of(v, "method", 2), false) { Some(s) => s, None => return None };
        let params = read_optional(field_of(v, "params", 3));
        Some(JsonRpcServerRequest { jsonrpc, id, method, params })
    }
}

/// A request sent by the client; the client's ids are strings.
#[derive(Debug)]
pub struct JsonRpcRequest {
    pub jsonrpc: String,
    pub id: String,
    pub method: String,
    pub params: Option<JsonValue>,
}

/// The members `"jsonrpc"`, (`"id"`,) `"method"` and, when there are parameters, `"params"`, in
/// that order.
pub open spec fn message_members(jsonrpc: Seq<char>, id: Option<Seq<char>>, method: Seq<char>, params: Option<JsonData>) -> Seq<(Seq<char>, JsonData)> {
    seq![("jsonrpc"@, JsonData::Str(jsonrpc))]
        + match id { Some(i) => seq![("id"@, JsonData::Str(i))], None => Seq::empty() }
        + seq![("method"@, JsonData::Str(method))]
        + match params { Some(p) => seq![("params"@, p)], None => Seq::empty() }
}

fn message_json(jsonrpc: &String, id: Option<&String>, method: &String, params: &Option<JsonValue>) -> (r: JsonValue)
    ensures
        r.data() == JsonData::Object(message_members(
            jsonrpc@,
            match id { Some(i) => Some(i@), None => None },
            method@,
            data_of(*params),
        )),
{
    let mut members: Vec<(String, JsonValue)> = Vec::new();
    members.push((owned("jsonrpc"), JsonValue::Str(copy_string(jsonrpc))));
    match id {
        Some(i) => members.push((owned("id"), JsonValue::Str(copy_string(i)))),
        None => {},
    }
    members.push((owned("method"), JsonValue::Str(copy_string(method))));
    match params {
        Some(p) => members.push((owned("params"), p.duplicate())),
        None => {},
    }
    proof {
        lemma_view_pairs(members@);
        let expected = message_members(
            jsonrpc@,
            match id { Some(i) => Some(i@), None => None },
            method@,
            data_of(*params),
        );
        assert(view_pairs(members@) =~= expected);
    }
    JsonValue::Object(members)
}

impl JsonRpcRequest {
    /// The request written as JSON: `jsonrpc`, `id`, `method` and, when present, `params`.
    pub fn to_json(&self) -> (r: JsonValue)
        ensures
            r.data() == JsonData::Object(message_members(self.jsonrpc@, Some(self.id@), self.method@, data_of(self.params))),
    {
        message_json(&self.jsonrpc, Some(&self.id), &self.method, &self.params)
    }
}

impl JsonRpcNotification {
    /// The notification written as JSON: `jsonrpc`, `method` and, when present, `params`.
    pub fn to_json(&self) -> (r: JsonValue)
        ensures
            r.data() == JsonData::Object(message_members(self.jsonrpc@, None, self.method@, data_of(self.params))),
    {
        message_json(&self.jsonrpc, None, &self.method, &self.params)
    }
}

// ---------------------------------------------------------------------------------------------
// Server capabilities and notifications
// ---------------------------------------------------------------------------------------------

/// What a server announces it supports.
#[derive(Debug)]
pub struct ServerCapabilities {
    pub tools: Option<JsonValue>,
    pub resources: Option<JsonValue>,
    pub prompts: Option<JsonValue>,
    pub logging: Option<JsonValue>,
}

impl Default for ServerCapabilities {
    fn default() -> (r: Self)
        ensures
            r.tools is None && r.resources is None && r.prompts is None && r.logging is None,
    {
        ServerCapabilities { tools: None, resources: None, prompts: None, logging: None }
    }
}

impl FromJson for ServerCapabilities {
    open spec fn json_ok(d: JsonData) -> bool {
        shape_ok(d, 4, 4)
    }

    open spec fn json_matches(&self, d: JsonData) -> bool {
        &&& data_of(self.tools) == optional_field(field(d, "tools"@, 0))
        &&& data_of(self.resources) == optional_field(field(d, "resources"@, 1))
        &&& data_of(self.prompts) == optional_field(field(d, "prompts"@, 2))
        &&& data_of(self.logging) == optional_field(field(d, "logging"@, 3))
    }

    fn from_json(v: &JsonValue) -> (r: Option<Self>) {
        if !shape_of(v, 4, 4) {
            return None;
        }
        Some(ServerCapabilities {
            tools: read_optional(field_of(v, "tools", 0)),
            resources: read_optional(field_of(v, "resources", 1)),
            prompts: read_optional(field_of(v, "prompts", 2)),
            logging: read_optional(field_of(v, "logging", 3)),
        })
    }
}

impl ServerCapabilities {
    /// A copy of these capabilities.
    pub fn duplicate(&self) -> (r: Self)
        ensures
            data_of(r.tools) == data_of(self.tools),
            data_of(r.resources) == data_of(self.resources),
            data_of(r.prompts) == data_of(self.prompts),
            data_of(r.logging) == data_of(self.logging),
    {
        ServerCapabilities {
            tools: match &self.tools { Some(x) => Some(x.duplicate()), None => None },
            resources: match &self.resources { Some(x) => Some(x.duplicate()), None => None },
            prompts: match &self.prompts { Some(x) => Some(x.duplicate()), None => None },
            logging: match &self.logging { Some(x) => Some(x.duplicate()), None => None },
        }
    }
}

/// The model of a notification.
pub enum NotificationModel {
    Log { level: Seq<char>, message: Seq<char> },
    ToolListChanged,
    ResourceListChanged,
    PromptListChanged,
    ServerRequest { method: Seq<char>, params: Option<JsonData>, responded: bool },
    Unknown { method: Seq<char>, params: Option<JsonData> },
}

/// Something the server told the client.
#[derive(Debug)]
pub enum Notification {
    Log { level: String, message: String },
    ToolListChanged,
    ResourceListChanged,
    PromptListChanged,
    /// A request the server sent to the client; `responded` is false when no handler was
    /// configured.
    ServerRequest { method: String, params: Option<JsonValue>, responded: bool },
    Unknown { method: String, params: Option<JsonValue> },
}

impl Notification {
    /// The model of this notification.
    pub open spec fn model(&self) -> NotificationModel {
        match self {
            Notification::Log { level, message } => NotificationModel::Log { level: level@, message: message@ },
            Notification::ToolListChanged => NotificationModel::ToolListChanged,
            Notification::ResourceListChanged => NotificationModel::ResourceListChanged,
            Notification::PromptListChanged => NotificationModel::PromptListChanged,
            Notification::ServerRequest { method, params, responded } =>
                NotificationModel::ServerRequest { method: method@, params: data_of(*params), responded: *responded },
            Notification::Unknown { method, params } => NotificationModel::Unknown { method: method@, params: data_of(*params) },
        }
    }
}

/// The level of a log message: the `level` member when it is a string, `info` otherwise.
pub open spec fn log_level(params: JsonData) -> Seq<char> {
    match params.get("level"@) {
        Some(JsonData::Str(s)) => s,
        _ => "info"@,
    }
}

/// The text of a log message: the compact JSON text of the `data` member, empty without one.
pub open spec fn log_message(params: JsonData) -> Seq<char> {
    match params.get("data"@) {
        Some(x) => compact(x),
        None => Seq::empty(),
    }
}

/// The notification that a JSON-RPC notification with `method` and `params` stands for.
pub open spec fn notification_for(method: Seq<char>, params: Option<JsonData>) -> NotificationModel {
    if method == "notifications/message"@ {
        match params {
            Some(p) => NotificationModel::Log { level: log_level(p), message: log_message(p) },
            None => NotificationModel::Unknown { method, params },
        }
    } else if method == "notifications/tools/list_changed"@ {
        NotificationModel::ToolListChanged
    } else if method == "notifications/resources/list_changed"@ {
        NotificationModel::ResourceListChanged
    } else if method == "notifications/prompts/list_changed"@ {
        NotificationModel::PromptListChanged
    } else {
        NotificationModel::Unknown { method, params }
    }
}

fn copy_params(p: &Option<JsonValue>) -> (r: Option<JsonValue>)
    ensures
        data_of(r) == data_of(*p),
{
    match p {
        Some(x) => Some(x.duplicate()),
        None => None,
    }
}

impl Notification {
    /// Interprets a JSON-RPC notification.
    pub fn from_jsonrpc(notif: &JsonRpcNotification) -> (r: Notification)
        ensures
            r.model() == notification_for(notif.method@, data_of(notif.params)),
    {
        let method = notif.method.as_str();
        if str_equal(method, "notifications/message") {
            match &notif.params {
                Some(params) => {
                    let level = match params.get("level") {
                        Some(JsonValue::Str(s)) => copy_string(s),
                        _ => owned("info"),
                    };
                    let message = match params.get("data") {
                        Some(x) => x.to_compact_string(),
                        None => String::new(),
                    };
                    Notification::Log { level, message }
                },
                None => Notification::Unknown { method: copy_string(&notif.method), params: None },
            }
        } else if str_equal(method, "notifications/tools/list_changed") {
            Notification::ToolListChanged
        } else if str_equal(method, "notifications/resources/list_changed") {
            Notification::ResourceListChanged
        } else if str_equal(method, "notifications/prompts/list_changed") {
            Notification::PromptListChanged
        } else {
            Notification::Unknown { method: copy_string(&notif.method), params: copy_params(&notif.params) }
        }
    }
}

/// The message of a log notification is the JSON text of its `data` member alone (empty
/// without one), and its level is the `level` member: two `notifications/message`
/// notifications whose params agree on `data` give the same message, whatever else their
/// params hold.
pub proof fn lemma_log_message_is_data(n1: Notification, p1: JsonData, n2: Notification, p2: JsonData)
    requires
        n1.model() == notification_for("notifications/message"@, Some(p1)),
        n2.model() == notification_for("notifications/message"@, Some(p2)),
        p1.get("data"@) == p2.get("data"@),
    ensures
        n1 matches Notification::Log { level: l1, message: m1 } && n2 matches Notification::Log { level: l2, message: m2 } && {
            &&& m1@ == m2@
            &&& m1@ == match p1.get("data"@) {
                Some(x) => compact(x),
                None => Seq::<char>::empty(),
            }
            &&& (p1.get("level"@) matches Some(JsonData::Str(lv)) ==> l1@ == lv)
        },
{
}

} // verus!
