use vstd::prelude::*;
use crate::text::{chars_of, copy_string, digit_char, push_char, push_str, str_equal};

verus! {

/// The mathematical model of a JSON document.
#[verifier::ext_equal]
pub enum JsonData {
    Null,
    Bool(bool),
    /// A number, held as the text that writes it.
    Number(Seq<char>),
    Str(Seq<char>),
    Array(Seq<JsonData>),
    /// An object: its members in order.
    Object(Seq<(Seq<char>, JsonData)>),
}

/// A JSON value. A number is held as the text that writes it; an object holds its members
/// in order.
#[derive(Debug)]
pub enum JsonValue {
    Null,
    Bool(bool),
    Number(String),
    Str(String),
    Array(Vec<JsonValue>),
    Object(Vec<(String, JsonValue)>),
}

/// The models of a sequence of values.
pub open spec fn view_items(items: Seq<JsonValue>) -> Seq<JsonData>
    decreases items,
{
    if items.len() == 0 {
        Seq::empty()
    } else {
        view_items(items.drop_last()).push(items.last().data())
    }
}

/// The models of a sequence of object members.
pub open spec fn view_pairs(pairs: Seq<(String, JsonValue)>) -> Seq<(Seq<char>, JsonData)>
    decreases pairs,
{
    if pairs.len() == 0 {
        Seq::empty()
    } else {
        view_pairs(pairs.drop_last()).push((pairs.last().0@, pairs.last().1.data()))
    }
}

impl JsonValue {
    /// The model of this value.
    pub open spec fn data(&self) -> JsonData
        decreases self,
    {
        match self {
            JsonValue::Null => JsonData::Null,
            JsonValue::Bool(b) => JsonData::Bool(*b),
            JsonValue::Number(n) => JsonData::Number(n@),
            JsonValue::Str(s) => JsonData::Str(s@),
            JsonValue::Array(v) => JsonData::Array(view_items(v@)),
            JsonValue::Object(v) => JsonData::Object(view_pairs(v@)),
        }
    }
}

pub broadcast proof fn lemma_view_items(items: Seq<JsonValue>)
    ensures
        #[trigger] view_items(items).len() == items.len(),
        forall|i: int| 0 <= i < items.len() ==> #[trigger] view_items(items)[i] == items[i].data(),
    decreases items.len(),
{
    if items.len() > 0 {
        lemma_view_items(items.drop_last());
    }
}

pub broadcast proof fn lemma_view_pairs(pairs: Seq<(String, JsonValue)>)
    ensures
        #[trigger] view_pairs(pairs).len() == pairs.len(),
        forall|i: int| 0 <= i < pairs.len() ==> #[trigger] view_pairs(pairs)[i] == (pairs[i].0@, pairs[i].1.data()),
    decreases pairs.len(),
{
    if pairs.len() > 0 {
        lemma_view_pairs(pairs.drop_last());
    }
}

/// The value of the first member named `key`.
pub open spec fn lookup(pairs: Seq<(Seq<char>, JsonData)>, key: Seq<char>) -> Option<JsonData>
    decreases pairs.len(),
{
    if pairs.len() == 0 {
        None
    } else if pairs[0].0 == key {
        Some(pairs[0].1)
    } else {
        lookup(pairs.drop_first(), key)
    }
}

/// The member names, in order.
pub open spec fn member_names(pairs: Seq<(Seq<char>, JsonData)>) -> Seq<Seq<char>> {
    pairs.map_values(|p: (Seq<char>, JsonData)| p.0)
}

/// `pairs` with the member `key` set to `value`: the first member of that name gets the
/// value, or a new member is added at the end.
pub open spec fn set_member(pairs: Seq<(Seq<char>, JsonData)>, key: Seq<char>, value: JsonData) -> Seq<(Seq<char>, JsonData)>
    decreases pairs.len(),
{
    if pairs.len() == 0 {
        seq![(key, value)]
    } else if pairs[0].0 == key {
        pairs.update(0, (key, value))
    } else {
        seq![pairs[0]] + set_member(pairs.drop_first(), key, value)
    }
}

impl JsonData {
    /// The member `key` of an object; `None` for a missing member or a value that is not an object.
    pub open spec fn get(self, key: Seq<char>) -> Option<JsonData> {
        match self {
            JsonData::Object(ps) => lookup(ps, key),
            _ => None,
        }
    }
}

proof fn lemma_lookup_skip(pairs: Seq<(Seq<char>, JsonData)>, key: Seq<char>, i: int)
    requires
        0 <= i < pairs.len(),
        forall|k: int| 0 <= k < i ==> pairs[k].0 != key,
    ensures
        lookup(pairs, key) == lookup(pairs.skip(i), key),
    decreases i,
{
    if i > 0 {
        assert(pairs[0].0 != key);
        assert forall|k: int| 0 <= k < i - 1 implies pairs.drop_first()[k].0 != key by {
            assert(pairs.drop_first()[k] == pairs[k + 1]);
        }
        lemma_lookup_skip(pairs.drop_first(), key, i - 1);
        assert(pairs.drop_first().skip(i - 1) =~= pairs.skip(i));
    } else {
        assert(pairs.skip(0) =~= pairs);
    }
}

/// Looking up a key in two sequences of members put together finds it in the first, or else
/// in the second.
pub proof fn lemma_lookup_concat(a: Seq<(Seq<char>, JsonData)>, b: Seq<(Seq<char>, JsonData)>, key: Seq<char>)
    ensures
        lookup(a + b, key) == (if lookup(a, key) is Some { lookup(a, key) } else { lookup(b, key) }),
    decreases a.len(),
{
    if a.len() == 0 {
        assert(a + b =~= b);
    } else {
        lemma_lookup_concat(a.drop_first(), b, key);
        assert((a + b).drop_first() =~= a.drop_first() + b);
    }
}

proof fn lemma_lookup_none(pairs: Seq<(Seq<char>, JsonData)>, key: Seq<char>)
    requires
        forall|k: int| 0 <= k < pairs.len() ==> pairs[k].0 != key,
    ensures
        lookup(pairs, key) is None,
    decreases pairs.len(),
{
    if pairs.len() > 0 {
        assert(pairs[0].0 != key);
        assert forall|k: int| 0 <= k < pairs.len() - 1 implies pairs.drop_first()[k].0 != key by {
            assert(pairs.drop_first()[k] == pairs[k + 1]);
        }
        lemma_lookup_none(pairs.drop_first(), key);
    }
}

/// The index of the first member named `key`, if any.
pub fn find_member(pairs: &Vec<(String, JsonValue)>, key: &str) -> (r: Option<usize>)
    ensures
        match r {
            Some(i) => i < pairs@.len() && pairs@[i as int].0@ == key@ && lookup(view_pairs(pairs@), key@) == Some(pairs@[i as int].1.data())
                && forall|k: int| 0 <= k < i ==> pairs@[k].0@ != key@,
            None => lookup(view_pairs(pairs@), key@) is None && forall|k: int| 0 <= k < pairs@.len() ==> pairs@[k].0@ != key@,
        },
{
    broadcast use lemma_view_pairs;
    let mut i: usize = 0;
    while i < pairs.len()
        invariant
            i <= pairs@.len(),
            forall|k: int| 0 <= k < i ==> pairs@[k].0@ != key@,
        decreases pairs@.len() - i,
    {
        if str_equal(pairs[i].0.as_str(), key) {
            proof {
                lemma_view_pairs(pairs@);
                let vp = view_pairs(pairs@);
                assert forall|k: int| 0 <= k < i implies vp[k].0 != key@ by {
                    assert(vp[k] == (pairs@[k].0@, pairs@[k].1.data()));
                }
                lemma_lookup_skip(vp, key@, i as int);
            }
            return Some(i);
        }
        i = i + 1;
    }
    proof {
        lemma_view_pairs(pairs@);
        let vp = view_pairs(pairs@);
        assert forall|k: int| 0 <= k < vp.len() implies vp[k].0 != key@ by {
            assert(vp[k] == (pairs@[k].0@, pairs@[k].1.data()));
        }
        lemma_lookup_none(vp, key@);
    }
    None
}

impl JsonValue {
    /// The member `key` of an object; `None` for a missing member or a value that is not an object.
    pub fn get(&self, key: &str) -> (r: Option<&JsonValue>)
        ensures
            match r {
                Some(v) => self.data().get(key@) == Some(v.data()),
                None => self.data().get(key@) is None,
            },
    {
        match self {
            JsonValue::Object(pairs) => {
                match find_member(pairs, key) {
                    Some(i) => Some(&pairs[i].1),
                    None => None,
                }
            },
            _ => None,
        }
    }

    /// The text of a string value.
    pub fn as_str(&self) -> (r: Option<&String>)
        ensures
            match r {
                Some(s) => self.data() == JsonData::Str(s@),
                None => !(self.data() is Str),
            },
    {
        match self {
            JsonValue::Str(s) => Some(s),
            _ => None,
        }
    }

    /// The items of an array value.
    pub fn as_array(&self) -> (r: Option<&Vec<JsonValue>>)
        ensures
            match r {
                Some(v) => self.data() == JsonData::Array(view_items(v@)),
                None => !(self.data() is Array),
            },
    {
        match self {
            JsonValue::Array(v) => Some(v),
            _ => None,
        }
    }

    /// A copy of this value.
    #[verifier::loop_isolation(false)]
    pub fn duplicate(&self) -> (r: JsonValue)
        ensures
            r.data() == self.data(),
        decreases self,
    {
        match self {
            JsonValue::Null => JsonValue::Null,
            JsonValue::Bool(b) => JsonValue::Bool(*b),
            JsonValue::Number(n) => JsonValue::Number(copy_string(n)),
            JsonValue::Str(s) => JsonValue::Str(copy_string(s)),
            JsonValue::Array(items) => {
                let mut out: Vec<JsonValue> = Vec::new();
                let mut i: usize = 0;
                while i < items.len()
                    invariant
                        i <= items@.len(),
                        view_items(out@) == view_items(items@).take(i as int),
                    decreases items@.len() - i,
                {
                    broadcast use lemma_view_items;
                    proof {
                        vstd::std_specs::vec::axiom_vec_index_decreases(*items, i as int);
                        assert(decreases_to!(self => *items));
                        assert(decreases_to!(self => items[i as int]));
                    }
                    let x = items[i].duplicate();
                    let ghost before = out@;
                    out.push(x);
                    assert(out@.drop_last() =~= before);
                    assert(view_items(out@) =~= view_items(items@).take(i + 1));
                    i = i + 1;
                }
                proof {
                    broadcast use lemma_view_items;
                    assert(view_items(items@).take(i as int) =~= view_items(items@));
                }
                JsonValue::Array(out)
            },
            JsonValue::Object(pairs) => {
                let mut out: Vec<(String, JsonValue)> = Vec::new();
                let mut i: usize = 0;
                while i < pairs.len()
                    invariant
                        i <= pairs@.len(),
                        view_pairs(out@) == view_pairs(pairs@).take(i as int),
                    decreases pairs@.len() - i,
                {
                    broadcast use lemma_view_pairs;
                    proof {
                        vstd::std_specs::vec::axiom_vec_index_decreases(*pairs, i as int);
                        assert(decreases_to!(self => *pairs));
                        assert(decreases_to!(self => pairs[i as int]));
                        assert(decreases_to!(self => pairs[i as int].1));
                    }
                    let x = pairs[i].1.duplicate();
                    let k = copy_string(&pairs[i].0);
                    let ghost before = out@;
                    out.push((k, x));
                    proof { lemma_view_pairs(pairs@); }
                    assert(out@.drop_last() =~= before);
                    assert(view_pairs(out@) == view_pairs(before).push((k@, x.data())));
                    assert(view_pairs(pairs@)[i as int] == (pairs@[i as int].0@, pairs@[i as int].1.data()));
                    assert(view_pairs(out@) =~= view_pairs(pairs@).take(i + 1));
                    i = i + 1;
                }
                proof {
                    broadcast use lemma_view_pairs;
                    assert(view_pairs(pairs@).take(i as int) =~= view_pairs(pairs@));
                }
                JsonValue::Object(out)
            },
        }
    }
}

/// The hexadecimal digit for `d < 16`, in lower case.
pub open spec fn hex_digit(d: nat) -> char {
    if d < 10 {
        digit_char(d)
    } else {
        (((d - 10) + 'a' as nat) as u32) as char
    }
}

/// How a character is written inside a JSON string: `"` and `\` and the control characters
/// below U+0020 are escaped, everything else is written as it is.
pub open spec fn escape_char(c: char) -> Seq<char> {
    if c == '"' {
        seq!['\\', '"']
    } else if c == '\\' {
        seq!['\\', '\\']
    } else if c == '\u{8}' {
        seq!['\\', 'b']
    } else if c == '\t' {
        seq!['\\', 't']
    } else if c == '\n' {
        seq!['\\', 'n']
    } else if c == '\u{c}' {
        seq!['\\', 'f']
    } else if c == '\r' {
        seq!['\\', 'r']
    } else if (c as u32) < 0x20 {
        seq!['\\', 'u', '0', '0', hex_digit(((c as u32) / 16) as nat), hex_digit(((c as u32) % 16) as nat)]
    } else {
        seq![c]
    }
}

/// The escaped form of a string's characters.
pub open spec fn escape_text(s: Seq<char>) -> Seq<char>
    decreases s.len(),
{
    if s.len() == 0 {
        Seq::empty()
    } else {
        escape_text(s.drop_last()) + escape_char(s.last())
    }
}

/// A string written as a JSON string literal.
pub open spec fn quoted(s: Seq<char>) -> Seq<char> {
    seq!['"'] + escape_text(s) + seq!['"']
}

/// The compact JSON text of a value: no white space, members and items separated by commas.
pub open spec fn compact(d: JsonData) -> Seq<char>
    decreases d,
{
    match d {
        JsonData::Null => seq!['n', 'u', 'l', 'l'],
        JsonData::Bool(b) => if b { seq!['t', 'r', 'u', 'e'] } else { seq!['f', 'a', 'l', 's', 'e'] },
        JsonData::Number(n) => n,
        JsonData::Str(s) => quoted(s),
        JsonData::Array(xs) => seq!['['] + compact_items(xs) + seq![']'],
        JsonData::Object(ps) => seq!['{'] + compact_members(ps) + seq!['}'],
    }
}

/// The compact texts of items, separated by commas.
pub open spec fn compact_items(xs: Seq<JsonData>) -> Seq<char>
    decreases xs,
{
    if xs.len() == 0 {
        Seq::empty()
    } else if xs.len() == 1 {
        compact(xs[0])
    } else {
        compact_items(xs.drop_last()) + seq![','] + compact(xs.last())
    }
}

/// The compact texts of members, `"name":value`, separated by commas.
pub open spec fn compact_members(ps: Seq<(Seq<char>, JsonData)>) -> Seq<char>
    decreases ps,
{
    if ps.len() == 0 {
        Seq::empty()
    } else if ps.len() == 1 {
        quoted(ps[0].0) + seq![':'] + compact(ps[0].1)
    } else {
        compact_members(ps.drop_last()) + seq![','] + quoted(ps.last().0) + seq![':'] + compact(ps.last().1)
    }
}

fn hex_char(d: u32) -> (c: char)
    requires
        d < 16,
    ensures
        c == hex_digit(d as nat),
{
    let c = if d == 0 { '0' } else if d == 1 { '1' } else if d == 2 { '2' } else if d == 3 { '3' }
        else if d == 4 { '4' } else if d == 5 { '5' } else if d == 6 { '6' } else if d == 7 { '7' }
        else if d == 8 { '8' } else if d == 9 { '9' } else if d == 10 { 'a' } else if d == 11 { 'b' }
        else if d == 12 { 'c' } else if d == 13 { 'd' } else if d == 14 { 'e' } else { 'f' };
    c
}

/// Appends the escaped form of `s`.
pub fn write_escaped(out: &mut String, s: &str)
    ensures
        final(out)@ == old(out)@ + escape_text(s@),
{
    let cs = chars_of(s);
    let mut i: usize = 0;
    while i < cs.len()
        invariant
            i <= cs@.len(),
            cs@ == s@,
            out@ == old(out)@ + escape_text(cs@.take(i as int)),
        decreases cs@.len() - i,
    {
        let c = cs[i];
        let ghost before = out@;
        assert(cs@.take(i + 1).drop_last() =~= cs@.take(i as int));
        if c == '"' {
            push_char(out, '\\');
            push_char(out, '"');
        } else if c == '\\' {
            push_char(out, '\\');
            push_char(out, '\\');
        } else if c == '\u{8}' {
            push_char(out, '\\');
            push_char(out, 'b');
        } else if c == '\t' {
            push_char(out, '\\');
            push_char(out, 't');
        } else if c == '\n' {
            push_char(out, '\\');
            push_char(out, 'n');
        } else if c == '\u{c}' {
            push_char(out, '\\');
            push_char(out, 'f');
        } else if c == '\r' {
            push_char(out, '\\');
            push_char(out, 'r');
        } else if (c as u32) < 0x20 {
            push_char(out, '\\');
            push_char(out, 'u');
            push_char(out, '0');
            push_char(out, '0');
            push_char(out, hex_char((c as u32) / 16));
            push_char(out, hex_char((c as u32) % 16));
        } else {
            push_char(out, c);
        }
        assert(out@ =~= before + escape_char(c));
        assert(out@ =~= old(out)@ + escape_text(cs@.take(i + 1)));
        i = i + 1;
    }
    assert(cs@.take(cs@.len() as int) =~= cs@);
}

/// Appends `s` written as a JSON string literal.
pub fn write_quoted(out: &mut String, s: &str)
    ensures
        final(out)@ == old(out)@ + quoted(s@),
{
    push_char(out, '"');
    write_escaped(out, s);
    push_char(out, '"');
    assert(out@ =~= old(out)@ + quoted(s@));
}

impl JsonValue {
    /// Appends the compact JSON text of this value.
    #[verifier::loop_isolation(false)]
    #[verifier::spinoff_prover]
    #[verifier::rlimit(40)]
    pub fn write_compact(&self, out: &mut String)
        ensures
            final(out)@ == old(out)@ + compact(self.data()),
        decreases self,
    {
        match self {
            JsonValue::Null => {
                push_str(out, "null");
                proof { reveal_strlit("null"); }
                assert(out@ =~= old(out)@ + compact(self.data()));
            },
            JsonValue::Bool(b) => {
                if *b {
                    push_str(out, "true");
                    proof { reveal_strlit("true"); }
                } else {
                    push_str(out, "false");
                    proof { reveal_strlit("false"); }
                }
                assert(out@ =~= old(out)@ + compact(self.data()));
            },
            JsonValue::Number(n) => {
                push_str(out, n.as_str());
            },
            JsonValue::Str(s) => {
                write_quoted(out, s.as_str());
            },
            JsonValue::Array(items) => {
                push_char(out, '[');
                let ghost start = out@;
                let mut i: usize = 0;
                proof { lemma_view_items(items@); }
                while i < items.len()
                    invariant
                        i <= items@.len(),
                        out@ == start + compact_items(view_items(items@).take(i as int)),
                    decreases items@.len() - i,
                {
                    proof {
                        lemma_view_items(items@);
                        vstd::std_specs::vec::axiom_vec_index_decreases(*items, i as int);
                        assert(decreases_to!(self => items[i as int]));
                    }
                    let ghost before = out@;
                    let ghost xs = view_items(items@).take(i + 1);
                    assert(xs.drop_last() =~= view_items(items@).take(i as int));
                    if i > 0 {
                        push_char(out, ',');
                    }
                    items[i].write_compact(out);
                    proof {
                        if i == 0 {
                            assert(compact_items(xs) == compact(xs[0]));
                            assert(out@ =~= start + compact_items(xs));
                        } else {
                            assert(out@ =~= start + compact_items(xs));
                        }
                    }
                    i = i + 1;
                }
                assert(view_items(items@).take(i as int) =~= view_items(items@));
                push_char(out, ']');
                assert(out@ =~= old(out)@ + compact(self.data()));
            },
            JsonValue::Object(pairs) => {
                push_char(out, '{');
                let ghost start = out@;
                let mut i: usize = 0;
                proof { lemma_view_pairs(pairs@); }
                while i < pairs.len()
                    invariant
                        i <= pairs@.len(),
                        out@ == start + compact_members(view_pairs(pairs@).take(i as int)),
                    decreases pairs@.len() - i,
                {
                    proof {
                        lemma_view_pairs(pairs@);
                        vstd::std_specs::vec::axiom_vec_index_decreases(*pairs, i as int);
                        assert(decreases_to!(self => pairs[i as int]));
                        assert(decreases_to!(self => pairs[i as int].1));
                    }
                    let ghost before = out@;
                    let ghost ps = view_pairs(pairs@).take(i + 1);
                    assert(ps.drop_last() =~= view_pairs(pairs@).take(i as int));
                    assert(ps.last() == (pairs@[i as int].0@, pairs@[i as int].1.data()));
                    if i > 0 {
                        push_char(out, ',');
                    }
                    write_quoted(out, pairs[i].0.as_str());
                    push_char(out, ':');
                    pairs[i].1.write_compact(out);
                    proof {
                        if i == 0 {
                            assert(out@ =~= start + compact_members(ps));
                        } else {
                            assert(out@ =~= start + compact_members(ps));
                        }
                    }
                    i = i + 1;
                }
                assert(view_pairs(pairs@).take(i as int) =~= view_pairs(pairs@));
                push_char(out, '}');
                assert(out@ =~= old(out)@ + compact(self.data()));
            },
        }
    }

    /// The compact JSON text of this value.
    pub fn to_compact_string(&self) -> (r: String)
        ensures
            r@ == compact(self.data()),
    {
        let mut out = String::new();
        self.write_compact(&mut out);
        assert(out@ =~= compact(self.data()));
        out
    }
}

impl Clone for JsonValue {
    fn clone(&self) -> (r: Self)
        ensures
            r.data() == self.data(),
    {
        self.duplicate()
    }
}

} // verus!
