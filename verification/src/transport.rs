use vstd::prelude::*;
use crate::text::{chars_of, string_of_range, string_views};

verus! {

/// The index of the first blank line separator, `\n\n`, in `s` at or after `i`.
pub open spec fn pair_from(s: Seq<char>, i: int) -> Option<int>
    decreases s.len() - i,
{
    if i < 0 || i + 1 >= s.len() {
        None
    } else if s[i] == '\n' && s[i + 1] == '\n' {
        Some(i)
    } else {
        pair_from(s, i + 1)
    }
}

/// The index of the first `\n` in `s` at or after `i`.
pub open spec fn newline_from(s: Seq<char>, i: int) -> Option<int>
    decreases s.len() - i,
{
    if i < 0 || i >= s.len() {
        None
    } else if s[i] == '\n' {
        Some(i)
    } else {
        newline_from(s, i + 1)
    }
}

/// The complete events at the start of a stream's text, each ended by a blank line, and the
/// text after the last of them.
pub open spec fn split_events(s: Seq<char>) -> (Seq<Seq<char>>, Seq<char>)
    decreases s.len(),
{
    match pair_from(s, 0) {
        Some(p) => {
            proof {
                lemma_pair_from_bounds(s, 0);
            }
            let (events, rest) = split_events(s.subrange(p + 2, s.len() as int));
            (seq![s.take(p)] + events, rest)
        },
        None => (Seq::empty(), s),
    }
}

/// `x` without one `\r` at its end.
pub open spec fn strip_cr(x: Seq<char>) -> Seq<char> {
    if x.len() > 0 && x.last() == '\r' {
        x.drop_last()
    } else {
        x
    }
}

/// The lines of `t`, as `str::lines` gives them: split at each `\n`, a `\r` before the `\n`
/// removed, and no empty line after a final `\n`.
pub open spec fn text_lines(t: Seq<char>) -> Seq<Seq<char>>
    decreases t.len(),
{
    match newline_from(t, 0) {
        Some(i) => {
            proof {
                lemma_newline_from_bounds(t, 0);
            }
            seq![strip_cr(t.take(i))] + text_lines(t.subrange(i + 1, t.len() as int))
        },
        None => if t.len() == 0 { Seq::empty() } else { seq![t] },
    }
}

/// The field name that marks an event's data line, `data: `.
pub open spec fn data_prefix() -> Seq<char> {
    seq!['d', 'a', 't', 'a', ':', ' ']
}

/// The data of the lines that start with `data: `, in order.
pub open spec fn line_payloads(lines: Seq<Seq<char>>) -> Seq<Seq<char>>
    decreases lines.len(),
{
    if lines.len() == 0 {
        Seq::empty()
    } else {
        let first = lines[0];
        (if data_prefix().is_prefix_of(first) { seq![first.skip(6)] } else { Seq::empty() })
            + line_payloads(lines.drop_first())
    }
}

/// The data of the events, in order.
pub open spec fn event_payloads(events: Seq<Seq<char>>) -> Seq<Seq<char>>
    decreases events.len(),
{
    if events.len() == 0 {
        Seq::empty()
    } else {
        line_payloads(text_lines(events[0])) + event_payloads(events.drop_first())
    }
}

/// A blank line found at or after `i` lies within `s`.
pub proof fn lemma_pair_from_bounds(s: Seq<char>, i: int)
    ensures
        pair_from(s, i) matches Some(p) ==> 0 <= i <= p && p + 1 < s.len(),
    decreases s.len() - i,
{
    if !(i < 0 || i + 1 >= s.len()) && !(s[i] == '\n' && s[i + 1] == '\n') {
        lemma_pair_from_bounds(s, i + 1);
    }
}

/// A line feed found at or after `i` lies within `s`.
pub proof fn lemma_newline_from_bounds(s: Seq<char>, i: int)
    ensures
        newline_from(s, i) matches Some(p) ==> 0 <= i <= p < s.len(),
    decreases s.len() - i,
{
    if !(i < 0 || i >= s.len()) && s[i] != '\n' {
        lemma_newline_from_bounds(s, i + 1);
    }
}

/// A line starts with `data: ` when its first six characters are those.
proof fn lemma_data_prefix(line: Seq<char>)
    ensures
        data_prefix().is_prefix_of(line) <==> (line.len() >= 6 && line[0] == 'd' && line[1] == 'a' && line[2] == 't'
            && line[3] == 'a' && line[4] == ':' && line[5] == ' '),
{
    if line.len() >= 6 && line[0] == 'd' && line[1] == 'a' && line[2] == 't' && line[3] == 'a' && line[4] == ':' && line[5] == ' ' {
        assert(data_prefix() =~= line.subrange(0, 6));
    }
    if data_prefix().is_prefix_of(line) {
        let h = line.subrange(0, 6);
        assert(h[0] == line[0] && h[1] == line[1] && h[2] == line[2]);
        assert(h[3] == line[3] && h[4] == line[4] && h[5] == line[5]);
        assert(h =~= data_prefix());
    }
}

proof fn lemma_pair_from_found(s: Seq<char>, i: int, j: int)
    requires
        0 <= i <= j,
        j + 1 < s.len(),
        s[j] == '\n' && s[j + 1] == '\n',
        forall|k: int| i <= k < j ==> !(s[k] == '\n' && #[trigger] s[k + 1] == '\n'),
    ensures
        pair_from(s, i) == Some(j),
    decreases j - i,
{
    if i < j {
        lemma_pair_from_found(s, i + 1, j);
    }
}

proof fn lemma_pair_from_none(s: Seq<char>, i: int)
    requires
        0 <= i,
        forall|k: int| i <= k && k + 1 < s.len() ==> !(s[k] == '\n' && #[trigger] s[k + 1] == '\n'),
    ensures
        pair_from(s, i) is None,
    decreases s.len() - i,
{
    if i + 1 < s.len() {
        lemma_pair_from_none(s, i + 1);
    }
}

proof fn lemma_newline_from_found(s: Seq<char>, i: int, j: int)
    requires
        0 <= i <= j < s.len(),
        s[j] == '\n',
        forall|k: int| i <= k < j ==> #[trigger] s[k] != '\n',
    ensures
        newline_from(s, i) == Some(j),
    decreases j - i,
{
    if i < j {
        lemma_newline_from_found(s, i + 1, j);
    }
}

proof fn lemma_newline_from_none(s: Seq<char>, i: int)
    requires
        0 <= i,
        forall|k: int| i <= k < s.len() ==> #[trigger] s[k] != '\n',
    ensures
        newline_from(s, i) is None,
    decreases s.len() - i,
{
    if i < s.len() {
        lemma_newline_from_none(s, i + 1);
    }
}

/// The index of the first `\n\n` in `cs[from..]`.
fn find_blank_line(cs: &Vec<char>, from: usize) -> (r: Option<usize>)
    requires
        from <= cs@.len(),
    ensures
        match r {
            Some(p) => from <= p && p + 1 < cs@.len() && pair_from(cs@.subrange(from as int, cs@.len() as int), 0) == Some(p - from),
            None => pair_from(cs@.subrange(from as int, cs@.len() as int), 0) is None,
        },
{
    let ghost t = cs@.subrange(from as int, cs@.len() as int);
    let mut j = from;
    while j < cs.len() && j + 1 < cs.len()
        invariant
            from <= j <= cs@.len(),
            t == cs@.subrange(from as int, cs@.len() as int),
            forall|k: int| 0 <= k < j - from ==> !(t[k] == '\n' && #[trigger] t[k + 1] == '\n'),
        decreases cs@.len() - j,
    {
        if cs[j] == '\n' && cs[j + 1] == '\n' {
            proof {
                lemma_pair_from_found(t, 0, j - from);
            }
            return Some(j);
        }
        j = j + 1;
    }
    proof {
        lemma_pair_from_none(t, 0);
    }
    None
}

/// Appends the data of the lines of `cs[from..to]` to `out`.
fn push_line_payloads(cs: &Vec<char>, from: usize, to: usize, out: &mut Vec<String>)
    requires
        from <= to <= cs@.len(),
    ensures
        string_views(final(out)@) == string_views(old(out)@) + line_payloads(text_lines(cs@.subrange(from as int, to as int))),
{
    let ghost prefix = data_prefix();
    let mut ls = from;
    let mut j = from;
    while j < to
        invariant
            from <= ls <= j <= to <= cs@.len(),
            forall|k: int| ls <= k < j ==> #[trigger] cs@[k] != '\n',
            string_views(out@) + line_payloads(text_lines(cs@.subrange(ls as int, to as int)))
                == string_views(old(out)@) + line_payloads(text_lines(cs@.subrange(from as int, to as int))),
        decreases to - j,
    {
        if cs[j] == '\n' {
            let ghost t = cs@.subrange(ls as int, to as int);
            proof {
                assert forall|k: int| 0 <= k < j - ls implies #[trigger] t[k] != '\n' by {
                    assert(t[k] == cs@[ls + k]);
                }
                lemma_newline_from_found(t, 0, j - ls);
                assert(t.subrange(j - ls + 1, t.len() as int) =~= cs@.subrange(j + 1, to as int));
                assert(t.take(j - ls) =~= cs@.subrange(ls as int, j as int));
            }
            let end = if j > ls && cs[j - 1] == '\r' { j - 1 } else { j };
            let ghost line = strip_cr(cs@.subrange(ls as int, j as int));
            assert(cs@.subrange(ls as int, end as int) =~= line);
            let ghost before = out@;
            let is_data = end - ls >= 6 && cs[ls] == 'd' && cs[ls + 1] == 'a' && cs[ls + 2] == 't' && cs[ls + 3] == 'a'
                && cs[ls + 4] == ':' && cs[ls + 5] == ' ';
            proof {
                assert(line.len() == end - ls);
                assert forall|k: int| 0 <= k < line.len() implies #[trigger] line[k] == cs@[ls + k] by {
                    assert(cs@.subrange(ls as int, end as int)[k] == cs@[ls + k]);
                }
                lemma_data_prefix(line);
                if line.len() >= 6 {
                    assert(line[0] == cs@[ls as int] && line[1] == cs@[ls + 1] && line[2] == cs@[ls + 2]);
                    assert(line[3] == cs@[ls + 3] && line[4] == cs@[ls + 4] && line[5] == cs@[ls + 5]);
                }
                assert(is_data == data_prefix().is_prefix_of(line));
            }
            if is_data {
                out.push(string_of_range(cs, ls + 6, end));
                proof {
                    assert(cs@.subrange(ls + 6, end as int) =~= line.skip(6));
                    assert(string_views(out@) =~= string_views(before) + seq![line.skip(6)]);
                }
            }
            proof {
                let lines = text_lines(t);
                assert(lines == seq![line] + text_lines(cs@.subrange(j + 1, to as int)));
                assert(lines.drop_first() =~= text_lines(cs@.subrange(j + 1, to as int)));
                assert(lines[0] == line);
                if is_data {
                    assert(string_views(out@) + line_payloads(text_lines(cs@.subrange(j + 1, to as int)))
                        =~= string_views(before) + line_payloads(lines));
                } else {
                    assert(string_views(out@) + line_payloads(text_lines(cs@.subrange(j + 1, to as int)))
                        =~= string_views(before) + line_payloads(lines));
                }
            }
            ls = j + 1;
        }
        j = j + 1;
    }
    let ghost t = cs@.subrange(ls as int, to as int);
    proof {
        assert forall|k: int| 0 <= k < t.len() implies #[trigger] t[k] != '\n' by {
            assert(t[k] == cs@[ls + k]);
        }
        lemma_newline_from_none(t, 0);
    }
    if ls < to {
        let ghost before = out@;
        let is_data = to - ls >= 6 && cs[ls] == 'd' && cs[ls + 1] == 'a' && cs[ls + 2] == 't' && cs[ls + 3] == 'a'
            && cs[ls + 4] == ':' && cs[ls + 5] == ' ';
        proof {
            lemma_data_prefix(t);
            if t.len() >= 6 {
                assert(t[0] == cs@[ls as int] && t[1] == cs@[ls + 1] && t[2] == cs@[ls + 2]);
                assert(t[3] == cs@[ls + 3] && t[4] == cs@[ls + 4] && t[5] == cs@[ls + 5]);
            }
            assert(is_data == prefix.is_prefix_of(t));
        }
        if is_data {
            out.push(string_of_range(cs, ls + 6, to));
            assert(cs@.subrange(ls + 6, to as int) =~= t.skip(6));
        }
        proof {
            let lines = text_lines(t);
            assert(lines == seq![t]);
            assert(lines.drop_first() =~= Seq::<Seq<char>>::empty());
            assert(line_payloads(Seq::<Seq<char>>::empty()) == Seq::<Seq<char>>::empty());
            if is_data {
                assert(string_views(out@) =~= string_views(before) + line_payloads(lines));
            } else {
                assert(string_views(out@) =~= string_views(before) + line_payloads(lines));
            }
        }
    } else {
        assert(text_lines(t) == Seq::<Seq<char>>::empty());
        assert(string_views(out@) =~= string_views(out@) + line_payloads(text_lines(t)));
    }
}

/// The client side of the HTTP transport: JSON-RPC messages are posted to the server's URL,
/// and answers come back as JSON or as a stream of server-sent events.
pub struct HttpTransport;

impl HttpTransport {
    /// Takes the complete events off the start of `buffer`, the text of an event stream
    /// received so far, and gives the data of their `data: ` lines in order; the buffer keeps
    /// what follows the last complete event.
    pub fn drain_events(buffer: &mut String) -> (r: Vec<String>)
        ensures
            final(buffer)@ == split_events(old(buffer)@).1,
            string_views(r@) == event_payloads(split_events(old(buffer)@).0),
    {
        let cs = chars_of(buffer.as_str());
        let mut out: Vec<String> = Vec::new();
        let mut start: usize = 0;
        assert(cs@.subrange(0, cs@.len() as int) =~= cs@);
        assert(string_views(out@) =~= Seq::<Seq<char>>::empty());
        loop
            invariant
                start <= cs@.len(),
                cs@ == old(buffer)@,
                split_events(cs@.subrange(start as int, cs@.len() as int)).1 == split_events(cs@).1,
                string_views(out@) + event_payloads(split_events(cs@.subrange(start as int, cs@.len() as int)).0)
                    == event_payloads(split_events(cs@).0),
            decreases cs@.len() - start,
        {
            let ghost t = cs@.subrange(start as int, cs@.len() as int);
            match find_blank_line(&cs, start) {
                None => {
                    proof {
                        assert(split_events(t).0 == Seq::<Seq<char>>::empty());
                        assert(event_payloads(Seq::<Seq<char>>::empty()) == Seq::<Seq<char>>::empty());
                        assert(string_views(out@) =~= string_views(out@) + Seq::<Seq<char>>::empty());
                    }
                    let rest = string_of_range(&cs, start, cs.len());
                    *buffer = rest;
                    return out;
                },
                Some(p) => {
                    let ghost before = out@;
                    push_line_payloads(&cs, start, p, &mut out);
                    proof {
                        let q = p - start;
                        assert(t.take(q) =~= cs@.subrange(start as int, p as int));
                        assert(t.subrange(q + 2, t.len() as int) =~= cs@.subrange(p + 2, cs@.len() as int));
                        let (evs, rest) = split_events(cs@.subrange(p + 2, cs@.len() as int));
                        assert(split_events(t).0 == seq![t.take(q)] + evs);
                        assert((seq![t.take(q)] + evs).drop_first() =~= evs);
                        assert(event_payloads(split_events(t).0)
                            == line_payloads(text_lines(t.take(q))) + event_payloads(evs));
                        assert(string_views(out@) + event_payloads(evs)
                            =~= string_views(before) + event_payloads(split_events(t).0));
                    }
                    assert(p + 1 < cs.len());
                    start = p + 2;
                },
            }
        }
    }
}

/// What draining leaves in the buffer holds no complete event: draining it again gives
/// nothing until more text comes.
pub proof fn lemma_drained_rest_has_no_event(s: Seq<char>)
    ensures
        split_events(split_events(s).1).0 == Seq::<Seq<char>>::empty(),
        split_events(split_events(s).1).1 == split_events(s).1,
    decreases s.len(),
{
    match pair_from(s, 0) {
        Some(p) => {
            lemma_pair_from_bounds(s, 0);
            lemma_drained_rest_has_no_event(s.subrange(p + 2, s.len() as int));
        },
        None => {},
    }
}

/// Text that holds no blank line is kept whole: it has no complete event.
pub proof fn lemma_no_blank_line_no_event(s: Seq<char>)
    requires
        forall|k: int| 0 <= k && k + 1 < s.len() ==> !(s[k] == '\n' && #[trigger] s[k + 1] == '\n'),
    ensures
        split_events(s).0 == Seq::<Seq<char>>::empty(),
        split_events(s).1 == s,
{
    lemma_pair_from_none(s, 0);
}

} // verus!
