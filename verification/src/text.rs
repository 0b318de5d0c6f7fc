use vstd::prelude::*;

verus! {

broadcast use vstd::string::group_string_axioms;

/// Whether `c` has the Unicode White_Space property, the set that `char::is_whitespace`
/// tests: U+0009 to U+000D, the space, U+0085, U+00A0, U+1680, U+2000 to U+200A, U+2028,
/// U+2029, U+202F, U+205F and U+3000.
pub open spec fn is_white_space(c: char) -> bool {
    let v = c as u32;
    ||| 0x09 <= v <= 0x0d
    ||| v == 0x20
    ||| v == 0x85
    ||| v == 0xa0
    ||| v == 0x1680
    ||| 0x2000 <= v <= 0x200a
    ||| v == 0x2028
    ||| v == 0x2029
    ||| v == 0x202f
    ||| v == 0x205f
    ||| v == 0x3000
}

/// Whether `c` is white space.
pub fn char_is_whitespace(c: char) -> (r: bool)
    ensures
        r == is_white_space(c),
{
    let v = c as u32;
    (0x09 <= v && v <= 0x0d) || v == 0x20 || v == 0x85 || v == 0xa0 || v == 0x1680
        || (0x2000 <= v && v <= 0x200a) || v == 0x2028 || v == 0x2029 || v == 0x202f || v == 0x205f
        || v == 0x3000
}

/// Calls `String::push`, which appends one character.
#[verifier::external_body]
pub(crate) fn push_char(s: &mut String, c: char)
    ensures
        final(s)@ == old(s)@.push(c),
{
    s.push(c);
}

/// Calls `String::push_str`, which appends a string slice.
#[verifier::external_body]
pub(crate) fn push_str(s: &mut String, t: &str)
    ensures
        final(s)@ == old(s)@ + t@,
{
    s.push_str(t);
}

/// Calls `<str as PartialEq>::eq`: two string slices are equal when they hold the same characters.
#[verifier::external_body]
pub(crate) fn str_equal(a: &str, b: &str) -> (r: bool)
    ensures
        r == (a@ == b@),
{
    a == b
}

/// An owned copy of a string slice.
pub fn owned(s: &str) -> (r: String)
    ensures
        r@ == s@,
{
    let mut r = String::new();
    push_str(&mut r, s);
    assert(r@ =~= s@);
    r
}

/// A copy of a string.
pub fn copy_string(s: &String) -> (r: String)
    ensures
        r@ == s@,
{
    owned(s.as_str())
}

/// The characters of a string slice, in order.
pub fn chars_of(s: &str) -> (r: Vec<char>)
    ensures
        r@ == s@,
{
    let mut r: Vec<char> = Vec::new();
    for c in it: s.chars()
        invariant
            r@ == it.seq().take(it.index() as int),
            it.seq() == s@,
    {
        r.push(c);
        assert(r@ =~= it.seq().take(it.index() as int + 1));
    }
    assert(r@ =~= s@);
    r
}

/// The string made of the characters `cs[from..to]`.
pub fn string_of_range(cs: &Vec<char>, from: usize, to: usize) -> (r: String)
    requires
        from <= to <= cs@.len(),
    ensures
        r@ == cs@.subrange(from as int, to as int),
{
    let mut r = String::new();
    let mut i = from;
    while i < to
        invariant
            from <= i <= to <= cs@.len(),
            r@ == cs@.subrange(from as int, i as int),
        decreases to - i,
    {
        push_char(&mut r, cs[i]);
        assert(r@ =~= cs@.subrange(from as int, i + 1));
        i = i + 1;
    }
    r
}

/// The string made of the characters `cs`.
pub fn string_of_chars(cs: &Vec<char>) -> (r: String)
    ensures
        r@ == cs@,
{
    let r = string_of_range(cs, 0, cs.len());
    assert(cs@.subrange(0, cs@.len() as int) =~= cs@);
    r
}


/// `s` without its leading white space.
pub open spec fn trim_start(s: Seq<char>) -> Seq<char>
    decreases s.len(),
{
    if s.len() > 0 && is_white_space(s[0]) {
        trim_start(s.drop_first())
    } else {
        s
    }
}

/// `s` without its trailing white space.
pub open spec fn trim_end(s: Seq<char>) -> Seq<char>
    decreases s.len(),
{
    if s.len() > 0 && is_white_space(s.last()) {
        trim_end(s.drop_last())
    } else {
        s
    }
}

/// `s` without leading and trailing white space, as `str::trim` gives it.
pub open spec fn trim(s: Seq<char>) -> Seq<char> {
    trim_end(trim_start(s))
}

/// The white-space separated words of `s`, as `str::split_whitespace` yields them.
pub open spec fn words(s: Seq<char>) -> Seq<Seq<char>>
    decreases s.len(),
{
    if s.len() == 0 {
        Seq::empty()
    } else {
        let w = words(s.drop_last());
        let c = s.last();
        if is_white_space(c) {
            w
        } else if s.len() >= 2 && !is_white_space(s[s.len() - 2]) {
            w.update(w.len() - 1, w.last().push(c))
        } else {
            w.push(seq![c])
        }
    }
}

/// The index of the first character of `cs[from..]` that is not white space
/// (or `cs.len()` when there is none).
pub fn skip_white_space(cs: &Vec<char>, from: usize) -> (i: usize)
    requires
        from <= cs@.len(),
    ensures
        from <= i <= cs@.len(),
        trim_start(cs@.subrange(from as int, cs@.len() as int)) == cs@.subrange(i as int, cs@.len() as int),
        i < cs@.len() ==> !is_white_space(cs@[i as int]),
        forall|k: int| from <= k < i ==> is_white_space(#[trigger] cs@[k]),
{
    let mut i = from;
    while i < cs.len() && char_is_whitespace(cs[i])
        invariant
            from <= i <= cs@.len(),
            trim_start(cs@.subrange(from as int, cs@.len() as int)) == trim_start(cs@.subrange(i as int, cs@.len() as int)),
            forall|k: int| from <= k < i ==> is_white_space(#[trigger] cs@[k]),
        decreases cs@.len() - i,
    {
        assert(cs@.subrange(i as int, cs@.len() as int).drop_first() =~= cs@.subrange(i + 1, cs@.len() as int));
        i = i + 1;
    }
    i
}

/// The index just past the last character of `cs[..to]` that is not white space
/// (or `from` when there is none in `cs[from..to]`).
pub fn back_over_white_space(cs: &Vec<char>, from: usize, to: usize) -> (j: usize)
    requires
        from <= to <= cs@.len(),
    ensures
        from <= j <= to,
        trim_end(cs@.subrange(from as int, to as int)) == cs@.subrange(from as int, j as int),
        j > from ==> !is_white_space(cs@[j - 1]),
        forall|k: int| j <= k < to ==> is_white_space(#[trigger] cs@[k]),
{
    let mut j = to;
    while j > from && char_is_whitespace(cs[j - 1])
        invariant
            from <= j <= to <= cs@.len(),
            trim_end(cs@.subrange(from as int, to as int)) == trim_end(cs@.subrange(from as int, j as int)),
            forall|k: int| j <= k < to ==> is_white_space(#[trigger] cs@[k]),
        decreases j,
    {
        assert(cs@.subrange(from as int, j as int).drop_last() =~= cs@.subrange(from as int, j - 1));
        j = j - 1;
    }
    j
}

/// The bounds of `trim(cs)` within `cs`.
pub fn trim_bounds(cs: &Vec<char>) -> (r: (usize, usize))
    ensures
        r.0 <= r.1 <= cs@.len(),
        cs@.subrange(r.0 as int, r.1 as int) == trim(cs@),
{
    let a = skip_white_space(cs, 0);
    assert(cs@.subrange(0, cs@.len() as int) =~= cs@);
    let b = back_over_white_space(cs, a, cs.len());
    (a, b)
}

/// `s` without leading and trailing white space.
pub fn trimmed(s: &str) -> (r: String)
    ensures
        r@ == trim(s@),
{
    let cs = chars_of(s);
    let (a, b) = trim_bounds(&cs);
    string_of_range(&cs, a, b)
}

/// The white-space separated words of `s`.
pub fn split_whitespace(s: &str) -> (r: Vec<String>)
    ensures
        string_views(r@) == words(s@),
{
    let cs = chars_of(s);
    let mut out: Vec<Vec<char>> = Vec::new();
    let mut i: usize = 0;
    while i < cs.len()
        invariant
            i <= cs@.len(),
            cs@ == s@,
            char_views(out@) == words(cs@.take(i as int)),
            i > 0 && !is_white_space(cs@[i - 1]) ==> out@.len() > 0,
        decreases cs@.len() - i,
    {
        let c = cs[i];
        let ghost prev = char_views(out@);
        assert(cs@.take(i + 1).drop_last() =~= cs@.take(i as int));
        if char_is_whitespace(c) {
        } else if i >= 1 && !char_is_whitespace(cs[i - 1]) {
            let last = out.len() - 1;
            let mut w = out.pop().unwrap();
            w.push(c);
            out.push(w);
            assert(char_views(out@) =~= prev.update(last as int, prev.last().push(c)));
        } else {
            let mut w: Vec<char> = Vec::new();
            w.push(c);
            out.push(w);
            assert(char_views(out@) =~= prev.push(seq![c]));
        }
        i = i + 1;
    }
    assert(cs@.take(cs@.len() as int) =~= cs@);
    let mut r: Vec<String> = Vec::new();
    let mut k: usize = 0;
    while k < out.len()
        invariant
            k <= out@.len(),
            char_views(out@) == words(s@),
            string_views(r@) == char_views(out@).take(k as int),
        decreases out@.len() - k,
    {
        let ghost before = r@;
        assert(string_views(before).len() == before.len());
        assert(before.len() == k);
        let w = string_of_chars(&out[k]);
        r.push(w);
        assert(r@ == before.push(w));
        assert(string_views(r@) =~= char_views(out@).take(k + 1)) by {
            assert forall|j: int| 0 <= j < k + 1 implies #[trigger] string_views(r@)[j] == char_views(out@).take(k + 1)[j] by {
                if j < k {
                    assert(r@[j] == before[j]);
                }
            }
        }
        k = k + 1;
    }
    assert(char_views(out@).take(k as int) =~= char_views(out@));
    r
}

/// The character sequences of a sequence of strings.
pub open spec fn string_views(v: Seq<String>) -> Seq<Seq<char>> {
    v.map_values(|w: String| w@)
}

/// The character sequences of a sequence of character vectors.
pub open spec fn char_views(v: Seq<Vec<char>>) -> Seq<Seq<char>> {
    v.map_values(|w: Vec<char>| w@)
}

/// Whether `c` is an ASCII decimal digit.
pub open spec fn is_digit(c: char) -> bool {
    '0' <= c <= '9'
}

/// The value of the decimal digit `c`.
pub open spec fn digit_value(c: char) -> nat {
    (c as nat - '0' as nat) as nat
}

/// The digit character for `d < 10`.
pub open spec fn digit_char(d: nat) -> char {
    ((d + '0' as nat) as u32) as char
}

/// The value of a sequence of decimal digits.
pub open spec fn digits_value(s: Seq<char>) -> nat
    decreases s.len(),
{
    if s.len() == 0 {
        0
    } else {
        digits_value(s.drop_last()) * 10 + digit_value(s.last())
    }
}

/// Whether every character of `s` is a decimal digit.
pub open spec fn all_digits(s: Seq<char>) -> bool {
    forall|i: int| 0 <= i < s.len() ==> is_digit(#[trigger] s[i])
}

/// The decimal text of `n`, with no leading zeros.
pub open spec fn decimal(n: nat) -> Seq<char>
    decreases n,
{
    if n < 10 {
        seq![digit_char(n)]
    } else {
        decimal(n / 10).push(digit_char(n % 10))
    }
}

/// The decimal text of the integer `n`, with a leading `-` when it is negative.
pub open spec fn signed_decimal(n: int) -> Seq<char> {
    if n < 0 {
        seq!['-'] + decimal((-n) as nat)
    } else {
        decimal(n as nat)
    }
}

/// What `u64::from_str` gives for `s`: an optional `+` followed by one or more decimal digits
/// whose value fits in a `u64`.
pub open spec fn parse_u64_spec(s: Seq<char>) -> Option<u64> {
    let d = if s.len() > 0 && s[0] == '+' { s.drop_first() } else { s };
    if d.len() > 0 && all_digits(d) && digits_value(d) <= u64::MAX {
        Some(digits_value(d) as u64)
    } else {
        None
    }
}

/// The value of an integer written as an optional `-` followed by one or more decimal digits.
pub open spec fn parse_integer_spec(s: Seq<char>) -> Option<int> {
    let neg = s.len() > 0 && s[0] == '-';
    let d = if neg { s.drop_first() } else { s };
    if d.len() > 0 && all_digits(d) {
        Some(if neg { -(digits_value(d) as int) } else { digits_value(d) as int })
    } else {
        None
    }
}

proof fn lemma_digits_value_bound(s: Seq<char>)
    requires
        all_digits(s),
    ensures
        digits_value(s) < pow10(s.len()),
    decreases s.len(),
{
    if s.len() > 0 {
        assert(all_digits(s.drop_last())) by {
            assert forall|i: int| 0 <= i < s.drop_last().len() implies is_digit(#[trigger] s.drop_last()[i]) by {
                assert(s.drop_last()[i] == s[i]);
            }
        }
        lemma_digits_value_bound(s.drop_last());
        assert(is_digit(s[s.len() - 1]));
    }
}

/// `10` to the power `n`.
pub open spec fn pow10(n: nat) -> nat
    decreases n,
{
    if n == 0 {
        1
    } else {
        10 * pow10((n - 1) as nat)
    }
}

/// The value of the decimal digits `cs[from..to]`, or `None` when a character there is not a
/// digit or the value exceeds `limit`.
fn digits_upto(cs: &Vec<char>, from: usize, to: usize, limit: u64) -> (r: Option<u64>)
    requires
        from <= to <= cs@.len(),
        limit >= 9,
    ensures
        ({
            let d = cs@.subrange(from as int, to as int);
            match r {
                Some(v) => all_digits(d) && digits_value(d) == v && v <= limit,
                None => !all_digits(d) || digits_value(d) > limit,
            }
        }),
{
    let mut v: u64 = 0;
    let mut i = from;
    while i < to
        invariant
            from <= i <= to <= cs@.len(),
            all_digits(cs@.subrange(from as int, i as int)),
            digits_value(cs@.subrange(from as int, i as int)) == v,
            v <= limit,
            limit >= 9,
        decreases to - i,
    {
        let c = cs[i];
        let ghost pre = cs@.subrange(from as int, i as int);
        let ghost next = cs@.subrange(from as int, i + 1);
        assert(next.drop_last() =~= pre);
        if !('0' <= c && c <= '9') {
            assert(!all_digits(cs@.subrange(from as int, to as int))) by {
                assert(cs@.subrange(from as int, to as int)[i - from] == c);
            }
            return None;
        }
        let dv: u64 = (c as u32 - '0' as u32) as u64;
        assert(dv == digit_value(c));
        if v > (limit - dv) / 10 {
            proof {
                assert(digits_value(next) == v * 10 + dv);
                assert(v * 10 + dv > limit) by (nonlinear_arith)
                    requires v > (limit - dv) / 10, dv <= 9, dv <= limit || v * 10 + dv > limit;
                lemma_digits_prefix_monotone(cs@.subrange(from as int, to as int), (i + 1 - from) as nat);
                assert(cs@.subrange(from as int, to as int).take(i + 1 - from) =~= next);
            }
            return None;
        }
        assert(v * 10 + dv <= limit) by (nonlinear_arith)
            requires v <= (limit - dv) / 10, dv <= limit;
        v = v * 10 + dv;
        assert(all_digits(next)) by {
            assert forall|k: int| 0 <= k < next.len() implies is_digit(#[trigger] next[k]) by {
                if k < pre.len() {
                    assert(next[k] == pre[k]);
                }
            }
        }
        i = i + 1;
    }
    Some(v)
}

/// A longer prefix of a digit sequence never has a smaller value; a sequence that is not all
/// digits stays so when extended.
proof fn lemma_digits_prefix_monotone(s: Seq<char>, k: nat)
    requires
        k <= s.len(),
    ensures
        all_digits(s) ==> digits_value(s.take(k as int)) <= digits_value(s),
    decreases s.len() - k,
{
    if k < s.len() && all_digits(s) {
        lemma_digits_prefix_monotone(s, k + 1);
        assert(s.take(k as int + 1).drop_last() =~= s.take(k as int));
    } else if k == s.len() {
        assert(s.take(k as int) =~= s);
    }
}

/// Parses a `u64` as `u64::from_str` does.
pub fn parse_u64(s: &str) -> (r: Option<u64>)
    ensures
        r == parse_u64_spec(s@),
{
    let cs = chars_of(s);
    let start: usize = if cs.len() > 0 && cs[0] == '+' { 1 } else { 0 };
    let ghost d = if s@.len() > 0 && s@[0] == '+' { s@.drop_first() } else { s@ };
    assert(cs@.subrange(start as int, cs@.len() as int) =~= d);
    if start == cs.len() {
        return None;
    }
    digits_upto(&cs, start, cs.len(), u64::MAX)
}

/// Parses an integer written as an optional `-` and decimal digits, when its value fits in an `i32`.
pub fn parse_i32(s: &str) -> (r: Option<i32>)
    ensures
        match r {
            Some(v) => parse_integer_spec(s@) == Some(v as int),
            None => parse_integer_spec(s@) matches Some(n) ==> (n < i32::MIN || n > i32::MAX),
        },
{
    let cs = chars_of(s);
    let neg = cs.len() > 0 && cs[0] == '-';
    let start: usize = if neg { 1 } else { 0 };
    let ghost d = if neg { s@.drop_first() } else { s@ };
    assert(cs@.subrange(start as int, cs@.len() as int) =~= d);
    if start == cs.len() {
        return None;
    }
    let limit: u64 = if neg { 2147483648 } else { 2147483647 };
    match digits_upto(&cs, start, cs.len(), limit) {
        Some(v) => {
            if neg {
                if v == 2147483648 {
                    Some(-2147483647i32 - 1)
                } else {
                    Some(-(v as i32))
                }
            } else {
                Some(v as i32)
            }
        },
        None => None,
    }
}

/// The decimal text of `n`.
pub fn u64_to_text(n: u64) -> (r: String)
    ensures
        r@ == decimal(n as nat),
    decreases n,
{
    let d: u64 = n % 10;
    let c: char = if d == 0 { '0' } else if d == 1 { '1' } else if d == 2 { '2' } else if d == 3 { '3' }
        else if d == 4 { '4' } else if d == 5 { '5' } else if d == 6 { '6' } else if d == 7 { '7' }
        else if d == 8 { '8' } else { '9' };
    assert(c == digit_char(d as nat));
    if n < 10 {
        let mut r = String::new();
        push_char(&mut r, c);
        assert(r@ =~= seq![c]);
        r
    } else {
        let mut r = u64_to_text(n / 10);
        push_char(&mut r, c);
        r
    }
}

/// The decimal text of `n`, with a leading `-` when it is negative.
pub fn i64_to_text(n: i64) -> (r: String)
    ensures
        r@ == signed_decimal(n as int),
{
    if n < 0 {
        let m: u64 = if n == i64::MIN { 9223372036854775808u64 } else { (-n) as u64 };
        let t = u64_to_text(m);
        let mut r = String::new();
        push_char(&mut r, '-');
        push_str(&mut r, t.as_str());
        assert(r@ =~= seq!['-'] + decimal((-n) as nat));
        r
    } else {
        u64_to_text(n as u64)
    }
}

/// The strings `ws` written one after another with `sep` between them, as `[String]::join`
/// gives them.
pub open spec fn joined(ws: Seq<Seq<char>>, sep: Seq<char>) -> Seq<char>
    decreases ws.len(),
{
    if ws.len() == 0 {
        Seq::empty()
    } else if ws.len() == 1 {
        ws[0]
    } else {
        joined(ws.drop_last(), sep) + sep + ws.last()
    }
}

/// The strings `ws` joined with `sep` between them.
pub fn join_with(ws: &Vec<String>, sep: &str) -> (r: String)
    ensures
        r@ == joined(string_views(ws@), sep@),
{
    let mut out = String::new();
    let mut i: usize = 0;
    while i < ws.len()
        invariant
            i <= ws@.len(),
            out@ == joined(string_views(ws@).take(i as int), sep@),
        decreases ws@.len() - i,
    {
        let ghost before = out@;
        if i > 0 {
            push_str(&mut out, sep);
        }
        push_str(&mut out, ws[i].as_str());
        proof {
            let t = string_views(ws@).take(i + 1);
            assert(t.drop_last() =~= string_views(ws@).take(i as int));
            assert(t.last() == ws@[i as int]@);
            if i == 0 {
                assert(out@ =~= t[0]);
            } else {
                assert(out@ =~= before + sep@ + t.last());
            }
        }
        i = i + 1;
    }
    assert(string_views(ws@).take(i as int) =~= string_views(ws@));
    out
}

/// The index of the first `c` in `s`.
pub open spec fn first_index(s: Seq<char>, c: char) -> Option<int>
    decreases s.len(),
{
    if s.len() == 0 {
        None
    } else {
        match first_index(s.drop_last(), c) {
            Some(i) => Some(i),
            None => if s.last() == c { Some(s.len() - 1) } else { None },
        }
    }
}

/// `s` split around its first `c`, as `str::split_once` splits it.
pub open spec fn split_once_spec(s: Seq<char>, c: char) -> Option<(Seq<char>, Seq<char>)> {
    match first_index(s, c) {
        Some(i) => Some((s.take(i), s.skip(i + 1))),
        None => None,
    }
}

proof fn lemma_first_index(s: Seq<char>, c: char, n: int)
    requires
        0 <= n <= s.len(),
    ensures
        first_index(s.take(n), c) matches Some(i) ==> 0 <= i < n && s[i] == c && forall|k: int| 0 <= k < i ==> s[k] != c,
        first_index(s.take(n), c) is None ==> forall|k: int| 0 <= k < n ==> s[k] != c,
    decreases n,
{
    if n > 0 {
        lemma_first_index(s, c, n - 1);
        assert(s.take(n).drop_last() =~= s.take(n - 1));
    }
}

/// Splits `s` around its first `c`.
pub fn split_once(s: &str, c: char) -> (r: Option<(String, String)>)
    ensures
        match r {
            Some((a, b)) => split_once_spec(s@, c) == Some((a@, b@)),
            None => split_once_spec(s@, c) is None,
        },
{
    let cs = chars_of(s);
    let mut i: usize = 0;
    while i < cs.len()
        invariant
            i <= cs@.len(),
            cs@ == s@,
            forall|k: int| 0 <= k < i ==> cs@[k] != c,
        decreases cs@.len() - i,
    {
        if cs[i] == c {
            proof {
                lemma_first_index(cs@, c, cs@.len() as int);
                assert(cs@.take(cs@.len() as int) =~= cs@);
            }
            let a = string_of_range(&cs, 0, i);
            let b = string_of_range(&cs, i + 1, cs.len());
            assert(cs@.subrange(0, i as int) =~= cs@.take(i as int));
            assert(cs@.subrange(i + 1, cs@.len() as int) =~= cs@.skip(i + 1));
            return Some((a, b));
        }
        i = i + 1;
    }
    proof {
        lemma_first_index(cs@, c, cs@.len() as int);
        assert(cs@.take(cs@.len() as int) =~= cs@);
    }
    None
}

} // verus!
