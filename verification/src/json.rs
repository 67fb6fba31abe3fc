//! A plain model of the JSON values the wire protocol moves, and the
//! pieces of the canonical encoding the client emits.
//!
//! Replies from the request executor are handed to the library as
//! values of [`JsonValue`]; commands are rendered to JSON text by the
//! functions here, so the exact bytes put on the wire are stated in the
//! contracts.

use vstd::prelude::*;

verus! {

/// A JSON value, as far as the protocol reads one.  Numbers are kept as
/// signed integers where they fit; an unsigned value above the signed
/// range is kept apart, and a number that is neither carries nothing
/// the protocol ever reads.
#[derive(Debug)]
pub enum JsonValue {
    Null,
    Bool(bool),
    Int(i64),
    Big(u64),
    OtherNum,
    Str(String),
    Arr(Vec<JsonValue>),
    Obj(Vec<(String, JsonValue)>),
}

impl JsonValue {
    /// What reading the value as a signed integer yields.
    pub open spec fn spec_as_i64(&self) -> Option<i64> {
        match self {
            JsonValue::Int(i) => Some(*i),
            _ => None,
        }
    }

    /// What reading the value as an unsigned integer yields.
    pub open spec fn spec_as_u64(&self) -> Option<u64> {
        match self {
            JsonValue::Int(i) => if *i >= 0 {
                Some(*i as u64)
            } else {
                None
            },
            JsonValue::Big(u) => Some(*u),
            _ => None,
        }
    }

    /// What reading the value as a boolean yields.
    pub open spec fn spec_as_bool(&self) -> Option<bool> {
        match self {
            JsonValue::Bool(b) => Some(*b),
            _ => None,
        }
    }

    /// What reading the value as a string yields.
    pub open spec fn spec_as_str(&self) -> Option<Seq<char>> {
        match self {
            JsonValue::Str(s) => Some(s@),
            _ => None,
        }
    }

    pub fn as_i64(&self) -> (r: Option<i64>)
        ensures
            r == self.spec_as_i64(),
    {
        match self {
            JsonValue::Int(i) => Some(*i),
            _ => None,
        }
    }

    pub fn as_u64(&self) -> (r: Option<u64>)
        ensures
            r == self.spec_as_u64(),
    {
        match self {
            JsonValue::Int(i) => if *i >= 0 {
                Some(*i as u64)
            } else {
                None
            },
            JsonValue::Big(u) => Some(*u),
            _ => None,
        }
    }

    pub fn as_bool(&self) -> (r: Option<bool>)
        ensures
            r == self.spec_as_bool(),
    {
        match self {
            JsonValue::Bool(b) => Some(*b),
            _ => None,
        }
    }
}

/// First binding of `key` among `fields`, searched from position `i`.
pub open spec fn spec_lookup_from(
    fields: Seq<(String, JsonValue)>,
    key: Seq<char>,
    i: int,
) -> Option<JsonValue>
    decreases fields.len() - i,
{
    if i < 0 || i >= fields.len() {
        None
    } else if fields[i].0@ == key {
        Some(fields[i].1)
    } else {
        spec_lookup_from(fields, key, i + 1)
    }
}

/// First binding of `key` in an object's fields.
pub open spec fn spec_lookup(fields: Seq<(String, JsonValue)>, key: Seq<char>) -> Option<
    JsonValue,
> {
    spec_lookup_from(fields, key, 0)
}

/// Find the first binding of `key` in an object's field list.
pub fn lookup<'a>(fields: &'a Vec<(String, JsonValue)>, key: &str) -> (r: Option<&'a JsonValue>)
    ensures
        match r {
            Some(v) => spec_lookup(fields@, key@) == Some(*v),
            None => spec_lookup(fields@, key@) is None,
        },
{
    let k = key.to_owned();
    let n = fields.len();
    let mut i: usize = 0;
    while i < n
        invariant
            i <= n,
            n == fields@.len(),
            k@ == key@,
            spec_lookup(fields@, key@) == spec_lookup_from(fields@, key@, i as int),
        decreases n - i,
    {
        if fields[i].0 == k {
            return Some(&fields[i].1);
        }
        i = i + 1;
    }
    None
}

/// The decimal digit characters.
pub open spec fn spec_digit_str(d: int) -> Seq<char> {
    if d == 0 {
        "0"@
    } else if d == 1 {
        "1"@
    } else if d == 2 {
        "2"@
    } else if d == 3 {
        "3"@
    } else if d == 4 {
        "4"@
    } else if d == 5 {
        "5"@
    } else if d == 6 {
        "6"@
    } else if d == 7 {
        "7"@
    } else if d == 8 {
        "8"@
    } else {
        "9"@
    }
}

/// The decimal rendering of an unsigned number, most significant digit
/// first, with no leading zero except for zero itself.
pub open spec fn spec_u64_dec(n: nat) -> Seq<char>
    decreases n,
{
    if n < 10 {
        spec_digit_str(n as int)
    } else {
        spec_u64_dec(n / 10) + spec_digit_str((n % 10) as int)
    }
}

/// The decimal rendering of a signed number.
pub open spec fn spec_i64_dec(n: int) -> Seq<char> {
    if n >= 0 {
        spec_u64_dec(n as nat)
    } else {
        "-"@ + spec_u64_dec((-n) as nat)
    }
}

fn digit_str(d: u64) -> (r: &'static str)
    requires
        d < 10,
    ensures
        r@ == spec_digit_str(d as int),
{
    match d {
        0 => "0",
        1 => "1",
        2 => "2",
        3 => "3",
        4 => "4",
        5 => "5",
        6 => "6",
        7 => "7",
        8 => "8",
        _ => "9",
    }
}

/// Render an unsigned number in decimal.
pub fn u64_dec(n: u64) -> (r: String)
    ensures
        r@ == spec_u64_dec(n as nat),
    decreases n,
{
    if n < 10 {
        digit_str(n).to_owned()
    } else {
        let mut s = u64_dec(n / 10);
        s.append(digit_str(n % 10));
        s
    }
}

/// Render a signed number in decimal.
pub fn i64_dec(n: i64) -> (r: String)
    ensures
        r@ == spec_i64_dec(n as int),
{
    if n >= 0 {
        u64_dec(n as u64)
    } else {
        let m: u64 = if n == i64::MIN {
            9223372036854775808u64
        } else {
            (-n) as u64
        };
        let mut s = String::from_str("-");
        let digits = u64_dec(m);
        s.append(digits.as_str());
        s
    }
}

/// The lowercase hexadecimal digit characters.
pub open spec fn spec_hex_str(d: int) -> Seq<char> {
    if d < 10 {
        spec_digit_str(d)
    } else if d == 10 {
        "a"@
    } else if d == 11 {
        "b"@
    } else if d == 12 {
        "c"@
    } else if d == 13 {
        "d"@
    } else if d == 14 {
        "e"@
    } else {
        "f"@
    }
}

fn hex_str(d: u32) -> (r: &'static str)
    requires
        d < 16,
    ensures
        r@ == spec_hex_str(d as int),
{
    match d {
        0 => "0",
        1 => "1",
        2 => "2",
        3 => "3",
        4 => "4",
        5 => "5",
        6 => "6",
        7 => "7",
        8 => "8",
        9 => "9",
        10 => "a",
        11 => "b",
        12 => "c",
        13 => "d",
        14 => "e",
        _ => "f",
    }
}

/// The characters that cannot stand unescaped inside a JSON string.
pub open spec fn spec_needs_escape(c: char) -> bool {
    c == '"' || c == '\\' || (c as u32) < 32
}

/// How one character is written inside a JSON string: the two-character
/// escapes the encoding has names for, a `\u00` escape for the other
/// control characters, and the character itself otherwise.
pub open spec fn spec_escape_char(c: char) -> Seq<char> {
    if c == '"' {
        "\\\""@
    } else if c == '\\' {
        "\\\\"@
    } else if c == '\u{8}' {
        "\\b"@
    } else if c == '\u{c}' {
        "\\f"@
    } else if c == '\n' {
        "\\n"@
    } else if c == '\r' {
        "\\r"@
    } else if c == '\t' {
        "\\t"@
    } else if (c as u32) < 32 {
        "\\u00"@ + spec_hex_str((c as u32) as int / 16) + spec_hex_str((c as u32) as int % 16)
    } else {
        seq![c]
    }
}

/// The escaped body of a JSON string.
pub open spec fn spec_escape(s: Seq<char>) -> Seq<char>
    decreases s.len(),
{
    if s.len() == 0 {
        Seq::empty()
    } else {
        spec_escape_char(s[0]) + spec_escape(s.drop_first())
    }
}

/// A JSON string literal: quote, escaped body, quote.
pub open spec fn spec_json_string(s: Seq<char>) -> Seq<char> {
    "\""@ + spec_escape(s) + "\""@
}

/// Escaping distributes over concatenation.
pub proof fn lemma_escape_concat(a: Seq<char>, b: Seq<char>)
    ensures
        spec_escape(a + b) == spec_escape(a) + spec_escape(b),
    decreases a.len(),
{
    if a.len() == 0 {
        assert(a + b =~= b);
        assert(spec_escape(a) + spec_escape(b) =~= spec_escape(b));
    } else {
        assert((a + b).drop_first() =~= a.drop_first() + b);
        assert((a + b)[0] == a[0]);
        lemma_escape_concat(a.drop_first(), b);
        assert(spec_escape(a + b) =~= spec_escape(a) + spec_escape(b));
    }
}

/// A string without characters to escape is its own escaped body.
pub proof fn lemma_escape_plain(a: Seq<char>)
    requires
        forall|i: int| 0 <= i < a.len() ==> !spec_needs_escape(a[i]),
    ensures
        spec_escape(a) == a,
    decreases a.len(),
{
    if a.len() == 0 {
        assert(spec_escape(a) =~= a);
    } else {
        lemma_escape_plain(a.drop_first());
        assert(spec_escape_char(a[0]) == seq![a[0]]);
        assert(spec_escape(a) =~= a);
    }
}

proof fn lemma_escape_flush_step(s: Seq<char>, start: int, i: int)
    requires
        0 <= start <= i < s.len(),
        forall|j: int| start <= j < i ==> !spec_needs_escape(s[j]),
        spec_needs_escape(s[i]),
    ensures
        spec_escape(s.subrange(0, i + 1)) == spec_escape(s.subrange(0, start)) + s.subrange(
            start,
            i,
        ) + spec_escape_char(s[i]),
{
    let pre = s.subrange(0, start);
    let run = s.subrange(start, i);
    let esc = seq![s[i]];
    assert(s.subrange(0, i + 1) =~= pre + (run + esc));
    lemma_escape_concat(pre, run + esc);
    lemma_escape_concat(run, esc);
    lemma_escape_plain(run);
    assert(spec_escape(esc) =~= spec_escape_char(s[i])) by {
        reveal_with_fuel(spec_escape, 2);
        assert(esc.drop_first() =~= Seq::<char>::empty());
        assert(spec_escape_char(s[i]) + Seq::<char>::empty() =~= spec_escape_char(s[i]));
    }
    assert(spec_escape(s.subrange(0, i + 1)) =~= spec_escape(pre) + run + spec_escape_char(s[i]));
}

proof fn lemma_escape_final_flush(s: Seq<char>, start: int)
    requires
        0 <= start <= s.len(),
        forall|j: int| start <= j < s.len() ==> !spec_needs_escape(s[j]),
    ensures
        spec_escape(s) == spec_escape(s.subrange(0, start)) + s.subrange(start, s.len() as int),
{
    let pre = s.subrange(0, start);
    let run = s.subrange(start, s.len() as int);
    assert(s =~= pre + run);
    lemma_escape_concat(pre, run);
    lemma_escape_plain(run);
}

/// Append the escaped body of `s` to `out`.
fn append_escaped(out: &mut String, s: &str)
    ensures
        final(out)@ == old(out)@ + spec_escape(s@),
{
    let n = s.unicode_len();
    let mut start: usize = 0;
    let mut i: usize = 0;
    proof {
        assert(s@.subrange(0, 0) =~= Seq::<char>::empty());
        assert(old(out)@ + Seq::<char>::empty() =~= old(out)@);
    }
    while i < n
        invariant
            start <= i <= n,
            n == s@.len(),
            out@ == old(out)@ + spec_escape(s@.subrange(0, start as int)),
            forall|j: int| start <= j < i ==> !spec_needs_escape(s@[j]),
        decreases n - i,
    {
        let c = s.get_char(i);
        let code = c as u32;
        if c == '"' || c == '\\' || code < 32 {
            let run = s.substring_char(start, i);
            out.append(run);
            if c == '"' {
                out.append("\\\"");
            } else if c == '\\' {
                out.append("\\\\");
            } else if c == '\u{8}' {
                out.append("\\b");
            } else if c == '\u{c}' {
                out.append("\\f");
            } else if c == '\n' {
                out.append("\\n");
            } else if c == '\r' {
                out.append("\\r");
            } else if c == '\t' {
                out.append("\\t");
            } else {
                out.append("\\u00");
                out.append(hex_str(code / 16));
                out.append(hex_str(code % 16));
            }
            proof {
                lemma_escape_flush_step(s@, start as int, i as int);
                assert(out@ =~= old(out)@ + spec_escape(s@.subrange(0, i + 1)));
            }
            start = i + 1;
        }
        i = i + 1;
    }
    let run = s.substring_char(start, n);
    out.append(run);
    proof {
        lemma_escape_final_flush(s@, start as int);
        assert(out@ =~= old(out)@ + spec_escape(s@));
    }
}

/// Append the JSON string literal for `s` to `out`.
pub fn append_json_string(out: &mut String, s: &str)
    ensures
        final(out)@ == old(out)@ + spec_json_string(s@),
{
    out.append("\"");
    append_escaped(out, s);
    out.append("\"");
    proof {
        assert(out@ =~= old(out)@ + spec_json_string(s@));
    }
}

} // verus!
