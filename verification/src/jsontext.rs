//! Framing and checking of the small slice of JSON this layer exchanges
//! with the external evaluation engine.
//!
//! Outbound, the fetch request embeds a JSON document describing a
//! repository fetch; inbound, the engine answers with a single JSON scalar
//! (a quoted string or a boolean).  Both directions are plain functions on
//! characters with exact contracts.  Escape sequences of the form `\uXXXX`
//! are not produced for anything but control characters and are rejected on
//! input; the values exchanged here are store paths and platform names,
//! which never need them.

use vstd::prelude::*;
use vstd::string::*;

use crate::locator::{opt_view, GitInfo, GitInfoV};
use crate::strutil::{push_char, str_eq};

verus! {

/// The lowercase hexadecimal digit of a value below sixteen.
pub open spec fn hex_digit(n: int) -> char {
    seq!['0', '1', '2', '3', '4', '5', '6', '7', '8', '9', 'a', 'b', 'c', 'd', 'e', 'f'][n]
}

/// How one character is written inside a JSON string literal.
pub open spec fn json_escape_char(c: char) -> Seq<char> {
    if c == '"' {
        seq!['\\', '"']
    } else if c == '\\' {
        seq!['\\', '\\']
    } else if c == '\u{8}' {
        seq!['\\', 'b']
    } else if c == '\u{c}' {
        seq!['\\', 'f']
    } else if c == '\n' {
        seq!['\\', 'n']
    } else if c == '\r' {
        seq!['\\', 'r']
    } else if c == '\t' {
        seq!['\\', 't']
    } else if (c as u32) < 0x20 {
        seq!['\\', 'u', '0', '0', hex_digit((c as u32) as int / 16), hex_digit(
            (c as u32) as int % 16,
        )]
    } else {
        seq![c]
    }
}

/// A whole string, escaped for a JSON string literal.
pub open spec fn json_escaped(s: Seq<char>) -> Seq<char>
    decreases s.len(),
{
    if s.len() == 0 {
        Seq::empty()
    } else {
        json_escaped(s.drop_last()) + json_escape_char(s.last())
    }
}

/// The JSON text of a string value, quotes included.
pub open spec fn json_str(s: Seq<char>) -> Seq<char> {
    seq!['"'] + json_escaped(s) + seq!['"']
}

/// The JSON text of an optional string: `null` when absent.
pub open spec fn json_opt_str(o: Option<Seq<char>>) -> Seq<char> {
    match o {
        None => "null"@,
        Some(s) => json_str(s),
    }
}

/// The JSON text of a boolean.
pub open spec fn json_bool(b: bool) -> Seq<char> {
    if b {
        "true"@
    } else {
        "false"@
    }
}

/// The JSON document of a repository fetch, fields in declaration order,
/// with no whitespace.
pub open spec fn spec_git_info_json(i: GitInfoV) -> Seq<char> {
    "{\"url\":"@ + json_str(i.url) + ",\"rev\":"@ + json_opt_str(i.rev) + ",\"ref\":"@
        + json_opt_str(i.reference) + ",\"dir\":"@ + json_opt_str(i.dir) + ",\"submodules\":"@
        + json_bool(i.submodules) + "}"@
}

/// The hexadecimal digit character of a value below sixteen.
fn hex_digit_char(n: usize) -> (c: char)
    requires
        n < 16,
    ensures
        c == hex_digit(n as int),
{
    if n == 0 {
        '0'
    } else if n == 1 {
        '1'
    } else if n == 2 {
        '2'
    } else if n == 3 {
        '3'
    } else if n == 4 {
        '4'
    } else if n == 5 {
        '5'
    } else if n == 6 {
        '6'
    } else if n == 7 {
        '7'
    } else if n == 8 {
        '8'
    } else if n == 9 {
        '9'
    } else if n == 10 {
        'a'
    } else if n == 11 {
        'b'
    } else if n == 12 {
        'c'
    } else if n == 13 {
        'd'
    } else if n == 14 {
        'e'
    } else {
        'f'
    }
}

/// Append the JSON escape of one character.
fn append_escaped_char(out: &mut String, c: char)
    ensures
        final(out)@ == old(out)@ + json_escape_char(c),
{
    if c == '"' {
        out.append("\\\"");
        proof {
            reveal_strlit("\\\"");
            assert("\\\""@ =~= seq!['\\', '"']);
        }
    } else if c == '\\' {
        out.append("\\\\");
        proof {
            reveal_strlit("\\\\");
            assert("\\\\"@ =~= seq!['\\', '\\']);
        }
    } else if c == '\u{8}' {
        out.append("\\b");
        proof {
            reveal_strlit("\\b");
            assert("\\b"@ =~= seq!['\\', 'b']);
        }
    } else if c == '\u{c}' {
        out.append("\\f");
        proof {
            reveal_strlit("\\f");
            assert("\\f"@ =~= seq!['\\', 'f']);
        }
    } else if c == '\n' {
        out.append("\\n");
        proof {
            reveal_strlit("\\n");
            assert("\\n"@ =~= seq!['\\', 'n']);
        }
    } else if c == '\r' {
        out.append("\\r");
        proof {
            reveal_strlit("\\r");
            assert("\\r"@ =~= seq!['\\', 'r']);
        }
    } else if c == '\t' {
        out.append("\\t");
        proof {
            reveal_strlit("\\t");
            assert("\\t"@ =~= seq!['\\', 't']);
        }
    } else if (c as u32) < 0x20 {
        let code: u32 = c as u32;
        out.append("\\u00");
        let hi = hex_digit_char((code / 16) as usize);
        push_char(out, hi);
        let lo = hex_digit_char((code % 16) as usize);
        push_char(out, lo);
        proof {
            reveal_strlit("\\u00");
            assert("\\u00"@ =~= seq!['\\', 'u', '0', '0']);
            assert(old(out)@ + "\\u00"@ + seq![hi] + seq![lo] =~= old(out)@ + json_escape_char(c));
        }
    } else {
        push_char(out, c);
    }
}

/// Append a string as a JSON string literal, quotes included.
fn append_json_str(out: &mut String, s: &str)
    ensures
        final(out)@ == old(out)@ + json_str(s@),
{
    let n = s.unicode_len();
    push_char(out, '"');
    let mut i: usize = 0;
    proof {
        assert(json_escaped(s@.take(0)) =~= Seq::<char>::empty());
        assert(out@ =~= old(out)@ + seq!['"'] + json_escaped(s@.take(0)));
    }
    while i < n
        invariant
            i <= n,
            n == s@.len(),
            out@ == old(out)@ + seq!['"'] + json_escaped(s@.take(i as int)),
        decreases n - i,
    {
        let c = s.get_char(i);
        append_escaped_char(out, c);
        proof {
            assert(s@.take(i + 1).drop_last() =~= s@.take(i as int));
            assert(s@.take(i + 1).last() == c);
            assert(out@ =~= old(out)@ + seq!['"'] + json_escaped(s@.take(i + 1)));
        }
        i += 1;
    }
    push_char(out, '"');
    proof {
        assert(s@.take(n as int) =~= s@);
        assert(out@ =~= old(out)@ + json_str(s@));
    }
}

/// Append an optional string as JSON: a string literal or `null`.
fn append_json_opt(out: &mut String, o: &Option<String>)
    ensures
        final(out)@ == old(out)@ + json_opt_str(opt_view(*o)),
{
    match o {
        Some(s) => append_json_str(out, s.as_str()),
        None => out.append("null"),
    }
}

/// The JSON document describing a repository fetch, exactly as
/// [`spec_git_info_json`] lays it out.
pub fn git_info_json(info: &GitInfo) -> (r: String)
    ensures
        r@ == spec_git_info_json(info@),
{
    let mut out = String::from_str("{\"url\":");
    append_json_str(&mut out, info.url.as_str());
    out.append(",\"rev\":");
    append_json_opt(&mut out, &info.rev);
    out.append(",\"ref\":");
    append_json_opt(&mut out, &info.reference);
    out.append(",\"dir\":");
    append_json_opt(&mut out, &info.dir);
    out.append(",\"submodules\":");
    if info.submodules {
        out.append("true");
    } else {
        out.append("false");
    }
    out.append("}");
    proof {
        assert(out@ =~= spec_git_info_json(info@));
    }
    out
}

/// What one escape character after a backslash stands for; `None` for the
/// escapes this layer does not accept (`\uXXXX` among them).
pub open spec fn json_unescape_char(c: char) -> Option<char> {
    if c == '"' {
        Some('"')
    } else if c == '\\' {
        Some('\\')
    } else if c == '/' {
        Some('/')
    } else if c == 'b' {
        Some('\u{8}')
    } else if c == 'f' {
        Some('\u{c}')
    } else if c == 'n' {
        Some('\n')
    } else if c == 'r' {
        Some('\r')
    } else if c == 't' {
        Some('\t')
    } else {
        None
    }
}

/// What the inside of a JSON string literal (quotes already removed)
/// denotes; `None` when it is malformed.
pub open spec fn spec_json_string_body(s: Seq<char>) -> Option<Seq<char>>
    decreases s.len(),
{
    if s.len() == 0 {
        Some(Seq::empty())
    } else if s[0] == '\\' {
        if s.len() < 2 {
            None
        } else {
            match json_unescape_char(s[1]) {
                None => None,
                Some(c) => match spec_json_string_body(s.skip(2)) {
                    None => None,
                    Some(rest) => Some(seq![c] + rest),
                },
            }
        }
    } else if s[0] == '"' || (s[0] as u32) < 0x20 {
        None
    } else {
        match spec_json_string_body(s.drop_first()) {
            None => None,
            Some(rest) => Some(seq![s[0]] + rest),
        }
    }
}

/// What a complete JSON string literal denotes; `None` when the text is not
/// one.
pub open spec fn spec_parse_json_string(s: Seq<char>) -> Option<Seq<char>> {
    if s.len() >= 2 && s[0] == '"' && s[s.len() - 1] == '"' {
        spec_json_string_body(s.subrange(1, s.len() - 1))
    } else {
        None
    }
}

/// The mirror of [`json_unescape_char`].
fn exec_unescape(c: char) -> (r: Option<char>)
    ensures
        r == json_unescape_char(c),
{
    if c == '"' {
        Some('"')
    } else if c == '\\' {
        Some('\\')
    } else if c == '/' {
        Some('/')
    } else if c == 'b' {
        Some('\u{8}')
    } else if c == 'f' {
        Some('\u{c}')
    } else if c == 'n' {
        Some('\n')
    } else if c == 'r' {
        Some('\r')
    } else if c == 't' {
        Some('\t')
    } else {
        None
    }
}

/// Parse a JSON string literal, exactly as [`spec_parse_json_string`]
/// describes it.
pub fn parse_json_string(s: &str) -> (r: Option<String>)
    ensures
        match r {
            Some(v) => spec_parse_json_string(s@) == Some(v@),
            None => spec_parse_json_string(s@) is None,
        },
{
    let n = s.unicode_len();
    if n < 2 || s.get_char(0) != '"' || s.get_char(n - 1) != '"' {
        return None;
    }
    let ghost body = s@.subrange(1, n as int - 1);
    let mut out = String::new();
    let mut i: usize = 1;
    let end = n - 1;
    proof {
        assert(body.skip(0) =~= body);
    }
    while i < end
        invariant
            1 <= i <= end,
            end == n - 1,
            n == s@.len(),
            n >= 2,
            body == s@.subrange(1, n as int - 1),
            spec_json_string_body(body) == (match spec_json_string_body(body.skip(i - 1)) {
                None => None::<Seq<char>>,
                Some(rest) => Some(out@ + rest),
            }),
        decreases end - i,
    {
        let ghost rem = body.skip(i - 1);
        proof {
            assert(rem.len() == end - i);
            assert(rem[0] == s@[i as int]);
        }
        let c = s.get_char(i);
        if c == '\\' {
            if i + 1 >= end {
                return None;
            }
            proof {
                assert(rem[1] == s@[i as int + 1]);
            }
            let e = s.get_char(i + 1);
            match exec_unescape(e) {
                None => {
                    return None;
                },
                Some(u) => {
                    let ghost out0 = out@;
                    push_char(&mut out, u);
                    proof {
                        assert(rem.skip(2) =~= body.skip(i + 1 as int));
                        assert forall|rest: Seq<char>| true implies out0 + (seq![u] + rest) =~= out@
                            + rest by {}
                    }
                    i += 2;
                },
            }
        } else if c == '"' {
            return None;
        } else if (c as u32) < 0x20 {
            return None;
        } else {
            let ghost out0 = out@;
            push_char(&mut out, c);
            proof {
                assert(rem.drop_first() =~= body.skip(i as int));
                assert forall|rest: Seq<char>| true implies out0 + (seq![c] + rest) =~= out@
                    + rest by {}
            }
            i += 1;
        }
    }
    proof {
        assert(body.skip(end - 1) =~= Seq::<char>::empty());
        assert(out@ + Seq::<char>::empty() =~= out@);
    }
    Some(out)
}

/// A string whose control characters all have named escapes; every other
/// control character is written as `\u00XX`, which the reader here does
/// not accept back.
pub open spec fn roundtrip_chars(s: Seq<char>) -> bool {
    forall|i: int|
        0 <= i < s.len() ==> (#[trigger] s[i] as u32) >= 0x20 || s[i] == '\n' || s[i] == '\r'
            || s[i] == '\t' || s[i] == '\u{8}' || s[i] == '\u{c}'
}

proof fn lemma_json_escaped_concat(a: Seq<char>, b: Seq<char>)
    ensures
        json_escaped(a + b) == json_escaped(a) + json_escaped(b),
    decreases b.len(),
{
    if b.len() == 0 {
        assert(a + b =~= a);
        assert(json_escaped(a) + json_escaped(b) =~= json_escaped(a));
    } else {
        lemma_json_escaped_concat(a, b.drop_last());
        assert((a + b).drop_last() =~= a + b.drop_last());
        assert((a + b).last() == b.last());
        assert(json_escaped(a) + (json_escaped(b.drop_last()) + json_escape_char(b.last())) =~= (
        json_escaped(a) + json_escaped(b.drop_last())) + json_escape_char(b.last()));
    }
}

proof fn lemma_json_body_roundtrip(s: Seq<char>)
    requires
        roundtrip_chars(s),
    ensures
        spec_json_string_body(json_escaped(s)) == Some(s),
    decreases s.len(),
{
    if s.len() == 0 {
        assert(json_escaped(s) =~= Seq::<char>::empty());
    } else {
        let c = s[0];
        let rest = s.drop_first();
        assert(forall|i: int| 0 <= i < rest.len() ==> rest[i] == s[i + 1]);
        lemma_json_body_roundtrip(rest);
        assert(s =~= seq![c] + rest);
        lemma_json_escaped_concat(seq![c], rest);
        assert(seq![c].drop_last() =~= Seq::<char>::empty());
        assert(seq![c].last() == c);
        assert(json_escaped(Seq::<char>::empty()) == Seq::<char>::empty());
        assert(json_escaped(seq![c]) == json_escaped(Seq::<char>::empty()) + json_escape_char(c));
        assert(json_escaped(seq![c]) =~= json_escape_char(c));
        let e = json_escape_char(c) + json_escaped(rest);
        assert(json_escaped(s) == e);
        if c == '"' || c == '\\' || c == '\u{8}' || c == '\u{c}' || c == '\n' || c == '\r' || c
            == '\t' {
            // a named two-character escape: the reader consumes both
            // characters and yields the character back
            assert(e[0] == '\\');
            assert(e.len() >= 2);
            assert(json_unescape_char(e[1]) == Some(c));
            assert(e.skip(2) =~= json_escaped(rest));
            assert(spec_json_string_body(e) == Some(seq![c] + rest));
        } else {
            // an ordinary character is written as itself
            assert((c as u32) >= 0x20);
            assert(json_escape_char(c) =~= seq![c]);
            assert(e[0] == c);
            assert(e.drop_first() =~= json_escaped(rest));
            assert(spec_json_string_body(e) == Some(seq![c] + rest));
        }
        assert(Some(seq![c] + rest) == Some(s));
    }
}

/// What the library writes into a JSON string literal it reads back
/// unchanged: escaping and parsing are inverse on every string whose
/// control characters have named escapes.
pub proof fn lemma_json_string_roundtrip(s: Seq<char>)
    requires
        roundtrip_chars(s),
    ensures
        spec_parse_json_string(json_str(s)) == Some(s),
{
    lemma_json_body_roundtrip(s);
    let t = json_str(s);
    assert(t.len() >= 2);
    assert(t[0] == '"');
    assert(t[t.len() - 1] == '"');
    assert(t.subrange(1, t.len() - 1) =~= json_escaped(s));
}

/// What a JSON string literal positioned right after its opening quote
/// denotes, together with the number of characters it occupies up to and
/// including its closing quote; `None` when it is malformed.
pub open spec fn spec_string_tail(s: Seq<char>) -> Option<(Seq<char>, int)>
    decreases s.len(),
{
    if s.len() == 0 {
        None
    } else if s[0] == '"' {
        Some((Seq::empty(), 1int))
    } else if s[0] == '\\' {
        if s.len() < 2 {
            None
        } else {
            match json_unescape_char(s[1]) {
                None => None,
                Some(c) => match spec_string_tail(s.skip(2)) {
                    None => None,
                    Some(p) => Some((seq![c] + p.0, p.1 + 2)),
                },
            }
        }
    } else if (s[0] as u32) < 0x20 {
        None
    } else {
        match spec_string_tail(s.drop_first()) {
            None => None,
            Some(p) => Some((seq![s[0]] + p.0, p.1 + 1)),
        }
    }
}

/// A parsed literal consumes at least its closing quote and never more
/// than the text it was given.
pub proof fn lemma_string_tail_bounds(s: Seq<char>)
    ensures
        spec_string_tail(s) matches Some(p) ==> 1 <= p.1 <= s.len(),
    decreases s.len(),
{
    if s.len() > 0 && s[0] == '\\' && s.len() >= 2 {
        lemma_string_tail_bounds(s.skip(2));
    } else if s.len() > 0 {
        lemma_string_tail_bounds(s.drop_first());
    }
}

/// What the items of a JSON array of strings denote, the text positioned
/// right after the opening bracket or a comma: a string literal, then
/// either a comma and more items or the closing bracket ending the text.
pub open spec fn spec_array_items(s: Seq<char>) -> Option<Seq<Seq<char>>>
    decreases s.len(),
{
    if s.len() == 0 || s[0] != '"' {
        None
    } else {
        match spec_string_tail(s.drop_first()) {
            None => None,
            Some(p) => if 1 <= p.1 && 1 + p.1 <= s.len() {
                let rest = s.skip(1 + p.1);
                if rest.len() == 1 && rest[0] == ']' {
                    Some(seq![p.0])
                } else if rest.len() > 1 && rest[0] == ',' {
                    match spec_array_items(rest.drop_first()) {
                        None => None,
                        Some(items) => Some(seq![p.0] + items),
                    }
                } else {
                    None
                }
            } else {
                // `spec_string_tail` never consumes out of range
                // (`lemma_string_tail_bounds`), so this arm is vacuous.
                None
            },
        }
    }
}

/// What a complete JSON array of strings denotes, in the compact form the
/// engine prints; `None` when the text is not one.
pub open spec fn spec_parse_json_string_array(s: Seq<char>) -> Option<Seq<Seq<char>>> {
    if s.len() >= 1 && s[0] == '[' {
        if s.len() == 2 && s[1] == ']' {
            Some(Seq::empty())
        } else {
            spec_array_items(s.skip(1))
        }
    } else {
        None
    }
}

/// The literal at position `from`, right after its opening quote.
fn string_tail_exec(s: &str, from: usize) -> (r: Option<(String, usize)>)
    requires
        from <= s@.len(),
    ensures
        match r {
            Some(p) => spec_string_tail(s@.skip(from as int)) == Some((p.0@, p.1 as int)),
            None => spec_string_tail(s@.skip(from as int)) is None,
        },
    decreases s@.len() - from,
{
    let n = s.unicode_len();
    let ghost tail = s@.skip(from as int);
    if from >= n {
        return None;
    }
    let c = s.get_char(from);
    proof {
        assert(tail[0] == c);
    }
    if c == '"' {
        let v = String::new();
        proof {
            assert(v@ =~= Seq::<char>::empty());
        }
        return Some((v, 1));
    }
    if c == '\\' {
        if from + 1 >= n {
            return None;
        }
        proof {
            assert(tail[1] == s@[from as int + 1]);
        }
        match exec_unescape(s.get_char(from + 1)) {
            None => None,
            Some(u) => {
                proof {
                    assert(tail.skip(2) =~= s@.skip(from as int + 2));
                }
                match string_tail_exec(s, from + 2) {
                    None => None,
                    Some(p) => {
                        proof {
                            lemma_string_tail_bounds(s@.skip(from as int + 2));
                        }
                        let mut v = String::new();
                        push_char(&mut v, u);
                        v.append(p.0.as_str());
                        proof {
                            assert(v@ =~= seq![u] + p.0@);
                        }
                        Some((v, p.1 + 2))
                    },
                }
            },
        }
    } else if (c as u32) < 0x20 {
        None
    } else {
        proof {
            assert(tail.drop_first() =~= s@.skip(from as int + 1));
        }
        match string_tail_exec(s, from + 1) {
            None => None,
            Some(p) => {
                proof {
                    lemma_string_tail_bounds(s@.skip(from as int + 1));
                }
                let mut v = String::new();
                push_char(&mut v, c);
                v.append(p.0.as_str());
                proof {
                    assert(v@ =~= seq![c] + p.0@);
                }
                Some((v, p.1 + 1))
            },
        }
    }
}

/// The items of the array, the text positioned right after the opening
/// bracket or a comma.
fn array_items_exec(s: &str, pos: usize) -> (r: Option<Vec<String>>)
    requires
        pos <= s@.len(),
    ensures
        match r {
            Some(v) => spec_array_items(s@.skip(pos as int)) == Some(
                v@.map_values(|t: String| t@),
            ),
            None => spec_array_items(s@.skip(pos as int)) is None,
        },
    decreases s@.len() - pos,
{
    let n = s.unicode_len();
    let ghost seg = s@.skip(pos as int);
    if pos >= n {
        return None;
    }
    if s.get_char(pos) != '"' {
        proof {
            assert(seg[0] != '"');
        }
        return None;
    }
    proof {
        assert(seg[0] == '"');
        assert(seg.drop_first() =~= s@.skip(pos as int + 1));
    }
    match string_tail_exec(s, pos + 1) {
        None => None,
        Some(p) => {
            proof {
                lemma_string_tail_bounds(s@.skip(pos as int + 1));
                assert(seg.skip(1 + p.1 as int) =~= s@.skip(pos as int + 1 + p.1 as int));
            }
            let after = pos + 1 + p.1;
            if after >= n {
                return None;
            }
            let d = s.get_char(after);
            proof {
                assert(s@.skip(after as int)[0] == d);
            }
            if d == ']' {
                if after == n - 1 {
                    proof {
                        assert(s@.skip(after as int).len() == 1);
                    }
                    let mut v: Vec<String> = Vec::new();
                    v.push(p.0);
                    proof {
                        assert(v@.map_values(|t: String| t@) =~= seq![v@[0]@]);
                    }
                    return Some(v);
                }
                proof {
                    assert(s@.skip(after as int).len() > 1);
                }
                return None;
            }
            if d != ',' {
                return None;
            }
            proof {
                if after < n - 1 {
                    assert(s@.skip(after as int).len() > 1);
                    assert(s@.skip(after as int).drop_first() =~= s@.skip(after as int + 1));
                } else {
                    // a trailing comma: the items after it parse to nothing
                    assert(s@.skip(after as int + 1).len() == 0);
                }
            }
            match array_items_exec(s, after + 1) {
                None => None,
                Some(tail_items) => {
                    let ghost tv = tail_items@;
                    let mut v: Vec<String> = Vec::new();
                    v.push(p.0);
                    let mut rest = tail_items;
                    v.append(&mut rest);
                    proof {
                        assert(v@.map_values(|t: String| t@) =~= seq![v@[0]@] + tv.map_values(
                            |t: String| t@,
                        ));
                    }
                    Some(v)
                },
            }
        },
    }
}

/// Parse a compact JSON array of strings, exactly as
/// [`spec_parse_json_string_array`] describes it.
pub fn parse_json_string_array(s: &str) -> (r: Option<Vec<String>>)
    ensures
        match r {
            Some(v) => spec_parse_json_string_array(s@) == Some(
                v@.map_values(|t: String| t@),
            ),
            None => spec_parse_json_string_array(s@) is None,
        },
{
    let n = s.unicode_len();
    if n == 0 || s.get_char(0) != '[' {
        return None;
    }
    if n == 2 && s.get_char(1) == ']' {
        let v: Vec<String> = Vec::new();
        proof {
            assert(v@.map_values(|t: String| t@) =~= Seq::<Seq<char>>::empty());
        }
        return Some(v);
    }
    array_items_exec(s, 1)
}

/// Parse a JSON boolean: exactly the texts `true` and `false`.
pub fn parse_json_bool(s: &str) -> (r: Option<bool>)
    ensures
        s@ == "true"@ ==> r == Some(true),
        s@ == "false"@ ==> r == Some(false),
        s@ != "true"@ && s@ != "false"@ ==> r is None,
{
    proof {
        reveal_strlit("true");
        reveal_strlit("false");
        assert("true"@.len() == 4);
        assert("false"@.len() == 5);
        assert("true"@ != "false"@);
    }
    if str_eq(s, "true") {
        Some(true)
    } else if str_eq(s, "false") {
        Some(false)
    } else {
        None
    }
}

} // verus!
