//! Verified helpers for working with strings as sequences of characters.
//!
//! Everything downstream (the locator grammar, the expression builders, the
//! help-text scraper) states its contracts over `Seq<char>`; this module
//! supplies the executable operations together with the spec-level functions
//! those contracts use.

use vstd::prelude::*;
use vstd::string::*;

verus! {

/// The index of the first occurrence of `sep` in `s`, if any.
pub open spec fn first_occ(s: Seq<char>, sep: char) -> Option<int>
    decreases s.len(),
{
    if s.len() == 0 {
        None
    } else if s[0] == sep {
        Some(0int)
    } else {
        match first_occ(s.drop_first(), sep) {
            None => None,
            Some(i) => Some(i + 1),
        }
    }
}

pub broadcast proof fn lemma_first_occ_bounds(s: Seq<char>, sep: char)
    ensures
        (#[trigger] first_occ(s, sep)) matches Some(i) ==> 0 <= i < s.len() && s[i] == sep,
    decreases s.len(),
{
    if s.len() > 0 && s[0] != sep {
        lemma_first_occ_bounds(s.drop_first(), sep);
    }
}

/// A witness at index `i` with nothing earlier pins down `first_occ`.
pub proof fn lemma_first_occ_some(s: Seq<char>, sep: char, i: int)
    requires
        0 <= i < s.len(),
        s[i] == sep,
        forall|j: int| 0 <= j < i ==> s[j] != sep,
    ensures
        first_occ(s, sep) == Some(i),
    decreases s.len(),
{
    if s[0] == sep {
        assert(i == 0);
    } else {
        assert(forall|j: int| 0 <= j < i - 1 ==> s.drop_first()[j] == s[j + 1]);
        lemma_first_occ_some(s.drop_first(), sep, i - 1);
    }
}

/// No occurrence anywhere means `first_occ` is `None`.
pub proof fn lemma_first_occ_none(s: Seq<char>, sep: char)
    requires
        forall|j: int| 0 <= j < s.len() ==> s[j] != sep,
    ensures
        first_occ(s, sep) is None,
    decreases s.len(),
{
    if s.len() > 0 {
        assert(forall|j: int| 0 <= j < s.len() - 1 ==> s.drop_first()[j] == s[j + 1]);
        lemma_first_occ_none(s.drop_first(), sep);
    }
}

/// The index of the last occurrence of `sep` in `s`, if any.
pub open spec fn last_occ(s: Seq<char>, sep: char) -> Option<int>
    decreases s.len(),
{
    if s.len() == 0 {
        None
    } else if s[s.len() - 1] == sep {
        Some(s.len() - 1)
    } else {
        last_occ(s.drop_last(), sep)
    }
}

pub broadcast proof fn lemma_last_occ_bounds(s: Seq<char>, sep: char)
    ensures
        (#[trigger] last_occ(s, sep)) matches Some(i) ==> 0 <= i < s.len() && s[i] == sep,
    decreases s.len(),
{
    if s.len() > 0 && s[s.len() - 1] != sep {
        lemma_last_occ_bounds(s.drop_last(), sep);
    }
}

/// A witness at index `i` with nothing later pins down `last_occ`.
pub proof fn lemma_last_occ_some(s: Seq<char>, sep: char, i: int)
    requires
        0 <= i < s.len(),
        s[i] == sep,
        forall|j: int| i < j < s.len() ==> s[j] != sep,
    ensures
        last_occ(s, sep) == Some(i),
    decreases s.len(),
{
    if s[s.len() - 1] == sep {
        assert(i == s.len() - 1);
    } else {
        assert(forall|j: int| 0 <= j < s.len() - 1 ==> s.drop_last()[j] == s[j]);
        lemma_last_occ_some(s.drop_last(), sep, i);
    }
}

/// No occurrence anywhere means `last_occ` is `None`.
pub proof fn lemma_last_occ_none(s: Seq<char>, sep: char)
    requires
        forall|j: int| 0 <= j < s.len() ==> s[j] != sep,
    ensures
        last_occ(s, sep) is None,
    decreases s.len(),
{
    if s.len() > 0 {
        lemma_last_occ_none(s.drop_last(), sep);
    }
}

/// `s` begins with `p`.
pub open spec fn spec_starts_with(s: Seq<char>, p: Seq<char>) -> bool {
    p.len() <= s.len() && s.subrange(0, p.len() as int) == p
}

/// The segments of `s` between occurrences of `sep`; always non-empty,
/// and an empty `s` yields one empty segment.
pub open spec fn split_seq(s: Seq<char>, sep: char) -> Seq<Seq<char>>
    decreases s.len(),
{
    match first_occ(s, sep) {
        None => seq![s],
        Some(i) => if 0 <= i < s.len() {
            seq![s.subrange(0, i)] + split_seq(s.subrange(i + 1, s.len() as int), sep)
        } else {
            // `first_occ` never yields an index out of range
            // (`lemma_first_occ_bounds`), so this arm is vacuous.
            seq![s]
        },
    }
}

pub proof fn lemma_split_seq_nonempty(s: Seq<char>, sep: char)
    ensures
        split_seq(s, sep).len() >= 1,
{
}

/// The view of each string in a vector, in order.
pub open spec fn views_of(v: Seq<String>) -> Seq<Seq<char>> {
    v.map_values(|t: String| t@)
}

/// Compare two string slices character by character.
pub fn str_eq(a: &str, b: &str) -> (r: bool)
    ensures
        r == (a@ == b@),
{
    let an = a.unicode_len();
    let bn = b.unicode_len();
    if an != bn {
        proof {
            assert(a@ != b@) by {
                if a@ == b@ {
                    assert(a@.len() == b@.len());
                }
            }
        }
        return false;
    }
    let mut i: usize = 0;
    while i < an
        invariant
            i <= an,
            an == a@.len(),
            an == b@.len(),
            forall|j: int| 0 <= j < i ==> a@[j] == b@[j],
        decreases an - i,
    {
        if a.get_char(i) != b.get_char(i) {
            proof {
                assert(a@ != b@) by {
                    if a@ == b@ {
                        assert(a@[i as int] == b@[i as int]);
                    }
                }
            }
            return false;
        }
        i += 1;
    }
    proof {
        assert(a@ =~= b@);
    }
    true
}

/// Does `s` start with `p`?
pub fn starts_with_str(s: &str, p: &str) -> (r: bool)
    ensures
        r == spec_starts_with(s@, p@),
{
    let pn = p.unicode_len();
    let sn = s.unicode_len();
    if pn > sn {
        return false;
    }
    let mut i: usize = 0;
    while i < pn
        invariant
            i <= pn,
            pn == p@.len(),
            sn == s@.len(),
            pn <= sn,
            forall|j: int| 0 <= j < i ==> s@[j] == p@[j],
        decreases pn - i,
    {
        if s.get_char(i) != p.get_char(i) {
            proof {
                assert(!spec_starts_with(s@, p@)) by {
                    if spec_starts_with(s@, p@) {
                        assert(s@.subrange(0, p@.len() as int)[i as int] == p@[i as int]);
                    }
                }
            }
            return false;
        }
        i += 1;
    }
    proof {
        assert(s@.subrange(0, p@.len() as int) =~= p@);
    }
    true
}

/// The first occurrence of `sep` at or after `from`, as an absolute index.
pub fn find_char_from(s: &str, sep: char, from: usize) -> (r: Option<usize>)
    requires
        from <= s@.len(),
    ensures
        match r {
            Some(i) => from <= i < s@.len() && s@[i as int] == sep && forall|j: int|
                from <= j < i ==> s@[j] != sep,
            None => forall|j: int| from <= j < s@.len() ==> s@[j] != sep,
        },
{
    let n = s.unicode_len();
    let mut i: usize = from;
    while i < n
        invariant
            from <= i <= n,
            n == s@.len(),
            forall|j: int| from <= j < i ==> s@[j] != sep,
        decreases n - i,
    {
        if s.get_char(i) == sep {
            return Some(i);
        }
        i += 1;
    }
    None
}

/// The last occurrence of `sep` in `s`.
pub fn rfind_char(s: &str, sep: char) -> (r: Option<usize>)
    ensures
        match r {
            Some(i) => i < s@.len() && s@[i as int] == sep && forall|j: int|
                i < j < s@.len() ==> s@[j] != sep,
            None => forall|j: int| 0 <= j < s@.len() ==> s@[j] != sep,
        },
{
    let n = s.unicode_len();
    let mut i: usize = n;
    while i > 0
        invariant
            i <= n,
            n == s@.len(),
            forall|j: int| i <= j < n ==> s@[j] != sep,
        decreases i,
    {
        i -= 1;
        if s.get_char(i) == sep {
            return Some(i);
        }
    }
    None
}

/// An owned copy of the characters of `s` from `from` to `to`.
pub fn substring_string(s: &str, from: usize, to: usize) -> (r: String)
    requires
        from <= to <= s@.len(),
    ensures
        r@ == s@.subrange(from as int, to as int),
{
    String::from_str(s.substring_char(from, to))
}

/// Append one character to a string.
///
/// Relies on `String::push`: appends exactly the given character and
/// nothing else.
#[verifier::external_body]
pub fn push_char(out: &mut String, c: char)
    ensures
        final(out)@ == old(out)@ + seq![c],
{
    out.push(c);
}

/// The concatenation of two string slices.
pub fn concat_str(a: &str, b: &str) -> (r: String)
    ensures
        r@ == a@ + b@,
{
    let mut r = String::from_str(a);
    r.append(b);
    r
}

/// Split `s` at every occurrence of `sep`.
pub fn split_string(s: &str, sep: char) -> (r: Vec<String>)
    ensures
        views_of(r@) == split_seq(s@, sep),
{
    let n = s.unicode_len();
    let mut r: Vec<String> = Vec::new();
    let mut pos: usize = 0;
    proof {
        assert(views_of(r@) =~= Seq::<Seq<char>>::empty());
        assert(s@.subrange(0, n as int) =~= s@);
    }
    loop
        invariant_except_break
            pos <= n,
            n == s@.len(),
            split_seq(s@, sep) == views_of(r@) + split_seq(s@.subrange(pos as int, n as int), sep),
        ensures
            views_of(r@) == split_seq(s@, sep),
        decreases n - pos,
    {
        let ghost tail = s@.subrange(pos as int, n as int);
        let ghost r0 = r@;
        match find_char_from(s, sep, pos) {
            Some(i) => {
                let piece = substring_string(s, pos, i);
                proof {
                    assert forall|j: int| 0 <= j < i - pos implies tail[j] != sep by {
                        assert(tail[j] == s@[pos + j]);
                    }
                    assert(tail[i - pos] == s@[i as int]);
                    lemma_first_occ_some(tail, sep, i - pos);
                    assert(tail.subrange(0, i - pos) =~= s@.subrange(pos as int, i as int));
                    assert(tail.subrange(i - pos + 1, tail.len() as int) =~= s@.subrange(
                        i + 1,
                        n as int,
                    ));
                }
                r.push(piece);
                proof {
                    assert(views_of(r@) =~= views_of(r0) + seq![piece@]);
                    assert(views_of(r0) + (seq![tail.subrange(0, i - pos)] + split_seq(
                        tail.subrange(i - pos + 1, tail.len() as int),
                        sep,
                    )) =~= views_of(r@) + split_seq(s@.subrange(i + 1, n as int), sep));
                }
                pos = i + 1;
            },
            None => {
                let piece = substring_string(s, pos, n);
                r.push(piece);
                proof {
                    lemma_first_occ_none(tail, sep);
                    assert(split_seq(tail, sep) == seq![tail]);
                    assert(views_of(r@) =~= views_of(r0) + seq![tail]);
                }
                break ;
            },
        }
    }
    r
}

/// A line with a trailing carriage return removed.
pub open spec fn strip_cr(l: Seq<char>) -> Seq<char> {
    if l.len() > 0 && l[l.len() - 1] == '\r' {
        l.drop_last()
    } else {
        l
    }
}

/// The lines of `s`: segments between `'\n'` characters, a final `'\n'`
/// acting as a terminator rather than a separator, each line losing a
/// trailing `'\r'`.
pub open spec fn lines_of(s: Seq<char>) -> Seq<Seq<char>> {
    if s.len() == 0 {
        Seq::empty()
    } else {
        let segs = split_seq(s, '\n');
        let kept = if s[s.len() - 1] == '\n' {
            segs.drop_last()
        } else {
            segs
        };
        kept.map_values(|l: Seq<char>| strip_cr(l))
    }
}

/// Split `s` into lines.
pub fn split_lines(s: &str) -> (r: Vec<String>)
    ensures
        views_of(r@) == lines_of(s@),
{
    let n = s.unicode_len();
    if n == 0 {
        let r: Vec<String> = Vec::new();
        proof {
            assert(views_of(r@) =~= lines_of(s@));
        }
        return r;
    }
    let mut segs = split_string(s, '\n');
    if s.get_char(n - 1) == '\n' {
        proof {
            lemma_split_seq_nonempty(s@, '\n');
            assert(views_of(segs@).len() == segs@.len());
        }
        let _ = segs.pop();
        proof {
            assert(views_of(segs@) =~= split_seq(s@, '\n').drop_last());
        }
    }
    let ghost kept = views_of(segs@);
    let mut out: Vec<String> = Vec::new();
    let mut i: usize = 0;
    while i < segs.len()
        invariant
            i <= segs@.len(),
            out@.len() == i,
            kept == views_of(segs@),
            forall|k: int| 0 <= k < i ==> #[trigger] out@[k]@ == strip_cr(kept[k]),
        decreases segs@.len() - i,
    {
        let line: &String = &segs[i];
        let ln = line.as_str().unicode_len();
        if ln > 0 && line.as_str().get_char(ln - 1) == '\r' {
            let stripped = substring_string(line.as_str(), 0, ln - 1);
            proof {
                assert(stripped@ =~= strip_cr(kept[i as int]));
            }
            out.push(stripped);
        } else {
            out.push(line.clone());
        }
        i += 1;
    }
    proof {
        assert(views_of(out@) =~= kept.map_values(|l: Seq<char>| strip_cr(l)));
    }
    out
}

/// The key of a `key=value` query segment (the whole segment if it has no
/// `'='`).
pub open spec fn seg_key(seg: Seq<char>) -> Seq<char> {
    match first_occ(seg, '=') {
        None => seg,
        Some(i) => seg.subrange(0, i),
    }
}

/// The value of a `key=value` query segment (empty if it has no `'='`).
pub open spec fn seg_val(seg: Seq<char>) -> Seq<char> {
    match first_occ(seg, '=') {
        None => Seq::empty(),
        Some(i) => seg.subrange(i + 1, seg.len() as int),
    }
}

pub open spec fn qp_find(segs: Seq<Seq<char>>, key: Seq<char>) -> Option<Seq<char>>
    decreases segs.len(),
{
    if segs.len() == 0 {
        None
    } else if seg_key(segs[0]) == key {
        Some(seg_val(segs[0]))
    } else {
        qp_find(segs.drop_first(), key)
    }
}

/// The value of the first `&`-separated pair in `query` whose key is `key`.
/// Unknown keys are simply never found; no decoding of any kind is applied.
pub open spec fn qp_value(query: Seq<char>, key: Seq<char>) -> Option<Seq<char>> {
    qp_find(split_seq(query, '&'), key)
}

/// Look up `key` in an `&`-separated `key=value` query string.
pub fn query_get(query: &str, key: &str) -> (r: Option<String>)
    ensures
        match r {
            Some(v) => qp_value(query@, key@) == Some(v@),
            None => qp_value(query@, key@) is None,
        },
{
    let segs = split_string(query, '&');
    let n = segs.len();
    let mut idx: usize = 0;
    proof {
        assert(views_of(segs@).skip(0) =~= views_of(segs@));
    }
    while idx < n
        invariant
            idx <= n,
            n == segs@.len(),
            views_of(segs@) == split_seq(query@, '&'),
            qp_value(query@, key@) == qp_find(views_of(segs@).skip(idx as int), key@),
        decreases n - idx,
    {
        let seg: &String = &segs[idx];
        let ghost segv = segs@[idx as int]@;
        let segn = seg.as_str().unicode_len();
        let kv: (String, String) = match find_char_from(seg.as_str(), '=', 0) {
            Some(i) => {
                proof {
                    lemma_first_occ_some(segv, '=', i as int);
                }
                (substring_string(seg.as_str(), 0, i), substring_string(seg.as_str(), i + 1, segn))
            },
            None => {
                proof {
                    lemma_first_occ_none(segv, '=');
                }
                (seg.clone(), String::new())
            },
        };
        proof {
            assert(kv.0@ == seg_key(segv));
            assert(kv.1@ == seg_val(segv));
            assert(views_of(segs@).skip(idx as int)[0] == segv);
        }
        if str_eq(kv.0.as_str(), key) {
            return Some(kv.1);
        }
        proof {
            assert(views_of(segs@).skip(idx as int).drop_first() =~= views_of(segs@).skip(
                idx as int + 1,
            ));
        }
        idx += 1;
    }
    proof {
        assert(views_of(segs@).skip(n as int) =~= Seq::<Seq<char>>::empty());
    }
    None
}

/// A whitespace character, for trimming purposes.
pub open spec fn is_ws(c: char) -> bool {
    c == ' ' || c == '\t' || c == '\n' || c == '\r'
}

pub open spec fn trim_front(s: Seq<char>) -> Seq<char>
    decreases s.len(),
{
    if s.len() > 0 && is_ws(s[0]) {
        trim_front(s.drop_first())
    } else {
        s
    }
}

pub open spec fn trim_back(s: Seq<char>) -> Seq<char>
    decreases s.len(),
{
    if s.len() > 0 && is_ws(s[s.len() - 1]) {
        trim_back(s.drop_last())
    } else {
        s
    }
}

/// `s` with leading and trailing whitespace removed.
pub open spec fn spec_trim(s: Seq<char>) -> Seq<char> {
    trim_back(trim_front(s))
}

pub proof fn lemma_trim_front_at(s: Seq<char>, a: int)
    requires
        0 <= a <= s.len(),
        forall|j: int| 0 <= j < a ==> is_ws(s[j]),
        a < s.len() ==> !is_ws(s[a]),
    ensures
        trim_front(s) == s.subrange(a, s.len() as int),
    decreases a,
{
    if a == 0 {
        assert(s.subrange(0, s.len() as int) =~= s);
    } else {
        assert(is_ws(s[0]));
        assert(forall|j: int| 0 <= j < a - 1 ==> is_ws(s.drop_first()[j]));
        lemma_trim_front_at(s.drop_first(), a - 1);
        assert(s.drop_first().subrange(a - 1, s.len() - 1) =~= s.subrange(a, s.len() as int));
    }
}

pub proof fn lemma_trim_back_at(s: Seq<char>, b: int)
    requires
        0 <= b <= s.len(),
        forall|j: int| b <= j < s.len() ==> is_ws(s[j]),
        b > 0 ==> !is_ws(s[b - 1]),
    ensures
        trim_back(s) == s.subrange(0, b),
    decreases s.len() - b,
{
    if b == s.len() {
        assert(s.subrange(0, s.len() as int) =~= s);
    } else {
        assert(is_ws(s[s.len() - 1]));
        assert(forall|j: int| b <= j < s.len() - 1 ==> is_ws(s.drop_last()[j]));
        lemma_trim_back_at(s.drop_last(), b);
        assert(s.drop_last().subrange(0, b) =~= s.subrange(0, b));
    }
}

/// Is `c` whitespace?
pub fn is_ws_char(c: char) -> (r: bool)
    ensures
        r == is_ws(c),
{
    c == ' ' || c == '\t' || c == '\n' || c == '\r'
}

/// `s` with leading and trailing whitespace removed.
pub fn trim_str(s: &str) -> (r: String)
    ensures
        r@ == spec_trim(s@),
{
    let n = s.unicode_len();
    let mut a: usize = 0;
    while a < n && is_ws_char(s.get_char(a))
        invariant
            a <= n,
            n == s@.len(),
            forall|j: int| 0 <= j < a ==> is_ws(s@[j]),
        decreases n - a,
    {
        a += 1;
    }
    proof {
        lemma_trim_front_at(s@, a as int);
    }
    if a == n {
        proof {
            assert(trim_front(s@) =~= Seq::<char>::empty());
            lemma_trim_back_at(trim_front(s@), 0);
            assert(trim_back(trim_front(s@)) =~= Seq::<char>::empty());
        }
        let r = String::new();
        return r;
    }
    let mut b: usize = n;
    while b > a && is_ws_char(s.get_char(b - 1))
        invariant
            a <= b <= n,
            n == s@.len(),
            forall|j: int| b <= j < n ==> is_ws(s@[j]),
        decreases b,
    {
        b -= 1;
    }
    // the character at `a` is not whitespace, so the scan from the right
    // stopped at some b > a with s[b - 1] not whitespace
    proof {
        let ghost t = s@.subrange(a as int, n as int);
        assert(b > a) by {
            if b == a {
                assert(is_ws(s@[a as int]));
            }
        }
        assert(forall|j: int| b - a <= j < t.len() ==> is_ws(t[j]));
        lemma_trim_back_at(t, b - a);
        assert(t.subrange(0, b - a) =~= s@.subrange(a as int, b as int));
    }
    substring_string(s, a, b)
}

/// `sub` occurs in `s` at position `i`.
pub open spec fn sub_at(s: Seq<char>, sub: Seq<char>, i: int) -> bool {
    0 <= i && i + sub.len() <= s.len() && s.subrange(i, i + sub.len()) == sub
}

/// `sub` occurs somewhere in `s`.
pub open spec fn contains_seq(s: Seq<char>, sub: Seq<char>) -> bool {
    exists|i: int| sub_at(s, sub, i)
}

/// The position of the first occurrence of `sub` in `s`.
pub fn find_sub(s: &str, sub: &str) -> (r: Option<usize>)
    ensures
        match r {
            Some(i) => sub_at(s@, sub@, i as int) && forall|j: int|
                0 <= j < i ==> !sub_at(s@, sub@, j),
            None => !contains_seq(s@, sub@),
        },
{
    let n = s.unicode_len();
    let m = sub.unicode_len();
    if m > n {
        return None;
    }
    if m == 0 {
        proof {
            assert(s@.subrange(0, 0) =~= sub@);
            assert(sub_at(s@, sub@, 0));
        }
        return Some(0);
    }
    let mut i: usize = 0;
    while i <= n - m
        invariant
            0 < m <= n,
            i <= n - m + 1,
            n == s@.len(),
            m == sub@.len(),
            forall|j: int| 0 <= j < i ==> !sub_at(s@, sub@, j),
        decreases n - i,
    {
        if str_eq(s.substring_char(i, i + m), sub) {
            return Some(i);
        }
        i += 1;
    }
    proof {
        assert forall|j: int| true implies !sub_at(s@, sub@, j) by {
            if j < i {
            } else {
                assert(j + sub@.len() > s@.len());
            }
        }
    }
    None
}

/// Does `sub` occur in `s`?
pub fn contains_sub(s: &str, sub: &str) -> (r: bool)
    ensures
        r == contains_seq(s@, sub@),
{
    match find_sub(s, sub) {
        Some(_) => true,
        None => false,
    }
}

/// The index of the first occurrence of `sub` in `s`, if any.
pub open spec fn first_sub_occ(s: Seq<char>, sub: Seq<char>) -> Option<int>
    decreases s.len(),
{
    if s.len() < sub.len() {
        None
    } else if s.subrange(0, sub.len() as int) == sub {
        Some(0int)
    } else if s.len() == 0 {
        None
    } else {
        match first_sub_occ(s.drop_first(), sub) {
            None => None,
            Some(i) => Some(i + 1),
        }
    }
}

/// A witness at `i` with nothing earlier pins down `first_sub_occ`.
pub proof fn lemma_first_sub_occ_some(s: Seq<char>, sub: Seq<char>, i: int)
    requires
        sub_at(s, sub, i),
        forall|j: int| 0 <= j < i ==> !sub_at(s, sub, j),
    ensures
        first_sub_occ(s, sub) == Some(i),
    decreases s.len(),
{
    if i == 0 {
        assert(s.subrange(0, sub.len() as int) == sub);
    } else {
        assert(!sub_at(s, sub, 0));
        assert(s.subrange(0, sub.len() as int) != sub);
        assert(s.len() > 0);
        let t = s.drop_first();
        assert(sub_at(t, sub, i - 1)) by {
            assert(t.subrange(i - 1, i - 1 + sub.len()) =~= s.subrange(i, i + sub.len()));
        }
        assert forall|j: int| 0 <= j < i - 1 implies !sub_at(t, sub, j) by {
            if sub_at(t, sub, j) {
                assert(s.subrange(j + 1, j + 1 + sub.len()) =~= t.subrange(j, j + sub.len()));
                assert(sub_at(s, sub, j + 1));
            }
        }
        lemma_first_sub_occ_some(t, sub, i - 1);
    }
}

/// No occurrence anywhere means `first_sub_occ` is `None`.
pub proof fn lemma_first_sub_occ_none(s: Seq<char>, sub: Seq<char>)
    requires
        !contains_seq(s, sub),
    ensures
        first_sub_occ(s, sub) is None,
    decreases s.len(),
{
    assert(!sub_at(s, sub, 0));
    if s.len() >= sub.len() {
        assert(s.subrange(0, sub.len() as int) != sub);
    }
    if s.len() > 0 {
        let t = s.drop_first();
        assert forall|j: int| true implies !sub_at(t, sub, j) by {
            if sub_at(t, sub, j) {
                assert(s.subrange(j + 1, j + 1 + sub.len()) =~= t.subrange(j, j + sub.len()));
                assert(sub_at(s, sub, j + 1));
            }
        }
        lemma_first_sub_occ_none(t, sub);
    }
}

/// Every occurrence of `from` replaced by `to`, scanning once from the
/// left; requires a non-empty `from`.
pub open spec fn spec_replace(s: Seq<char>, from: Seq<char>, to: Seq<char>) -> Seq<char>
    decreases s.len(),
{
    match first_sub_occ(s, from) {
        None => s,
        Some(i) => if 0 <= i && from.len() > 0 && i + from.len() <= s.len() {
            s.take(i) + to + spec_replace(s.skip(i + from.len()), from, to)
        } else {
            // `first_sub_occ` never yields an occurrence out of range, so
            // with a non-empty `from` this arm is vacuous.
            s
        },
    }
}

/// Replace every occurrence of `from` by `to`, left to right.
pub fn replace_sub(s: &str, from: &str, to: &str) -> (r: String)
    requires
        from@.len() > 0,
    ensures
        r@ == spec_replace(s@, from@, to@),
{
    let n = s.unicode_len();
    let m = from.unicode_len();
    let mut out = String::new();
    let mut pos: usize = 0;
    proof {
        assert(s@.skip(0) =~= s@);
        assert(out@ + spec_replace(s@, from@, to@) =~= spec_replace(s@, from@, to@));
    }
    loop
        invariant_except_break
            pos <= n,
            n == s@.len(),
            m == from@.len(),
            m > 0,
            spec_replace(s@, from@, to@) == out@ + spec_replace(s@.skip(pos as int), from@, to@),
        ensures
            out@ == spec_replace(s@, from@, to@),
        decreases n - pos,
    {
        let ghost tail = s@.skip(pos as int);
        let rest = s.substring_char(pos, n);
        match find_sub(rest, from) {
            Some(i) => {
                proof {
                    lemma_first_sub_occ_some(tail, from@, i as int);
                }
                let ghost out0 = out@;
                let piece = s.substring_char(pos, pos + i);
                proof {
                    assert(piece@ =~= tail.take(i as int));
                }
                out.append(piece);
                out.append(to);
                proof {
                    assert(tail.skip(i + m) =~= s@.skip(pos + i + m));
                    assert(out0 + (tail.take(i as int) + to@ + spec_replace(
                        tail.skip(i + m),
                        from@,
                        to@,
                    )) =~= out@ + spec_replace(s@.skip(pos + i + m as int), from@, to@));
                }
                pos = pos + i + m;
            },
            None => {
                proof {
                    lemma_first_sub_occ_none(tail, from@);
                }
                out.append(rest);
                proof {
                    assert(out@ =~= spec_replace(s@, from@, to@));
                }
                break ;
            },
        }
    }
    out
}

/// The index of the first whitespace character in `s`, if any.
pub open spec fn first_ws_occ(s: Seq<char>) -> Option<int>
    decreases s.len(),
{
    if s.len() == 0 {
        None
    } else if is_ws(s[0]) {
        Some(0int)
    } else {
        match first_ws_occ(s.drop_first()) {
            None => None,
            Some(i) => Some(i + 1),
        }
    }
}

/// A witness at `i` with nothing earlier pins down `first_ws_occ`.
pub proof fn lemma_first_ws_occ_some(s: Seq<char>, i: int)
    requires
        0 <= i < s.len(),
        is_ws(s[i]),
        forall|j: int| 0 <= j < i ==> !is_ws(s[j]),
    ensures
        first_ws_occ(s) == Some(i),
    decreases s.len(),
{
    if is_ws(s[0]) {
        assert(i == 0);
    } else {
        assert(forall|j: int| 0 <= j < i - 1 ==> s.drop_first()[j] == s[j + 1]);
        lemma_first_ws_occ_some(s.drop_first(), i - 1);
    }
}

/// No whitespace anywhere means `first_ws_occ` is `None`.
pub proof fn lemma_first_ws_occ_none(s: Seq<char>)
    requires
        forall|j: int| 0 <= j < s.len() ==> !is_ws(s[j]),
    ensures
        first_ws_occ(s) is None,
    decreases s.len(),
{
    if s.len() > 0 {
        assert(forall|j: int| 0 <= j < s.len() - 1 ==> s.drop_first()[j] == s[j + 1]);
        lemma_first_ws_occ_none(s.drop_first());
    }
}

/// The first whitespace character at or after the start of `s`.
pub fn find_ws(s: &str) -> (r: Option<usize>)
    ensures
        match r {
            Some(i) => i < s@.len() && is_ws(s@[i as int]) && forall|j: int|
                0 <= j < i ==> !is_ws(s@[j]),
            None => forall|j: int| 0 <= j < s@.len() ==> !is_ws(s@[j]),
        },
{
    let n = s.unicode_len();
    let mut i: usize = 0;
    while i < n
        invariant
            i <= n,
            n == s@.len(),
            forall|j: int| 0 <= j < i ==> !is_ws(s@[j]),
        decreases n - i,
    {
        if is_ws_char(s.get_char(i)) {
            return Some(i);
        }
        i += 1;
    }
    None
}

/// `s` with leading whitespace removed.
pub fn trim_start_str(s: &str) -> (r: String)
    ensures
        r@ == trim_front(s@),
{
    let n = s.unicode_len();
    let mut a: usize = 0;
    while a < n && is_ws_char(s.get_char(a))
        invariant
            a <= n,
            n == s@.len(),
            forall|j: int| 0 <= j < a ==> is_ws(s@[j]),
        decreases n - a,
    {
        a += 1;
    }
    proof {
        lemma_trim_front_at(s@, a as int);
    }
    substring_string(s, a, n)
}

} // verus!
