//! Discovered plugins, kept sorted by name and free of duplicates.
//!
//! Scanning the search path and the directories on it happens outside the
//! library; every candidate found there is offered to [`insert_plugin`],
//! which maintains the discovery list's invariant: names strictly
//! increasing, the first sighting of a name winning.

use vstd::prelude::*;
use vstd::string::*;

use crate::strutil::str_eq;

verus! {

/// A discovered plugin: its bare name and the canonical path of its
/// executable.
#[derive(Debug, Clone)]
pub struct PluginInfo {
    pub name: String,
    pub path: String,
}

/// Strict lexicographic order on character sequences, by code point.
pub open spec fn str_lt(a: Seq<char>, b: Seq<char>) -> bool
    decreases a.len(),
{
    if b.len() == 0 {
        false
    } else if a.len() == 0 {
        true
    } else if a[0] != b[0] {
        (a[0] as u32) < (b[0] as u32)
    } else {
        str_lt(a.drop_first(), b.drop_first())
    }
}

/// Nothing is below itself.
pub proof fn lemma_str_lt_irrefl(a: Seq<char>)
    ensures
        !str_lt(a, a),
    decreases a.len(),
{
    if a.len() > 0 {
        lemma_str_lt_irrefl(a.drop_first());
    }
}

/// Any two sequences compare: below, above, or equal.
pub proof fn lemma_str_lt_connex(a: Seq<char>, b: Seq<char>)
    ensures
        str_lt(a, b) || str_lt(b, a) || a == b,
    decreases a.len(),
{
    if a.len() == 0 && b.len() == 0 {
        assert(a =~= b);
    } else if a.len() > 0 && b.len() > 0 {
        if a[0] != b[0] {
            // distinct characters have distinct code points
            vstd::utf8::char_u32_cast(a[0], a[0] as u32);
            vstd::utf8::char_u32_cast(b[0], b[0] as u32);
        }
        if a[0] == b[0] {
            lemma_str_lt_connex(a.drop_first(), b.drop_first());
            if a.drop_first() == b.drop_first() {
                assert(a =~= b) by {
                    assert(a.drop_first().len() == a.len() - 1);
                    assert(b.drop_first().len() == b.len() - 1);
                    assert(a.len() == b.len());
                    assert forall|i: int| 0 <= i < a.len() implies a[i] == b[i] by {
                        if i > 0 {
                            assert(a.drop_first()[i - 1] == b.drop_first()[i - 1]);
                        }
                    }
                }
            }
        }
    }
}

/// The order is transitive.
pub proof fn lemma_str_lt_trans(a: Seq<char>, b: Seq<char>, c: Seq<char>)
    requires
        str_lt(a, b),
        str_lt(b, c),
    ensures
        str_lt(a, c),
    decreases a.len(),
{
    if a.len() > 0 && b.len() > 0 && c.len() > 0 {
        if a[0] == b[0] && b[0] == c[0] {
            lemma_str_lt_trans(a.drop_first(), b.drop_first(), c.drop_first());
        }
    }
}

/// Compare two strings in the order of [`str_lt`].
pub fn str_lt_exec(a: &str, b: &str) -> (r: bool)
    ensures
        r == str_lt(a@, b@),
{
    let an = a.unicode_len();
    let bn = b.unicode_len();
    let mut i: usize = 0;
    proof {
        assert(a@.skip(0) =~= a@);
        assert(b@.skip(0) =~= b@);
    }
    while i < an && i < bn
        invariant
            i <= an,
            i <= bn,
            an == a@.len(),
            bn == b@.len(),
            str_lt(a@, b@) == str_lt(a@.skip(i as int), b@.skip(i as int)),
        decreases an - i,
    {
        let ca = a.get_char(i);
        let cb = b.get_char(i);
        proof {
            assert(a@.skip(i as int)[0] == ca);
            assert(b@.skip(i as int)[0] == cb);
        }
        if ca != cb {
            return (ca as u32) < (cb as u32);
        }
        proof {
            assert(a@.skip(i as int).drop_first() =~= a@.skip(i + 1));
            assert(b@.skip(i as int).drop_first() =~= b@.skip(i + 1));
        }
        i += 1;
    }
    proof {
        assert(a@.skip(i as int).len() == an - i);
        assert(b@.skip(i as int).len() == bn - i);
    }
    an < bn
}

/// The discovery list's invariant: names in strictly increasing order,
/// which also makes them unique.
pub open spec fn names_sorted(s: Seq<PluginInfo>) -> bool {
    forall|i: int, j: int|
        0 <= i < j < s.len() ==> str_lt(#[trigger] s[i].name@, #[trigger] s[j].name@)
}

/// Does the list already hold a plugin of this name?
pub open spec fn has_name(s: Seq<PluginInfo>, name: Seq<char>) -> bool {
    exists|i: int| 0 <= i < s.len() && (#[trigger] s[i].name@) == name
}

/// Offer a discovered plugin to the list.  A new name is inserted at its
/// ordered position; a name already present leaves the list exactly as it
/// was, so the first sighting of a name wins.
pub fn insert_plugin(plugins: &mut Vec<PluginInfo>, name: String, path: String) -> (added: bool)
    requires
        names_sorted(old(plugins)@),
    ensures
        names_sorted(final(plugins)@),
        added == !has_name(old(plugins)@, name@),
        !added ==> final(plugins)@ == old(plugins)@,
        added ==> exists|k: int|
            0 <= k <= old(plugins)@.len() && final(plugins)@ == old(plugins)@.insert(
                k,
                PluginInfo { name, path },
            ),
{
    let n = plugins.len();
    let mut i: usize = 0;
    while i < n && str_lt_exec(plugins[i].name.as_str(), name.as_str())
        invariant
            i <= n,
            n == plugins@.len(),
            plugins@ == old(plugins)@,
            forall|j: int| 0 <= j < i ==> str_lt(#[trigger] plugins@[j].name@, name@),
        decreases n - i,
    {
        i += 1;
    }
    if i < n && str_eq(plugins[i].name.as_str(), name.as_str()) {
        proof {
            assert(has_name(old(plugins)@, name@)) by {
                assert(plugins@[i as int].name@ == name@);
            }
        }
        return false;
    }
    proof {
        // the stopping element, if any, lies strictly above the new name
        if i < n {
            lemma_str_lt_connex(plugins@[i as int].name@, name@);
            assert(str_lt(name@, plugins@[i as int].name@));
        }
        // nothing in the list carries the new name
        assert(!has_name(old(plugins)@, name@)) by {
            if has_name(old(plugins)@, name@) {
                let w = choose|w: int|
                    0 <= w < plugins@.len() && (#[trigger] plugins@[w].name@) == name@;
                if w < i {
                    assert(str_lt(name@, name@));
                    lemma_str_lt_irrefl(name@);
                } else if w > i {
                    assert(str_lt(plugins@[i as int].name@, plugins@[w].name@));
                    lemma_str_lt_trans(name@, plugins@[i as int].name@, name@);
                    lemma_str_lt_irrefl(name@);
                }
            }
        }
    }
    let ghost before = plugins@;
    let ghost pos = i as int;
    plugins.insert(i, PluginInfo { name, path });
    proof {
        let after = plugins@;
        assert(after == before.insert(pos, PluginInfo { name, path }));
        assert(names_sorted(after)) by {
            assert forall|x: int, y: int| 0 <= x < y < after.len() implies str_lt(
                after[x].name@,
                after[y].name@,
            ) by {
                if x < pos && y < pos {
                    assert(after[x] == before[x] && after[y] == before[y]);
                } else if x < pos && y == pos {
                    assert(after[x] == before[x]);
                } else if x < pos && y > pos {
                    assert(after[x] == before[x] && after[y] == before[y - 1]);
                    if pos < y - 1 {
                        lemma_str_lt_trans(name@, before[pos].name@, before[y - 1].name@);
                    }
                    assert(str_lt(name@, before[y - 1].name@));
                    lemma_str_lt_trans(before[x].name@, name@, before[y - 1].name@);
                } else if x == pos && y > pos {
                    assert(after[y] == before[y - 1]);
                    if pos < y - 1 {
                        lemma_str_lt_trans(name@, before[pos].name@, before[y - 1].name@);
                    }
                } else {
                    assert(after[x] == before[x - 1] && after[y] == before[y - 1]);
                }
            }
        }
    }
    true
}

} // verus!
