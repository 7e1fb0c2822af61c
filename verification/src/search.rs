//! Walking up from a directory towards the root, looking for a file or a
//! directory with a fixed name.
//!
//! Whether a candidate exists depends on the disk, so the contracts state
//! the shape of any hit — it is always the fixed name joined onto some
//! directory — and promise nothing about which ancestor, if any, wins.

use vstd::prelude::*;
use vstd::string::*;

use crate::fsio::{fs_is_dir, fs_is_file};
use crate::project::{join_path, parent_dir, spec_join, spec_parent_dir};
use crate::strutil::str_eq;

verus! {

/// Search upwards from `start` for a regular file called `file`: the
/// starting directory first, then each parent in turn, stopping when a
/// directory is its own parent.
pub fn search_up_for_file(start: &String, file: &str) -> (r: Option<String>)
    ensures
        r matches Some(c) ==> exists|d: Seq<char>| c@ == spec_join(d, file@),
    decreases start@.len(),
{
    let candidate = join_path(start.as_str(), file);
    if fs_is_file(candidate.as_str()) {
        proof {
            assert(candidate@ == spec_join(start@, file@));
        }
        return Some(candidate);
    }
    let parent = parent_dir(start.as_str());
    if str_eq(parent.as_str(), start.as_str()) {
        return None;
    }
    proof {
        lemma_parent_shorter(start@);
    }
    search_up_for_file(&parent, file)
}

/// Search upwards from `start` for a directory called `dir`: the starting
/// directory first, then each parent in turn, stopping when a directory is
/// its own parent.
pub fn search_up_for_dir(start: &String, dir: &str) -> (r: Option<String>)
    ensures
        r matches Some(c) ==> exists|d: Seq<char>| c@ == spec_join(d, dir@),
    decreases start@.len(),
{
    let candidate = join_path(start.as_str(), dir);
    if fs_is_dir(candidate.as_str()) {
        proof {
            assert(candidate@ == spec_join(start@, dir@));
        }
        return Some(candidate);
    }
    let parent = parent_dir(start.as_str());
    if str_eq(parent.as_str(), start.as_str()) {
        return None;
    }
    proof {
        lemma_parent_shorter(start@);
    }
    search_up_for_dir(&parent, dir)
}

/// A parent path that differs from its child is strictly shorter, which is
/// what lets the upward walk terminate.
proof fn lemma_parent_shorter(p: Seq<char>)
    requires
        spec_parent_dir(p) != p,
    ensures
        spec_parent_dir(p).len() < p.len(),
{
    crate::strutil::lemma_last_occ_bounds(p, '/');
    match crate::strutil::last_occ(p, '/') {
        None => {
            assert(spec_parent_dir(p) =~= Seq::<char>::empty());
            if p.len() == 0 {
                assert(spec_parent_dir(p) =~= p);
            }
        },
        Some(i) => {
            if i == 0 {
                if p.len() == 1 {
                    assert(spec_parent_dir(p) =~= p);
                }
            }
        },
    }
}

} // verus!
