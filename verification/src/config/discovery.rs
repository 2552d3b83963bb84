//! Where the configuration file is.

use vstd::prelude::*;

use crate::config::{AoConfig, CONFIG_FILENAME};
use crate::paths::join_path;
use crate::text::{opt_text, texts};

verus! {

/// The directory that a path is in, as `Path::parent` gives it.
pub uninterp spec fn parent_path(path: Seq<char>) -> Option<Seq<char>>;

/// `Path::parent`: the path without its last part, if it has one. It is shorter than the path
/// itself. What counts as a part of a path is not stated.
#[verifier::external_body]
fn parent_of(path: &str) -> (r: Option<String>)
    ensures
        opt_text(r) == parent_path(path@),
        r matches Some(p) ==> p@.len() < path@.len(),
{
    match std::path::Path::new(path).parent() {
        Some(p) => Some(p.to_string_lossy().into_owned()),
        None => None,
    }
}

/// A directory and all that it is in, from the inside out.
pub open spec fn ancestors(dir: Seq<char>) -> Seq<Seq<char>>
    decreases dir.len(),
{
    match parent_path(dir) {
        Some(p) => if p.len() < dir.len() {
            seq![dir] + ancestors(p)
        } else {
            seq![dir]
        },
        None => seq![dir],
    }
}

/// The places where the configuration file of a directory can be: in it, or in one of those
/// that it is in, from the inside out.
pub open spec fn candidates(dirs: Seq<Seq<char>>) -> Seq<Seq<char>> {
    dirs.map_values(|d: Seq<char>| join_path(d, CONFIG_FILENAME@))
}

/// The place of the configuration file in the innermost of some directories in which there is
/// one; `are_files` tells for each whether there is. Without any it is in `start`.
pub open spec fn nearest(start: Seq<char>, dirs: Seq<Seq<char>>, are_files: Seq<bool>) -> Seq<char>
    decreases dirs.len(),
{
    if dirs.len() == 0 || are_files.len() == 0 {
        join_path(start, CONFIG_FILENAME@)
    } else if are_files[0] {
        join_path(dirs[0], CONFIG_FILENAME@)
    } else {
        nearest(start, dirs.skip(1), are_files.skip(1))
    }
}

/// A directory and all that it is in, from the inside out.
fn list_ancestors(start: &str) -> (r: Vec<String>)
    ensures
        texts(r@) == ancestors(start@),
{
    let mut out: Vec<String> = Vec::new();
    let mut dir: String = start.to_string();
    assert(texts(out@) + ancestors(dir@) =~= ancestors(start@));
    loop
        invariant_except_break
            texts(out@) + ancestors(dir@) == ancestors(start@),
        ensures
            texts(out@) == ancestors(start@),
        decreases dir@.len(),
    {
        let ghost had = out@;
        let ghost d = dir@;
        let parent = parent_of(dir.as_str());
        out.push(dir);
        assert(texts(out@) =~= texts(had).push(d));
        match parent {
            Some(p) => {
                assert(texts(out@) + ancestors(p@) =~= texts(had) + (seq![d] + ancestors(p@)));
                dir = p;
            },
            None => {
                assert(texts(out@) =~= texts(had) + seq![d]);
                break ;
            },
        }
    }
    out
}

impl AoConfig {
    /// The places where the configuration file of the directory `start` can be, from the
    /// inside out.
    pub fn config_candidates(start: &str) -> (r: Vec<String>)
        ensures
            texts(r@) == candidates(ancestors(start@)),
    {
        let dirs = list_ancestors(start);
        let mut out: Vec<String> = Vec::new();
        for i in 0..dirs.len()
            invariant
                texts(dirs@) == ancestors(start@),
                out@.len() == i,
                forall|j: int|
                    0 <= j < i ==> (#[trigger] out@[j])@ == join_path(
                        dirs@[j]@,
                        CONFIG_FILENAME@,
                    ),
        {
            out.push(AoConfig::path_in(dirs[i].as_str()));
        }
        assert(texts(out@) =~= candidates(ancestors(start@)));
        out
    }

    /// The configuration file of the directory `start`, where `are_files` tells for each of
    /// its candidates whether there is such a file: the nearest there is, and otherwise the
    /// one that `start` would have.
    pub fn discover_path_from(start: &str, are_files: &Vec<bool>) -> (r: String)
        ensures
            r@ == nearest(start@, ancestors(start@), are_files@),
    {
        let dirs = list_ancestors(start);
        AoConfig::nearest_path(start, &dirs, are_files)
    }

    /// The configuration file in the first of `dirs` in which there is one, as `are_files`
    /// tells, and otherwise in `start`.
    pub fn nearest_path(start: &str, dirs: &Vec<String>, are_files: &Vec<bool>) -> (r: String)
        ensures
            r@ == nearest(start@, texts(dirs@), are_files@),
    {
        let ghost all = texts(dirs@);
        let mut i: usize = 0;
        assert(all.skip(0) =~= all);
        assert(are_files@.skip(0) =~= are_files@);
        while i < dirs.len() && i < are_files.len()
            invariant
                all == texts(dirs@),
                i <= dirs.len(),
                i <= are_files.len(),
                nearest(start@, all, are_files@) == nearest(
                    start@,
                    all.skip(i as int),
                    are_files@.skip(i as int),
                ),
            decreases dirs.len() - i,
        {
            assert(all.skip(i as int)[0] == dirs@[i as int]@);
            assert(are_files@.skip(i as int)[0] == are_files@[i as int]);
            assert(all.skip(i as int).skip(1) =~= all.skip(i + 1));
            assert(are_files@.skip(i as int).skip(1) =~= are_files@.skip(i + 1));
            if are_files[i] {
                return AoConfig::path_in(dirs[i].as_str());
            }
            i += 1;
        }
        AoConfig::path_in(start)
    }
}

} // verus!
