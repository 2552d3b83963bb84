//! Paths, written as texts with `/` between their parts.

use vstd::prelude::*;
use vstd::string::*;

verus! {

/// The path is absolute.
pub open spec fn absolute(path: Seq<char>) -> bool {
    path.len() > 0 && path[0] == '/'
}

/// `part` inside the directory `base`; an absolute `part` stands for itself.
pub open spec fn join_path(base: Seq<char>, part: Seq<char>) -> Seq<char> {
    if absolute(part) {
        part
    } else if base.len() == 0 || base.last() == '/' {
        base + part
    } else {
        base + "/"@ + part
    }
}

/// Whether a path is absolute.
pub fn is_absolute(path: &str) -> (r: bool)
    ensures
        r == absolute(path@),
{
    let n: usize = path.unicode_len();
    n > 0 && path.get_char(0) == '/'
}

/// `part` inside the directory `base`; an absolute `part` stands for itself.
pub fn path_join(base: &str, part: &str) -> (r: String)
    ensures
        r@ == join_path(base@, part@),
{
    if is_absolute(part) {
        return part.to_string();
    }
    let n: usize = base.unicode_len();
    let mut out: String = base.to_string();
    if n > 0 && base.get_char(n - 1) != '/' {
        out.append("/");
    }
    out.append(part);
    out
}

/// What is put into a directory comes after it, with one slash between them. An absolute path stays
/// what it is.
pub proof fn law_paths_are_joined(base: Seq<char>, part: Seq<char>)
    ensures
        part.len() > 0 && part[0] == '/' ==> join_path(base, part) == part,
        part.len() > 0 && part[0] != '/' && base.len() > 0 && base.last() != '/' ==> join_path(
            base,
            part,
        ) == base + "/"@ + part,
        part.len() > 0 && part[0] != '/' && base.len() > 0 && base.last() == '/' ==> join_path(
            base,
            part,
        ) == base + part,
        absolute(base) ==> absolute(join_path(base, part)),
{
    reveal_strlit("/");
}

} // verus!
