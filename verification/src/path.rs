//! Paths as text: how a relative path is put under a root.
//!
//! Paths are strings whose components are parted by a separator. The
//! separator is a value that the functions here take as an argument; stores
//! and configurations pick the one of the machine they run on when they are
//! made, `/` or `\`, unless they are given one.
//!
//! The functions here know one separator, the given one, and nothing else
//! of paths. Where the separator is `/` and `/` is all that the machine
//! reads as one, `join` gives what `std::path::Path::join` gives. On a
//! machine that parts paths by `\`, the standard library also reads `/` as
//! a separator and knows drive prefixes; `join` does not: under `/www/` it
//! puts `foo` as `/www/\foo`, and it lets `\abs` stand alone where the
//! standard library keeps the drive of the root.

use crate::text::{ends_with, occurs, replace, replace_str, same, starts_with, to_chars};
use vstd::prelude::*;

verus! {

/// `sub` put under `root`: the two with one separator between them. No
/// separator is added where `root` is empty or ends with one already, and a
/// `sub` that begins with the separator is absolute and stands alone. Only
/// `sep` counts as a separator: no other character closes `root` or makes
/// `sub` absolute, and no prefix of `root` is kept before an absolute `sub`.
pub open spec fn join_path(root: Seq<char>, sub: Seq<char>, sep: Seq<char>) -> Seq<char> {
    if sep.len() > 0 && starts_with(sub, sep) {
        sub
    } else if root.len() == 0 || ends_with(root, sep) {
        root + sub
    } else {
        root + sep + sub
    }
}

/// `path` with every `/` turned into the separator.
pub open spec fn normalize(path: Seq<char>, sep: Seq<char>) -> Seq<char> {
    replace(path, seq!['/'], sep)
}

/// What parts the components of a path on a machine: `/` or `\`.
pub open spec fn is_separator(sep: Seq<char>) -> bool {
    sep == "/"@ || sep == "\\"@
}

/// The separator of path components on the machine that runs this: the
/// constant `std::path::MAIN_SEPARATOR_STR`. Nothing is claimed of it; what
/// it holds is looked at by `separator`.
#[verifier::external_body]
fn host_separator() -> (sep: &'static str) {
    std::path::MAIN_SEPARATOR_STR
}

/// The separator that paths are parted by on the machine that runs this:
/// `\` where the machine names that one, and `/` everywhere else.
pub fn separator() -> (sep: String)
    ensures
        is_separator(sep@),
{
    if same(host_separator(), "\\") {
        String::from_str("\\")
    } else {
        String::from_str("/")
    }
}

/// `sub` put under `root`, with `sep` as the one separator that is known.
/// This is what `std::path::Path::join` gives where the machine parts paths
/// by `/` alone and `sep` is `/`; it is not on a machine that parts them by
/// `\`, where the standard library also reads `/` and drive prefixes.
pub fn join(root: &str, sub: &str, sep: &str) -> (path: String)
    ensures
        path@ == join_path(root@, sub@, sep@),
{
    let root_chars = to_chars(root);
    let sub_chars = to_chars(sub);
    let sep_chars = to_chars(sep);
    if sep_chars.len() > 0 && occurs(&sub_chars, &sep_chars, 0) {
        return String::from_str(sub);
    }
    let mut path = String::from_str(root);
    let closed = root_chars.len() == 0 || (sep_chars.len() <= root_chars.len() && occurs(
        &root_chars,
        &sep_chars,
        root_chars.len() - sep_chars.len(),
    ));
    if !closed {
        path.append(sep);
    }
    path.append(sub);
    path
}

/// `path` with every `/` turned into the separator.
pub fn normalize_str(path: &str, sep: &str) -> (out: String)
    ensures
        out@ == normalize(path@, sep@),
{
    proof {
        reveal_strlit("/");
        assert("/"@ =~= seq!['/']);
    }
    replace_str(path, "/", sep)
}

} // verus!
