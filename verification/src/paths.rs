//! Paths as text: joining a relative path to a base, and the normal form
//! under which directories are stored and compared.
//!
//! Looking at the file system is the caller's part. The caller hands in the
//! current directory and, where the file system could resolve the path, the
//! resolved form; the rest is decided here.

use crate::text::{chars_of, optional_text, slice_of, string_of};
use vstd::prelude::*;
use vstd::string::StringExecFns;

verus! {

/// Whether `path` is relative: it does not start at the root.
pub open spec fn is_relative(path: Seq<char>) -> bool {
    path.len() == 0 || path[0] != '/'
}

/// `rel` resolved against `base`: `rel` itself where it is absolute, else
/// `base` and `rel` with one separator between them, which is not added
/// where `base` is empty or already ends with one.
pub open spec fn joined_path(base: Seq<char>, rel: Seq<char>) -> Seq<char> {
    if !is_relative(rel) {
        rel
    } else if base.len() == 0 || base.last() == '/' {
        base + rel
    } else {
        base.push('/') + rel
    }
}

/// `path` without the separators at its end; the root stays as it is.
pub open spec fn without_trailing_separators(path: Seq<char>) -> Seq<char>
    decreases path.len(),
{
    if path.len() > 1 && path.last() == '/' {
        without_trailing_separators(path.drop_last())
    } else {
        path
    }
}

/// The normal form of `path`: the form that the file system resolved it to,
/// where it could, and else `path` joined to the current directory `cwd`;
/// in both cases without separators at the end.
pub open spec fn normalized(path: Seq<char>, cwd: Seq<char>, canonical: Option<Seq<char>>) -> Seq<
    char,
> {
    without_trailing_separators(
        match canonical {
            Some(resolved) => resolved,
            None => joined_path(cwd, path),
        },
    )
}

/// A path without trailing separators ends with a separator only if it is
/// the root.
pub proof fn lemma_without_trailing_separators(path: Seq<char>)
    ensures
        without_trailing_separators(path).len() > 1 ==> without_trailing_separators(path).last()
            != '/',
    decreases path.len(),
{
    if path.len() > 1 && path.last() == '/' {
        lemma_without_trailing_separators(path.drop_last());
    }
}

/// A path without trailing separators starts as the path it was made from.
pub proof fn lemma_stripping_keeps_the_start(path: Seq<char>)
    ensures
        is_relative(without_trailing_separators(path)) == is_relative(path),
    decreases path.len(),
{
    if path.len() > 1 && path.last() == '/' {
        lemma_stripping_keeps_the_start(path.drop_last());
    }
}

/// Joining to an absolute base gives an absolute path.
pub proof fn lemma_joined_is_absolute(base: Seq<char>, rel: Seq<char>)
    requires
        !is_relative(base),
    ensures
        !is_relative(joined_path(base, rel)),
{
}

/// Whether `path` is relative.
pub fn path_is_relative(path: &str) -> (b: bool)
    ensures
        b == is_relative(path@),
{
    let chars = chars_of(path);
    chars.len() == 0 || chars[0] != '/'
}

/// Resolves `rel` against `base` without looking at the file system.
pub fn join_path(base: &str, rel: &str) -> (out: String)
    ensures
        out@ == joined_path(base@, rel@),
{
    if !path_is_relative(rel) {
        return String::from_str(rel);
    }
    let chars = chars_of(base);
    let mut out = String::from_str(base);
    if chars.len() > 0 && chars[chars.len() - 1] != '/' {
        out.push('/');
    }
    out.append(rel);
    out
}

/// Removes the separators at the end of `path`; the root stays as it is.
pub fn strip_trailing_separators(path: &str) -> (out: String)
    ensures
        out@ == without_trailing_separators(path@),
{
    let chars = chars_of(path);
    let mut end: usize = chars.len();
    assert(chars@.take(end as int) == chars@);
    while end > 1 && chars[end - 1] == '/'
        invariant
            end <= chars.len(),
            without_trailing_separators(chars@) == without_trailing_separators(
                chars@.take(end as int),
            ),
        decreases end,
    {
        assert(chars@.take(end as int).drop_last() == chars@.take(end - 1));
        end -= 1;
    }
    proof {
        assert(chars@.take(end as int) == chars@.subrange(0, end as int));
    }
    string_of(&slice_of(&chars, 0, end))
}

/// The normal form of `path`, given the current directory and what the file
/// system resolved `path` to, if it could. Normalizing never fails: a path
/// that cannot be resolved, such as one that no longer exists, is joined to
/// the current directory as it is written.
pub fn normalize_path(path: &str, cwd: &str, canonical: Option<&str>) -> (out: String)
    ensures
        out@ == normalized(path@, cwd@, optional_text(canonical)),
        out@.len() > 1 ==> out@.last() != '/',
        (match canonical {
            Some(resolved) => !is_relative(resolved@),
            None => !is_relative(cwd@),
        }) ==> !is_relative(out@),
{
    let out = match canonical {
        Some(resolved) => strip_trailing_separators(resolved),
        None => strip_trailing_separators(join_path(cwd, path).as_str()),
    };
    proof {
        match canonical {
            Some(resolved) => {
                lemma_without_trailing_separators(resolved@);
                lemma_stripping_keeps_the_start(resolved@);
            },
            None => {
                lemma_without_trailing_separators(joined_path(cwd@, path@));
                lemma_stripping_keeps_the_start(joined_path(cwd@, path@));
                if !is_relative(cwd@) {
                    lemma_joined_is_absolute(cwd@, path@);
                }
            },
        }
    }
    out
}

} // verus!
