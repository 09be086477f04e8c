//! Trusted access to the `ignore` crate's gitignore matcher, which the
//! per-rule `ignore` patterns of a configuration are matched with.
use crate::paths::{is_absolute, matcher_candidate, strip_dot_slash};
use crate::text::{starts_with, trim_end};
use ignore::gitignore::{Gitignore, GitignoreBuilder};
use vstd::prelude::*;

verus! {

#[verifier::external_type_specification]
#[verifier::external_body]
pub struct ExGitignore(Gitignore);

#[verifier::external_type_specification]
#[verifier::external_body]
pub struct ExGitignoreBuilder(GitignoreBuilder);

/// The root directory that a builder was made with.
pub uninterp spec fn builder_root(b: GitignoreBuilder) -> Seq<char>;

/// The glob lines that a builder holds, in the order they were added.
pub uninterp spec fn builder_lines(b: GitignoreBuilder) -> Seq<Seq<char>>;

/// The root directory of a built matcher.
pub uninterp spec fn matcher_root(g: Gitignore) -> Seq<char>;

/// The glob lines that a built matcher was built from.
pub uninterp spec fn matcher_lines(g: Gitignore) -> Seq<Seq<char>>;

/// Whether `GitignoreBuilder::add_line` returns `Ok` for a line.
pub uninterp spec fn glob_line_accepted(line: Seq<char>) -> bool;

/// Whether a gitignore made at `root` from `lines` ignores the file `path`
/// or one of its parent directories (`matched_path_or_any_parents`).
pub uninterp spec fn ignores_path(root: Seq<char>, lines: Seq<Seq<char>>, path: Seq<char>) -> bool;

/// `GitignoreBuilder::new(root)`: a builder that holds no line yet, rooted
/// at `root` without a leading `./`.
#[verifier::external_body]
pub(crate) fn gitignore_builder(root: &str) -> (b: GitignoreBuilder)
    ensures
        builder_root(b) == strip_dot_slash(root@),
        builder_lines(b) == Seq::<Seq<char>>::empty(),
{
    GitignoreBuilder::new(root)
}

/// Whether a gitignore line holds a glob: one that starts with `#` is a
/// comment, and one that is blank once its trailing whitespace is trimmed
/// (a line ending in an escaped space is not trimmed) holds nothing.
pub open spec fn is_glob_line(line: Seq<char>) -> bool {
    &&& !starts_with(line, seq!['#'])
    &&& (line.len() >= 2 && line[line.len() - 2] == '\\' && line.last() == ' ') || trim_end(
        line,
    ).len() > 0
}

/// `GitignoreBuilder::add_line(None, line)`: true when it returns `Ok`. A
/// comment or blank line is skipped with `Ok`; a glob line that parses is
/// added; a refused line leaves the builder as it was (the builder only
/// records a glob once it has parsed it).
#[verifier::external_body]
pub(crate) fn gitignore_add_line(b: &mut GitignoreBuilder, line: &str) -> (ok: bool)
    ensures
        ok == glob_line_accepted(line@),
        !is_glob_line(line@) ==> ok,
        builder_root(*final(b)) == builder_root(*old(b)),
        builder_lines(*final(b)) == (if ok && is_glob_line(line@) {
            builder_lines(*old(b)).push(line@)
        } else {
            builder_lines(*old(b))
        }),
{
    b.add_line(None, line).is_ok()
}

/// Whether `GitignoreBuilder::build` compiles the glob set of a builder
/// holding these lines.
pub uninterp spec fn globs_build(lines: Seq<Seq<char>>) -> bool;

/// `GitignoreBuilder::build`: a matcher with the builder's root and glob
/// lines, or `None` when the glob set of those lines does not compile. A
/// builder without globs gives `Gitignore::empty()`, whose root is empty.
#[verifier::external_body]
pub(crate) fn gitignore_build(b: &GitignoreBuilder) -> (r: Option<Gitignore>)
    ensures
        r is Some <==> globs_build(builder_lines(*b)),
        builder_lines(*b).len() == 0 ==> r is Some,
        r matches Some(g) ==> matcher_lines(g) == builder_lines(*b) && matcher_root(g) == (if builder_lines(
            *b,
        ).len() == 0 {
            Seq::<char>::empty()
        } else {
            builder_root(*b)
        }),
{
    b.build().ok()
}

/// Whether a matcher rooted at `root` can be asked about `path`: the path
/// it matches in place of `path` is relative.
pub open spec fn matcher_accepts(root: Seq<char>, path: Seq<char>) -> bool {
    !is_absolute(matcher_candidate(root, path))
}

/// `Gitignore::is_empty`: whether the matcher holds no glob.
#[verifier::external_body]
pub(crate) fn gitignore_is_empty(g: &Gitignore) -> (b: bool)
    ensures
        b == (matcher_lines(*g).len() == 0),
{
    g.is_empty()
}

/// `Gitignore::matched_path_or_any_parents(path, false).is_ignore()`. A
/// matcher without globs answers no at once; any other takes the path it
/// matches in place of `path` (`matcher_candidate`) and panics when that is
/// absolute, which `requires` leaves out.
#[verifier::external_body]
pub(crate) fn gitignore_matches(g: &Gitignore, path: &str) -> (r: bool)
    requires
        matcher_lines(*g).len() == 0 || matcher_accepts(matcher_root(*g), path@),
    ensures
        r == ignores_path(matcher_root(*g), matcher_lines(*g), path@),
        matcher_lines(*g).len() == 0 ==> !r,
{
    g.matched_path_or_any_parents(path, false).is_ignore()
}

} // verus!
