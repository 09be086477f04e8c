//! Paths as text: joining, file names, extensions and parents.
use crate::text::{chars_of, push_str, starts_with, string_of_range, string_push, vec_starts_with};
use vstd::prelude::*;

verus! {

/// A path is absolute when it starts at the root (`Path::is_absolute` on Unix).
pub open spec fn is_absolute(p: Seq<char>) -> bool {
    p.len() > 0 && p[0] == '/'
}

/// `Path::join`: an absolute `p` replaces `base`; otherwise `p` is appended,
/// with a separator unless `base` is empty or already ends with one.
pub open spec fn join_path(base: Seq<char>, p: Seq<char>) -> Seq<char> {
    if is_absolute(p) {
        p
    } else if base.len() == 0 || base.last() == '/' {
        base + p
    } else {
        base + seq!['/'] + p
    }
}

/// The path with every backslash turned into a slash.
pub open spec fn normalize_slashes(p: Seq<char>) -> Seq<char> {
    p.map_values(|c: char| if c == '\\' { '/' } else { c })
}

/// The final component of a path, as `Path::file_name` gives it.
pub uninterp spec fn std_file_name(path: Seq<char>) -> Option<Seq<char>>;

/// The parent of a path, as `Path::parent` gives it.
pub uninterp spec fn std_parent(path: Seq<char>) -> Option<Seq<char>>;

/// Index of the last `c` in `s`.
pub open spec fn last_index_of(s: Seq<char>, c: char) -> Option<int>
    decreases s.len(),
{
    if s.len() == 0 {
        None
    } else if s.last() == c {
        Some(s.len() - 1)
    } else {
        last_index_of(s.drop_last(), c)
    }
}

/// `Path::extension`, from a file name: the part after the last `.`,
/// unless there is no `.` or the only one starts the name.
pub open spec fn extension_of_name(name: Seq<char>) -> Option<Seq<char>> {
    if name == seq!['.', '.'] {
        None
    } else {
        match last_index_of(name, '.') {
            None => None,
            Some(i) => if i == 0 {
                None
            } else {
                Some(name.skip(i + 1))
            },
        }
    }
}

/// `Path::extension` of a whole path.
pub open spec fn extension_of(path: Seq<char>) -> Option<Seq<char>> {
    match std_file_name(path) {
        None => None,
        Some(name) => extension_of_name(name),
    }
}

/// A path without one leading `./`, as the gitignore matcher keeps its root.
pub open spec fn strip_dot_slash(p: Seq<char>) -> Seq<char> {
    if starts_with(p, seq!['.', '/']) {
        p.skip(2)
    } else {
        p
    }
}

/// A path without one leading `/`.
pub open spec fn drop_leading_slash(p: Seq<char>) -> Seq<char> {
    if is_absolute(p) {
        p.drop_first()
    } else {
        p
    }
}

/// Position `i` of `r` keeps `r` equal to the path `.`: a separator, or a
/// `.` segment of its own.
pub open spec fn dot_root_char(r: Seq<char>, i: int) -> bool {
    r[i] == '/' || (r[i] == '.' && r[i - 1] == '/' && (i + 1 == r.len() || r[i + 1] == '/'))
}

/// Whether `r`, as a path, equals `.`: its first segment is `.` and every
/// later one is empty or `.` (the components are then just the current
/// directory).
pub open spec fn root_is_dot(r: Seq<char>) -> bool {
    &&& r.len() > 0
    &&& r[0] == '.'
    &&& forall|i: int| 1 <= i < r.len() ==> #[trigger] dot_root_char(r, i)
}

/// The path a gitignore matcher rooted at `root` matches in place of
/// `path`: without one leading `./`; then, unless the root is `.` or the
/// path has no `/`, with the root's text taken off its front where it
/// starts with it, and one `/` after that.
pub open spec fn matcher_candidate(root: Seq<char>, path: Seq<char>) -> Seq<char> {
    let p = strip_dot_slash(path);
    if !root_is_dot(root) && p.contains('/') && starts_with(p, root) {
        drop_leading_slash(p.skip(root.len() as int))
    } else {
        p
    }
}

/// `Path::file_name`, for a path given as text.
#[verifier::external_body]
pub(crate) fn path_file_name(path: &str) -> (r: Option<String>)
    ensures
        match r {
            Some(n) => std_file_name(path@) == Some(n@),
            None => std_file_name(path@) is None,
        },
{
    std::path::Path::new(path).file_name().and_then(|n| n.to_str()).map(|n| n.to_string())
}

/// `Path::parent`, for a path given as text.
#[verifier::external_body]
pub(crate) fn path_parent(path: &str) -> (r: Option<String>)
    ensures
        match r {
            Some(n) => std_parent(path@) == Some(n@),
            None => std_parent(path@) is None,
        },
{
    std::path::Path::new(path).parent().and_then(|n| n.to_str()).map(|n| n.to_string())
}

/// Whether the path is absolute.
pub fn path_is_absolute(p: &str) -> (b: bool)
    ensures
        b == is_absolute(p@),
{
    let cs = chars_of(p);
    cs.len() > 0 && cs[0] == '/'
}

/// `Path::join` of two paths given as text.
pub fn join_paths(base: &str, p: &str) -> (r: String)
    ensures
        r@ == join_path(base@, p@),
{
    if path_is_absolute(p) {
        return p.to_owned();
    }
    let bs = chars_of(base);
    let mut r = base.to_owned();
    if !(bs.len() == 0 || bs[bs.len() - 1] == '/') {
        string_push(&mut r, '/');
    }
    push_str(&mut r, p);
    r
}

/// The text of a path with backslashes turned into slashes.
pub fn normalize_path_string(p: &str) -> (r: String)
    ensures
        r@ == normalize_slashes(p@),
{
    let cs = chars_of(p);
    let mut r = String::new();
    let mut i: usize = 0;
    while i < cs.len()
        invariant
            cs@ == p@,
            i <= cs@.len(),
            r@ == normalize_slashes(cs@.take(i as int)),
        decreases cs@.len() - i,
    {
        let c = if cs[i] == '\\' {
            '/'
        } else {
            cs[i]
        };
        string_push(&mut r, c);
        proof {
            assert(normalize_slashes(cs@.take(i + 1)) =~= normalize_slashes(cs@.take(i as int)).push(c));
        }
        i += 1;
    }
    proof {
        assert(cs@.take(cs@.len() as int) =~= cs@);
    }
    r
}

proof fn lemma_last_index(s: Seq<char>, c: char, i: int)
    requires
        0 <= i <= s.len(),
        forall|j: int| i <= j < s.len() ==> s[j] != c,
    ensures
        last_index_of(s, c) == last_index_of(s.take(i), c),
    decreases s.len() - i,
{
    if i < s.len() {
        assert(s.last() == s[s.len() - 1]);
        let d = s.drop_last();
        assert forall|j: int| i <= j < d.len() implies d[j] != c by {
            assert(d[j] == s[j]);
        }
        lemma_last_index(d, c, i);
        assert(d.take(i) =~= s.take(i));
    } else {
        assert(s.take(i) =~= s);
    }
}

/// Index of the last `c` in `cs`.
pub fn last_index_exec(cs: &Vec<char>, c: char) -> (r: Option<usize>)
    ensures
        match r {
            Some(i) => last_index_of(cs@, c) == Some(i as int) && i < cs@.len(),
            None => last_index_of(cs@, c) is None,
        },
{
    let mut k: usize = cs.len();
    while k > 0 && cs[k - 1] != c
        invariant
            k <= cs@.len(),
            forall|j: int| k <= j < cs@.len() ==> cs@[j] != c,
        decreases k,
    {
        k -= 1;
    }
    proof {
        lemma_last_index(cs@, c, k as int);
        let t = cs@.take(k as int);
        if k > 0 {
            assert(t.last() == cs@[k - 1]);
        }
    }
    if k == 0 {
        None
    } else {
        Some(k - 1)
    }
}

/// The extension of a file name, by the rule of `Path::extension`.
pub fn name_extension(name: &str) -> (r: Option<String>)
    ensures
        match r {
            Some(e) => extension_of_name(name@) == Some(e@),
            None => extension_of_name(name@) is None,
        },
{
    let cs = chars_of(name);
    if cs.len() == 2 && cs[0] == '.' && cs[1] == '.' {
        assert(cs@ =~= seq!['.', '.']);
        return None;
    }
    assert(cs@ != seq!['.', '.']) by {
        if cs@ =~= seq!['.', '.'] {
            assert(cs@[0] == '.' && cs@[1] == '.');
        }
    }
    match last_index_exec(&cs, '.') {
        None => None,
        Some(i) => {
            if i == 0 {
                None
            } else {
                let e = string_of_range(&cs, i + 1, cs.len());
                proof {
                    assert(cs@.skip(i + 1) =~= cs@.subrange(i + 1, cs@.len() as int));
                    assert(last_index_of(name@, '.') == Some(i as int));
                    assert(extension_of_name(name@) == Some(name@.skip(i + 1)));
                }
                Some(e)
            }
        },
    }
}

/// `Path::extension` of a path given as text.
pub fn path_extension(path: &str) -> (r: Option<String>)
    ensures
        match r {
            Some(e) => extension_of(path@) == Some(e@),
            None => extension_of(path@) is None,
        },
{
    match path_file_name(path) {
        None => None,
        Some(name) => name_extension(name.as_str()),
    }
}

/// The path without one leading `./`.
pub fn strip_dot_slash_str(p: &str) -> (r: String)
    ensures
        r@ == strip_dot_slash(p@),
{
    let cs = chars_of(p);
    if cs.len() >= 2 && cs[0] == '.' && cs[1] == '/' {
        proof {
            assert(p@.take(2) =~= seq!['.', '/']);
        }
        string_of_range(&cs, 2, cs.len())
    } else {
        proof {
            if p@.len() >= 2 {
                assert(p@.take(2)[0] == p@[0]);
                assert(p@.take(2)[1] == p@[1]);
            }
        }
        p.to_owned()
    }
}

/// Whether the path `r` equals `.`.
pub fn path_is_dot(r: &str) -> (b: bool)
    ensures
        b == root_is_dot(r@),
{
    let cs = chars_of(r);
    if cs.len() == 0 || cs[0] != '.' {
        return false;
    }
    let mut i: usize = 1;
    while i < cs.len()
        invariant
            cs@ == r@,
            1 <= i <= cs@.len(),
            cs@[0] == '.',
            forall|j: int| 1 <= j < i ==> #[trigger] dot_root_char(cs@, j),
        decreases cs@.len() - i,
    {
        let ok = cs[i] == '/' || (cs[i] == '.' && cs[i - 1] == '/' && (i + 1 == cs.len() || cs[i
            + 1] == '/'));
        if !ok {
            assert(!dot_root_char(cs@, i as int));
            return false;
        }
        i += 1;
    }
    true
}

/// Whether `cs` holds a `/`.
fn has_slash(cs: &Vec<char>) -> (b: bool)
    ensures
        b == cs@.contains('/'),
{
    let mut i: usize = 0;
    while i < cs.len()
        invariant
            i <= cs@.len(),
            forall|j: int| 0 <= j < i ==> cs@[j] != '/',
        decreases cs@.len() - i,
    {
        if cs[i] == '/' {
            assert(cs@[i as int] == '/');
            return true;
        }
        i += 1;
    }
    false
}

/// The path a gitignore matcher rooted at `root` matches in place of `path`.
pub fn matcher_candidate_str(root: &str, path: &str) -> (r: String)
    ensures
        r@ == matcher_candidate(root@, path@),
{
    let p = strip_dot_slash_str(path);
    let ps = chars_of(p.as_str());
    let rs = chars_of(root);
    if !path_is_dot(root) && has_slash(&ps) && vec_starts_with(&ps, &rs) {
        let n = rs.len();
        if n < ps.len() && ps[n] == '/' {
            proof {
                assert(p@.skip(n as int)[0] == ps@[n as int]);
                assert(p@.skip(n as int).drop_first() =~= ps@.subrange(n + 1, ps@.len() as int));
            }
            string_of_range(&ps, n + 1, ps.len())
        } else {
            proof {
                if n < ps@.len() {
                    assert(p@.skip(n as int)[0] == ps@[n as int]);
                }
                assert(p@.skip(n as int) =~= ps@.subrange(n as int, ps@.len() as int));
            }
            string_of_range(&ps, n, ps.len())
        }
    } else {
        p
    }
}

} // verus!
