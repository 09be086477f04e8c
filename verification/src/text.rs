//! Character-level text model shared by the whole crate: how strings are
//! split into lines and words, trimmed, searched and compared.
use vstd::prelude::*;
use vstd::std_specs::iter::IteratorSpec;

verus! {

broadcast use vstd::string::group_string_axioms;

// ---------------------------------------------------------------------------
// Specification of the text operations
// ---------------------------------------------------------------------------
/// Unicode `White_Space`, the property behind `char::is_whitespace`.
pub open spec fn is_whitespace(c: char) -> bool {
    ||| ('\t' <= c && c <= '\r')
    ||| c == ' '
    ||| c == '\u{85}'
    ||| c == '\u{A0}'
    ||| c == '\u{1680}'
    ||| ('\u{2000}' <= c && c <= '\u{200A}')
    ||| c == '\u{2028}'
    ||| c == '\u{2029}'
    ||| c == '\u{202F}'
    ||| c == '\u{205F}'
    ||| c == '\u{3000}'
}

/// The views of a sequence of strings.
pub open spec fn views(v: Seq<String>) -> Seq<Seq<char>> {
    v.map_values(|s: String| s@)
}

/// Whether `s` begins with `p` (`str::starts_with`).
pub open spec fn starts_with(s: Seq<char>, p: Seq<char>) -> bool {
    p.len() <= s.len() && s.take(p.len() as int) == p
}

/// `s` with its leading whitespace removed (`str::trim_start`).
pub open spec fn trim_start(s: Seq<char>) -> Seq<char>
    decreases s.len(),
{
    if s.len() > 0 && is_whitespace(s[0]) {
        trim_start(s.drop_first())
    } else {
        s
    }
}

/// `s` with its trailing whitespace removed (`str::trim_end`).
pub open spec fn trim_end(s: Seq<char>) -> Seq<char>
    decreases s.len(),
{
    if s.len() > 0 && is_whitespace(s.last()) {
        trim_end(s.drop_last())
    } else {
        s
    }
}

/// `str::trim`.
pub open spec fn trim(s: Seq<char>) -> Seq<char> {
    trim_end(trim_start(s))
}

/// Pieces of `s` between occurrences of `sep`, where `cur` is the piece
/// already begun: the model of `str::split` with a `char` separator.
pub open spec fn split_from(s: Seq<char>, sep: char, cur: Seq<char>) -> Seq<Seq<char>>
    decreases s.len(),
{
    if s.len() == 0 {
        seq![cur]
    } else if s[0] == sep {
        seq![cur] + split_from(s.drop_first(), sep, Seq::empty())
    } else {
        split_from(s.drop_first(), sep, cur.push(s[0]))
    }
}

/// `str::split(sep)`: never empty, one piece more than there are separators.
pub open spec fn split_on(s: Seq<char>, sep: char) -> Seq<Seq<char>> {
    split_from(s, sep, Seq::empty())
}

/// A line piece without the one carriage return that ends it, if any.
pub open spec fn strip_cr(l: Seq<char>) -> Seq<char> {
    if l.len() > 0 && l.last() == '\r' {
        l.drop_last()
    } else {
        l
    }
}

/// `str::lines`: lines end at `\n` or `\r\n`; the final line ending is
/// optional and an empty text has no lines.
pub open spec fn lines_of(s: Seq<char>) -> Seq<Seq<char>> {
    let p = split_on(s, '\n');
    let init = p.drop_last().map_values(|l: Seq<char>| strip_cr(l));
    if p.last().len() == 0 {
        init
    } else {
        init.push(p.last())
    }
}

/// Words of `s`, `cur` being a word already begun: the model of
/// `str::split_whitespace`.
pub open spec fn words_from(s: Seq<char>, cur: Seq<char>) -> Seq<Seq<char>>
    decreases s.len(),
{
    if s.len() == 0 {
        if cur.len() > 0 {
            seq![cur]
        } else {
            Seq::empty()
        }
    } else if is_whitespace(s[0]) {
        (if cur.len() > 0 {
            seq![cur]
        } else {
            Seq::empty()
        }) + words_from(s.drop_first(), Seq::empty())
    } else {
        words_from(s.drop_first(), cur.push(s[0]))
    }
}

/// `str::split_whitespace`.
pub open spec fn words(s: Seq<char>) -> Seq<Seq<char>> {
    words_from(s, Seq::empty())
}

/// Whether `pat` occurs in `s` at index `i`.
pub open spec fn occurs_at(s: Seq<char>, pat: Seq<char>, i: int) -> bool {
    0 <= i && i + pat.len() <= s.len() && s.subrange(i, i + pat.len()) == pat
}

/// Index of the first occurrence of `pat` in `s` at or after `i`.
pub open spec fn find_from(s: Seq<char>, pat: Seq<char>, i: int) -> Option<int>
    decreases s.len() - i,
{
    if i < 0 || i + pat.len() > s.len() {
        None
    } else if occurs_at(s, pat, i) {
        Some(i)
    } else if pat.len() == 0 {
        None
    } else {
        find_from(s, pat, i + 1)
    }
}

/// Index of the first occurrence of `pat` in `s` (`str::find`).
pub open spec fn find(s: Seq<char>, pat: Seq<char>) -> Option<int> {
    find_from(s, pat, 0)
}

/// `n` newlines.
pub open spec fn newlines(n: nat) -> Seq<char> {
    Seq::new(n, |i: int| '\n')
}

/// Lexicographic order on strings by code point: the order of `str::cmp`
/// (UTF-8 byte order and code point order agree).
pub open spec fn seq_lt(a: Seq<char>, b: Seq<char>) -> bool
    decreases a.len(),
{
    if a.len() == 0 {
        b.len() > 0
    } else if b.len() == 0 {
        false
    } else if a[0] != b[0] {
        a[0] < b[0]
    } else {
        seq_lt(a.drop_first(), b.drop_first())
    }
}

/// Decimal digits of `n`, as written by `Display` for unsigned integers.
pub open spec fn decimal(n: nat) -> Seq<char>
    decreases n,
{
    if n < 10 {
        seq![digit_char(n)]
    } else {
        decimal(n / 10).push(digit_char(n % 10))
    }
}

/// The digit for `d` (below ten).
pub open spec fn digit_char(d: nat) -> char {
    seq!['0', '1', '2', '3', '4', '5', '6', '7', '8', '9'][d as int]
}

/// `Display` of an `i64`.
pub open spec fn signed_decimal(v: int) -> Seq<char> {
    if v < 0 {
        seq!['-'] + decimal((-v) as nat)
    } else {
        decimal(v as nat)
    }
}

/// ASCII lower-casing of one character.
pub open spec fn ascii_lower_char(c: char) -> char {
    if 'A' <= c && c <= 'Z' {
        ((c as u32) + 32) as char
    } else {
        c
    }
}

/// ASCII lower-casing (`str::to_ascii_lowercase`).
pub open spec fn ascii_lower(s: Seq<char>) -> Seq<char> {
    s.map_values(|c: char| ascii_lower_char(c))
}

/// Concatenation of the pieces with `sep` between neighbours (`join`).
pub open spec fn join(pieces: Seq<Seq<char>>, sep: Seq<char>) -> Seq<char>
    decreases pieces.len(),
{
    if pieces.len() == 0 {
        Seq::empty()
    } else if pieces.len() == 1 {
        pieces[0]
    } else {
        join(pieces.drop_last(), sep) + sep + pieces.last()
    }
}

/// Concatenation of the pieces.
pub open spec fn concat(pieces: Seq<Seq<char>>) -> Seq<char>
    decreases pieces.len(),
{
    if pieces.len() == 0 {
        Seq::empty()
    } else {
        concat(pieces.drop_last()) + pieces.last()
    }
}

/// `s` without any occurrence of `c` (`str::replace(c, "")`).
pub open spec fn without_char(s: Seq<char>, c: char) -> Seq<char>
    decreases s.len(),
{
    if s.len() == 0 {
        s
    } else if s.last() == c {
        without_char(s.drop_last(), c)
    } else {
        without_char(s.drop_last(), c).push(s.last())
    }
}

/// The first line of a text (`lines().next()`), or nothing for a text
/// without lines.
pub open spec fn first_line(text: Seq<char>) -> Seq<char> {
    if lines_of(text).len() > 0 {
        lines_of(text)[0]
    } else {
        Seq::empty()
    }
}

// ---------------------------------------------------------------------------
// Trusted access to `String`
// ---------------------------------------------------------------------------
/// `String::push`: the string gains the character at its end.
#[verifier::external_body]
pub(crate) fn string_push(s: &mut String, c: char)
    ensures
        final(s)@ == old(s)@.push(c),
{
    s.push(c);
}

// ---------------------------------------------------------------------------
// Executable text operations
// ---------------------------------------------------------------------------
/// The characters of `s`.
pub fn chars_of(s: &str) -> (v: Vec<char>)
    ensures
        v@ == s@,
{
    let mut v: Vec<char> = Vec::new();
    let mut it = s.chars();
    loop
        invariant
            it.obeys_prophetic_iter_laws(),
            v@ + it.remaining() == s@,
            it.decrease() is Some,
        decreases it.decrease()->0,
    {
        let ghost before = it.remaining();
        match it.next() {
            Some(c) => {
                proof {
                    assert(before.drop_first() =~= it.remaining());
                    assert(v@.push(c) + it.remaining() =~= v@ + before);
                }
                v.push(c);
            },
            None => {
                proof {
                    assert(v@ =~= s@);
                }
                return v;
            },
        }
    }
}

/// The string made of `cs[lo..hi]`.
pub fn string_of_range(cs: &Vec<char>, lo: usize, hi: usize) -> (r: String)
    requires
        lo <= hi <= cs@.len(),
    ensures
        r@ == cs@.subrange(lo as int, hi as int),
{
    let mut r = String::new();
    let mut i = lo;
    while i < hi
        invariant
            lo <= i <= hi <= cs@.len(),
            r@ == cs@.subrange(lo as int, i as int),
        decreases hi - i,
    {
        string_push(&mut r, cs[i]);
        proof {
            assert(r@ =~= cs@.subrange(lo as int, i + 1));
        }
        i += 1;
    }
    r
}

/// The string made of all of `cs`.
pub fn string_of(cs: &Vec<char>) -> (r: String)
    ensures
        r@ == cs@,
{
    let r = string_of_range(cs, 0, cs.len());
    proof {
        assert(cs@.subrange(0, cs@.len() as int) =~= cs@);
    }
    r
}

/// Appends the characters of `src` to `dst`.
pub fn push_str(dst: &mut String, src: &str)
    ensures
        final(dst)@ == old(dst)@ + src@,
{
    let cs = chars_of(src);
    let mut i: usize = 0;
    while i < cs.len()
        invariant
            i <= cs@.len(),
            cs@ == src@,
            dst@ == old(dst)@ + cs@.take(i as int),
        decreases cs@.len() - i,
    {
        string_push(dst, cs[i]);
        proof {
            assert(dst@ =~= old(dst)@ + cs@.take(i + 1));
        }
        i += 1;
    }
    proof {
        assert(cs@.take(cs@.len() as int) =~= cs@);
    }
}

/// `cs` without any occurrence of `c`.
pub fn remove_char(cs: &Vec<char>, c: char) -> (r: Vec<char>)
    ensures
        r@ == without_char(cs@, c),
{
    let mut r: Vec<char> = Vec::new();
    let mut i: usize = 0;
    while i < cs.len()
        invariant
            i <= cs@.len(),
            r@ == without_char(cs@.take(i as int), c),
        decreases cs@.len() - i,
    {
        proof {
            assert(cs@.take(i + 1).drop_last() =~= cs@.take(i as int));
            assert(cs@.take(i + 1).last() == cs@[i as int]);
        }
        if cs[i] != c {
            r.push(cs[i]);
        }
        i += 1;
    }
    proof {
        assert(cs@.take(cs@.len() as int) =~= cs@);
    }
    r
}

/// The first line of `text`, or the empty string.
pub fn first_line_str(text: &str) -> (r: String)
    ensures
        r@ == first_line(text@),
{
    let mut lines = lines_str(text);
    if lines.len() > 0 {
        proof {
            assert(views(lines@)[0] == lines@[0]@);
        }
        lines.swap_remove(0)
    } else {
        String::new()
    }
}

/// `char::is_whitespace`.
pub fn char_is_whitespace(c: char) -> (b: bool)
    ensures
        b == is_whitespace(c),
{
    ('\t' <= c && c <= '\r') || c == ' ' || c == '\u{85}' || c == '\u{A0}' || c == '\u{1680}' || (
    '\u{2000}' <= c && c <= '\u{200A}') || c == '\u{2028}' || c == '\u{2029}' || c == '\u{202F}'
        || c == '\u{205F}' || c == '\u{3000}'
}

proof fn lemma_trim_start_skip(s: Seq<char>, i: int)
    requires
        0 <= i <= s.len(),
        forall|j: int| 0 <= j < i ==> is_whitespace(#[trigger] s[j]),
    ensures
        trim_start(s) == trim_start(s.skip(i)),
    decreases i,
{
    if i > 0 {
        lemma_trim_start_skip(s, i - 1);
        let t = s.skip(i - 1);
        assert(t[0] == s[i - 1]);
        assert(t.drop_first() =~= s.skip(i));
    } else {
        assert(s.skip(0) =~= s);
    }
}

/// Number of leading whitespace characters: `trim_start` drops exactly them.
pub fn leading_whitespace(cs: &Vec<char>) -> (k: usize)
    ensures
        k <= cs@.len(),
        trim_start(cs@) == cs@.skip(k as int),
        forall|j: int| 0 <= j < k ==> is_whitespace(#[trigger] cs@[j]),
{
    let mut k: usize = 0;
    while k < cs.len() && char_is_whitespace(cs[k])
        invariant
            k <= cs@.len(),
            forall|j: int| 0 <= j < k ==> is_whitespace(#[trigger] cs@[j]),
        decreases cs@.len() - k,
    {
        k += 1;
    }
    proof {
        lemma_trim_start_skip(cs@, k as int);
    }
    k
}

proof fn lemma_trim_end_take(s: Seq<char>, i: int)
    requires
        0 <= i <= s.len(),
        forall|j: int| i <= j < s.len() ==> is_whitespace(#[trigger] s[j]),
    ensures
        trim_end(s) == trim_end(s.take(i)),
    decreases s.len() - i,
{
    if i < s.len() {
        assert(s.last() == s[s.len() - 1]);
        assert(s.len() > 0 && is_whitespace(s.last()));
        let d = s.drop_last();
        assert forall|j: int| i <= j < d.len() implies is_whitespace(#[trigger] d[j]) by {
            assert(d[j] == s[j]);
        }
        lemma_trim_end_take(d, i);
        assert(d.take(i) =~= s.take(i));
    } else {
        assert(s.take(i) =~= s);
    }
}

/// Length of `cs` once its trailing whitespace is dropped.
pub fn trimmed_end_len(cs: &Vec<char>) -> (k: usize)
    ensures
        k <= cs@.len(),
        trim_end(cs@) == cs@.take(k as int),
{
    let mut k: usize = cs.len();
    while k > 0 && char_is_whitespace(cs[k - 1])
        invariant
            k <= cs@.len(),
            forall|j: int| k <= j < cs@.len() ==> is_whitespace(#[trigger] cs@[j]),
        decreases k,
    {
        k -= 1;
    }
    proof {
        lemma_trim_end_take(cs@, k as int);
        let t = cs@.take(k as int);
        if t.len() > 0 {
            assert(t.last() == cs@[k - 1]);
        }
    }
    k
}

/// Whether `cs` starts with `p`.
pub fn vec_starts_with(cs: &Vec<char>, p: &Vec<char>) -> (b: bool)
    ensures
        b == starts_with(cs@, p@),
{
    if p.len() > cs.len() {
        return false;
    }
    let mut i: usize = 0;
    while i < p.len()
        invariant
            p@.len() <= cs@.len(),
            i <= p@.len(),
            forall|j: int| 0 <= j < i ==> cs@[j] == p@[j],
        decreases p@.len() - i,
    {
        if cs[i] != p[i] {
            proof {
                assert(cs@.take(p@.len() as int)[i as int] != p@[i as int]);
            }
            return false;
        }
        i += 1;
    }
    proof {
        assert(cs@.take(p@.len() as int) =~= p@);
    }
    true
}

/// Whether `cs[at..]` starts with `p`.
pub fn occurs_at_exec(cs: &Vec<char>, p: &Vec<char>, at: usize) -> (b: bool)
    requires
        at <= cs@.len(),
    ensures
        b == occurs_at(cs@, p@, at as int),
{
    if p.len() > cs.len() - at {
        return false;
    }
    let mut i: usize = 0;
    while i < p.len()
        invariant
            at + p@.len() <= cs.len(),
            cs.len() == cs@.len(),
            i <= p@.len(),
            forall|j: int| 0 <= j < i ==> cs@[at + j] == p@[j],
        decreases p@.len() - i,
    {
        if cs[at + i] != p[i] {
            proof {
                assert(cs@.subrange(at as int, at + p@.len())[i as int] != p@[i as int]);
            }
            return false;
        }
        i += 1;
    }
    proof {
        assert(cs@.subrange(at as int, at + p@.len()) =~= p@);
    }
    true
}

/// Index of the first occurrence of `p` in `cs`.
pub fn find_exec(cs: &Vec<char>, p: &Vec<char>) -> (r: Option<usize>)
    ensures
        match r {
            Some(i) => find(cs@, p@) == Some(i as int) && i + p@.len() <= cs@.len(),
            None => find(cs@, p@) is None,
        },
{
    let mut i: usize = 0;
    while i <= cs.len()
        invariant
            i <= cs@.len() + 1,
            find(cs@, p@) == find_from(cs@, p@, i as int),
        decreases cs@.len() + 1 - i,
    {
        if p.len() > cs.len() - i {
            return None;
        }
        if occurs_at_exec(cs, p, i) {
            return Some(i);
        }
        if p.len() == 0 {
            return None;
        }
        i += 1;
    }
    None
}

/// Whether `c` occurs in `cs`.
pub fn contains_char(cs: &Vec<char>, c: char) -> (b: bool)
    ensures
        b == cs@.contains(c),
{
    let mut i: usize = 0;
    while i < cs.len()
        invariant
            i <= cs@.len(),
            forall|j: int| 0 <= j < i ==> cs@[j] != c,
        decreases cs@.len() - i,
    {
        if cs[i] == c {
            return true;
        }
        i += 1;
    }
    false
}

/// `str::split` with a character separator, as owned strings.
pub fn split_chars(cs: &Vec<char>, sep: char) -> (r: Vec<String>)
    ensures
        views(r@) == split_on(cs@, sep),
{
    let mut out: Vec<String> = Vec::new();
    let mut cur = String::new();
    let mut i: usize = 0;
    proof {
        assert(cs@.skip(0) =~= cs@);
    }
    while i < cs.len()
        invariant
            i <= cs@.len(),
            views(out@) + split_from(cs@.skip(i as int), sep, cur@) == split_on(cs@, sep),
        decreases cs@.len() - i,
    {
        let c = cs[i];
        let ghost rest = cs@.skip(i as int);
        proof {
            assert(rest[0] == c);
            assert(rest.drop_first() =~= cs@.skip(i + 1));
        }
        if c == sep {
            let ghost old_out = views(out@);
            let ghost old_cur = cur@;
            out.push(cur);
            cur = String::new();
            proof {
                assert(views(out@) =~= old_out.push(old_cur));
                assert(cur@ =~= Seq::<char>::empty());
                assert(views(out@) + split_from(cs@.skip(i + 1), sep, cur@) =~= old_out + (seq![
                    old_cur,
                ] + split_from(cs@.skip(i + 1), sep, Seq::empty())));
            }
        } else {
            string_push(&mut cur, c);
        }
        i += 1;
    }
    let ghost old_out = views(out@);
    let ghost old_cur = cur@;
    out.push(cur);
    proof {
        assert(cs@.skip(i as int) =~= Seq::<char>::empty());
        assert(views(out@) =~= old_out.push(old_cur));
        assert(views(out@) =~= old_out + seq![old_cur]);
    }
    out
}

/// `str::split` on a string slice.
pub fn split_str(s: &str, sep: char) -> (r: Vec<String>)
    ensures
        views(r@) == split_on(s@, sep),
{
    let cs = chars_of(s);
    split_chars(&cs, sep)
}

/// Drops one trailing carriage return, if any.
pub fn strip_cr_string(s: String) -> (r: String)
    ensures
        r@ == strip_cr(s@),
{
    let cs = chars_of(s.as_str());
    if cs.len() > 0 && cs[cs.len() - 1] == '\r' {
        let r = string_of_range(&cs, 0, cs.len() - 1);
        proof {
            assert(cs@.subrange(0, cs@.len() - 1) =~= cs@.drop_last());
        }
        r
    } else {
        s
    }
}

/// `str::lines`, as owned strings.
pub fn lines_str(s: &str) -> (r: Vec<String>)
    ensures
        views(r@) == lines_of(s@),
{
    let mut pieces = split_str(s, '\n');
    let ghost p = split_on(s@, '\n');
    proof {
        lemma_split_nonempty(s@, '\n', Seq::empty());
    }
    let last = pieces.pop().unwrap();
    let mut out: Vec<String> = Vec::new();
    let n = pieces.len();
    let mut i: usize = 0;
    while i < n
        invariant
            n == pieces@.len(),
            p.len() > 0,
            views(pieces@) == p.drop_last(),
            i <= n,
            views(out@) == p.drop_last().take(i as int).map_values(|l: Seq<char>| strip_cr(l)),
        decreases n - i,
    {
        let piece = pieces[i].clone();
        let stripped = strip_cr_string(piece);
        let ghost old_out = views(out@);
        out.push(stripped);
        proof {
            let d = p.drop_last();
            assert(views(pieces@)[i as int] == pieces@[i as int]@);
            assert(d[i as int] == pieces@[i as int]@);
            assert(d.take(i + 1) =~= d.take(i as int).push(d[i as int]));
            assert(d.take(i + 1).map_values(|l: Seq<char>| strip_cr(l)) =~= d.take(
                i as int,
            ).map_values(|l: Seq<char>| strip_cr(l)).push(strip_cr(d[i as int])));
            assert(views(out@) =~= old_out.push(stripped@));
        }
        i += 1;
    }
    proof {
        assert(p.drop_last().take(n as int) =~= p.drop_last());
        assert(last@ == p.last());
    }
    if last.as_str().is_empty() {
        out
    } else {
        let ghost old_out = views(out@);
        out.push(last);
        proof {
            assert(views(out@) =~= old_out.push(p.last()));
        }
        out
    }
}

/// The number of times `c` occurs in `s`.
pub open spec fn count_char(s: Seq<char>, c: char) -> nat
    decreases s.len(),
{
    if s.len() == 0 {
        0
    } else {
        (if s[0] == c {
            1nat
        } else {
            0nat
        }) + count_char(s.drop_first(), c)
    }
}

/// Occurrences in a concatenation add up.
pub proof fn lemma_count_concat(a: Seq<char>, b: Seq<char>, c: char)
    ensures
        count_char(a + b, c) == count_char(a, c) + count_char(b, c),
    decreases a.len(),
{
    if a.len() > 0 {
        assert((a + b).drop_first() =~= a.drop_first() + b);
        lemma_count_concat(a.drop_first(), b, c);
    } else {
        assert(a + b =~= b);
    }
}

/// `n` newlines hold `n` newlines.
pub proof fn lemma_count_newlines(n: nat)
    ensures
        count_char(newlines(n), '\n') == n,
    decreases n,
{
    if n > 0 {
        assert(newlines(n).drop_first() =~= newlines((n - 1) as nat));
        lemma_count_newlines((n - 1) as nat);
    }
}

/// Splitting gives one piece more than there are separators.
pub proof fn lemma_split_len(s: Seq<char>, sep: char, cur: Seq<char>)
    ensures
        split_from(s, sep, cur).len() == count_char(s, sep) + 1,
    decreases s.len(),
{
    if s.len() > 0 {
        if s[0] == sep {
            lemma_split_len(s.drop_first(), sep, Seq::empty());
        } else {
            lemma_split_len(s.drop_first(), sep, cur.push(s[0]));
        }
    }
}

/// When `s` does not end with the separator, its last piece is not empty.
proof fn lemma_split_last_nonempty(s: Seq<char>, sep: char, cur: Seq<char>)
    requires
        s.len() > 0,
        s.last() != sep,
    ensures
        split_from(s, sep, cur).len() > 0,
        split_from(s, sep, cur).last().len() > 0,
    decreases s.len(),
{
    lemma_split_nonempty(s, sep, cur);
    let rest = s.drop_first();
    if s.len() == 1 {
        assert(rest.len() == 0);
    } else {
        assert(rest.last() == s.last());
        if s[0] == sep {
            lemma_split_last_nonempty(rest, sep, Seq::empty());
            let tail = split_from(rest, sep, Seq::empty());
            assert((seq![cur] + tail).last() == tail.last());
        } else {
            lemma_split_last_nonempty(rest, sep, cur.push(s[0]));
        }
    }
}

/// A text that is not empty and does not end with a newline has one line
/// more than it has newlines.
pub proof fn lemma_lines_len(s: Seq<char>)
    requires
        s.len() > 0,
        s.last() != '\n',
    ensures
        lines_of(s).len() == count_char(s, '\n') + 1,
{
    lemma_split_last_nonempty(s, '\n', Seq::empty());
    lemma_split_len(s, '\n', Seq::empty());
}

proof fn lemma_split_nonempty(s: Seq<char>, sep: char, cur: Seq<char>)
    ensures
        split_from(s, sep, cur).len() > 0,
    decreases s.len(),
{
    if s.len() > 0 {
        if s[0] == sep {
            lemma_split_nonempty(s.drop_first(), sep, Seq::empty());
        } else {
            lemma_split_nonempty(s.drop_first(), sep, cur.push(s[0]));
        }
    }
}

/// `str::split_whitespace` over `cs[lo..]`, as owned strings.
pub fn words_of_range(cs: &Vec<char>, lo: usize) -> (r: Vec<String>)
    requires
        lo <= cs@.len(),
    ensures
        views(r@) == words(cs@.skip(lo as int)),
{
    let mut out: Vec<String> = Vec::new();
    let mut cur = String::new();
    let mut i: usize = lo;
    while i < cs.len()
        invariant
            lo <= i <= cs@.len(),
            views(out@) + words_from(cs@.skip(i as int), cur@) == words(cs@.skip(lo as int)),
        decreases cs@.len() - i,
    {
        let c = cs[i];
        let ghost rest = cs@.skip(i as int);
        proof {
            assert(rest[0] == c);
            assert(rest.drop_first() =~= cs@.skip(i + 1));
        }
        if char_is_whitespace(c) {
            if !cur.as_str().is_empty() {
                let ghost old_out = views(out@);
                let ghost old_cur = cur@;
                out.push(cur);
                cur = String::new();
                proof {
                    assert(views(out@) =~= old_out + seq![old_cur]);
                    assert(words_from(rest, old_cur) == seq![old_cur] + words_from(
                        cs@.skip(i + 1),
                        Seq::empty(),
                    ));
                    assert(cur@ =~= Seq::<char>::empty());
                    assert(views(out@) + words_from(cs@.skip(i + 1), cur@) =~= old_out + (seq![
                        old_cur,
                    ] + words_from(cs@.skip(i + 1), Seq::empty())));
                }
            } else {
                proof {
                    assert(cur@ =~= Seq::<char>::empty());
                    assert(words_from(rest, cur@) == Seq::<Seq<char>>::empty() + words_from(
                        cs@.skip(i + 1),
                        Seq::empty(),
                    ));
                    assert(Seq::<Seq<char>>::empty() + words_from(cs@.skip(i + 1), Seq::empty())
                        =~= words_from(cs@.skip(i + 1), Seq::empty()));
                }
            }
        } else {
            string_push(&mut cur, c);
        }
        i += 1;
    }
    proof {
        assert(cs@.skip(i as int) =~= Seq::<char>::empty());
    }
    if !cur.as_str().is_empty() {
        let ghost old_out = views(out@);
        let ghost old_cur = cur@;
        out.push(cur);
        proof {
            assert(views(out@) =~= old_out + seq![old_cur]);
        }
    } else {
        proof {
            assert(views(out@) =~= views(out@) + Seq::<Seq<char>>::empty());
        }
    }
    out
}

/// Appends the decimal digits of `n` to `s`.
pub fn push_decimal(s: &mut String, n: u64)
    ensures
        final(s)@ == old(s)@ + decimal(n as nat),
    decreases n,
{
    if n >= 10 {
        push_decimal(s, n / 10);
    }
    let d = n % 10;
    let c = if d == 0 {
        '0'
    } else if d == 1 {
        '1'
    } else if d == 2 {
        '2'
    } else if d == 3 {
        '3'
    } else if d == 4 {
        '4'
    } else if d == 5 {
        '5'
    } else if d == 6 {
        '6'
    } else if d == 7 {
        '7'
    } else if d == 8 {
        '8'
    } else {
        '9'
    };
    string_push(s, c);
    proof {
        assert(c == digit_char(d as nat));
        if n >= 10 {
            assert(decimal(n as nat) == decimal((n / 10) as nat).push(digit_char((n % 10) as nat)));
        }
    }
}

/// `usize::to_string`.
pub fn usize_to_string(n: usize) -> (r: String)
    ensures
        r@ == decimal(n as nat),
{
    let mut s = String::new();
    push_decimal(&mut s, n as u64);
    s
}

/// `i64::to_string`.
pub fn i64_to_string(v: i64) -> (r: String)
    ensures
        r@ == signed_decimal(v as int),
{
    let mut s = String::new();
    if v < 0 {
        string_push(&mut s, '-');
        let m: u64 = if v == i64::MIN {
            9223372036854775808u64
        } else {
            (-v) as u64
        };
        push_decimal(&mut s, m);
    } else {
        push_decimal(&mut s, v as u64);
    }
    s
}

/// Whether the two strings hold the same characters.
pub fn str_eq(a: &str, b: &str) -> (r: bool)
    ensures
        r == (a@ == b@),
{
    let x = chars_of(a);
    let y = chars_of(b);
    if x.len() != y.len() {
        assert(x@.len() != y@.len());
        return false;
    }
    let mut i: usize = 0;
    while i < x.len()
        invariant
            x@ == a@,
            y@ == b@,
            x@.len() == y@.len(),
            i <= x@.len(),
            forall|j: int| 0 <= j < i ==> x@[j] == y@[j],
        decreases x@.len() - i,
    {
        if x[i] != y[i] {
            assert(x@[i as int] != y@[i as int]);
            return false;
        }
        i += 1;
    }
    proof {
        assert(x@ =~= y@);
    }
    true
}

/// No string sorts before itself.
pub proof fn lemma_seq_lt_irreflexive(a: Seq<char>)
    ensures
        !seq_lt(a, a),
    decreases a.len(),
{
    if a.len() > 0 {
        lemma_seq_lt_irreflexive(a.drop_first());
    }
}

/// The order of strings is transitive.
pub proof fn lemma_seq_lt_transitive(a: Seq<char>, b: Seq<char>, c: Seq<char>)
    requires
        seq_lt(a, b),
        seq_lt(b, c),
    ensures
        seq_lt(a, c),
    decreases a.len(),
{
    if a.len() > 0 && b.len() > 0 && c.len() > 0 && a[0] == b[0] && b[0] == c[0] {
        lemma_seq_lt_transitive(a.drop_first(), b.drop_first(), c.drop_first());
    }
}

/// Of two different strings, one sorts before the other.
pub proof fn lemma_seq_lt_total(a: Seq<char>, b: Seq<char>)
    requires
        a != b,
    ensures
        seq_lt(a, b) || seq_lt(b, a),
    decreases a.len(),
{
    if a.len() > 0 && b.len() > 0 && a[0] == b[0] {
        if a.drop_first() == b.drop_first() {
            assert(a =~= seq![a[0]] + a.drop_first());
            assert(b =~= seq![b[0]] + b.drop_first());
        }
        lemma_seq_lt_total(a.drop_first(), b.drop_first());
    } else if a.len() == 0 && b.len() == 0 {
        assert(a =~= b);
    }
}

proof fn lemma_seq_lt_step(a: Seq<char>, b: Seq<char>, i: int)
    requires
        0 <= i <= a.len(),
        i <= b.len(),
        a.take(i) == b.take(i),
    ensures
        seq_lt(a, b) == seq_lt(a.skip(i), b.skip(i)),
    decreases i,
{
    if i > 0 {
        assert(a[0] == a.take(i)[0]);
        assert(b[0] == b.take(i)[0]);
        assert(a.drop_first().take(i - 1) =~= a.take(i).drop_first());
        assert(b.drop_first().take(i - 1) =~= b.take(i).drop_first());
        lemma_seq_lt_step(a.drop_first(), b.drop_first(), i - 1);
        assert(a.drop_first().skip(i - 1) =~= a.skip(i));
        assert(b.drop_first().skip(i - 1) =~= b.skip(i));
    } else {
        assert(a.skip(0) =~= a);
        assert(b.skip(0) =~= b);
    }
}

/// Whether `a` sorts strictly before `b`.
pub fn str_lt(a: &str, b: &str) -> (r: bool)
    ensures
        r == seq_lt(a@, b@),
{
    let x = chars_of(a);
    let y = chars_of(b);
    let mut i: usize = 0;
    while i < x.len() && i < y.len()
        invariant
            x@ == a@,
            y@ == b@,
            i <= x@.len(),
            i <= y@.len(),
            x@.take(i as int) == y@.take(i as int),
        decreases x@.len() - i,
    {
        if x[i] != y[i] {
            proof {
                lemma_seq_lt_step(x@, y@, i as int);
                assert(x@.skip(i as int)[0] == x@[i as int]);
                assert(y@.skip(i as int)[0] == y@[i as int]);
            }
            return x[i] < y[i];
        }
        proof {
            assert(x@.take(i + 1) =~= x@.take(i as int).push(x@[i as int]));
            assert(y@.take(i + 1) =~= y@.take(i as int).push(y@[i as int]));
        }
        i += 1;
    }
    proof {
        lemma_seq_lt_step(x@, y@, i as int);
    }
    i == x.len() && i < y.len()
}

/// `str::to_ascii_lowercase`.
pub fn ascii_lowercase(s: &str) -> (r: String)
    ensures
        r@ == ascii_lower(s@),
{
    let cs = chars_of(s);
    let mut r = String::new();
    let mut i: usize = 0;
    while i < cs.len()
        invariant
            i <= cs@.len(),
            r@ == ascii_lower(cs@.take(i as int)),
        decreases cs@.len() - i,
    {
        let c = cs[i];
        let l = if 'A' <= c && c <= 'Z' {
            ((c as u8) + 32) as char
        } else {
            c
        };
        assert(l == ascii_lower_char(c));
        string_push(&mut r, l);
        proof {
            assert(ascii_lower(cs@.take(i + 1)) =~= ascii_lower(cs@.take(i as int)).push(
                ascii_lower_char(c),
            ));
        }
        i += 1;
    }
    proof {
        assert(cs@.take(cs@.len() as int) =~= cs@);
    }
    r
}

/// The pieces with `sep` between neighbours (`[String]::join`).
pub fn join_texts(pieces: &Vec<String>, sep: &str) -> (r: String)
    ensures
        r@ == join(views(pieces@), sep@),
{
    let mut r = String::new();
    let ghost pv = views(pieces@);
    let mut i: usize = 0;
    proof {
        assert(pv.take(0) =~= Seq::<Seq<char>>::empty());
    }
    while i < pieces.len()
        invariant
            i <= pieces@.len(),
            pv == views(pieces@),
            r@ == join(pv.take(i as int), sep@),
        decreases pieces@.len() - i,
    {
        if i > 0 {
            push_str(&mut r, sep);
        }
        push_str(&mut r, pieces[i].as_str());
        proof {
            let t = pv.take(i + 1);
            assert(t.drop_last() =~= pv.take(i as int));
            assert(t.last() == pieces@[i as int]@);
            if i == 0 {
                assert(r@ =~= t[0]);
            }
        }
        i += 1;
    }
    proof {
        assert(pv.take(pieces@.len() as int) =~= pv);
    }
    r
}

/// `s` without leading and trailing whitespace (`str::trim`).
pub fn trim_string(s: &str) -> (r: String)
    ensures
        r@ == trim(s@),
{
    let cs = chars_of(s);
    let k = leading_whitespace(&cs);
    let rest = string_of_range(&cs, k, cs.len());
    let rcs = chars_of(rest.as_str());
    let e = trimmed_end_len(&rcs);
    string_of_range(&rcs, 0, e)
}

/// Appends copies of the strings of `src` to `dst`.
pub fn append_texts(dst: &mut Vec<String>, src: &Vec<String>)
    ensures
        views(final(dst)@) == views(old(dst)@) + views(src@),
{
    let mut i: usize = 0;
    while i < src.len()
        invariant
            i <= src@.len(),
            views(dst@) == views(old(dst)@) + views(src@).take(i as int),
        decreases src@.len() - i,
    {
        let ghost prev = views(dst@);
        let t = src[i].clone();
        dst.push(t);
        proof {
            assert(views(dst@) =~= prev.push(t@));
            assert(views(src@).take(i + 1) =~= views(src@).take(i as int).push(src@[i as int]@));
        }
        i += 1;
    }
    proof {
        assert(views(src@).take(src@.len() as int) =~= views(src@));
    }
}

} // verus!
