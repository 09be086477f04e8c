//! Inline suppressions: `# noqa <ids>` comments.
use crate::text::{
    chars_of, find, find_exec, lemma_split_len, lines_of, lines_str, split_from, split_on, str_eq, strip_cr, views,
    words, words_of_range,
};
use vstd::prelude::*;

verus! {

/// The marker after which a line lists the rule ids it silences.
pub open spec fn noqa_marker() -> Seq<char> {
    seq!['#', ' ', 'n', 'o', 'q', 'a']
}

/// The whitespace-separated words after the first `# noqa` of a line.
pub open spec fn noqa_ids(line: Seq<char>) -> Seq<Seq<char>> {
    match find(line, noqa_marker()) {
        None => Seq::empty(),
        Some(i) => words(line.skip(i + 6)),
    }
}

/// Whether some line of `text` silences `rule_id`.
pub open spec fn text_silences(text: Seq<char>, rule_id: Seq<char>) -> bool {
    exists|i: int|
        0 <= i < lines_of(text).len() && #[trigger] noqa_ids(lines_of(text)[i]).contains(rule_id)
}

pub fn parse_noqa_ids(line: &str) -> (ids: Vec<String>)
    ensures
        views(ids@) == noqa_ids(line@),
{
    let cs = chars_of(line);
    let marker = chars_of("# noqa");
    proof {
        reveal_strlit("# noqa");
        assert(marker@ =~= noqa_marker());
    }
    let n = cs.len();
    match find_exec(&cs, &marker) {
        None => Vec::new(),
        Some(i) => words_of_range(&cs, i + 6),
    }
}

/// Whether `id` is among the views of `ids`.
pub fn contains_str(ids: &Vec<String>, id: &str) -> (b: bool)
    ensures
        b == views(ids@).contains(id@),
{
    let mut i: usize = 0;
    while i < ids.len()
        invariant
            i <= ids@.len(),
            forall|j: int| 0 <= j < i ==> ids@[j]@ != id@,
        decreases ids@.len() - i,
    {
        if str_eq(ids[i].as_str(), id) {
            proof {
                assert(views(ids@)[i as int] == id@);
            }
            return true;
        }
        i += 1;
    }
    proof {
        if views(ids@).contains(id@) {
            let k = choose|k: int| 0 <= k < views(ids@).len() && views(ids@)[k] == id@;
            assert(ids@[k]@ == id@);
        }
    }
    false
}

pub fn text_has_noqa(text: &str, rule_id: &str) -> (b: bool)
    ensures
        b == text_silences(text@, rule_id@),
{
    let lines = lines_str(text);
    let mut i: usize = 0;
    while i < lines.len()
        invariant
            views(lines@) == lines_of(text@),
            i <= lines@.len(),
            forall|j: int| 0 <= j < i ==> !#[trigger] noqa_ids(lines_of(text@)[j]).contains(rule_id@),
        decreases lines@.len() - i,
    {
        let ids = parse_noqa_ids(lines[i].as_str());
        proof {
            assert(lines_of(text@)[i as int] == lines@[i as int]@);
        }
        if contains_str(&ids, rule_id) {
            return true;
        }
        i += 1;
    }
    false
}

/// A `# noqa` naming a rule silences it in a whole text whichever line of
/// the text carries it, the first, the last or any between; and a text
/// silences a rule only through such a line.
pub proof fn law_noqa_on_any_line_silences(text: Seq<char>, rule_id: Seq<char>)
    ensures
        forall|i: int|
            0 <= i < lines_of(text).len() && noqa_ids(#[trigger] lines_of(text)[i]).contains(rule_id)
                ==> text_silences(text, rule_id),
        text_silences(text, rule_id) ==> exists|i: int|
            0 <= i < lines_of(text).len() && noqa_ids(#[trigger] lines_of(text)[i]).contains(rule_id),
{
}

/// Splitting a text that starts with a piece without separators carries
/// that piece into the piece being built.
proof fn lemma_split_prefix(h: Seq<char>, x: Seq<char>, sep: char, cur: Seq<char>)
    requires
        !h.contains(sep),
    ensures
        split_from(h + x, sep, cur) == split_from(x, sep, cur + h),
    decreases h.len(),
{
    if h.len() == 0 {
        assert(h + x =~= x);
        assert(cur + h =~= cur);
    } else {
        assert(h[0] != sep);
        assert((h + x)[0] == h[0]);
        assert((h + x).drop_first() =~= h.drop_first() + x);
        assert(!h.drop_first().contains(sep)) by {
            if h.drop_first().contains(sep) {
                let k = choose|k: int| 0 <= k < h.drop_first().len() && h.drop_first()[k] == sep;
                assert(h[k + 1] == sep);
            }
        }
        lemma_split_prefix(h.drop_first(), x, sep, cur.push(h[0]));
        assert(cur.push(h[0]) + h.drop_first() =~= cur + h);
    }
}

/// A `# noqa` on the first line of a text silences the rule in the whole
/// text, whatever lines follow it.
pub proof fn law_noqa_on_first_line_silences(head: Seq<char>, rest: Seq<char>, rule_id: Seq<char>)
    requires
        !head.contains('\n'),
        head.len() == 0 || head.last() != '\r',
        noqa_ids(head).contains(rule_id),
    ensures
        text_silences(head + seq!['\n'] + rest, rule_id),
{
    let text = head + seq!['\n'] + rest;
    lemma_split_prefix(head, seq!['\n'] + rest, '\n', Seq::empty());
    assert(Seq::<char>::empty() + head =~= head);
    let x = seq!['\n'] + rest;
    assert(x[0] == '\n');
    assert(x.drop_first() =~= rest);
    assert(head + seq!['\n'] + rest =~= head + x);
    let p = split_on(text, '\n');
    assert(p == seq![head] + split_from(rest, '\n', Seq::empty()));
    lemma_split_len(rest, '\n', Seq::empty());
    assert(p.len() >= 2);
    assert(p[0] == head);
    assert(p.drop_last()[0] == head);
    assert(strip_cr(head) == head);
    assert(lines_of(text)[0] == head);
    assert(noqa_ids(lines_of(text)[0]).contains(rule_id));
}

} // verus!
