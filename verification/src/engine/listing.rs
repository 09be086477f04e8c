//! The listings of a rule collection: its rules by id, and its tags with
//! the rules that carry them.
use crate::engine::collection::RuleCollection;
use crate::engine::rule::Rule;
use crate::order::{
    dedup, dedup_texts, insertion_sort, lemma_dedup_sorted, lemma_insert_at, lemma_insertion_sort,
    lemma_text_lt_strict_order, sort_texts, sorted_by, strict_order, strictly_increasing, text_lt,
};
use crate::problem::RuleMeta;
use crate::text::{
    join, join_texts, lemma_seq_lt_irreflexive, lemma_seq_lt_transitive, push_str, seq_lt, str_eq,
    str_lt, views,
};
use vstd::prelude::*;

verus! {

// ---------------------------------------------------------------------------
// Models
// ---------------------------------------------------------------------------
/// The metadata of the rules, in registration order.
pub open spec fn rule_metas(rules: Seq<Box<dyn Rule>>) -> Seq<RuleMeta> {
    Seq::new(rules.len(), |i: int| rules[i].spec_meta())
}

/// Rules ordered by id.
pub open spec fn id_lt() -> spec_fn(RuleMeta, RuleMeta) -> bool {
    |a: RuleMeta, b: RuleMeta| seq_lt(a.id@, b.id@)
}

/// The entry of a rule: `id: shortdesc`, then ` description` on a line of
/// its own.
pub open spec fn rule_entry(m: RuleMeta) -> Seq<char> {
    m.id@ + seq![':', ' '] + m.shortdesc@ + seq!['\n', ' '] + m.description@
}

/// The entries of the rules sorted by id, one after another.
pub open spec fn rules_listing(rules: Seq<Box<dyn Rule>>) -> Seq<char> {
    join(insertion_sort(rule_metas(rules), id_lt()).map_values(|m: RuleMeta| rule_entry(m)), seq!['\n'])
}

/// One `(tag, id)` for each tag of each rule, in registration order.
pub open spec fn tag_pairs(metas: Seq<RuleMeta>) -> Seq<(Seq<char>, Seq<char>)>
    decreases metas.len(),
{
    if metas.len() == 0 {
        Seq::empty()
    } else {
        let m = metas.last();
        tag_pairs(metas.drop_last()) + m.tags@.map_values(|t: &str| (t@, m.id@))
    }
}

/// The tags, sorted, each once.
pub open spec fn tag_keys(pairs: Seq<(Seq<char>, Seq<char>)>) -> Seq<Seq<char>> {
    dedup(insertion_sort(pairs.map_values(|p: (Seq<char>, Seq<char>)| p.0), text_lt()))
}

/// The ids paired with `tag`, in order.
pub open spec fn ids_for(pairs: Seq<(Seq<char>, Seq<char>)>, tag: Seq<char>) -> Seq<Seq<char>>
    decreases pairs.len(),
{
    if pairs.len() == 0 {
        Seq::empty()
    } else {
        let prev = ids_for(pairs.drop_last(), tag);
        if pairs.last().0 == tag {
            prev.push(pairs.last().1)
        } else {
            prev
        }
    }
}

/// An id in brackets.
pub open spec fn bracketed(id: Seq<char>) -> Seq<char> {
    seq!['['] + id + seq![']']
}

/// The line of a tag: the tag, a space, and its rules' ids sorted, each in
/// brackets, separated by `, `.
pub open spec fn tag_line(pairs: Seq<(Seq<char>, Seq<char>)>, tag: Seq<char>) -> Seq<char> {
    tag + seq![' '] + join(
        insertion_sort(ids_for(pairs, tag), text_lt()).map_values(|id: Seq<char>| bracketed(id)),
        seq![',', ' '],
    )
}

/// The lines of the tags in order, one after another.
pub open spec fn tags_listing(rules: Seq<Box<dyn Rule>>) -> Seq<char> {
    let pairs = tag_pairs(rule_metas(rules));
    join(tag_keys(pairs).map_values(|t: Seq<char>| tag_line(pairs, t)), seq!['\n'])
}

pub open spec fn pair_views(v: Seq<(String, String)>) -> Seq<(Seq<char>, Seq<char>)> {
    v.map_values(|p: (String, String)| (p.0@, p.1@))
}

/// The order of rules by id is a strict order.
pub proof fn lemma_id_lt_strict_order()
    ensures
        strict_order(id_lt()),
{
    assert forall|a: RuleMeta| !#[trigger] id_lt()(a, a) by {
        lemma_seq_lt_irreflexive(a.id@);
    }
    assert forall|a: RuleMeta, b: RuleMeta, c: RuleMeta|
        #[trigger] id_lt()(a, b) && #[trigger] id_lt()(b, c) implies id_lt()(a, c) by {
        lemma_seq_lt_transitive(a.id@, b.id@, c.id@);
    }
}

/// `render_rules` lists every rule once, in order of id.
pub proof fn law_rules_listed_in_id_order(rules: Seq<Box<dyn Rule>>)
    ensures
        sorted_by(insertion_sort(rule_metas(rules), id_lt()), id_lt()),
        insertion_sort(rule_metas(rules), id_lt()).to_multiset() == rule_metas(rules).to_multiset(),
{
    lemma_id_lt_strict_order();
    lemma_insertion_sort(rule_metas(rules), id_lt());
}

/// `render_tags` lists each tag of the rules once, in increasing order.
pub proof fn law_tags_listed_once_in_order(rules: Seq<Box<dyn Rule>>)
    ensures
        ({
            let pairs = tag_pairs(rule_metas(rules));
            &&& strictly_increasing(tag_keys(pairs))
            &&& tag_keys(pairs).to_set() == pairs.map_values(|p: (Seq<char>, Seq<char>)| p.0).to_set()
        }),
{
    broadcast use vstd::seq_lib::group_to_multiset_ensures;

    let pairs = tag_pairs(rule_metas(rules));
    let tags = pairs.map_values(|p: (Seq<char>, Seq<char>)| p.0);
    let sorted = insertion_sort(tags, text_lt());
    lemma_text_lt_strict_order();
    lemma_insertion_sort(tags, text_lt());
    lemma_dedup_sorted(sorted);
    assert forall|x: Seq<char>| #[trigger] sorted.to_set().contains(x) == tags.to_set().contains(x) by {
        assert(sorted.contains(x) <==> sorted.to_multiset().count(x) > 0);
        assert(tags.contains(x) <==> tags.to_multiset().count(x) > 0);
    }
    assert(sorted.to_set() =~= tags.to_set());
}

// ---------------------------------------------------------------------------
// Sorting
// ---------------------------------------------------------------------------
fn sort_metas(v: Vec<RuleMeta>) -> (r: Vec<RuleMeta>)
    ensures
        r@ == insertion_sort(v@, id_lt()),
{
    let mut src = v;
    let ghost orig = src@;
    let n = src.len();
    let mut out: Vec<RuleMeta> = Vec::new();
    let mut i: usize = 0;
    while i < n
        invariant
            i <= n,
            n == orig.len(),
            src@ == orig.skip(i as int),
            out@ == insertion_sort(orig.take(i as int), id_lt()),
        decreases n - i,
    {
        proof {
            assert(src@.len() == n - i);
        }
        let ghost old_src = src@;
        let x = src.remove(0);
        proof {
            assert(orig.skip(i as int)[0] == orig[i as int]);
            assert(src@ =~= orig.skip(i + 1));
        }
        let mut p: usize = 0;
        while p < out.len() && !str_lt(x.id, out[p].id)
            invariant
                p <= out@.len(),
                forall|j: int| 0 <= j < p ==> !id_lt()(x, #[trigger] out@[j]),
            decreases out@.len() - p,
        {
            p += 1;
        }
        let ghost before = out@;
        proof {
            lemma_insert_at(x, before, p as int, id_lt());
            assert(orig.take(i + 1).drop_last() =~= orig.take(i as int));
            assert(orig.take(i + 1).last() == orig[i as int]);
        }
        out.insert(p, x);
        proof {
            assert(out@ =~= before.take(p as int) + seq![x] + before.skip(p as int));
        }
        i += 1;
    }
    proof {
        assert(orig.take(n as int) =~= orig);
    }
    out
}

// ---------------------------------------------------------------------------
// Pieces of the tag listing
// ---------------------------------------------------------------------------
fn metas_of(rules: &Vec<Box<dyn Rule>>) -> (r: Vec<RuleMeta>)
    ensures
        r@ == rule_metas(rules@),
{
    let mut r: Vec<RuleMeta> = Vec::new();
    let mut i: usize = 0;
    while i < rules.len()
        invariant
            i <= rules@.len(),
            r@ == rule_metas(rules@).take(i as int),
        decreases rules@.len() - i,
    {
        let m: RuleMeta = *rules[i].meta();
        r.push(m);
        proof {
            assert(rule_metas(rules@).take(i + 1) =~= rule_metas(rules@).take(i as int).push(m));
        }
        i += 1;
    }
    proof {
        assert(rule_metas(rules@).take(rules@.len() as int) =~= rule_metas(rules@));
    }
    r
}

fn pairs_of(metas: &Vec<RuleMeta>) -> (r: Vec<(String, String)>)
    ensures
        pair_views(r@) == tag_pairs(metas@),
{
    let mut r: Vec<(String, String)> = Vec::new();
    let mut i: usize = 0;
    proof {
        assert(pair_views(r@) =~= tag_pairs(metas@.take(0)));
    }
    while i < metas.len()
        invariant
            i <= metas@.len(),
            pair_views(r@) == tag_pairs(metas@.take(i as int)),
        decreases metas@.len() - i,
    {
        let m = metas[i];
        let ghost base = pair_views(r@);
        let mut k: usize = 0;
        proof {
            assert(pair_views(r@) =~= base + m.tags@.take(0).map_values(|t: &str| (t@, m.id@)));
        }
        while k < m.tags.len()
            invariant
                k <= m.tags@.len(),
                pair_views(r@) == base + m.tags@.take(k as int).map_values(|t: &str| (t@, m.id@)),
            decreases m.tags@.len() - k,
        {
            let t = m.tags[k];
            let ghost prev = pair_views(r@);
            let pair = (t.to_owned(), m.id.to_owned());
            r.push(pair);
            proof {
                assert(pair_views(r@) =~= prev.push((t@, m.id@)));
                assert(m.tags@.take(k + 1) =~= m.tags@.take(k as int).push(t));
                assert(m.tags@.take(k + 1).map_values(|t: &str| (t@, m.id@)) =~= m.tags@.take(
                    k as int,
                ).map_values(|t: &str| (t@, m.id@)).push((t@, m.id@)));
            }
            k += 1;
        }
        proof {
            let ms = metas@.take(i + 1);
            assert(ms.drop_last() =~= metas@.take(i as int));
            assert(ms.last() == m);
            assert(m.tags@.take(m.tags@.len() as int) =~= m.tags@);
        }
        i += 1;
    }
    proof {
        assert(metas@.take(metas@.len() as int) =~= metas@);
    }
    r
}

fn firsts(pairs: &Vec<(String, String)>) -> (r: Vec<String>)
    ensures
        views(r@) == pair_views(pairs@).map_values(|p: (Seq<char>, Seq<char>)| p.0),
{
    let mut r: Vec<String> = Vec::new();
    let ghost pv = pair_views(pairs@).map_values(|p: (Seq<char>, Seq<char>)| p.0);
    let mut i: usize = 0;
    while i < pairs.len()
        invariant
            i <= pairs@.len(),
            pv == pair_views(pairs@).map_values(|p: (Seq<char>, Seq<char>)| p.0),
            views(r@) == pv.take(i as int),
        decreases pairs@.len() - i,
    {
        let t = pairs[i].0.clone();
        let ghost prev = views(r@);
        r.push(t);
        proof {
            assert(pv[i as int] == pairs@[i as int].0@);
            assert(views(r@) =~= prev.push(t@));
            assert(pv.take(i + 1) =~= pv.take(i as int).push(pv[i as int]));
        }
        i += 1;
    }
    proof {
        assert(pv.take(pairs@.len() as int) =~= pv);
    }
    r
}

fn ids_of_tag(pairs: &Vec<(String, String)>, tag: &str) -> (r: Vec<String>)
    ensures
        views(r@) == ids_for(pair_views(pairs@), tag@),
{
    let mut r: Vec<String> = Vec::new();
    let ghost pv = pair_views(pairs@);
    let mut i: usize = 0;
    proof {
        assert(pv.take(0) =~= Seq::<(Seq<char>, Seq<char>)>::empty());
    }
    while i < pairs.len()
        invariant
            i <= pairs@.len(),
            pv == pair_views(pairs@),
            views(r@) == ids_for(pv.take(i as int), tag@),
        decreases pairs@.len() - i,
    {
        let ghost prev = views(r@);
        proof {
            let t = pv.take(i + 1);
            assert(t.drop_last() =~= pv.take(i as int));
            assert(t.last() == pv[i as int]);
            assert(pv[i as int] == (pairs@[i as int].0@, pairs@[i as int].1@));
        }
        if str_eq(pairs[i].0.as_str(), tag) {
            let id = pairs[i].1.clone();
            r.push(id);
            proof {
                assert(views(r@) =~= prev.push(id@));
            }
        }
        i += 1;
    }
    proof {
        assert(pv.take(pairs@.len() as int) =~= pv);
    }
    r
}

fn bracket_all(ids: &Vec<String>) -> (r: Vec<String>)
    ensures
        views(r@) == views(ids@).map_values(|id: Seq<char>| bracketed(id)),
{
    let mut r: Vec<String> = Vec::new();
    let ghost target = views(ids@).map_values(|id: Seq<char>| bracketed(id));
    let mut i: usize = 0;
    while i < ids.len()
        invariant
            i <= ids@.len(),
            target == views(ids@).map_values(|id: Seq<char>| bracketed(id)),
            views(r@) == target.take(i as int),
        decreases ids@.len() - i,
    {
        let mut s = String::new();
        push_str(&mut s, "[");
        push_str(&mut s, ids[i].as_str());
        push_str(&mut s, "]");
        let ghost prev = views(r@);
        r.push(s);
        proof {
            reveal_strlit("[");
            reveal_strlit("]");
            assert(s@ =~= bracketed(ids@[i as int]@));
            assert(target[i as int] == bracketed(ids@[i as int]@));
            assert(views(r@) =~= prev.push(s@));
            assert(target.take(i + 1) =~= target.take(i as int).push(target[i as int]));
        }
        i += 1;
    }
    proof {
        assert(target.take(ids@.len() as int) =~= target);
    }
    r
}

fn tag_line_of(pairs: &Vec<(String, String)>, tag: &str) -> (r: String)
    ensures
        r@ == tag_line(pair_views(pairs@), tag@),
{
    let ids = sort_texts(ids_of_tag(pairs, tag));
    let bracketed_ids = bracket_all(&ids);
    let joined = join_texts(&bracketed_ids, ", ");
    let mut line = String::new();
    push_str(&mut line, tag);
    push_str(&mut line, " ");
    push_str(&mut line, joined.as_str());
    proof {
        reveal_strlit(", ");
        reveal_strlit(" ");
        assert(", "@ =~= seq![',', ' ']);
        assert(line@ =~= tag_line(pair_views(pairs@), tag@));
    }
    line
}

fn entry_of(m: &RuleMeta) -> (r: String)
    ensures
        r@ == rule_entry(*m),
{
    let mut s = String::new();
    push_str(&mut s, m.id);
    push_str(&mut s, ": ");
    push_str(&mut s, m.shortdesc);
    push_str(&mut s, "\n ");
    push_str(&mut s, m.description);
    proof {
        reveal_strlit(": ");
        reveal_strlit("\n ");
        assert(s@ =~= rule_entry(*m));
    }
    s
}

impl RuleCollection {
    /// The rules sorted by id, each as `id: shortdesc` and, on the next
    /// line, a space and its description; entries are separated by a
    /// newline.
    pub fn render_rules(&self) -> (r: String)
        ensures
            r@ == rules_listing(self.rules@),
    {
        let metas = sort_metas(metas_of(&self.rules));
        let ghost target = insertion_sort(rule_metas(self.rules@), id_lt()).map_values(
            |m: RuleMeta| rule_entry(m),
        );
        let mut entries: Vec<String> = Vec::new();
        let mut i: usize = 0;
        while i < metas.len()
            invariant
                i <= metas@.len(),
                target == metas@.map_values(|m: RuleMeta| rule_entry(m)),
                views(entries@) == target.take(i as int),
            decreases metas@.len() - i,
        {
            let e = entry_of(&metas[i]);
            let ghost prev = views(entries@);
            entries.push(e);
            proof {
                assert(views(entries@) =~= prev.push(e@));
                assert(target.take(i + 1) =~= target.take(i as int).push(target[i as int]));
            }
            i += 1;
        }
        proof {
            assert(target.take(metas@.len() as int) =~= target);
        }
        let r = join_texts(&entries, "\n");
        proof {
            reveal_strlit("\n");
            assert("\n"@ =~= seq!['\n']);
        }
        r
    }

    /// Each tag, in order, followed by the sorted ids of the rules that
    /// carry it, each in brackets and separated by `, `; one tag per line.
    pub fn render_tags(&self) -> (r: String)
        ensures
            r@ == tags_listing(self.rules@),
    {
        let metas = metas_of(&self.rules);
        let pairs = pairs_of(&metas);
        let ghost pv = pair_views(pairs@);
        let keys = dedup_texts(&sort_texts(firsts(&pairs)));
        let ghost target = tag_keys(pv).map_values(|t: Seq<char>| tag_line(pv, t));
        let mut lines: Vec<String> = Vec::new();
        let mut i: usize = 0;
        while i < keys.len()
            invariant
                i <= keys@.len(),
                pv == pair_views(pairs@),
                views(keys@) == tag_keys(pv),
                target == tag_keys(pv).map_values(|t: Seq<char>| tag_line(pv, t)),
                views(lines@) == target.take(i as int),
            decreases keys@.len() - i,
        {
            let l = tag_line_of(&pairs, keys[i].as_str());
            let ghost prev = views(lines@);
            lines.push(l);
            proof {
                assert(views(keys@)[i as int] == keys@[i as int]@);
                assert(views(lines@) =~= prev.push(l@));
                assert(target.take(i + 1) =~= target.take(i as int).push(target[i as int]));
            }
            i += 1;
        }
        proof {
            assert(target.take(keys@.len() as int) =~= target);
        }
        let r = join_texts(&lines, "\n");
        proof {
            reveal_strlit("\n");
            assert("\n"@ =~= seq!['\n']);
        }
        r
    }
}

} // verus!
