//! A configuration file as it is written, before it is merged with the
//! command line.
use crate::text::{
    append_texts, i64_to_string, signed_decimal, split_on, split_str, str_eq, trim, trim_string,
    views,
};
use vstd::prelude::*;

verus! {

/// A `skip_list` entry of a configuration file: text, a number or a boolean.
pub enum ScalarValue {
    String(String),
    Integer(i64),
    Boolean(bool),
}

/// The `tags` of a configuration file: one comma-separated string, or a list.
pub enum TagsValue {
    String(String),
    List(Vec<String>),
}

/// The settings of one rule (or tag) in a configuration file.
pub struct RawRuleConfig {
    /// Gitignore-style patterns, one per line, of the files the rule skips.
    pub ignore: Option<String>,
}

/// A configuration file as it is written: every key may be missing.
pub struct RawConfig {
    pub verbosity: Option<u8>,
    pub exclude_paths: Option<Vec<String>>,
    pub skip_list: Option<Vec<ScalarValue>>,
    pub tags: Option<TagsValue>,
    pub use_default_rules: Option<bool>,
    pub rulesdir: Option<Vec<String>>,
    pub json: Option<bool>,
    pub severity: Option<bool>,
    /// The `rules` mapping, in the file's order; each key once.
    pub rules: Option<Vec<(String, RawRuleConfig)>>,
}

/// No two entries of `rules` have the same key.
pub open spec fn rule_keys_unique(rules: Seq<(String, RawRuleConfig)>) -> bool {
    forall|i: int, j: int| 0 <= i < j < rules.len() ==> (#[trigger] rules[i]).0@ != (#[trigger] rules[j]).0@
}

impl RawConfig {
    /// The `rules` of a file form a mapping: each key is there once.
    pub open spec fn wf(&self) -> bool {
        match self.rules {
            Some(v) => rule_keys_unique(v@),
            None => true,
        }
    }

    /// Whether each key of `rules` is there once.
    pub fn rule_keys_are_unique(&self) -> (b: bool)
        ensures
            b == self.wf(),
    {
        match &self.rules {
            None => true,
            Some(v) => {
                let mut j: usize = 0;
                while j < v.len()
                    invariant
                        self.rules == Some(*v),
                        j <= v@.len(),
                        forall|a: int, b: int| 0 <= a < b < j ==> (#[trigger] v@[a]).0@ != (#[trigger] v@[b]).0@,
                    decreases v@.len() - j,
                {
                    let mut i: usize = 0;
                    while i < j
                        invariant
                            self.rules == Some(*v),
                            i <= j < v@.len(),
                            forall|a: int| 0 <= a < i ==> (#[trigger] v@[a]).0@ != v@[j as int].0@,
                        decreases j - i,
                    {
                        if str_eq(v[i].0.as_str(), v[j].0.as_str()) {
                            proof {
                                assert(v@[i as int].0@ == v@[j as int].0@);
                                assert(!rule_keys_unique(v@));
                            }
                            return false;
                        }
                        i += 1;
                    }
                    j += 1;
                }
                true
            },
        }
    }
}

impl Default for RawConfig {
    fn default() -> (r: RawConfig)
        ensures
            r.verbosity is None,
            r.exclude_paths is None,
            r.skip_list is None,
            r.tags is None,
            r.use_default_rules is None,
            r.rulesdir is None,
            r.json is None,
            r.severity is None,
            r.rules is None,
    {
        RawConfig {
            verbosity: None,
            exclude_paths: None,
            skip_list: None,
            tags: None,
            use_default_rules: None,
            rulesdir: None,
            json: None,
            severity: None,
            rules: None,
        }
    }
}

/// The pieces, trimmed, without the empty ones.
pub open spec fn nonempty_trimmed(pieces: Seq<Seq<char>>) -> Seq<Seq<char>>
    decreases pieces.len(),
{
    if pieces.len() == 0 {
        Seq::empty()
    } else {
        let prev = nonempty_trimmed(pieces.drop_last());
        let t = trim(pieces.last());
        if t.len() == 0 {
            prev
        } else {
            prev.push(t)
        }
    }
}

/// The items of a comma-separated list, trimmed, without empty ones.
pub open spec fn csv_items(s: Seq<char>) -> Seq<Seq<char>> {
    nonempty_trimmed(split_on(s, ','))
}

/// The items of all the comma-separated lists, in order.
pub open spec fn expand_csv(values: Seq<Seq<char>>) -> Seq<Seq<char>>
    decreases values.len(),
{
    if values.len() == 0 {
        Seq::empty()
    } else {
        expand_csv(values.drop_last()) + csv_items(values.last())
    }
}

/// A scalar as text: a string as it is, a number in decimal, a boolean as
/// `true` or `false`.
pub open spec fn scalar_text(v: ScalarValue) -> Seq<char> {
    match v {
        ScalarValue::String(s) => s@,
        ScalarValue::Integer(i) => signed_decimal(i as int),
        ScalarValue::Boolean(b) => if b {
            seq!['t', 'r', 'u', 'e']
        } else {
            seq!['f', 'a', 'l', 's', 'e']
        },
    }
}

/// The tags of a `tags` value: the items of the string, or the list.
pub open spec fn tags_vec(t: TagsValue) -> Seq<Seq<char>> {
    match t {
        TagsValue::String(s) => csv_items(s@),
        TagsValue::List(v) => views(v@),
    }
}

pub open spec fn opt_views(o: Option<Vec<String>>) -> Seq<Seq<char>> {
    match o {
        Some(v) => views(v@),
        None => Seq::empty(),
    }
}

/// The pieces, trimmed, without the empty ones.
pub(crate) fn keep_nonempty_trimmed(pieces: &Vec<String>) -> (r: Vec<String>)
    ensures
        views(r@) == nonempty_trimmed(views(pieces@)),
{
    let mut r: Vec<String> = Vec::new();
    let ghost pv = views(pieces@);
    let mut i: usize = 0;
    proof {
        assert(pv.take(0) =~= Seq::<Seq<char>>::empty());
    }
    while i < pieces.len()
        invariant
            i <= pieces@.len(),
            pv == views(pieces@),
            views(r@) == nonempty_trimmed(pv.take(i as int)),
        decreases pieces@.len() - i,
    {
        let t = trim_string(pieces[i].as_str());
        let ghost prev = views(r@);
        proof {
            let s = pv.take(i + 1);
            assert(s.drop_last() =~= pv.take(i as int));
            assert(s.last() == pieces@[i as int]@);
        }
        if !t.as_str().is_empty() {
            r.push(t);
            proof {
                assert(views(r@) =~= prev.push(t@));
            }
        }
        i += 1;
    }
    proof {
        assert(pv.take(pieces@.len() as int) =~= pv);
    }
    r
}

/// The items of the comma-separated lists in `values`, in order.
pub fn expand_csv_values(values: &Vec<String>) -> (r: Vec<String>)
    ensures
        views(r@) == expand_csv(views(values@)),
{
    let mut r: Vec<String> = Vec::new();
    let ghost vv = views(values@);
    let mut i: usize = 0;
    proof {
        assert(vv.take(0) =~= Seq::<Seq<char>>::empty());
    }
    while i < values.len()
        invariant
            i <= values@.len(),
            vv == views(values@),
            views(r@) == expand_csv(vv.take(i as int)),
        decreases values@.len() - i,
    {
        let items = keep_nonempty_trimmed(&split_str(values[i].as_str(), ','));
        append_texts(&mut r, &items);
        proof {
            let s = vv.take(i + 1);
            assert(s.drop_last() =~= vv.take(i as int));
            assert(s.last() == values@[i as int]@);
        }
        i += 1;
    }
    proof {
        assert(vv.take(values@.len() as int) =~= vv);
    }
    r
}

impl ScalarValue {
    /// The scalar as text.
    pub fn to_text(&self) -> (r: String)
        ensures
            r@ == scalar_text(*self),
    {
        match self {
            ScalarValue::String(s) => s.clone(),
            ScalarValue::Integer(i) => i64_to_string(*i),
            ScalarValue::Boolean(b) => {
                proof {
                    reveal_strlit("true");
                    reveal_strlit("false");
                }
                if *b {
                    "true".to_owned()
                } else {
                    "false".to_owned()
                }
            },
        }
    }
}

impl TagsValue {
    /// The tags: the items of a comma-separated string, or the list.
    pub fn into_vec(self) -> (r: Vec<String>)
        ensures
            views(r@) == tags_vec(self),
    {
        match self {
            TagsValue::String(s) => keep_nonempty_trimmed(&split_str(s.as_str(), ',')),
            TagsValue::List(v) => v,
        }
    }
}

} // verus!
