//! How problems are printed: as text, as text with severities, or as JSON.
use crate::problem::{problem_views, Problem, ProblemView, Severity};
use crate::text::{concat, decimal, join, push_str, usize_to_string};
use vstd::prelude::*;

verus! {

#[derive(Debug, Clone, Copy, PartialEq, Eq, Structural)]
pub enum FormatterKind {
    Default,
    Json,
    Severity,
}

impl FormatterKind {
    /// JSON when asked for, else severities when asked for, else plain text.
    pub fn from_flags(json: bool, severity: bool) -> (k: FormatterKind)
        ensures
            k == (if json {
                FormatterKind::Json
            } else if severity {
                FormatterKind::Severity
            } else {
                FormatterKind::Default
            }),
    {
        if json {
            FormatterKind::Json
        } else if severity {
            FormatterKind::Severity
        } else {
            FormatterKind::Default
        }
    }
}

/// The lowercase hexadecimal digit of `n`, for `0 <= n < 16`.
pub open spec fn hex_digit(n: int) -> char {
    seq!['0', '1', '2', '3', '4', '5', '6', '7', '8', '9', 'a', 'b', 'c', 'd', 'e', 'f'][n]
}

/// How a character stands inside a JSON string: `"` and `\` behind a
/// backslash; backspace, form feed, newline, carriage return and tab as
/// `\b`, `\f`, `\n`, `\r`, `\t`; any other character below U+0020 as `\u00`
/// and two lowercase hexadecimal digits; every other character as itself.
pub open spec fn json_escape_char(c: char) -> Seq<char> {
    if c == '"' {
        seq!['\\', '"']
    } else if c == '\\' {
        seq!['\\', '\\']
    } else if c == '\x08' {
        seq!['\\', 'b']
    } else if c == '\x0c' {
        seq!['\\', 'f']
    } else if c == '\n' {
        seq!['\\', 'n']
    } else if c == '\r' {
        seq!['\\', 'r']
    } else if c == '\t' {
        seq!['\\', 't']
    } else if (c as int) < 0x20 {
        seq!['\\', 'u', '0', '0', hex_digit((c as int) / 16), hex_digit((c as int) % 16)]
    } else {
        seq![c]
    }
}

/// The characters of `s`, each as it stands inside a JSON string.
pub open spec fn json_escaped(s: Seq<char>) -> Seq<char>
    decreases s.len(),
{
    if s.len() == 0 {
        Seq::empty()
    } else {
        json_escaped(s.drop_last()) + json_escape_char(s.last())
    }
}

/// The JSON string literal for `s`: its escaped characters between quotes.
pub open spec fn json_string(s: Seq<char>) -> Seq<char> {
    seq!['"'] + json_escaped(s) + seq!['"']
}

/// `serde_json::to_string` of a `&str`, which writes the string between
/// quotes with each character escaped as `json_escape_char` says (the
/// escape table of `format_escaped_str_contents`). Serializing a string
/// into memory cannot fail: the serializer writes into a `Vec`, whose
/// writes always succeed, so the error arm is never taken.
#[verifier::external_body]
fn json_quote(s: &str) -> (r: String)
    ensures
        r@ == json_string(s@),
{
    match serde_json::to_string(s) {
        Ok(v) => v,
        Err(_) => String::new(),
    }
}

/// A problem as plain text: `[id] message`, then `file:line`, then the line.
pub open spec fn default_entry(p: ProblemView) -> Seq<char> {
    "["@ + p.id + "] "@ + p.message + "\n"@ + p.filename + ":"@ + decimal(p.linenumber) + "\n"@
        + p.line + "\n"@
}

/// A problem as text with its severity: `[id] [SEVERITY] message`, then
/// `file:line`, then the line.
pub open spec fn severity_entry(p: ProblemView) -> Seq<char> {
    "["@ + p.id + "] ["@ + p.severity.label() + "] "@ + p.message + "\n"@ + p.filename + ":"@
        + decimal(p.linenumber) + "\n"@ + p.line + "\n"@
}

/// A problem as a JSON object, its fields in declaration order.
pub open spec fn json_entry(p: ProblemView) -> Seq<char> {
    "{\"id\":"@ + json_string(p.id) + ",\"message\":"@ + json_string(p.message)
        + ",\"filename\":"@ + json_string(p.filename) + ",\"linenumber\":"@ + decimal(
        p.linenumber,
    ) + ",\"line\":"@ + json_string(p.line) + ",\"severity\":"@ + json_string(p.severity.label())
        + "}"@
}

/// The problems in the format `kind`: text entries one after another, or a
/// JSON array.
pub open spec fn formatted(ps: Seq<ProblemView>, kind: FormatterKind) -> Seq<char> {
    match kind {
        FormatterKind::Default => concat(ps.map_values(|p: ProblemView| default_entry(p))),
        FormatterKind::Severity => concat(ps.map_values(|p: ProblemView| severity_entry(p))),
        FormatterKind::Json => "["@ + join(ps.map_values(|p: ProblemView| json_entry(p)), ","@)
            + "]"@,
    }
}

fn default_text(p: &Problem) -> (r: String)
    ensures
        r@ == default_entry(p@),
{
    let mut s = String::new();
    push_str(&mut s, "[");
    push_str(&mut s, p.id.as_str());
    push_str(&mut s, "] ");
    push_str(&mut s, p.message.as_str());
    push_str(&mut s, "\n");
    push_str(&mut s, p.filename.as_str());
    push_str(&mut s, ":");
    push_str(&mut s, usize_to_string(p.linenumber).as_str());
    push_str(&mut s, "\n");
    push_str(&mut s, p.line.as_str());
    push_str(&mut s, "\n");
    proof {
        assert(s@ =~= default_entry(p@));
    }
    s
}

fn severity_text(p: &Problem) -> (r: String)
    ensures
        r@ == severity_entry(p@),
{
    let mut s = String::new();
    push_str(&mut s, "[");
    push_str(&mut s, p.id.as_str());
    push_str(&mut s, "] [");
    push_str(&mut s, p.severity.as_str());
    push_str(&mut s, "] ");
    push_str(&mut s, p.message.as_str());
    push_str(&mut s, "\n");
    push_str(&mut s, p.filename.as_str());
    push_str(&mut s, ":");
    push_str(&mut s, usize_to_string(p.linenumber).as_str());
    push_str(&mut s, "\n");
    push_str(&mut s, p.line.as_str());
    push_str(&mut s, "\n");
    proof {
        assert(s@ =~= severity_entry(p@));
    }
    s
}

fn json_text(p: &Problem) -> (r: String)
    ensures
        r@ == json_entry(p@),
{
    let mut s = String::new();
    push_str(&mut s, "{\"id\":");
    push_str(&mut s, json_quote(p.id.as_str()).as_str());
    push_str(&mut s, ",\"message\":");
    push_str(&mut s, json_quote(p.message.as_str()).as_str());
    push_str(&mut s, ",\"filename\":");
    push_str(&mut s, json_quote(p.filename.as_str()).as_str());
    push_str(&mut s, ",\"linenumber\":");
    push_str(&mut s, usize_to_string(p.linenumber).as_str());
    push_str(&mut s, ",\"line\":");
    push_str(&mut s, json_quote(p.line.as_str()).as_str());
    push_str(&mut s, ",\"severity\":");
    push_str(&mut s, json_quote(p.severity.as_str()).as_str());
    push_str(&mut s, "}");
    proof {
        assert(s@ =~= json_entry(p@));
    }
    s
}

fn entry_text(p: &Problem, kind: FormatterKind) -> (r: String)
    ensures
        kind == FormatterKind::Default ==> r@ == default_entry(p@),
        kind == FormatterKind::Severity ==> r@ == severity_entry(p@),
        kind == FormatterKind::Json ==> r@ == json_entry(p@),
{
    match kind {
        FormatterKind::Default => default_text(p),
        FormatterKind::Severity => severity_text(p),
        FormatterKind::Json => json_text(p),
    }
}

/// The problems in the format `kind`.
pub fn format_problems(problems: &[Problem], kind: FormatterKind) -> (r: String)
    ensures
        r@ == formatted(problem_views(problems@), kind),
{
    let ghost pv = problem_views(problems@);
    let ghost entries = match kind {
        FormatterKind::Default => pv.map_values(|p: ProblemView| default_entry(p)),
        FormatterKind::Severity => pv.map_values(|p: ProblemView| severity_entry(p)),
        FormatterKind::Json => pv.map_values(|p: ProblemView| json_entry(p)),
    };
    let mut body = String::new();
    let mut i: usize = 0;
    proof {
        assert(entries.take(0) =~= Seq::<Seq<char>>::empty());
    }
    while i < problems.len()
        invariant
            i <= problems@.len(),
            pv == problem_views(problems@),
            entries.len() == problems@.len(),
            kind == FormatterKind::Default ==> entries == pv.map_values(
                |p: ProblemView| default_entry(p),
            ),
            kind == FormatterKind::Severity ==> entries == pv.map_values(
                |p: ProblemView| severity_entry(p),
            ),
            kind == FormatterKind::Json ==> entries == pv.map_values(|p: ProblemView| json_entry(p)),
            kind == FormatterKind::Json ==> body@ == join(entries.take(i as int), ","@),
            kind != FormatterKind::Json ==> body@ == concat(entries.take(i as int)),
        decreases problems@.len() - i,
    {
        let e = entry_text(&problems[i], kind);
        proof {
            assert(pv[i as int] == problems@[i as int]@);
            assert(entries[i as int] == e@);
            let t = entries.take(i + 1);
            assert(t.drop_last() =~= entries.take(i as int));
            assert(t.last() == e@);
            reveal_strlit(",");
        }
        if kind == FormatterKind::Json && i > 0 {
            push_str(&mut body, ",");
        }
        push_str(&mut body, e.as_str());
        proof {
            if kind == FormatterKind::Json && i == 0 {
                assert(body@ =~= entries.take(1)[0]);
            }
        }
        i += 1;
    }
    proof {
        assert(entries.take(problems@.len() as int) =~= entries);
    }
    if kind == FormatterKind::Json {
        let mut out = String::new();
        push_str(&mut out, "[");
        push_str(&mut out, body.as_str());
        push_str(&mut out, "]");
        out
    } else {
        body
    }
}

} // verus!
