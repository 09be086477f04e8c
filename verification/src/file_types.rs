//! Which language a file holds, judged by its extension.
use crate::paths::{extension_of, path_extension};
use crate::text::{ascii_lower, ascii_lowercase, str_eq};
use vstd::prelude::*;

verus! {

#[derive(Debug, Clone, Copy, PartialEq, Eq, Structural)]
pub enum FileKind {
    Sls,
    Jinja,
    Unknown,
}

/// The kind that an extension, compared without regard to ASCII case, names.
pub open spec fn kind_of_extension(ext: Option<Seq<char>>) -> FileKind {
    match ext {
        None => FileKind::Unknown,
        Some(e) => {
            let l = ascii_lower(e);
            if l == seq!['s', 'l', 's'] {
                FileKind::Sls
            } else if l == seq!['j', 'i', 'n', 'j', 'a'] || l == seq!['j', 'i', 'n', 'j', 'a', '2']
                || l == seq!['j', '2'] {
                FileKind::Jinja
            } else {
                FileKind::Unknown
            }
        },
    }
}

impl FileKind {
    /// `.sls` files are Salt states; `.jinja`, `.jinja2` and `.j2` are Jinja
    /// templates; anything else is unknown.
    pub fn detect(path: &str) -> (k: FileKind)
        ensures
            k == kind_of_extension(extension_of(path@)),
    {
        match path_extension(path) {
            None => FileKind::Unknown,
            Some(e) => {
                let l = ascii_lowercase(e.as_str());
                proof {
                    reveal_strlit("sls");
                    reveal_strlit("jinja");
                    reveal_strlit("jinja2");
                    reveal_strlit("j2");
                }
                if str_eq(l.as_str(), "sls") {
                    assert("sls"@ =~= seq!['s', 'l', 's']);
                    FileKind::Sls
                } else if str_eq(l.as_str(), "jinja") || str_eq(l.as_str(), "jinja2") || str_eq(
                    l.as_str(),
                    "j2",
                ) {
                    assert("jinja"@ =~= seq!['j', 'i', 'n', 'j', 'a']);
                    assert("jinja2"@ =~= seq!['j', 'i', 'n', 'j', 'a', '2']);
                    assert("j2"@ =~= seq!['j', '2']);
                    FileKind::Jinja
                } else {
                    assert("sls"@ =~= seq!['s', 'l', 's']);
                    assert("jinja"@ =~= seq!['j', 'i', 'n', 'j', 'a']);
                    assert("jinja2"@ =~= seq!['j', 'i', 'n', 'j', 'a', '2']);
                    assert("j2"@ =~= seq!['j', '2']);
                    FileKind::Unknown
                }
            },
        }
    }
}

} // verus!
