//! Rules that report states deprecated by SaltStack.
use crate::engine::context::{ContextView, RuleContext};
use crate::engine::rule::{seed_views, ProblemSeed, Rule, SeedView};
use crate::file_types::FileKind;
use crate::problem::{RuleMeta, Severity};
use crate::rules::{acts_as, line_seed};
use crate::text::{chars_of, starts_with, vec_starts_with};
use vstd::prelude::*;

verus! {

/// A rule that reports a state declared with a deprecated name: a line that
/// is two spaces, the state's name, then nothing or a colon.
#[derive(Clone, Copy)]
pub struct DeprecationRule {
    pub meta: &'static RuleMeta,
    pub state: &'static str,
}

/// Whether `line` declares the state `state`.
pub open spec fn declares_state(line: Seq<char>, state: Seq<char>) -> bool {
    let head = seq![' ', ' '] + state;
    let rest = line.skip(head.len() as int);
    starts_with(line, head) && (rest.len() == 0 || rest[0] == ':')
}

impl Rule for DeprecationRule {
    open spec fn spec_meta(&self) -> RuleMeta {
        *self.meta
    }

    open spec fn spec_check_line(&self, ctx: ContextView, line_no: nat, line: Seq<char>) -> Option<
        SeedView,
    > {
        if declares_state(line, self.state@) {
            Some(line_seed(line_no, line))
        } else {
            None
        }
    }

    open spec fn spec_check_text(&self, ctx: ContextView, text: Seq<char>) -> Seq<SeedView> {
        Seq::empty()
    }

    fn meta(&self) -> (m: &'static RuleMeta) {
        self.meta
    }

    fn check_line(&self, ctx: &RuleContext, line_no: usize, line: &str) -> (r: Option<ProblemSeed>) {
        let cs = chars_of(line);
        let mut head: Vec<char> = Vec::new();
        head.push(' ');
        head.push(' ');
        let st = chars_of(self.state);
        let mut i: usize = 0;
        while i < st.len()
            invariant
                i <= st@.len(),
                head@ == seq![' ', ' '] + st@.take(i as int),
            decreases st@.len() - i,
        {
            head.push(st[i]);
            proof {
                assert(head@ =~= seq![' ', ' '] + st@.take(i + 1));
            }
            i += 1;
        }
        proof {
            assert(st@.take(st@.len() as int) =~= st@);
        }
        if !vec_starts_with(&cs, &head) {
            return None;
        }
        let n = head.len();
        let declared = n == cs.len() || cs[n] == ':';
        proof {
            let rest = cs@.skip(n as int);
            if n < cs@.len() {
                assert(rest[0] == cs@[n as int]);
            }
        }
        if declared {
            Some(ProblemSeed::line(line_no, line, None))
        } else {
            None
        }
    }

    fn check_text(&self, ctx: &RuleContext, text: &str) -> (r: Vec<ProblemSeed>) {
        let r: Vec<ProblemSeed> = Vec::new();
        assert(seed_views(r@) =~= Seq::<SeedView>::empty());
        r
    }
}

/// The deprecation rules, by their place in the order they are registered.
pub open spec fn deprecation(k: int) -> DeprecationRule {
    if k == 0 {
        DeprecationRule {
            meta: &RuleMeta {
                id: "902",
                shortdesc: "State 'elasticsearch_index.absent' is deprecated since SaltStack version '2017.7.0'",
                description: "State 'elasticsearch_index.absent' is deprecated since SaltStack version '2017.7.0'",
                severity: Severity::High,
                tags: &["deprecation"],
                languages: &[FileKind::Sls],
            },
            state: "elasticsearch_index.absent",
        }
    } else if k == 1 {
        DeprecationRule {
            meta: &RuleMeta {
                id: "903",
                shortdesc: "State 'virt.reverted' is deprecated since SaltStack version '2016.3.0'",
                description: "State 'virt.reverted' is deprecated since SaltStack version '2016.3.0'",
                severity: Severity::High,
                tags: &["deprecation"],
                languages: &[FileKind::Sls],
            },
            state: "virt.reverted",
        }
    } else if k == 2 {
        DeprecationRule {
            meta: &RuleMeta {
                id: "904",
                shortdesc: "State 'virt.saved' is deprecated since SaltStack version '2016.3.0'",
                description: "State 'virt.saved' is deprecated since SaltStack version '2016.3.0'",
                severity: Severity::High,
                tags: &["deprecation"],
                languages: &[FileKind::Sls],
            },
            state: "virt.saved",
        }
    } else if k == 3 {
        DeprecationRule {
            meta: &RuleMeta {
                id: "905",
                shortdesc: "State 'virt.unpowered' is deprecated since SaltStack version '2016.3.0'",
                description: "State 'virt.unpowered' is deprecated since SaltStack version '2016.3.0'",
                severity: Severity::High,
                tags: &["deprecation"],
                languages: &[FileKind::Sls],
            },
            state: "virt.unpowered",
        }
    } else if k == 4 {
        DeprecationRule {
            meta: &RuleMeta {
                id: "906",
                shortdesc: "State 'docker.absent' is deprecated since SaltStack version '2017.7.0'",
                description: "State 'docker.absent' is deprecated since SaltStack version '2017.7.0'",
                severity: Severity::High,
                tags: &["deprecation"],
                languages: &[FileKind::Sls],
            },
            state: "docker.absent",
        }
    } else if k == 5 {
        DeprecationRule {
            meta: &RuleMeta {
                id: "907",
                shortdesc: "State 'docker.image_absent' is deprecated since SaltStack version '2017.7.0'",
                description: "State 'docker.image_absent' is deprecated since SaltStack version '2017.7.0'",
                severity: Severity::High,
                tags: &["deprecation"],
                languages: &[FileKind::Sls],
            },
            state: "docker.image_absent",
        }
    } else if k == 6 {
        DeprecationRule {
            meta: &RuleMeta {
                id: "908",
                shortdesc: "State 'docker.image_present' is deprecated since SaltStack version '2017.7.0'",
                description: "State 'docker.image_present' is deprecated since SaltStack version '2017.7.0'",
                severity: Severity::High,
                tags: &["deprecation"],
                languages: &[FileKind::Sls],
            },
            state: "docker.image_present",
        }
    } else if k == 7 {
        DeprecationRule {
            meta: &RuleMeta {
                id: "909",
                shortdesc: "State 'docker.mod_watch' is deprecated since SaltStack version '2017.7.0'",
                description: "State 'docker.mod_watch' is deprecated since SaltStack version '2017.7.0'",
                severity: Severity::High,
                tags: &["deprecation"],
                languages: &[FileKind::Sls],
            },
            state: "docker.mod_watch",
        }
    } else if k == 8 {
        DeprecationRule {
            meta: &RuleMeta {
                id: "910",
                shortdesc: "State 'docker.network_absent' is deprecated since SaltStack version '2017.7.0'",
                description: "State 'docker.network_absent' is deprecated since SaltStack version '2017.7.0'",
                severity: Severity::High,
                tags: &["deprecation"],
                languages: &[FileKind::Sls],
            },
            state: "docker.network_absent",
        }
    } else if k == 9 {
        DeprecationRule {
            meta: &RuleMeta {
                id: "911",
                shortdesc: "State 'docker.network_present' is deprecated since SaltStack version '2017.7.0'",
                description: "State 'docker.network_present' is deprecated since SaltStack version '2017.7.0'",
                severity: Severity::High,
                tags: &["deprecation"],
                languages: &[FileKind::Sls],
            },
            state: "docker.network_present",
        }
    } else if k == 10 {
        DeprecationRule {
            meta: &RuleMeta {
                id: "912",
                shortdesc: "State 'docker.running' is deprecated since SaltStack version '2017.7.0'",
                description: "State 'docker.running' is deprecated since SaltStack version '2017.7.0'",
                severity: Severity::High,
                tags: &["deprecation"],
                languages: &[FileKind::Sls],
            },
            state: "docker.running",
        }
    } else if k == 11 {
        DeprecationRule {
            meta: &RuleMeta {
                id: "913",
                shortdesc: "State 'docker.stopped' is deprecated since SaltStack version '2017.7.0'",
                description: "State 'docker.stopped' is deprecated since SaltStack version '2017.7.0'",
                severity: Severity::High,
                tags: &["deprecation"],
                languages: &[FileKind::Sls],
            },
            state: "docker.stopped",
        }
    } else if k == 12 {
        DeprecationRule {
            meta: &RuleMeta {
                id: "914",
                shortdesc: "State 'docker.volume_absent' is deprecated since SaltStack version '2017.7.0'",
                description: "State 'docker.volume_absent' is deprecated since SaltStack version '2017.7.0'",
                severity: Severity::High,
                tags: &["deprecation"],
                languages: &[FileKind::Sls],
            },
            state: "docker.volume_absent",
        }
    } else {
        DeprecationRule {
            meta: &RuleMeta {
                id: "915",
                shortdesc: "State 'docker.volume_present' is deprecated since SaltStack version '2017.7.0'",
                description: "State 'docker.volume_present' is deprecated since SaltStack version '2017.7.0'",
                severity: Severity::High,
                tags: &["deprecation"],
                languages: &[FileKind::Sls],
            },
            state: "docker.volume_present",
        }
    }
}

/// The deprecation rules, in the order they are registered.
pub fn all_rules() -> (r: Vec<Box<dyn Rule>>)
    ensures
        r@.len() == 14,
        forall|k: int| 0 <= k < 14 ==> acts_as(r@, k, #[trigger] deprecation(k)),
{
    let r: Vec<Box<dyn Rule>> = vec![
        Box::new(
            DeprecationRule {
                meta: &RuleMeta {
                    id: "902",
                    shortdesc: "State 'elasticsearch_index.absent' is deprecated since SaltStack version '2017.7.0'",
                    description: "State 'elasticsearch_index.absent' is deprecated since SaltStack version '2017.7.0'",
                    severity: Severity::High,
                    tags: &["deprecation"],
                    languages: &[FileKind::Sls],
                },
                state: "elasticsearch_index.absent",
            },
        ),
        Box::new(
            DeprecationRule {
                meta: &RuleMeta {
                    id: "903",
                    shortdesc: "State 'virt.reverted' is deprecated since SaltStack version '2016.3.0'",
                    description: "State 'virt.reverted' is deprecated since SaltStack version '2016.3.0'",
                    severity: Severity::High,
                    tags: &["deprecation"],
                    languages: &[FileKind::Sls],
                },
                state: "virt.reverted",
            },
        ),
        Box::new(
            DeprecationRule {
                meta: &RuleMeta {
                    id: "904",
                    shortdesc: "State 'virt.saved' is deprecated since SaltStack version '2016.3.0'",
                    description: "State 'virt.saved' is deprecated since SaltStack version '2016.3.0'",
                    severity: Severity::High,
                    tags: &["deprecation"],
                    languages: &[FileKind::Sls],
                },
                state: "virt.saved",
            },
        ),
        Box::new(
            DeprecationRule {
                meta: &RuleMeta {
                    id: "905",
                    shortdesc: "State 'virt.unpowered' is deprecated since SaltStack version '2016.3.0'",
                    description: "State 'virt.unpowered' is deprecated since SaltStack version '2016.3.0'",
                    severity: Severity::High,
                    tags: &["deprecation"],
                    languages: &[FileKind::Sls],
                },
                state: "virt.unpowered",
            },
        ),
        Box::new(
            DeprecationRule {
                meta: &RuleMeta {
                    id: "906",
                    shortdesc: "State 'docker.absent' is deprecated since SaltStack version '2017.7.0'",
                    description: "State 'docker.absent' is deprecated since SaltStack version '2017.7.0'",
                    severity: Severity::High,
                    tags: &["deprecation"],
                    languages: &[FileKind::Sls],
                },
                state: "docker.absent",
            },
        ),
        Box::new(
            DeprecationRule {
                meta: &RuleMeta {
                    id: "907",
                    shortdesc: "State 'docker.image_absent' is deprecated since SaltStack version '2017.7.0'",
                    description: "State 'docker.image_absent' is deprecated since SaltStack version '2017.7.0'",
                    severity: Severity::High,
                    tags: &["deprecation"],
                    languages: &[FileKind::Sls],
                },
                state: "docker.image_absent",
            },
        ),
        Box::new(
            DeprecationRule {
                meta: &RuleMeta {
                    id: "908",
                    shortdesc: "State 'docker.image_present' is deprecated since SaltStack version '2017.7.0'",
                    description: "State 'docker.image_present' is deprecated since SaltStack version '2017.7.0'",
                    severity: Severity::High,
                    tags: &["deprecation"],
                    languages: &[FileKind::Sls],
                },
                state: "docker.image_present",
            },
        ),
        Box::new(
            DeprecationRule {
                meta: &RuleMeta {
                    id: "909",
                    shortdesc: "State 'docker.mod_watch' is deprecated since SaltStack version '2017.7.0'",
                    description: "State 'docker.mod_watch' is deprecated since SaltStack version '2017.7.0'",
                    severity: Severity::High,
                    tags: &["deprecation"],
                    languages: &[FileKind::Sls],
                },
                state: "docker.mod_watch",
            },
        ),
        Box::new(
            DeprecationRule {
                meta: &RuleMeta {
                    id: "910",
                    shortdesc: "State 'docker.network_absent' is deprecated since SaltStack version '2017.7.0'",
                    description: "State 'docker.network_absent' is deprecated since SaltStack version '2017.7.0'",
                    severity: Severity::High,
                    tags: &["deprecation"],
                    languages: &[FileKind::Sls],
                },
                state: "docker.network_absent",
            },
        ),
        Box::new(
            DeprecationRule {
                meta: &RuleMeta {
                    id: "911",
                    shortdesc: "State 'docker.network_present' is deprecated since SaltStack version '2017.7.0'",
                    description: "State 'docker.network_present' is deprecated since SaltStack version '2017.7.0'",
                    severity: Severity::High,
                    tags: &["deprecation"],
                    languages: &[FileKind::Sls],
                },
                state: "docker.network_present",
            },
        ),
        Box::new(
            DeprecationRule {
                meta: &RuleMeta {
                    id: "912",
                    shortdesc: "State 'docker.running' is deprecated since SaltStack version '2017.7.0'",
                    description: "State 'docker.running' is deprecated since SaltStack version '2017.7.0'",
                    severity: Severity::High,
                    tags: &["deprecation"],
                    languages: &[FileKind::Sls],
                },
                state: "docker.running",
            },
        ),
        Box::new(
            DeprecationRule {
                meta: &RuleMeta {
                    id: "913",
                    shortdesc: "State 'docker.stopped' is deprecated since SaltStack version '2017.7.0'",
                    description: "State 'docker.stopped' is deprecated since SaltStack version '2017.7.0'",
                    severity: Severity::High,
                    tags: &["deprecation"],
                    languages: &[FileKind::Sls],
                },
                state: "docker.stopped",
            },
        ),
        Box::new(
            DeprecationRule {
                meta: &RuleMeta {
                    id: "914",
                    shortdesc: "State 'docker.volume_absent' is deprecated since SaltStack version '2017.7.0'",
                    description: "State 'docker.volume_absent' is deprecated since SaltStack version '2017.7.0'",
                    severity: Severity::High,
                    tags: &["deprecation"],
                    languages: &[FileKind::Sls],
                },
                state: "docker.volume_absent",
            },
        ),
        Box::new(
            DeprecationRule {
                meta: &RuleMeta {
                    id: "915",
                    shortdesc: "State 'docker.volume_present' is deprecated since SaltStack version '2017.7.0'",
                    description: "State 'docker.volume_present' is deprecated since SaltStack version '2017.7.0'",
                    severity: Severity::High,
                    tags: &["deprecation"],
                    languages: &[FileKind::Sls],
                },
                state: "docker.volume_present",
            },
        ),
    ];
    r
}

pub fn builtin_rule_count() -> (n: usize)
    ensures
        n == 14,
{
    14
}

} // verus!
