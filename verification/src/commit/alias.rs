//! `git-ai-commit init-alias`: whether the `git cai` alias is set, left alone, or
//! already there.
use vstd::prelude::*;

use crate::text::{chars_of, equals_str, trim, trim_bounds};

verus! {

/// The value of the `cai` alias: `git ai-commit` with the same arguments.
pub const CAI_ALIAS_VALUE: &'static str = "!f() { git ai-commit \"$@\"; }; f";

/// What `init-alias` does.
#[derive(Clone, Copy, Debug, PartialEq, Eq, Structural)]
pub enum AliasAction {
    /// Another alias is there and `--force` was not given: leave it, and say so.
    KeepOther,
    /// The alias is already there: say so.
    AlreadySet,
    /// Set the alias.
    Install,
}

/// What `init-alias` does, given the alias's current global value (when `git
/// config --get` found one) and whether `--force` was given.
pub open spec fn alias_action(current: Option<Seq<char>>, force: bool) -> AliasAction {
    match current {
        Some(c) => {
            let t = trim(c);
            if t.len() > 0 && t != CAI_ALIAS_VALUE@ && !force {
                AliasAction::KeepOther
            } else if t == CAI_ALIAS_VALUE@ {
                AliasAction::AlreadySet
            } else {
                AliasAction::Install
            }
        },
        None => AliasAction::Install,
    }
}

/// What `init-alias` does.
pub fn init_alias_action(current: Option<&str>, force: bool) -> (a: AliasAction)
    ensures
        a == alias_action(
            match current {
                Some(c) => Some(c@),
                None => None,
            },
            force,
        ),
{
    match current {
        Some(c) => {
            let cs = chars_of(c);
            let (x, y) = trim_bounds(cs.as_slice(), 0, cs.len());
            assert(cs@.subrange(0, cs@.len() as int) =~= cs@);
            let t = crate::text::slice_range(cs.as_slice(), x, y);
            let same = equals_str(t.as_slice(), CAI_ALIAS_VALUE);
            if t.len() > 0 && !same && !force {
                AliasAction::KeepOther
            } else if same {
                AliasAction::AlreadySet
            } else {
                AliasAction::Install
            }
        },
        None => AliasAction::Install,
    }
}

impl AliasAction {
    /// What is printed for an alias left as it is.
    pub fn notice(self) -> (r: Option<&'static str>)
        ensures
            r matches Some(n) ==> n@ == if self == AliasAction::KeepOther {
                "git-ai-commit: alias.cai already exists; use --force to replace it"@
            } else {
                "git-ai-commit: alias.cai is already configured"@
            },
            r is None <==> self == AliasAction::Install,
    {
        match self {
            AliasAction::KeepOther => Some("git-ai-commit: alias.cai already exists; use --force to replace it"),
            AliasAction::AlreadySet => Some("git-ai-commit: alias.cai is already configured"),
            AliasAction::Install => None,
        }
    }
}

} // verus!
