//! How much of the prompt the staged diff may take.
use vstd::prelude::*;

use crate::prompt::{build_prompt_scaffold, scaffold_text, MAX_OUTPUT_TOKENS, SYSTEM_PROMPT};
use crate::tokenizer::{token_count, Tokenizer};

verus! {

/// Safety cap for the diff stat, in the budget's unit.
pub const DIFF_STAT_SAFETY_CAP_TOKENS: usize = 2048;

/// Tokens kept free besides the system prompt, the scaffold and the output.
pub const DIFF_PROMPT_SAFETY_RESERVE_TOKENS: usize = 128;

/// The configured diff budget: bytes, or tokens with an optional model context size.
#[derive(Clone, Copy, Debug, PartialEq, Eq, Structural)]
pub enum DiffBudgetConfig {
    Bytes { max_bytes: usize },
    Tokens { max_tokens: usize, model_context_tokens: Option<usize> },
}

/// The diff budget in force: bytes, or tokens as configured and as the model's
/// context leaves room for.
#[derive(Clone, Copy, Debug, PartialEq, Eq, Structural)]
pub enum DiffBudget {
    Bytes { max_bytes: usize },
    Tokens { configured_tokens: usize, effective_tokens: usize },
}

impl DiffBudget {
    /// Whether the budget counts tokens.
    pub fn is_token_mode(&self) -> (b: bool)
        ensures
            b == (*self is Tokens),
    {
        match self {
            DiffBudget::Bytes { .. } => false,
            DiffBudget::Tokens { .. } => true,
        }
    }

    pub open spec fn limit(self) -> usize {
        match self {
            DiffBudget::Bytes { max_bytes } => max_bytes,
            DiffBudget::Tokens { effective_tokens, .. } => effective_tokens,
        }
    }

    /// The budget in force: the byte budget, or the effective token budget.
    pub fn effective_limit(&self) -> (n: usize)
        ensures
            n == self.limit(),
    {
        match self {
            DiffBudget::Bytes { max_bytes } => *max_bytes,
            DiffBudget::Tokens { effective_tokens, .. } => *effective_tokens,
        }
    }
}

pub open spec fn sat_sub(a: int, b: int) -> int {
    if a >= b {
        a - b
    } else {
        0
    }
}

/// Tokens of the context left for the diff once the prompt around it and the
/// output are counted.
pub open spec fn context_room(context: usize, repo: Seq<char>, branch: Seq<char>, changed: nat) -> int {
    let around = token_count(SYSTEM_PROMPT@) + token_count(scaffold_text(repo, branch, changed));
    let around = if around <= usize::MAX {
        around as int
    } else {
        usize::MAX as int
    };
    sat_sub(
        sat_sub(sat_sub(context as int, around), MAX_OUTPUT_TOKENS as int),
        DIFF_PROMPT_SAFETY_RESERVE_TOKENS as int,
    )
}

/// The budget in force for a configuration.
pub open spec fn resolved_budget(
    config: DiffBudgetConfig,
    repo: Seq<char>,
    branch: Seq<char>,
    changed: nat,
) -> DiffBudget {
    match config {
        DiffBudgetConfig::Bytes { max_bytes } => DiffBudget::Bytes { max_bytes },
        DiffBudgetConfig::Tokens { max_tokens, model_context_tokens } => match model_context_tokens {
            None => DiffBudget::Tokens { configured_tokens: max_tokens, effective_tokens: max_tokens },
            Some(context) => {
                let room = context_room(context, repo, branch, changed);
                DiffBudget::Tokens {
                    configured_tokens: max_tokens,
                    effective_tokens: if max_tokens <= room {
                        max_tokens
                    } else {
                        room as usize
                    },
                }
            },
        },
    }
}

/// The budget in force: a token budget is lowered to what the model's context leaves
/// once the system prompt, the prompt scaffold, the output and a reserve are counted.
pub fn resolve_diff_budget(
    config: DiffBudgetConfig,
    repo_name: &str,
    branch_name: &str,
    changed_file_count: usize,
) -> (r: Result<DiffBudget, String>)
    ensures
        r matches Ok(b) && b == resolved_budget(
            config,
            repo_name@,
            branch_name@,
            changed_file_count as nat,
        ),
        r matches Ok(DiffBudget::Tokens { configured_tokens, effective_tokens })
            ==> effective_tokens <= configured_tokens,
{
    match config {
        DiffBudgetConfig::Bytes { max_bytes } => Ok(DiffBudget::Bytes { max_bytes }),
        DiffBudgetConfig::Tokens { max_tokens, model_context_tokens } => match model_context_tokens {
            None => Ok(DiffBudget::Tokens { configured_tokens: max_tokens, effective_tokens: max_tokens }),
            Some(context) => {
                let tokenizer = Tokenizer::new()?;
                let scaffold = build_prompt_scaffold(repo_name, branch_name, changed_file_count);
                let around = tokenizer.count(SYSTEM_PROMPT).saturating_add(
                    tokenizer.count(scaffold.as_str()),
                );
                let room = context.saturating_sub(around).saturating_sub(
                    MAX_OUTPUT_TOKENS,
                ).saturating_sub(DIFF_PROMPT_SAFETY_RESERVE_TOKENS);
                let effective = if max_tokens <= room {
                    max_tokens
                } else {
                    room
                };
                Ok(DiffBudget::Tokens { configured_tokens: max_tokens, effective_tokens: effective })
            },
        },
    }
}

/// The budget for the diff stat: a third of the diff budget, at most the safety cap
/// and at least 64.
pub open spec fn stat_cap(budget: DiffBudget) -> nat {
    let limit = budget.limit();
    let c = if limit > 0 && DIFF_STAT_SAFETY_CAP_TOKENS > limit / 3 {
        limit / 3
    } else {
        DIFF_STAT_SAFETY_CAP_TOKENS
    };
    if c < 64 {
        64
    } else {
        c as nat
    }
}

/// The budget for the diff stat.
pub fn diff_stat_cap(budget: DiffBudget) -> (cap: usize)
    ensures
        cap == stat_cap(budget),
        64 <= cap <= DIFF_STAT_SAFETY_CAP_TOKENS,
{
    let limit = budget.effective_limit();
    let mut stat_cap = DIFF_STAT_SAFETY_CAP_TOKENS;
    if limit > 0 && stat_cap > limit / 3 {
        stat_cap = limit / 3;
    }
    if stat_cap < 64 {
        stat_cap = 64;
    }
    stat_cap
}

/// The budget left for the patch: the diff budget (or the sampling notice, if that is
/// larger) less the size of the trimmed stat.
pub open spec fn patch_room(budget: DiffBudget, trimmed_stat_len: nat, sampling_notice_len: nat) -> nat {
    sat_sub(
        if budget.limit() >= sampling_notice_len {
            budget.limit() as int
        } else {
            sampling_notice_len as int
        },
        trimmed_stat_len as int,
    ) as nat
}

/// The budget left for the patch.
pub fn patch_budget(budget: DiffBudget, trimmed_stat_len: usize, sampling_notice_len: usize) -> (n:
    usize)
    ensures
        n == patch_room(budget, trimmed_stat_len as nat, sampling_notice_len as nat),
{
    let limit = budget.effective_limit();
    let base = if limit >= sampling_notice_len {
        limit
    } else {
        sampling_notice_len
    };
    base.saturating_sub(trimmed_stat_len)
}

/// The quota of one sampling slot: an even share of what remains, kept within
/// `[min_quota, max_quota]` and never above what remains.
pub open spec fn quota(remaining: nat, slots: nat, min_quota: nat, max_quota: nat) -> nat {
    if remaining == 0 {
        0
    } else if slots == 0 {
        remaining
    } else {
        let q = remaining / slots;
        let q = if q >= min_quota {
            q
        } else {
            min_quota
        };
        let q = if q <= max_quota {
            q
        } else {
            max_quota
        };
        if q <= remaining {
            q
        } else {
            remaining
        }
    }
}

/// The quota of one sampling slot.
pub fn phase_quota(remaining: usize, slots: usize, min_quota: usize, max_quota: usize) -> (q: usize)
    ensures
        q == quota(remaining as nat, slots as nat, min_quota as nat, max_quota as nat),
        q <= remaining,
{
    if remaining == 0 {
        return 0;
    }
    if slots == 0 {
        return remaining;
    }
    let mut q = remaining / slots;
    if q < min_quota {
        q = min_quota;
    }
    if q > max_quota {
        q = max_quota;
    }
    if q > remaining {
        q = remaining;
    }
    q
}

} // verus!
