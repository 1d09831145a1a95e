//! The arguments of `git ai-commit`: when to hand over to plain `git commit`, the
//! flags of its own, and the arguments of the final `git commit`.
use vstd::prelude::*;

use crate::diff_parse::texts;
use crate::message::owned;
use crate::text::{chars_of, equals_str, has_prefix, starts_with_str};

verus! {

/// The arguments as parsed: those passed on to `git commit`, the `--no-confirm`
/// override, whether `--show-redactions` was given and whether `--debug-provider`
/// was given.
#[derive(Debug, PartialEq, Eq)]
pub struct ParsedAiCommitArgs {
    pub forward_args: Vec<String>,
    pub confirm_override: Option<bool>,
    pub show_redactions: bool,
    pub debug_provider: bool,
}

/// Arguments that name a message, amend, stage files, or are not flags at all.
pub open spec fn bypass_exact(a: Seq<char>) -> bool {
    a == "--"@ || a == "-m"@ || a == "-F"@ || a == "-C"@ || a == "-c"@ || a == "--message"@
        || a == "--file"@ || a == "--reuse-message"@ || a == "--reedit-message"@ || a
        == "--amend"@ || a == "-a"@ || a == "--all"@ || a == "-i"@ || a == "--include"@ || a
        == "-o"@ || a == "--only"@ || a == "--fixup"@ || a == "--squash"@
}

pub open spec fn bypass_prefixed(a: Seq<char>) -> bool {
    has_prefix(a, "-m"@) || has_prefix(a, "-F"@) || has_prefix(a, "-C"@) || has_prefix(a, "-c"@)
        || has_prefix(a, "--message="@) || has_prefix(a, "--file="@) || has_prefix(
        a,
        "--reuse-message="@,
    ) || has_prefix(a, "--reedit-message="@) || has_prefix(a, "--fixup="@) || has_prefix(
        a,
        "--squash="@,
    )
}

/// Whether one argument sends the commit to plain `git commit`.
pub open spec fn bypasses(a: Seq<char>) -> bool {
    bypass_exact(a) || bypass_prefixed(a) || !has_prefix(a, "-"@)
}

fn is_bypass_exact(a: &[char]) -> (b: bool)
    ensures
        b == bypass_exact(a@),
{
    equals_str(a, "--") || equals_str(a, "-m") || equals_str(a, "-F") || equals_str(a, "-C")
        || equals_str(a, "-c") || equals_str(a, "--message") || equals_str(a, "--file")
        || equals_str(a, "--reuse-message") || equals_str(a, "--reedit-message") || equals_str(
        a,
        "--amend",
    ) || equals_str(a, "-a") || equals_str(a, "--all") || equals_str(a, "-i") || equals_str(
        a,
        "--include",
    ) || equals_str(a, "-o") || equals_str(a, "--only") || equals_str(a, "--fixup")
        || equals_str(a, "--squash")
}

fn is_bypass_prefixed(a: &[char]) -> (b: bool)
    ensures
        b == bypass_prefixed(a@),
{
    starts_with_str(a, "-m") || starts_with_str(a, "-F") || starts_with_str(a, "-C")
        || starts_with_str(a, "-c") || starts_with_str(a, "--message=") || starts_with_str(
        a,
        "--file=",
    ) || starts_with_str(a, "--reuse-message=") || starts_with_str(a, "--reedit-message=")
        || starts_with_str(a, "--fixup=") || starts_with_str(a, "--squash=")
}

/// Whether the commit goes to plain `git commit`: some argument names a message,
/// amends, stages files or is a path.
pub fn should_bypass_ai_commit(args: &[String]) -> (b: bool)
    ensures
        b == exists|k: int| 0 <= k < args@.len() && bypasses(#[trigger] texts(args@)[k]),
{
    let ghost ts = texts(args@);
    let mut k: usize = 0;
    while k < args.len()
        invariant
            0 <= k <= args@.len(),
            ts == texts(args@),
            forall|j: int| 0 <= j < k ==> !bypasses(#[trigger] ts[j]),
        decreases args@.len() - k,
    {
        let a = chars_of(args[k].as_str());
        assert(ts[k as int] == a@);
        if is_bypass_exact(a.as_slice()) || is_bypass_prefixed(a.as_slice()) || !starts_with_str(
            a.as_slice(),
            "-",
        ) {
            return true;
        }
        k = k + 1;
    }
    false
}

/// The error for a flag of `git commit` that is not taken here.
pub open spec fn unknown_flag_error(a: Seq<char>) -> Seq<char> {
    "unknown git-ai-commit flag: "@ + a
}

/// The arguments read from the left: the forwarded ones, the confirm override, the
/// redaction flag and the provider debugging flag, or the error for the first
/// `--edit`/`--no-edit`.
pub open spec fn scanned_args(args: Seq<Seq<char>>) -> Result<
    (Seq<Seq<char>>, Option<bool>, bool, bool),
    Seq<char>,
>
    decreases args.len(),
{
    if args.len() == 0 {
        Ok((Seq::empty(), None, false, false))
    } else {
        match scanned_args(args.drop_last()) {
            Err(e) => Err(e),
            Ok((forward, confirm, show, debug)) => {
                let a = args.last();
                if a == "--edit"@ || a == "--no-edit"@ {
                    Err(unknown_flag_error(a))
                } else if a == "--no-confirm"@ {
                    Ok((forward, Some(false), show, debug))
                } else if a == "--show-redactions"@ {
                    Ok((forward, confirm, true, debug))
                } else if a == "--debug-provider"@ {
                    Ok((forward, confirm, show, true))
                } else {
                    Ok((forward.push(a), confirm, show, debug))
                }
            },
        }
    }
}

fn error_with(prefix: &str, a: &[char]) -> (r: String)
    ensures
        r@ == prefix@ + a@,
{
    let mut out = chars_of(prefix);
    crate::text::push_range(&mut out, a, 0, a.len());
    assert(a@.subrange(0, a@.len() as int) =~= a@);
    crate::text::string_of(out)
}

/// Takes `--no-confirm`, `--show-redactions` and `--debug-provider` out of the
/// arguments and refuses `--edit` and `--no-edit`.
pub fn parse_ai_commit_args(args: &[String]) -> (r: Result<ParsedAiCommitArgs, String>)
    ensures
        match scanned_args(texts(args@)) {
            Ok((forward, confirm, show, debug)) => r matches Ok(p) && texts(p.forward_args@)
                == forward && p.confirm_override == confirm && p.show_redactions == show
                && p.debug_provider == debug,
            Err(e) => r matches Err(m) && m@ == e,
        },
{
    let ghost ts = texts(args@);
    let mut forward_args: Vec<String> = Vec::new();
    let mut confirm_override: Option<bool> = None;
    let mut show_redactions = false;
    let mut debug_provider = false;
    let mut k: usize = 0;
    assert(ts.take(0) =~= Seq::<Seq<char>>::empty());
    assert(texts(forward_args@) =~= Seq::<Seq<char>>::empty());
    while k < args.len()
        invariant
            0 <= k <= args@.len(),
            ts == texts(args@),
            scanned_args(ts.take(k as int)) == Ok::<
                (Seq<Seq<char>>, Option<bool>, bool, bool),
                Seq<char>,
            >((texts(forward_args@), confirm_override, show_redactions, debug_provider)),
        decreases args@.len() - k,
    {
        let a = chars_of(args[k].as_str());
        assert(ts.take(k + 1).drop_last() =~= ts.take(k as int));
        assert(ts.take(k + 1).last() == a@);
        if equals_str(a.as_slice(), "--edit") || equals_str(a.as_slice(), "--no-edit") {
            let e = error_with("unknown git-ai-commit flag: ", a.as_slice());
            proof {
                lemma_scan_error_sticks(ts, k as int + 1);
            }
            return Err(e);
        } else if equals_str(a.as_slice(), "--no-confirm") {
            confirm_override = Some(false);
        } else if equals_str(a.as_slice(), "--show-redactions") {
            show_redactions = true;
        } else if equals_str(a.as_slice(), "--debug-provider") {
            debug_provider = true;
        } else {
            let ghost before = forward_args@;
            forward_args.push(owned(args[k].as_str()));
            assert(texts(forward_args@) =~= texts(before).push(a@));
        }
        k = k + 1;
    }
    assert(ts.take(k as int) =~= ts);
    Ok(ParsedAiCommitArgs { forward_args, confirm_override, show_redactions, debug_provider })
}

/// Once the scan fails, it fails with the same error on every longer prefix.
proof fn lemma_scan_error_sticks(args: Seq<Seq<char>>, k: int)
    requires
        0 <= k <= args.len(),
        scanned_args(args.take(k)) is Err,
    ensures
        scanned_args(args) == scanned_args(args.take(k)),
    decreases args.len() - k,
{
    if k < args.len() {
        assert(args.take(k + 1).drop_last() =~= args.take(k));
        lemma_scan_error_sticks(args, k + 1);
    } else {
        assert(args.take(k) =~= args);
    }
}

/// The arguments of the final `git commit`: the message file, `-e` when the editor
/// opens, then the forwarded arguments.
pub open spec fn commit_args(message_file: Seq<char>, open_editor: bool, args: Seq<Seq<char>>) -> Seq<
    Seq<char>,
> {
    (if open_editor {
        seq!["commit"@, "-e"@]
    } else {
        seq!["commit"@]
    }) + seq!["-F"@, message_file] + args
}

/// The arguments of the final `git commit`.
pub fn build_ai_commit_args(message_file: String, open_editor: bool, args: &[String]) -> (r: Vec<
    String,
>)
    ensures
        texts(r@) == commit_args(message_file@, open_editor, texts(args@)),
{
    let mut commit: Vec<String> = Vec::new();
    commit.push(owned("commit"));
    if open_editor {
        commit.push(owned("-e"));
    }
    commit.push(owned("-F"));
    commit.push(message_file);
    let ghost head = texts(commit@);
    assert(head =~= (if open_editor {
        seq!["commit"@, "-e"@]
    } else {
        seq!["commit"@]
    }) + seq!["-F"@, message_file@]);
    let mut k: usize = 0;
    while k < args.len()
        invariant
            0 <= k <= args@.len(),
            texts(commit@) == head + texts(args@).take(k as int),
        decreases args@.len() - k,
    {
        assert(texts(args@)[k as int] == args@[k as int]@);
        let ghost before = commit@;
        let item = owned(args[k].as_str());
        assert(item@ == texts(args@)[k as int]);
        commit.push(item);
        assert(commit@ == before.push(item));
        assert(texts(commit@) =~= texts(before).push(item@));
        assert(texts(args@).take(k + 1) =~= texts(args@).take(k as int).push(item@));
        assert(texts(commit@) =~= head + texts(args@).take(k + 1));
        k = k + 1;
    }
    assert(texts(args@).take(k as int) =~= texts(args@));
    commit
}

} // verus!
