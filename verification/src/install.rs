//! What installing the hook writes and where the configuration lives: the
//! prepare-commit-msg script for a given binary path, and the per-project
//! and global configuration directory paths.

use vstd::prelude::*;

use crate::numfmt::{spec_hex_digits, u64_to_hex_string};
use crate::strutil::{chars_to_string, str_to_chars};
use crate::toml_text::copy_range;

verus! {

/// The hook text before the path of the binary it runs.
pub const HOOK_SCRIPT_PREFIX: &'static str = "\n#!/bin/sh\n\necho \"Generating commit message from OpenAI...\"\nCOMMIT_MSG=$(";

/// The hook text after the path of the binary it runs.
pub const HOOK_SCRIPT_SUFFIX: &'static str = ")\nRETVAL=$?\nif [ $RETVAL -ne 0 ]; then\n    echo \"Failed to generate commit message!!\"\n    exit 1\nfi\n# Check if the commit message is non-empty\nif [ -z \"$COMMIT_MSG\" ]; then\n    echo \"Empty commit message generated. Commit aborted.\"\n    exit 1\nfi\necho \"$COMMIT_MSG\" > $1\n        \n";

/// The prepare-commit-msg script that runs the binary at `exe_path`: it
/// aborts the commit when generation fails or yields nothing, and writes
/// the generated message over the commit message file otherwise.
pub fn hook_script(exe_path: &str) -> (r: String)
    ensures
        r@ == HOOK_SCRIPT_PREFIX@ + exe_path@ + HOOK_SCRIPT_SUFFIX@,
{
    let mut s = String::from_str(HOOK_SCRIPT_PREFIX);
    s.append(exe_path);
    s.append(HOOK_SCRIPT_SUFFIX);
    proof {
        assert(s@ =~= HOOK_SCRIPT_PREFIX@ + exe_path@ + HOOK_SCRIPT_SUFFIX@);
    }
    s
}

/// The position just after the last `'/'` of `s`, or 0 when it has none.
pub open spec fn last_slash_end(s: Seq<char>) -> int
    decreases s.len(),
{
    if s.len() == 0 {
        0
    } else if s[s.len() - 1] == '/' {
        s.len() as int
    } else {
        last_slash_end(s.drop_last())
    }
}

proof fn lemma_last_slash_end_bounds(s: Seq<char>)
    ensures
        0 <= last_slash_end(s) <= s.len(),
    decreases s.len(),
{
    if s.len() > 0 && s[s.len() - 1] != '/' {
        lemma_last_slash_end_bounds(s.drop_last());
    }
}

/// The part of `s` after its last `'/'` (all of `s` when it has none).
pub open spec fn after_last_slash(s: Seq<char>) -> Seq<char> {
    s.subrange(last_slash_end(s), s.len() as int)
}

/// The name a project takes from its root directory path: the last path
/// component, or `unknown` where the path (as git prints it: canonical,
/// absolute) has none to offer.
pub open spec fn spec_project_name(root: Seq<char>) -> Seq<char> {
    let name = after_last_slash(root);
    if name.len() == 0 || name == seq!['.'] || name == seq!['.', '.'] {
        "unknown"@
    } else {
        name
    }
}

/// Where the last slash ends is determined by the text.
proof fn lemma_last_slash_end_at(s: Seq<char>, idx: int)
    requires
        0 <= idx <= s.len(),
        forall|m: int| idx <= m < s.len() ==> #[trigger] s[m] != '/',
        idx == 0 || s[idx - 1] == '/',
    ensures
        last_slash_end(s) == idx,
    decreases s.len(),
{
    if s.len() == 0 {
    } else if s[s.len() - 1] == '/' {
    } else {
        let t = s.drop_last();
        assert(forall|m: int| 0 <= m < t.len() ==> #[trigger] t[m] == s[m]);
        lemma_last_slash_end_at(t, idx);
    }
}

/// The name a project takes from its root directory path, executable.
pub fn project_name_of(root: &str) -> (r: String)
    ensures
        r@ == spec_project_name(root@),
{
    let s = str_to_chars(root);
    let n = s.len();
    let mut idx = n;
    while idx > 0 && s[idx - 1] != '/'
        invariant
            0 <= idx <= n == s@.len(),
            forall|m: int| idx <= m < n ==> #[trigger] s@[m] != '/',
        decreases idx,
    {
        idx = idx - 1;
    }
    proof {
        lemma_last_slash_end_at(s@, idx as int);
    }
    let name = copy_range(&s, idx, n);
    let len = name.len();
    let empty = len == 0;
    let cur = len == 1 && name[0] == '.';
    let parent = len == 2 && name[0] == '.' && name[1] == '.';
    if empty || cur || parent {
        proof {
            if cur {
                assert(name@ =~= seq!['.']);
            }
            if parent {
                assert(name@ =~= seq!['.', '.']);
            }
        }
        String::from_str("unknown")
    } else {
        proof {
            assert(name@ != seq!['.'] && name@ != seq!['.', '.']);
        }
        chars_to_string(&name)
    }
}

/// The configuration directory of one project: under the user's
/// configuration tree, keyed by the project's name and a hash of its root
/// path so that unrelated projects do not collide.
pub fn project_config_dir(home: &str, project_name: &str, project_hash: u64) -> (r: String)
    ensures
        r@ == home@ + "/.config/commit_crafter/projects/"@ + project_name@ + seq!['-']
            + spec_hex_digits(project_hash as nat),
{
    let mut s = String::from_str(home);
    s.append("/.config/commit_crafter/projects/");
    s.append(project_name);
    s.append("-");
    let hex = u64_to_hex_string(project_hash);
    s.append(hex.as_str());
    proof {
        reveal_strlit("-");
        assert("-"@ =~= seq!['-']);
        assert(s@ =~= home@ + "/.config/commit_crafter/projects/"@ + project_name@ + seq!['-']
            + spec_hex_digits(project_hash as nat));
    }
    s
}

/// The configuration directory used outside any project, or when the
/// project's directory cannot be had.
pub fn global_config_dir(home: &str) -> (r: String)
    ensures
        r@ == home@ + "/.config/commit_crafter/global"@,
{
    let mut s = String::from_str(home);
    s.append("/.config/commit_crafter/global");
    proof {
        assert(s@ =~= home@ + "/.config/commit_crafter/global"@);
    }
    s
}

} // verus!
