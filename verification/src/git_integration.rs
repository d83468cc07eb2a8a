//! What the tool hands to git and what it makes of git's answers: the
//! argument lists for the staged diff and the commit log, and the reading
//! of the log and root-directory output.

use vstd::prelude::*;

use crate::numfmt::{push_dec_digits, spec_dec_digits};
use crate::strutil::{chars_to_string, str_to_chars};
use crate::toml_text::{copy_range, line_split, lemma_line_split_len};

verus! {

/// A git pathspec that excludes `path` from a diff.
pub fn exclude_from_diff(path: &str) -> (r: String)
    ensures
        r@ == ":(exclude)"@ + path@,
{
    let mut s = String::from_str(":(exclude)");
    s.append(path);
    s
}

/// The arguments of the staged-diff invocation: a minimal, whitespace-
/// insensitive diff, with lock files left out.
pub open spec fn spec_git_diff_args() -> Seq<Seq<char>> {
    seq![
        "diff"@,
        "--staged"@,
        "--ignore-all-space"@,
        "--diff-algorithm=minimal"@,
        ":(exclude)"@ + "Cargo.lock"@,
        ":(exclude)"@ + "pakcage-lock.json"@,
        ":(exclude)"@ + "pnpm-lock.yaml"@,
        ":(exclude)"@ + "*.lock"@,
    ]
}

/// Builds the argument list for diffing the staged changes.
pub fn git_diff_args() -> (r: Vec<String>)
    ensures
        r.deep_view() == spec_git_diff_args(),
{
    let mut args: Vec<String> = Vec::new();
    args.push(String::from_str("diff"));
    args.push(String::from_str("--staged"));
    args.push(String::from_str("--ignore-all-space"));
    args.push(String::from_str("--diff-algorithm=minimal"));
    args.push(exclude_from_diff("Cargo.lock"));
    args.push(exclude_from_diff("pakcage-lock.json"));
    args.push(exclude_from_diff("pnpm-lock.yaml"));
    args.push(exclude_from_diff("*.lock"));
    proof {
        assert(args.deep_view() =~= spec_git_diff_args());
    }
    args
}

/// The arguments of the commit-log invocation: the last `count` subject
/// lines.
pub open spec fn spec_git_log_args(count: nat) -> Seq<Seq<char>> {
    seq!["log"@, seq!['-'] + spec_dec_digits(count), "--pretty=format:%s"@]
}

/// Builds the argument list for listing the last `count` commit subjects.
pub fn git_log_args(count: usize) -> (r: Vec<String>)
    ensures
        r.deep_view() == spec_git_log_args(count as nat),
{
    let mut limit: Vec<char> = Vec::new();
    limit.push('-');
    push_dec_digits(count as u64, &mut limit);
    proof {
        assert(limit@ =~= seq!['-'] + spec_dec_digits(count as nat));
    }
    let mut args: Vec<String> = Vec::new();
    args.push(String::from_str("log"));
    args.push(chars_to_string(&limit));
    args.push(String::from_str("--pretty=format:%s"));
    proof {
        assert(args.deep_view() =~= spec_git_log_args(count as nat));
    }
    args
}

/// The characters `str::trim` removes at either end: the characters with
/// the Unicode `White_Space` property.
pub open spec fn is_space(c: char) -> bool {
    c == ' ' || ('\u{9}' <= c && c <= '\u{d}') || c == '\u{85}' || c == '\u{a0}' || c == '\u{1680}'
        || ('\u{2000}' <= c && c <= '\u{200a}') || c == '\u{2028}' || c == '\u{2029}' || c
        == '\u{202f}' || c == '\u{205f}' || c == '\u{3000}'
}

/// `s` with its leading whitespace removed.
pub open spec fn spec_trim_start(s: Seq<char>) -> Seq<char>
    decreases s.len(),
{
    if s.len() > 0 && is_space(s[0]) {
        spec_trim_start(s.drop_first())
    } else {
        s
    }
}

/// `s` with its trailing whitespace removed.
pub open spec fn spec_trim_end(s: Seq<char>) -> Seq<char>
    decreases s.len(),
{
    if s.len() > 0 && is_space(s[s.len() - 1]) {
        spec_trim_end(s.drop_last())
    } else {
        s
    }
}

/// `s` with whitespace removed at both ends.
pub open spec fn spec_trim(s: Seq<char>) -> Seq<char> {
    spec_trim_end(spec_trim_start(s))
}

fn is_space_exec(c: char) -> (r: bool)
    ensures
        r == is_space(c),
{
    let u = c as u32;
    u == 0x20 || (0x9 <= u && u <= 0xd) || u == 0x85 || u == 0xa0 || u == 0x1680 || (0x2000 <= u
        && u <= 0x200a) || u == 0x2028 || u == 0x2029 || u == 0x202f || u == 0x205f || u == 0x3000
}

/// Trimming from the front stops exactly at the first non-space.
proof fn lemma_trim_start_at(s: Seq<char>, lo: int)
    requires
        0 <= lo <= s.len(),
        forall|m: int| 0 <= m < lo ==> is_space(#[trigger] s[m]),
        lo == s.len() || !is_space(s[lo]),
    ensures
        spec_trim_start(s) == s.subrange(lo, s.len() as int),
    decreases lo,
{
    if lo == 0 {
        assert(s.subrange(0, s.len() as int) =~= s);
    } else {
        let t = s.drop_first();
        assert(forall|m: int| 0 <= m < lo - 1 ==> #[trigger] t[m] == s[m + 1]);
        lemma_trim_start_at(t, lo - 1);
        assert(t.subrange(lo - 1, t.len() as int) =~= s.subrange(lo, s.len() as int));
    }
}

/// Trimming from the back stops exactly after the last non-space.
proof fn lemma_trim_end_at(s: Seq<char>, hi: int)
    requires
        0 <= hi <= s.len(),
        forall|m: int| hi <= m < s.len() ==> is_space(#[trigger] s[m]),
        hi == 0 || !is_space(s[hi - 1]),
    ensures
        spec_trim_end(s) == s.take(hi),
    decreases s.len(),
{
    if hi == s.len() {
        assert(s.take(hi) =~= s);
    } else {
        let t = s.drop_last();
        assert(forall|m: int| 0 <= m < t.len() ==> #[trigger] t[m] == s[m]);
        lemma_trim_end_at(t, hi);
        assert(t.take(hi) =~= s.take(hi));
    }
}

/// The characters of `s` with whitespace removed at both ends.
pub fn trim_chars(s: &Vec<char>) -> (r: Vec<char>)
    ensures
        r@ == spec_trim(s@),
{
    let n = s.len();
    let mut lo: usize = 0;
    while lo < n && is_space_exec(s[lo])
        invariant
            lo <= n == s@.len(),
            forall|m: int| 0 <= m < lo ==> is_space(#[trigger] s@[m]),
        decreases n - lo,
    {
        lo = lo + 1;
    }
    proof {
        lemma_trim_start_at(s@, lo as int);
    }
    let mut hi: usize = n;
    while hi > lo && is_space_exec(s[hi - 1])
        invariant
            lo <= hi <= n == s@.len(),
            forall|m: int| hi <= m < n ==> is_space(#[trigger] s@[m]),
        decreases hi,
    {
        hi = hi - 1;
    }
    let r = copy_range(s, lo, hi);
    proof {
        let t = s@.subrange(lo as int, s@.len() as int);
        assert(forall|m: int| hi - lo <= m < t.len() ==> is_space(#[trigger] t[m]));
        if hi > lo {
            assert(t[hi - lo - 1] == s@[hi - 1]);
        }
        lemma_trim_end_at(t, hi - lo);
        assert(t.take(hi - lo) =~= s@.subrange(lo as int, hi as int));
    }
    r
}

/// `s` with whitespace removed at both ends, as a fresh string.
pub fn trim_str(s: &str) -> (r: String)
    ensures
        r@ == spec_trim(s@),
{
    let cs = str_to_chars(s);
    let t = trim_chars(&cs);
    chars_to_string(&t)
}

/// The root directory in the output of the root-directory invocation: the
/// output with the terminating newline (and any other surrounding
/// whitespace) removed.
pub fn git_root_from_output(output: &str) -> (r: String)
    ensures
        r@ == spec_trim(output@),
{
    trim_str(output)
}

/// The commit subjects in the log output: one per line, trimmed, with
/// blank lines left out, in order.
pub open spec fn spec_commit_lines(s: Seq<char>) -> Seq<Seq<char>>
    decreases s.len(),
    via spec_commit_lines_decreases
{
    if s.len() == 0 {
        Seq::empty()
    } else {
        let (line, rest) = line_split(s);
        let t = spec_trim(line);
        (if t.len() > 0 {
            seq![t]
        } else {
            Seq::empty()
        }) + spec_commit_lines(rest)
    }
}

#[via_fn]
proof fn spec_commit_lines_decreases(s: Seq<char>) {
    lemma_line_split_len(s);
}

/// Reads the commit subjects out of the log output.
pub fn parse_commit_lines(output: &str) -> (r: Vec<String>)
    ensures
        r.deep_view() == spec_commit_lines(output@),
{
    let s = str_to_chars(output);
    let n = s.len();
    let mut acc: Vec<String> = Vec::new();
    let mut pos: usize = 0;
    proof {
        assert(s@.subrange(0, n as int) =~= s@);
        assert(acc.deep_view() =~= Seq::<Seq<char>>::empty());
        assert(acc.deep_view() + spec_commit_lines(s@) =~= spec_commit_lines(s@));
    }
    while pos < n
        invariant
            pos <= n == s@.len(),
            s@ == output@,
            spec_commit_lines(output@) == acc.deep_view() + spec_commit_lines(
                s@.subrange(pos as int, n as int),
            ),
        decreases n - pos,
    {
        let ghost sub = s@.subrange(pos as int, n as int);
        let mut e = pos;
        while e < n && s[e] != '\n'
            invariant
                pos <= e <= n == s@.len(),
                forall|m: int| pos <= m < e ==> #[trigger] s@[m] != '\n',
            decreases n - e,
        {
            e = e + 1;
        }
        proof {
            assert(forall|m: int| 0 <= m < e - pos ==> #[trigger] sub[m] != '\n');
            crate::toml_text::lemma_line_split_at(sub, e - pos);
        }
        let line = copy_range(&s, pos, e);
        proof {
            assert(line@ =~= sub.take(e - pos));
        }
        let trimmed = trim_chars(&line);
        let next = if e < n {
            e + 1
        } else {
            e
        };
        proof {
            if e < n {
                assert(sub.subrange(e - pos + 1, sub.len() as int) =~= s@.subrange(
                    next as int,
                    n as int,
                ));
            } else {
                assert(s@.subrange(next as int, n as int) =~= Seq::<char>::empty());
            }
            assert(line_split(sub).1 == s@.subrange(next as int, n as int));
        }
        let ghost old_acc = acc.deep_view();
        if trimmed.len() > 0 {
            acc.push(chars_to_string(&trimmed));
            proof {
                assert(acc.deep_view() =~= old_acc + seq![spec_trim(line@)]);
            }
        }
        proof {
            assert(acc.deep_view() + spec_commit_lines(s@.subrange(next as int, n as int))
                =~= old_acc + spec_commit_lines(sub));
        }
        pos = next;
    }
    proof {
        assert(s@.subrange(n as int, n as int) =~= Seq::<char>::empty());
        assert(acc.deep_view() + spec_commit_lines(s@.subrange(n as int, n as int))
            =~= acc.deep_view());
    }
    acc
}

} // verus!
