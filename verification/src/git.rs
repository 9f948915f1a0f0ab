//! The `git` invocations the launcher makes, and the parsing of their
//! output.
//!
//! Fetch and clone run with non-interactive safeguards so that an
//! auth-required remote fails fast instead of waiting for a prompt.

use crate::env::{env_has, env_insert, env_pos, env_set, env_view, EnvList};
use crate::process::{env_extend, strings_view, Cmd};
use crate::strs::{
    lemma_lex_asym, lemma_lex_le_trans,
    chars_of, chars_eq, copy_chars, dec, dec_chars, lex_lt, lines_of, lt_chars, parse_u32,
    parse_u32_chars, split3, split3_chars, split_chars, split_on, string_of, text_lines, trim,
    trim_chars, trim_str,
};
use vstd::prelude::*;

verus! {

/// The command that git runs over SSH when the caller did not choose one:
/// batch mode, a 10 second connect timeout, new host keys accepted.
pub open spec fn default_ssh_command() -> Seq<char> {
    "ssh -o BatchMode=yes -o ConnectTimeout=10 -o StrictHostKeyChecking=accept-new"@
}

/// `e` with the non-interactive safeguards merged in: git's credential
/// prompt off, Git Credential Manager popups off, askpass helpers emptied
/// and refused, and a batch-mode SSH command unless one is already set.
pub open spec fn no_prompt(e: Seq<(Seq<char>, Seq<char>)>) -> Seq<(Seq<char>, Seq<char>)> {
    let e1 = env_insert(e, "GIT_TERMINAL_PROMPT"@, "0"@);
    let e2 = env_insert(e1, "GCM_INTERACTIVE"@, "Never"@);
    let e3 = env_insert(e2, "GIT_ASKPASS"@, Seq::<char>::empty());
    let e4 = env_insert(e3, "SSH_ASKPASS"@, Seq::<char>::empty());
    let e5 = env_insert(e4, "SSH_ASKPASS_REQUIRE"@, "never"@);
    if env_pos(e5, "GIT_SSH_COMMAND"@) is Some {
        e5
    } else {
        env_insert(e5, "GIT_SSH_COMMAND"@, default_ssh_command())
    }
}

/// Merges the non-interactive safeguards into `env`.
pub fn no_prompt_env(env: EnvList) -> (r: EnvList)
    ensures
        env_view(r@) == no_prompt(env_view(env@)),
{
    let mut e = env;
    env_set(&mut e, "GIT_TERMINAL_PROMPT".to_string(), "0".to_string());
    env_set(&mut e, "GCM_INTERACTIVE".to_string(), "Never".to_string());
    env_set(&mut e, "GIT_ASKPASS".to_string(), String::new());
    env_set(&mut e, "SSH_ASKPASS".to_string(), String::new());
    env_set(&mut e, "SSH_ASKPASS_REQUIRE".to_string(), "never".to_string());
    let k = "GIT_SSH_COMMAND".to_string();
    if !env_has(&e, &k) {
        env_set(
            &mut e,
            k,
            "ssh -o BatchMode=yes -o ConnectTimeout=10 -o StrictHostKeyChecking=accept-new".to_string(),
        );
    }
    e
}

/// `git -C <repo>` with no further arguments and no extra environment.
fn git_in(repo: &str) -> (c: Cmd)
    ensures
        c.program@ == "git"@,
        strings_view(c.args@) == seq!["-C"@, repo@],
        c.cwd is None,
        c.env@.len() == 0,
{
    let c = Cmd::new("git".to_string()).arg("-C".to_string()).arg(repo.to_string());
    assert(strings_view(c.args@) =~= seq!["-C"@, repo@]);
    c
}

/// Whether `c` runs `git` with exactly the arguments `args` and the
/// environment `env`.
pub open spec fn runs_git(c: Cmd, args: Seq<Seq<char>>, env: Seq<(Seq<char>, Seq<char>)>) -> bool {
    &&& c.program@ == "git"@
    &&& strings_view(c.args@) == args
    &&& c.cwd is None
    &&& env_view(c.env@) == env_extend(Seq::empty(), env)
}

/// `git fetch --all` in `repo`, with the non-interactive safeguards.
pub fn fetch_cmd(repo: &str, env: EnvList) -> (c: Cmd)
    ensures
        runs_git(c, seq!["-C"@, repo@, "fetch"@, "--all"@], no_prompt(env_view(env@))),
{
    let c = git_in(repo).arg("fetch".to_string()).arg("--all".to_string());
    assert(env_view(c.env@) =~= Seq::empty());
    let c = c.envs(no_prompt_env(env));
    assert(strings_view(c.args@) =~= seq!["-C"@, repo@, "fetch"@, "--all"@]);
    c
}

/// `git fetch --unshallow --tags` in `repo` with the environment `env`
/// (the first attempt at deepening a shallow clone).
pub fn unshallow_cmd(repo: &str, env: EnvList) -> (c: Cmd)
    ensures
        runs_git(c, seq!["-C"@, repo@, "fetch"@, "--unshallow"@, "--tags"@], env_view(env@)),
{
    let c = git_in(repo).arg("fetch".to_string()).arg("--unshallow".to_string()).arg(
        "--tags".to_string(),
    );
    assert(env_view(c.env@) =~= Seq::empty());
    let c = c.envs(env);
    assert(strings_view(c.args@) =~= seq!["-C"@, repo@, "fetch"@, "--unshallow"@, "--tags"@]);
    c
}

/// `git fetch --depth=2147483647 --tags` in `repo` with the environment
/// `env` (the fallback for mirrors that refuse `--unshallow`).
pub fn deepen_cmd(repo: &str, env: EnvList) -> (c: Cmd)
    ensures
        runs_git(
            c,
            seq!["-C"@, repo@, "fetch"@, "--depth=2147483647"@, "--tags"@],
            env_view(env@),
        ),
{
    let c = git_in(repo).arg("fetch".to_string()).arg("--depth=2147483647".to_string()).arg(
        "--tags".to_string(),
    );
    assert(env_view(c.env@) =~= Seq::empty());
    let c = c.envs(env);
    assert(strings_view(c.args@) =~= seq![
        "-C"@,
        repo@,
        "fetch"@,
        "--depth=2147483647"@,
        "--tags"@,
    ]);
    c
}

/// How far deepening a shallow clone has got.
#[derive(Clone, Copy, Debug, PartialEq, Eq, Structural)]
pub enum DeepenStage {
    /// Nothing tried yet.
    Start,
    /// `fetch --unshallow` has run.
    Unshallowed,
    /// The `--depth` fetch has run too.
    Deepened,
}

/// The next step of deepening a shallow clone.
pub enum DeepenStep {
    /// Stop; whether the repository ended up complete.
    Done(bool),
    /// Run this command, then ask again from the given stage.
    Run(Cmd, DeepenStage),
}

/// Fetches still allowed from a stage.
pub open spec fn deepen_left(s: DeepenStage) -> nat {
    match s {
        DeepenStage::Start => 2,
        DeepenStage::Unshallowed => 1,
        DeepenStage::Deepened => 0,
    }
}

/// One decision of deepening the shallow clone `repo` until it is
/// complete, given the stage reached and whether `git rev-parse
/// --is-shallow-repository` says it is still shallow: a complete clone
/// ends the work (successfully); otherwise `fetch --unshallow --tags` is
/// tried first, then (for mirrors that refuse it) a fetch with a very
/// large `--depth`, both with the non-interactive safeguards merged into
/// `env`; a clone still shallow after both ends the work unsuccessfully.
/// Each step moves to a later stage, so at most two fetches run.
pub fn deepen_until_full(repo: &str, env: EnvList, stage: DeepenStage, shallow: bool) -> (r: DeepenStep)
    ensures
        !shallow ==> r == DeepenStep::Done(true),
        shallow && stage == DeepenStage::Start ==> (r matches DeepenStep::Run(c, s) && s
            == DeepenStage::Unshallowed && runs_git(
            c,
            seq!["-C"@, repo@, "fetch"@, "--unshallow"@, "--tags"@],
            no_prompt(env_view(env@)),
        )),
        shallow && stage == DeepenStage::Unshallowed ==> (r matches DeepenStep::Run(c, s) && s
            == DeepenStage::Deepened && runs_git(
            c,
            seq!["-C"@, repo@, "fetch"@, "--depth=2147483647"@, "--tags"@],
            no_prompt(env_view(env@)),
        )),
        shallow && stage == DeepenStage::Deepened ==> r == DeepenStep::Done(false),
        r matches DeepenStep::Run(_, s) ==> deepen_left(s) < deepen_left(stage),
{
    if !shallow {
        return DeepenStep::Done(true);
    }
    match stage {
        DeepenStage::Start => DeepenStep::Run(
            unshallow_cmd(repo, no_prompt_env(env)),
            DeepenStage::Unshallowed,
        ),
        DeepenStage::Unshallowed => DeepenStep::Run(
            deepen_cmd(repo, no_prompt_env(env)),
            DeepenStage::Deepened,
        ),
        DeepenStage::Deepened => DeepenStep::Done(false),
    }
}

/// The revisions a hard reset tries, in order, to bring a checkout up to
/// its upstream: the branch's upstream when a branch is checked out,
/// otherwise the remote's default head and then what was fetched last.
pub fn upstream_targets(on_branch: bool) -> (r: Vec<String>)
    ensures
        on_branch ==> r@.map_values(|s: String| s@) == seq!["@{u}"@],
        !on_branch ==> r@.map_values(|s: String| s@) == seq!["origin/HEAD"@, "FETCH_HEAD"@],
{
    let mut r: Vec<String> = Vec::new();
    if on_branch {
        r.push("@{u}".to_string());
        assert(r@.map_values(|s: String| s@) =~= seq!["@{u}"@]);
    } else {
        r.push("origin/HEAD".to_string());
        r.push("FETCH_HEAD".to_string());
        assert(r@.map_values(|s: String| s@) =~= seq!["origin/HEAD"@, "FETCH_HEAD"@]);
    }
    r
}

/// `git checkout --force <rev>` in `repo`; local edits to tracked files
/// are overwritten.
pub fn checkout_cmd(repo: &str, rev: &str, env: EnvList) -> (c: Cmd)
    ensures
        runs_git(c, seq!["-C"@, repo@, "checkout"@, "--force"@, rev@], env_view(env@)),
{
    let c = git_in(repo).arg("checkout".to_string()).arg("--force".to_string()).arg(
        rev.to_string(),
    );
    assert(env_view(c.env@) =~= Seq::empty());
    let c = c.envs(env);
    assert(strings_view(c.args@) =~= seq!["-C"@, repo@, "checkout"@, "--force"@, rev@]);
    c
}

/// `git reset --hard <rev>` in `repo` (also the fallback of a refused
/// checkout).
pub fn reset_hard_cmd(repo: &str, rev: &str, env: EnvList) -> (c: Cmd)
    ensures
        runs_git(c, seq!["-C"@, repo@, "reset"@, "--hard"@, rev@], env_view(env@)),
{
    let c = git_in(repo).arg("reset".to_string()).arg("--hard".to_string()).arg(rev.to_string());
    assert(env_view(c.env@) =~= Seq::empty());
    let c = c.envs(env);
    assert(strings_view(c.args@) =~= seq!["-C"@, repo@, "reset"@, "--hard"@, rev@]);
    c
}

/// `git clone <url> <dest>` with the non-interactive safeguards.
pub fn clone_cmd(url: &str, dest: &str, env: EnvList) -> (c: Cmd)
    ensures
        runs_git(c, seq!["clone"@, url@, dest@], no_prompt(env_view(env@))),
{
    let c = Cmd::new("git".to_string()).arg("clone".to_string()).arg(url.to_string()).arg(
        dest.to_string(),
    );
    assert(env_view(c.env@) =~= Seq::empty());
    let c = c.envs(no_prompt_env(env));
    assert(strings_view(c.args@) =~= seq!["clone"@, url@, dest@]);
    c
}

/// Arguments of `git log` for the last `n` commits (from every ref when
/// `all`), one commit per line as short hash, subject and commit date
/// separated by U+001F.
pub open spec fn log_args(repo: Seq<char>, n: nat, all: bool) -> Seq<Seq<char>> {
    let head = seq!["-C"@, repo, "log"@, "-n"@ + dec(n)];
    let head = if all {
        head.push("--all"@)
    } else {
        head
    };
    head.push("--pretty=format:%h\u{1f}%s\u{1f}%cd"@).push("--date=format:%Y-%m-%d %H:%M:%S"@)
}

/// The `git log` invocation behind [`log`](crate::git) listings.
pub fn log_cmd(repo: &str, n: usize, all: bool) -> (c: Cmd)
    ensures
        runs_git(c, log_args(repo@, n as nat, all), Seq::empty()),
{
    let mut count: Vec<char> = Vec::new();
    count.push('-');
    count.push('n');
    let d = dec_chars(n as u64);
    crate::strs::append_chars(&mut count, &d);
    assert(count@ =~= "-n"@ + dec(n as nat)) by {
        reveal_strlit("-n");
    }
    let c = git_in(repo).arg("log".to_string()).arg(string_of(&count));
    let c = if all {
        c.arg("--all".to_string())
    } else {
        c
    };
    let c = c.arg("--pretty=format:%h\u{1f}%s\u{1f}%cd".to_string()).arg(
        "--date=format:%Y-%m-%d %H:%M:%S".to_string(),
    );
    assert(strings_view(c.args@) =~= log_args(repo@, n as nat, all));
    assert(env_view(c.env@) =~= Seq::empty());
    c
}

/// One commit produced by `git log`.
#[derive(Debug, Clone)]
pub struct Commit {
    /// Short commit hash.
    pub short: String,
    /// Commit subject (first line of the message).
    pub subject: String,
    /// Commit date as `YYYY-MM-DD HH:MM:SS`.
    pub date: String,
}

/// A commit as (short hash, subject, date).
pub type CommitView = (Seq<char>, Seq<char>, Seq<char>);

/// The fields of `c`.
pub open spec fn commit_view(c: Commit) -> CommitView {
    (c.short@, c.subject@, c.date@)
}

/// The fields of each commit in `cs`.
pub open spec fn commits_view(cs: Seq<Commit>) -> Seq<CommitView> {
    cs.map_values(|c: Commit| commit_view(c))
}

/// A `git log` output line: hash, subject and date separated by U+001F
/// (the date holds whatever follows the second separator).
pub open spec fn commit_of(l: Seq<char>) -> Option<CommitView> {
    let p = split3(l, '\u{1f}');
    if p.len() == 3 {
        Some((p[0], p[1], p[2]))
    } else {
        None
    }
}

/// The commits of the lines that parse, in line order.
pub open spec fn parsed_commits(ls: Seq<Seq<char>>) -> Seq<CommitView>
    decreases ls.len(),
{
    if ls.len() == 0 {
        Seq::empty()
    } else {
        let p = parsed_commits(ls.drop_last());
        match commit_of(ls.last()) {
            Some(c) => p.push(c),
            None => p,
        }
    }
}

/// Where a stable newest-first sort puts `x` after the list `s`: after
/// every commit that is not strictly older.
pub open spec fn desc_pos(s: Seq<CommitView>, x: CommitView) -> int
    decreases s.len(),
{
    if s.len() == 0 {
        0
    } else if lex_lt(s.last().2, x.2) {
        desc_pos(s.drop_last(), x)
    } else {
        s.len() as int
    }
}

/// `s` stably sorted by date, newest first (dates compare as strings, which
/// for `YYYY-MM-DD HH:MM:SS` is chronological order).
pub open spec fn newest_first(s: Seq<CommitView>) -> Seq<CommitView>
    decreases s.len(),
{
    if s.len() == 0 {
        s
    } else {
        let t = newest_first(s.drop_last());
        t.insert(desc_pos(t, s.last()), s.last())
    }
}

proof fn lemma_desc_pos_range(s: Seq<CommitView>, x: CommitView)
    ensures
        0 <= desc_pos(s, x) <= s.len(),
    decreases s.len(),
{
    if s.len() > 0 {
        lemma_desc_pos_range(s.drop_last(), x);
    }
}

/// Sorting keeps the number of commits.
pub proof fn lemma_newest_first_len(s: Seq<CommitView>)
    ensures
        newest_first(s).len() == s.len(),
    decreases s.len(),
{
    if s.len() > 0 {
        lemma_newest_first_len(s.drop_last());
        lemma_desc_pos_range(newest_first(s.drop_last()), s.last());
    }
}

/// Whether the commits run newest first: no commit is strictly older than
/// one after it.
pub open spec fn dates_desc(s: Seq<CommitView>) -> bool {
    forall|i: int, j: int| 0 <= i < j < s.len() ==> !lex_lt(#[trigger] s[i].2, #[trigger] s[j].2)
}

/// Inserting at `desc_pos` keeps a newest-first list newest first.
proof fn lemma_insert_newest_sorted(t: Seq<CommitView>, x: CommitView)
    requires
        dates_desc(t),
    ensures
        0 <= desc_pos(t, x) <= t.len(),
        dates_desc(t.insert(desc_pos(t, x), x)),
    decreases t.len(),
{
    let p = desc_pos(t, x);
    if t.len() > 0 {
        let init = t.drop_last();
        assert(dates_desc(init)) by {
            assert forall|i: int, j: int| 0 <= i < j < init.len() implies !lex_lt(
                #[trigger] init[i].2,
                #[trigger] init[j].2,
            ) by {
                assert(init[i] == t[i] && init[j] == t[j]);
            }
        }
        if lex_lt(t.last().2, x.2) {
            lemma_insert_newest_sorted(init, x);
            let r0 = init.insert(p, x);
            let r = t.insert(p, x);
            assert(r =~= r0.push(t.last()));
            assert forall|i: int, j: int| 0 <= i < j < r.len() implies !lex_lt(
                #[trigger] r[i].2,
                #[trigger] r[j].2,
            ) by {
                if j < r.len() - 1 {
                    assert(r[i] == r0[i] && r[j] == r0[j]);
                } else {
                    assert(r[j] == t.last());
                    if i == p {
                        assert(r[i] == x);
                        lemma_lex_asym(t.last().2, x.2);
                    } else if i < p {
                        assert(r[i] == t[i]);
                    } else {
                        assert(r[i] == t[i - 1]);
                    }
                }
            }
        } else {
            let r = t.insert(p, x);
            assert(p == t.len());
            assert(r =~= t.push(x));
            assert forall|i: int, j: int| 0 <= i < j < r.len() implies !lex_lt(
                #[trigger] r[i].2,
                #[trigger] r[j].2,
            ) by {
                if j < r.len() - 1 {
                    assert(r[i] == t[i] && r[j] == t[j]);
                } else {
                    assert(r[j] == x);
                    assert(r[i] == t[i]);
                    if i < t.len() - 1 {
                        lemma_lex_le_trans(x.2, t[t.len() - 1].2, t[i].2);
                    }
                }
            }
        }
    }
}

/// The commits `parse_log` lists run newest first (by date, compared as
/// text, which for `YYYY-MM-DD HH:MM:SS` is chronological).
pub proof fn law_log_newest_first(s: Seq<CommitView>)
    ensures
        dates_desc(newest_first(s)),
    decreases s.len(),
{
    if s.len() > 0 {
        law_log_newest_first(s.drop_last());
        lemma_insert_newest_sorted(newest_first(s.drop_last()), s.last());
    }
}

fn parse_commit(l: &Vec<char>) -> (r: Option<Commit>)
    ensures
        match r {
            Some(c) => commit_of(l@) == Some(commit_view(c)),
            None => commit_of(l@) is None,
        },
{
    let p = split3_chars(l, '\u{1f}');
    if p.len() != 3 {
        return None;
    }
    Some(Commit { short: string_of(&p[0]), subject: string_of(&p[1]), date: string_of(&p[2]) })
}

fn insert_newest(out: &mut Vec<Commit>, c: Commit)
    ensures
        commits_view(final(out)@) == commits_view(old(out)@).insert(
            desc_pos(commits_view(old(out)@), commit_view(c)),
            commit_view(c),
        ),
{
    let ghost t = commits_view(out@);
    let ghost cv = commit_view(c);
    let cd = chars_of(c.date.as_str());
    let mut p = out.len();
    let mut done = false;
    assert(t.take(p as int) =~= t);
    while !done && p > 0
        invariant
            p <= out@.len(),
            out@ == old(out)@,
            t == commits_view(out@),
            cd@ == cv.2,
            desc_pos(t, cv) == desc_pos(t.take(p as int), cv),
            done ==> desc_pos(t.take(p as int), cv) == p,
        decreases p + (if done { 0int } else { 1int }),
    {
        let d = chars_of(out[p - 1].date.as_str());
        assert(t.take(p as int).last() == t[p - 1]);
        assert(t.take(p as int).drop_last() =~= t.take(p - 1));
        if lt_chars(&d, &cd) {
            p = p - 1;
        } else {
            done = true;
        }
    }
    assert(desc_pos(t, cv) == p);
    out.insert(p, c);
    assert(commits_view(out@) =~= t.insert(p as int, cv));
}

/// The commits listed in `git log` output (see [`log_cmd`]), newest first;
/// lines that do not hold three fields are skipped.
pub fn parse_log(text: &str) -> (r: Vec<Commit>)
    ensures
        commits_view(r@) == newest_first(parsed_commits(lines_of(text@))),
{
    let ls = text_lines(text);
    let ghost lv = ls@.map_values(|x: Vec<char>| x@);
    let mut out: Vec<Commit> = Vec::new();
    let mut i: usize = 0;
    assert(lv.take(0) =~= Seq::<Seq<char>>::empty());
    while i < ls.len()
        invariant
            i <= ls.len(),
            lv == ls@.map_values(|x: Vec<char>| x@),
            commits_view(out@) == newest_first(parsed_commits(lv.take(i as int))),
        decreases ls.len() - i,
    {
        assert(lv.take(i + 1).drop_last() =~= lv.take(i as int));
        assert(lv.take(i + 1).last() == ls[i as int]@);
        let ghost prev = parsed_commits(lv.take(i as int));
        match parse_commit(&ls[i]) {
            Some(c) => {
                let ghost cv = commit_view(c);
                assert(prev.push(cv).drop_last() =~= prev);
                insert_newest(&mut out, c);
            },
            None => {},
        }
        i = i + 1;
    }
    assert(lv.take(ls.len() as int) =~= lv);
    out
}

/// A release version `vMAJOR.MINOR.PATCH`: a `v`, then exactly three
/// dot-separated `u32` numbers.
pub open spec fn release_tag(s: Seq<char>) -> Option<(u32, u32, u32)> {
    if s.len() > 0 && s[0] == 'v' {
        let p = split_on(s.drop_first(), '.');
        if p.len() == 3 && parse_u32(p[0]) is Some && parse_u32(p[1]) is Some && parse_u32(
            p[2],
        ) is Some {
            Some((parse_u32(p[0]).unwrap(), parse_u32(p[1]).unwrap(), parse_u32(p[2]).unwrap()))
        } else {
            None
        }
    } else {
        None
    }
}

/// Parses a `vMAJOR.MINOR.PATCH` tag into its three numbers.
pub fn parse_release_tag(s: &Vec<char>) -> (r: Option<(u32, u32, u32)>)
    ensures
        r == release_tag(s@),
{
    if s.len() == 0 || s[0] != 'v' {
        return None;
    }
    let rest = crate::strs::slice_chars(s, 1, s.len());
    assert(rest@ =~= s@.drop_first());
    let p = split_chars(&rest, '.');
    if p.len() != 3 {
        return None;
    }
    assert(p@[0]@ == split_on(rest@, '.')[0]);
    assert(p@[1]@ == split_on(rest@, '.')[1]);
    assert(p@[2]@ == split_on(rest@, '.')[2]);
    let a = parse_u32_chars(&p[0]);
    let b = parse_u32_chars(&p[1]);
    let c = parse_u32_chars(&p[2]);
    match (a, b, c) {
        (Some(a), Some(b), Some(c)) => Some((a, b, c)),
        _ => None,
    }
}

/// A release tag found by `for-each-ref`: its version, name and the commit
/// it points at.
pub type TagRef = (u32, u32, u32, String, String);

/// A tag reference as plain values.
pub type TagRefView = (u32, u32, u32, Seq<char>, Seq<char>);

/// The fields of `t`.
pub open spec fn tag_ref_view(t: TagRef) -> TagRefView {
    (t.0, t.1, t.2, t.3@, t.4@)
}

/// `(name, commit)` of one `for-each-ref` line `"<object> <peeled> <name>"`:
/// an annotated tag names its peeled commit; a lightweight tag has no peeled
/// field, so its second field is the name and the object is the commit.
pub open spec fn tag_line(l: Seq<char>) -> (Seq<char>, Seq<char>) {
    let p = split3(l, ' ');
    let obj = p[0];
    let peeled = if p.len() > 1 {
        p[1]
    } else {
        Seq::<char>::empty()
    };
    let name = if p.len() > 2 {
        p[2]
    } else {
        Seq::<char>::empty()
    };
    if name.len() == 0 {
        (peeled, obj)
    } else if peeled.len() == 0 {
        (name, obj)
    } else {
        (name, peeled)
    }
}

/// The release tag of one line, if it names one.
pub open spec fn tag_of(l: Seq<char>) -> Option<TagRefView> {
    let (name, sha) = tag_line(l);
    if name.len() == 0 || sha.len() == 0 {
        None
    } else {
        match release_tag(name) {
            Some(v) => Some((v.0, v.1, v.2, name, sha)),
            None => None,
        }
    }
}

/// The release tags of the lines, in line order.
pub open spec fn parsed_tags(ls: Seq<Seq<char>>) -> Seq<TagRefView>
    decreases ls.len(),
{
    if ls.len() == 0 {
        Seq::empty()
    } else {
        let p = parsed_tags(ls.drop_last());
        match tag_of(ls.last()) {
            Some(t) => p.push(t),
            None => p,
        }
    }
}

/// Whether version `a` is strictly older than version `b`.
pub open spec fn version_lt(a: TagRefView, b: TagRefView) -> bool {
    a.0 < b.0 || (a.0 == b.0 && (a.1 < b.1 || (a.1 == b.1 && a.2 < b.2)))
}

/// Where a stable highest-version-first sort puts `x` after the list `s`.
pub open spec fn tag_pos(s: Seq<TagRefView>, x: TagRefView) -> int
    decreases s.len(),
{
    if s.len() == 0 {
        0
    } else if version_lt(s.last(), x) {
        tag_pos(s.drop_last(), x)
    } else {
        s.len() as int
    }
}

/// `s` stably sorted by version, highest first.
pub open spec fn highest_first(s: Seq<TagRefView>) -> Seq<TagRefView>
    decreases s.len(),
{
    if s.len() == 0 {
        s
    } else {
        let t = highest_first(s.drop_last());
        t.insert(tag_pos(t, s.last()), s.last())
    }
}

/// Whether the tags run highest version first: no tag's
/// `(major, minor, patch)` is lexicographically below that of a tag after
/// it.
pub open spec fn versions_desc(s: Seq<TagRefView>) -> bool {
    forall|i: int, j: int|
        #![trigger s[i], s[j]]
        0 <= i < j < s.len() ==> !(s[i].0 < s[j].0 || (s[i].0 == s[j].0 && (s[i].1 < s[j].1 || (
        s[i].1 == s[j].1 && s[i].2 < s[j].2))))
}

/// Inserting at `tag_pos` keeps a highest-first list highest first.
proof fn lemma_insert_highest_sorted(t: Seq<TagRefView>, x: TagRefView)
    requires
        versions_desc(t),
    ensures
        0 <= tag_pos(t, x) <= t.len(),
        versions_desc(t.insert(tag_pos(t, x), x)),
    decreases t.len(),
{
    let p = tag_pos(t, x);
    if t.len() > 0 {
        let init = t.drop_last();
        assert(versions_desc(init)) by {
            assert forall|i: int, j: int| 0 <= i < j < init.len() implies !(init[i].0 < init[j].0 || (
            init[i].0 == init[j].0 && (init[i].1 < init[j].1 || (init[i].1 == init[j].1 && init[i].2
                < init[j].2)))) by {
                assert(init[i] == t[i] && init[j] == t[j]);
            }
        }
        if version_lt(t.last(), x) {
            lemma_insert_highest_sorted(init, x);
            let r0 = init.insert(p, x);
            let r = t.insert(p, x);
            assert(r =~= r0.push(t.last()));
            assert forall|i: int, j: int| 0 <= i < j < r.len() implies !(r[i].0 < r[j].0 || (r[i].0
                == r[j].0 && (r[i].1 < r[j].1 || (r[i].1 == r[j].1 && r[i].2 < r[j].2)))) by {
                if j < r.len() - 1 {
                    assert(r[i] == r0[i] && r[j] == r0[j]);
                } else {
                    assert(r[j] == t.last());
                    if i == p {
                        assert(r[i] == x);
                    } else if i < p {
                        assert(r[i] == t[i]);
                    } else {
                        assert(r[i] == t[i - 1]);
                    }
                }
            }
        } else {
            let r = t.insert(p, x);
            assert(p == t.len());
            assert(r =~= t.push(x));
            assert forall|i: int, j: int| 0 <= i < j < r.len() implies !(r[i].0 < r[j].0 || (r[i].0
                == r[j].0 && (r[i].1 < r[j].1 || (r[i].1 == r[j].1 && r[i].2 < r[j].2)))) by {
                if j < r.len() - 1 {
                    assert(r[i] == t[i] && r[j] == t[j]);
                } else {
                    assert(r[j] == x);
                    assert(r[i] == t[i]);
                    if i < t.len() - 1 {
                        assert(t[i] == t[i] && t[t.len() - 1] == t.last());
                    }
                }
            }
        }
    }
}

/// The release tags `parse_tag_refs` lists run highest version first
/// (`(major, minor, patch)` compared in that order) and are exactly the
/// tags read, each as often as it was read.
pub proof fn law_tags_highest_first(s: Seq<TagRefView>)
    ensures
        versions_desc(highest_first(s)),
        highest_first(s).to_multiset() == s.to_multiset(),
    decreases s.len(),
{
    broadcast use vstd::seq_lib::to_multiset_insert, vstd::seq_lib::to_multiset_build;

    if s.len() > 0 {
        law_tags_highest_first(s.drop_last());
        let t = highest_first(s.drop_last());
        lemma_insert_highest_sorted(t, s.last());
        assert(s.drop_last().push(s.last()) =~= s);
    } else {
        assert(highest_first(s) == s);
    }
}

fn parse_tag_line(l: &Vec<char>) -> (r: Option<TagRef>)
    ensures
        match r {
            Some(t) => tag_of(l@) == Some(tag_ref_view(t)),
            None => tag_of(l@) is None,
        },
{
    let p = split3_chars(l, ' ');
    let ghost pv = p@.map_values(|x: Vec<char>| x@);
    assert(pv.len() >= 1);
    let obj = copy_chars(&p[0]);
    let peeled = if p.len() > 1 {
        copy_chars(&p[1])
    } else {
        Vec::new()
    };
    let name = if p.len() > 2 {
        copy_chars(&p[2])
    } else {
        Vec::new()
    };
    let (name, sha) = if name.len() == 0 {
        (peeled, obj)
    } else if peeled.len() == 0 {
        (name, obj)
    } else {
        (name, peeled)
    };
    assert((name@, sha@) == tag_line(l@));
    if name.len() == 0 || sha.len() == 0 {
        return None;
    }
    match parse_release_tag(&name) {
        Some(v) => Some((v.0, v.1, v.2, string_of(&name), string_of(&sha))),
        None => None,
    }
}

fn insert_highest(out: &mut Vec<TagRef>, t: TagRef)
    ensures
        final(out)@.map_values(|x: TagRef| tag_ref_view(x)) == old(out)@.map_values(
            |x: TagRef| tag_ref_view(x),
        ).insert(
            tag_pos(old(out)@.map_values(|x: TagRef| tag_ref_view(x)), tag_ref_view(t)),
            tag_ref_view(t),
        ),
{
    let ghost s = out@.map_values(|x: TagRef| tag_ref_view(x));
    let ghost tv = tag_ref_view(t);
    let mut p = out.len();
    let mut done = false;
    assert(s.take(p as int) =~= s);
    while !done && p > 0
        invariant
            p <= out@.len(),
            out@ == old(out)@,
            s == out@.map_values(|x: TagRef| tag_ref_view(x)),
            tv == tag_ref_view(t),
            tag_pos(s, tv) == tag_pos(s.take(p as int), tv),
            done ==> tag_pos(s.take(p as int), tv) == p,
        decreases p + (if done {
            0int
        } else {
            1int
        }),
    {
        let q = &out[p - 1];
        assert(s.take(p as int).last() == s[p - 1]);
        assert(s.take(p as int).drop_last() =~= s.take(p - 1));
        let older = q.0 < t.0 || (q.0 == t.0 && (q.1 < t.1 || (q.1 == t.1 && q.2 < t.2)));
        if older {
            p = p - 1;
        } else {
            done = true;
        }
    }
    out.insert(p, t);
    assert(out@.map_values(|x: TagRef| tag_ref_view(x)) =~= s.insert(p as int, tv));
}

/// The release tags listed in `for-each-ref` output (one
/// `"<object> <peeled> <name>"` line each), highest version first; lines
/// that name no release tag are skipped.
pub fn parse_tag_refs(text: &str) -> (r: Vec<TagRef>)
    ensures
        r@.map_values(|x: TagRef| tag_ref_view(x)) == highest_first(parsed_tags(lines_of(text@))),
{
    let ls = text_lines(text);
    let ghost lv = ls@.map_values(|x: Vec<char>| x@);
    let mut out: Vec<TagRef> = Vec::new();
    let mut i: usize = 0;
    assert(lv.take(0) =~= Seq::<Seq<char>>::empty());
    assert(out@.map_values(|x: TagRef| tag_ref_view(x)) =~= Seq::<TagRefView>::empty());
    while i < ls.len()
        invariant
            i <= ls.len(),
            lv == ls@.map_values(|x: Vec<char>| x@),
            out@.map_values(|x: TagRef| tag_ref_view(x)) == highest_first(
                parsed_tags(lv.take(i as int)),
            ),
        decreases ls.len() - i,
    {
        assert(lv.take(i + 1).drop_last() =~= lv.take(i as int));
        assert(lv.take(i + 1).last() == ls[i as int]@);
        let ghost prev = parsed_tags(lv.take(i as int));
        match parse_tag_line(&ls[i]) {
            Some(t) => {
                let ghost tv = tag_ref_view(t);
                assert(prev.push(tv).drop_last() =~= prev);
                insert_highest(&mut out, t);
            },
            None => {},
        }
        i = i + 1;
    }
    assert(lv.take(ls.len() as int) =~= lv);
    out
}

/// One release tag together with the commit it points at.
#[derive(Debug, Clone)]
pub struct TagCommit {
    /// Tag name, for example `v0.3.42`.
    pub tag: String,
    /// Short SHA of the commit.
    pub commit_short: String,
    /// Commit date in `YYYY-MM-DD` form.
    pub commit_date: String,
    /// Commit subject.
    pub commit_subject: String,
}

/// Short hash, date and subject from `git show -s --format=%h<US>%cs<US>%s`
/// output: the trimmed text split at the first two U+001F, missing fields
/// empty.
pub open spec fn show_fields(out: Seq<char>) -> (Seq<char>, Seq<char>, Seq<char>) {
    let p = split3(trim(out), '\u{1f}');
    (p[0], if p.len() > 1 {
        p[1]
    } else {
        Seq::<char>::empty()
    }, if p.len() > 2 {
        p[2]
    } else {
        Seq::<char>::empty()
    })
}

/// Splits `git show` output into short hash, date and subject.
pub fn parse_show(out: &str) -> (r: (String, String, String))
    ensures
        (r.0@, r.1@, r.2@) == show_fields(out@),
{
    let v = chars_of(out);
    let t = trim_chars(&v);
    let p = split3_chars(&t, '\u{1f}');
    let ghost pv = p@.map_values(|x: Vec<char>| x@);
    assert(pv.len() >= 1);
    let a = string_of(&p[0]);
    let b = if p.len() > 1 {
        string_of(&p[1])
    } else {
        String::new()
    };
    let c = if p.len() > 2 {
        string_of(&p[2])
    } else {
        String::new()
    };
    (a, b, c)
}

/// The branch named by `git rev-parse --abbrev-ref HEAD` output: none when
/// the trimmed text is empty or the literal `HEAD` of a detached head.
pub open spec fn branch_of(out: Seq<char>) -> Option<Seq<char>> {
    let name = trim(out);
    if name.len() == 0 || name == "HEAD"@ {
        None
    } else {
        Some(name)
    }
}

/// Reads the current branch from `rev-parse --abbrev-ref HEAD` output.
pub fn branch_from(out: &str) -> (r: Option<String>)
    ensures
        match r {
            Some(b) => branch_of(out@) == Some(b@),
            None => branch_of(out@) is None,
        },
{
    let name = trim_str(out);
    let head = chars_of("HEAD");
    let nv = chars_of(name.as_str());
    if nv.len() == 0 || chars_eq(&nv, &head) {
        None
    } else {
        Some(name)
    }
}

/// Reads the count printed by `git rev-list --count` (trimmed, as `u32`).
pub fn parse_count(out: &str) -> (r: Option<u32>)
    ensures
        r == parse_u32(trim(out@)),
{
    let v = chars_of(out);
    let t = trim_chars(&v);
    parse_u32_chars(&t)
}

/// The release tag printed by `git describe --tags --exact-match HEAD`:
/// the trimmed text, when it is a `vMAJOR.MINOR.PATCH` tag.
pub fn release_tag_from(out: &str) -> (r: Option<String>)
    ensures
        match r {
            Some(t) => t@ == trim(out@) && release_tag(trim(out@)) is Some,
            None => release_tag(trim(out@)) is None,
        },
{
    let v = chars_of(out);
    let t = trim_chars(&v);
    match parse_release_tag(&t) {
        Some(_) => Some(string_of(&t)),
        None => None,
    }
}

} // verus!
