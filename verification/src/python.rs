//! Python interpreter candidates.
//!
//! Finding interpreters on disk and running them belongs to the shell;
//! this module decides which paths to look at, how a candidate is
//! labelled, which candidates are kept, and what a `--version` run
//! reports.

use crate::paths::{join, path_join};
use crate::strs::{append_chars, chars_eq, chars_of, string_of, trim, trim_str};
use vstd::prelude::*;

verus! {

/// A Python interpreter discovered on disk, with a display label describing
/// where it was found.
pub struct PythonCandidate {
    /// Path to the interpreter executable.
    pub path: String,
    /// Human-readable label, for example `/usr/bin/python3 (PATH)`.
    pub label: String,
}

/// The label of the interpreter at `path` found through `src`:
/// `path (src)`.
pub open spec fn label_of(path: Seq<char>, src: Seq<char>) -> Seq<char> {
    path + seq![' ', '('] + src + seq![')']
}

/// The label of the interpreter at `path` found through `src`.
pub fn candidate_label(path: &str, src: &str) -> (r: String)
    ensures
        r@ == label_of(path@, src@),
{
    let mut v = chars_of(path);
    v.push(' ');
    v.push('(');
    append_chars(&mut v, &chars_of(src));
    v.push(')');
    assert(v@ =~= label_of(path@, src@));
    string_of(&v)
}

/// Whether some candidate already has the path `p`.
pub open spec fn has_path(cs: Seq<PythonCandidate>, p: Seq<char>) -> bool {
    exists|i: int| 0 <= i < cs.len() && #[trigger] cs[i].path@ == p
}

/// Adds the interpreter at `p` (which exists and, where asked for, ran)
/// found through `src`, unless a candidate with that path is already
/// listed.
pub fn add_candidate(out: &mut Vec<PythonCandidate>, p: String, src: &str)
    ensures
        has_path(old(out)@, p@) ==> final(out)@ == old(out)@,
        !has_path(old(out)@, p@) ==> final(out)@.len() == old(out)@.len() + 1 && final(out)@.take(
            old(out)@.len() as int,
        ) == old(out)@ && final(out)@.last().path@ == p@ && final(out)@.last().label@ == label_of(
            p@,
            src@,
        ),
{
    let pc = chars_of(p.as_str());
    let mut i: usize = 0;
    while i < out.len()
        invariant
            i <= out@.len(),
            pc@ == p@,
            forall|j: int| 0 <= j < i ==> #[trigger] out@[j].path@ != p@,
        decreases out@.len() - i,
    {
        if chars_eq(&chars_of(out[i].path.as_str()), &pc) {
            assert(out@[i as int].path@ == p@);
            return;
        }
        i = i + 1;
    }
    let label = candidate_label(p.as_str(), src);
    let ghost before = out@;
    out.push(PythonCandidate { path: p, label });
    assert(out@.take(before.len() as int) =~= before);
}

/// The interpreters a virtualenv directory may hold, in the order they
/// are tried: `bin/python`, `bin/python3`, `Scripts/python.exe`,
/// `Scripts/python3.exe`.
pub fn venv_candidates(dir: &str) -> (r: Vec<String>)
    ensures
        r@.len() == 4,
        r@[0]@ == path_join(path_join(dir@, "bin"@), "python"@),
        r@[1]@ == path_join(path_join(dir@, "bin"@), "python3"@),
        r@[2]@ == path_join(path_join(dir@, "Scripts"@), "python.exe"@),
        r@[3]@ == path_join(path_join(dir@, "Scripts"@), "python3.exe"@),
{
    let bin = join(dir, "bin");
    let scripts = join(dir, "Scripts");
    let mut r: Vec<String> = Vec::new();
    r.push(join(bin.as_str(), "python"));
    r.push(join(bin.as_str(), "python3"));
    r.push(join(scripts.as_str(), "python.exe"));
    r.push(join(scripts.as_str(), "python3.exe"));
    r
}

/// The source label of a virtualenv found in the directory `name`:
/// `env in name/`.
pub fn env_source(name: &str) -> (r: String)
    ensures
        r@ == seq!['e', 'n', 'v', ' ', 'i', 'n', ' '] + name@ + seq!['/'],
{
    let mut v: Vec<char> = Vec::new();
    v.push('e');
    v.push('n');
    v.push('v');
    v.push(' ');
    v.push('i');
    v.push('n');
    v.push(' ');
    append_chars(&mut v, &chars_of(name));
    v.push('/');
    assert(v@ =~= seq!['e', 'n', 'v', ' ', 'i', 'n', ' '] + name@ + seq!['/']);
    string_of(&v)
}

/// What `python --version` reports: its trimmed standard output, or the
/// trimmed standard error when the output is blank (older interpreters
/// print the version there).
pub open spec fn version_of(stdout: Seq<char>, stderr: Seq<char>) -> Seq<char> {
    if trim(stdout).len() == 0 {
        trim(stderr)
    } else {
        trim(stdout)
    }
}

/// The version text of a successful `--version` run (see [`version_of`]).
pub fn version_text(stdout: &str, stderr: &str) -> (r: String)
    ensures
        r@ == version_of(stdout@, stderr@),
{
    let t = trim_str(stdout);
    if t.as_str().is_empty() {
        trim_str(stderr)
    } else {
        t
    }
}

} // verus!
