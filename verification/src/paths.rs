//! Filesystem paths the launcher uses, as strings.
//!
//! Where the platform puts configuration and cache directories is decided
//! by the application shell; this module builds the paths below them.

use crate::strs::{append_chars, chars_eq, chars_of, split_chars, split_on, string_of};
use vstd::prelude::*;

verus! {

/// `base` joined with the relative path `part` (`Path::join` with the `/`
/// separator): `part` itself under an empty base, otherwise one separator
/// between the two unless `base` already ends with one.
pub open spec fn path_join(base: Seq<char>, part: Seq<char>) -> Seq<char> {
    if base.len() == 0 {
        part
    } else if base.last() == '/' {
        base + part
    } else {
        base + seq!['/'] + part
    }
}

/// Joins the relative path `part` onto `base`.
pub fn join(base: &str, part: &str) -> (r: String)
    ensures
        r@ == path_join(base@, part@),
{
    let mut v = chars_of(base);
    if v.len() > 0 && v[v.len() - 1] != '/' {
        v.push('/');
    }
    let ghost b = v@;
    append_chars(&mut v, &chars_of(part));
    proof {
        if base@.len() > 0 && base@.last() != '/' {
            assert(b =~= base@ + seq!['/']);
        }
    }
    string_of(&v)
}

/// The path components of `p` that name something: the pieces between
/// `/` that are neither empty nor `.`.
pub open spec fn components(p: Seq<char>) -> Seq<Seq<char>>
    decreases p.len(),
{
    keep_named(split_on(p, '/'))
}

/// The pieces that are neither empty nor `.`.
pub open spec fn keep_named(ps: Seq<Seq<char>>) -> Seq<Seq<char>>
    decreases ps.len(),
{
    if ps.len() == 0 {
        Seq::empty()
    } else {
        let rest = keep_named(ps.drop_last());
        if ps.last().len() == 0 || ps.last() == "."@ {
            rest
        } else {
            rest.push(ps.last())
        }
    }
}

/// `Path::file_name`: the last component, unless there is none or it is
/// `..`.
pub open spec fn file_name_of(p: Seq<char>) -> Option<Seq<char>> {
    let c = components(p);
    if c.len() == 0 || c.last() == ".."@ {
        None
    } else {
        Some(c.last())
    }
}

/// The final component of the path `p` (see [`file_name_of`]).
pub fn file_name(p: &str) -> (r: Option<String>)
    ensures
        match r {
            Some(n) => file_name_of(p@) == Some(n@),
            None => file_name_of(p@) is None,
        },
{
    let parts = split_chars(&chars_of(p), '/');
    let ghost pv = parts@.map_values(|x: Vec<char>| x@);
    let dot = chars_of(".");
    let mut last: Option<usize> = None;
    let mut i: usize = 0;
    assert(pv.take(0) =~= Seq::<Seq<char>>::empty());
    while i < parts.len()
        invariant
            i <= parts.len(),
            pv == parts@.map_values(|x: Vec<char>| x@),
            dot@ == "."@,
            match last {
                Some(j) => j < i && keep_named(pv.take(i as int)).len() > 0 && keep_named(
                    pv.take(i as int),
                ).last() == pv[j as int],
                None => keep_named(pv.take(i as int)).len() == 0,
            },
        decreases parts.len() - i,
    {
        assert(pv.take(i + 1).drop_last() =~= pv.take(i as int));
        if parts[i].len() > 0 && !chars_eq(&parts[i], &dot) {
            last = Some(i);
        }
        i = i + 1;
    }
    assert(pv.take(parts.len() as int) =~= pv);
    match last {
        Some(j) => {
            if chars_eq(&parts[j], &chars_of("..")) {
                None
            } else {
                Some(string_of(&parts[j]))
            }
        },
        None => None,
    }
}

/// The named components of `p`, in order (see [`components`]).
fn named_parts(p: &Vec<char>) -> (r: Vec<Vec<char>>)
    ensures
        r@.map_values(|x: Vec<char>| x@) == components(p@),
{
    let parts = split_chars(p, '/');
    let ghost pv = parts@.map_values(|x: Vec<char>| x@);
    let dot = chars_of(".");
    proof {
        reveal_strlit(".");
    }
    let mut out: Vec<Vec<char>> = Vec::new();
    let mut i: usize = 0;
    assert(pv.take(0) =~= Seq::<Seq<char>>::empty());
    while i < parts.len()
        invariant
            i <= parts.len(),
            pv == parts@.map_values(|x: Vec<char>| x@),
            dot@ == "."@,
            out@.map_values(|x: Vec<char>| x@) == keep_named(pv.take(i as int)),
        decreases parts.len() - i,
    {
        assert(pv.take(i + 1).drop_last() =~= pv.take(i as int));
        assert(pv[i as int] == parts@[i as int]@);
        let ghost before = out@.map_values(|x: Vec<char>| x@);
        if parts[i].len() > 0 && !chars_eq(&parts[i], &dot) {
            out.push(copy_piece(&parts[i]));
            assert(out@.map_values(|x: Vec<char>| x@) =~= before.push(pv[i as int]));
        }
        i = i + 1;
    }
    assert(pv.take(parts.len() as int) =~= pv);
    out
}

/// Whether `p` begins with a `.` component (`.` alone, or `./` first),
/// which a path keeps while dropping every later `.`.
pub open spec fn leading_dot(p: Seq<char>) -> bool {
    p.len() > 0 && p[0] == '.' && (p.len() == 1 || p[1] == '/')
}

/// `Path` equality: both start at the root or neither does, both begin
/// with a `.` component or neither does, and the named components agree.
/// Doubled separators and later `.` components make no difference.
pub open spec fn same_path_spec(a: Seq<char>, b: Seq<char>) -> bool {
    &&& is_absolute(a) == is_absolute(b)
    &&& leading_dot(a) == leading_dot(b)
    &&& components(a) == components(b)
}

/// Compares two paths as `Path`s do (see [`same_path_spec`]).
pub fn same_path(a: &str, b: &str) -> (r: bool)
    ensures
        r == same_path_spec(a@, b@),
{
    let av = chars_of(a);
    let bv = chars_of(b);
    let abs_a = av.len() > 0 && av[0] == '/';
    let abs_b = bv.len() > 0 && bv[0] == '/';
    let dot_a = av.len() > 0 && av[0] == '.' && (av.len() == 1 || av[1] == '/');
    let dot_b = bv.len() > 0 && bv[0] == '.' && (bv.len() == 1 || bv[1] == '/');
    if abs_a != abs_b || dot_a != dot_b {
        return false;
    }
    let ca = named_parts(&av);
    let cb = named_parts(&bv);
    let ghost sa = ca@.map_values(|x: Vec<char>| x@);
    let ghost sb = cb@.map_values(|x: Vec<char>| x@);
    if ca.len() != cb.len() {
        assert(sa.len() != sb.len());
        return false;
    }
    let mut i: usize = 0;
    while i < ca.len()
        invariant
            i <= ca.len() == cb.len(),
            is_absolute(a@) == is_absolute(b@),
            leading_dot(a@) == leading_dot(b@),
            sa == components(a@),
            sb == components(b@),
            sa == ca@.map_values(|x: Vec<char>| x@),
            sb == cb@.map_values(|x: Vec<char>| x@),
            forall|j: int| 0 <= j < i ==> sa[j] == sb[j],
        decreases ca.len() - i,
    {
        if !chars_eq(&ca[i], &cb[i]) {
            assert(sa[i as int] != sb[i as int]);
            return false;
        }
        i = i + 1;
    }
    assert(sa =~= sb);
    true
}

/// Named components with `..` applied: each `..` drops the component kept
/// before it (and is ignored when none is left), every other component is
/// kept.
pub open spec fn collapse(cs: Seq<Seq<char>>) -> Seq<Seq<char>>
    decreases cs.len(),
{
    if cs.len() == 0 {
        Seq::empty()
    } else {
        let r = collapse(cs.drop_last());
        if cs.last() == ".."@ {
            if r.len() > 0 {
                r.drop_last()
            } else {
                r
            }
        } else {
            r.push(cs.last())
        }
    }
}

/// The pieces joined with `/` between them.
pub open spec fn joined(cs: Seq<Seq<char>>) -> Seq<char>
    decreases cs.len(),
{
    if cs.len() == 0 {
        Seq::empty()
    } else if cs.len() == 1 {
        cs[0]
    } else {
        joined(cs.drop_last()) + seq!['/'] + cs.last()
    }
}

/// Whether `p` starts at the filesystem root.
pub open spec fn is_absolute(p: Seq<char>) -> bool {
    p.len() > 0 && p[0] == '/'
}

/// `p` made absolute against the working directory `cwd` (unless it already
/// is) with `.` and `..` components collapsed, without looking at the
/// filesystem.
pub open spec fn lexical(p: Seq<char>, cwd: Seq<char>) -> Seq<char> {
    let abs = if is_absolute(p) {
        p
    } else {
        path_join(cwd, p)
    };
    let body = joined(collapse(components(abs)));
    if is_absolute(abs) {
        seq!['/'] + body
    } else {
        body
    }
}

/// Makes `p` absolute against `cwd` and collapses its `.` and `..`
/// components lexically (see [`lexical`]).
pub fn lexical_absolute(p: &str, cwd: &str) -> (r: String)
    ensures
        r@ == lexical(p@, cwd@),
{
    let pv = chars_of(p);
    let abs = if pv.len() > 0 && pv[0] == '/' {
        pv
    } else {
        chars_of(join(cwd, p).as_str())
    };
    let parts = split_chars(&abs, '/');
    let ghost sv = parts@.map_values(|x: Vec<char>| x@);
    let dot = chars_of(".");
    let dotdot = chars_of("..");
    proof {
        reveal_strlit(".");
        reveal_strlit("..");
    }
    let mut out: Vec<Vec<char>> = Vec::new();
    let mut i: usize = 0;
    assert(sv.take(0) =~= Seq::<Seq<char>>::empty());
    while i < parts.len()
        invariant
            i <= parts.len(),
            sv == parts@.map_values(|x: Vec<char>| x@),
            dot@ == "."@,
            dotdot@ == ".."@,
            out@.map_values(|x: Vec<char>| x@) == collapse(keep_named(sv.take(i as int))),
        decreases parts.len() - i,
    {
        assert(sv.take(i + 1).drop_last() =~= sv.take(i as int));
        let ghost before = out@.map_values(|x: Vec<char>| x@);
        assert(sv[i as int] == parts@[i as int]@);
        if parts[i].len() > 0 && !chars_eq(&parts[i], &dot) {
            assert(keep_named(sv.take(i + 1)) =~= keep_named(sv.take(i as int)).push(sv[i as int]));
            assert(keep_named(sv.take(i + 1)).drop_last() =~= keep_named(sv.take(i as int)));
            if chars_eq(&parts[i], &dotdot) {
                assert(sv[i as int] == ".."@);
                if out.len() > 0 {
                    out.pop();
                    assert(out@.map_values(|x: Vec<char>| x@) =~= before.drop_last());
                } else {
                    assert(collapse(keep_named(sv.take(i as int))).len() == 0);
                }
            } else {
                assert(sv[i as int] != ".."@);
                out.push(copy_piece(&parts[i]));
                assert(out@.map_values(|x: Vec<char>| x@) =~= before.push(sv[i as int]));
            }
        } else {
            assert(keep_named(sv.take(i + 1)) =~= keep_named(sv.take(i as int)));
        }
        i = i + 1;
    }
    assert(sv.take(parts.len() as int) =~= sv);
    let ghost cs = out@.map_values(|x: Vec<char>| x@);
    let mut body: Vec<char> = Vec::new();
    let mut j: usize = 0;
    while j < out.len()
        invariant
            j <= out.len(),
            cs == out@.map_values(|x: Vec<char>| x@),
            body@ == joined(cs.take(j as int)),
        decreases out.len() - j,
    {
        assert(cs.take(j + 1).drop_last() =~= cs.take(j as int));
        if j > 0 {
            body.push('/');
        }
        append_chars(&mut body, &out[j]);
        proof {
            if j == 0 {
                assert(cs.take(1).len() == 1);
                assert(body@ =~= cs.take(1)[0]);
            } else {
                assert(body@ =~= joined(cs.take(j as int)) + seq!['/'] + cs[j as int]);
            }
        }
        j = j + 1;
    }
    assert(cs.take(out.len() as int) =~= cs);
    let mut r: Vec<char> = Vec::new();
    if abs.len() > 0 && abs[0] == '/' {
        r.push('/');
    }
    append_chars(&mut r, &body);
    string_of(&r)
}

fn copy_piece(v: &Vec<char>) -> (r: Vec<char>)
    ensures
        r@ == v@,
{
    let mut r: Vec<char> = Vec::new();
    append_chars(&mut r, v);
    r
}

/// Collapsing leaves no component that is empty, `.` or `..`.
pub proof fn lemma_collapse_clean(cs: Seq<Seq<char>>)
    requires
        forall|i: int| 0 <= i < cs.len() ==> cs[i].len() > 0 && cs[i] != "."@,
    ensures
        forall|i: int|
            0 <= i < collapse(cs).len() ==> collapse(cs)[i].len() > 0 && collapse(cs)[i] != "."@
                && collapse(cs)[i] != ".."@,
    decreases cs.len(),
{
    if cs.len() > 0 {
        lemma_collapse_clean(cs.drop_last());
        let r = collapse(cs.drop_last());
        if cs.last() != ".."@ {
            assert forall|i: int| 0 <= i < collapse(cs).len() implies collapse(cs)[i].len() > 0
                && collapse(cs)[i] != "."@ && collapse(cs)[i] != ".."@ by {
                if i < r.len() {
                    assert(collapse(cs)[i] == r[i]);
                }
            }
        }
    }
}

/// Returns the path of `launcher_config.toml` in the configuration
/// directory `config_dir`.
pub fn config_file(config_dir: &str) -> (r: String)
    ensures
        r@ == path_join(config_dir@, "launcher_config.toml"@),
{
    join(config_dir, "launcher_config.toml")
}

/// Returns the path of `comfyui_config.toml` (the flat map of ComfyUI
/// setting overrides) in the configuration directory `config_dir`.
pub fn comfyui_config_file(config_dir: &str) -> (r: String)
    ensures
        r@ == path_join(config_dir@, "comfyui_config.toml"@),
{
    join(config_dir, "comfyui_config.toml")
}

/// The standard directory layout of a ComfyUI installation rooted at
/// `root`.
pub struct ComfyDirs {
    /// Root directory of the ComfyUI installation.
    pub root: String,
}

impl ComfyDirs {
    /// Constructs a `ComfyDirs` rooted at the given path.
    pub fn new(root: &str) -> (d: Self)
        ensures
            d.root@ == root@,
    {
        ComfyDirs { root: root.to_string() }
    }

    /// Returns the `custom_nodes` subdirectory.
    pub fn custom_nodes(&self) -> (r: String)
        ensures
            r@ == path_join(self.root@, "custom_nodes"@),
    {
        join(self.root.as_str(), "custom_nodes")
    }

    /// Returns the `input` subdirectory.
    pub fn input(&self) -> (r: String)
        ensures
            r@ == path_join(self.root@, "input"@),
    {
        join(self.root.as_str(), "input")
    }

    /// Returns the `output` subdirectory.
    pub fn output(&self) -> (r: String)
        ensures
            r@ == path_join(self.root@, "output"@),
    {
        join(self.root.as_str(), "output")
    }

    /// Returns the path to `main.py`; an installation is valid when this
    /// file exists.
    pub fn main_py(&self) -> (r: String)
        ensures
            r@ == path_join(self.root@, "main.py"@),
    {
        join(self.root.as_str(), "main.py")
    }
}

} // verus!
