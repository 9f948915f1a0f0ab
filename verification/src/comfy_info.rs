//! What the launcher reads out of a ComfyUI installation's files.
//!
//! Reading the files is the shell's part; this module parses their text:
//! the version declared in `comfyui_version.py`, and the model folders
//! listed in `extra_model_paths.yaml` (a small YAML subset: top-level
//! groups, `key: value` pairs below them, and `|` block scalars).
//! Absolute paths are the ones that start with `/`.

use crate::paths::{join, path_join};
use crate::strs::{
    chars_eq, chars_of, copy_chars, find_char, first_index, slice_chars, starts,
    starts_with_chars, string_of, text_lines, lines_of, trim, trim_chars, trim_start, lead_ws_end,
};
use vstd::prelude::*;

verus! {

/// Number of leading `c` characters of `s`.
pub open spec fn lead_run(s: Seq<char>, c: char) -> nat
    decreases s.len(),
{
    if s.len() > 0 && s[0] == c {
        1 + lead_run(s.drop_first(), c)
    } else {
        0
    }
}

/// Whether `c` is a quote character.
pub open spec fn is_quote(c: char) -> bool {
    c == '"' || c == '\''
}

/// Leading quote characters removed.
pub open spec fn trim_quotes_start(s: Seq<char>) -> Seq<char>
    decreases s.len(),
{
    if s.len() > 0 && is_quote(s[0]) {
        trim_quotes_start(s.drop_first())
    } else {
        s
    }
}

/// Trailing quote characters removed.
pub open spec fn trim_quotes_end(s: Seq<char>) -> Seq<char>
    decreases s.len(),
{
    if s.len() > 0 && is_quote(s.last()) {
        trim_quotes_end(s.drop_last())
    } else {
        s
    }
}

/// The version a line of `comfyui_version.py` declares: after
/// `__version__`, the `=` signs and the surrounding spaces and quotes are
/// dropped; an empty result declares nothing.
pub open spec fn version_of_line(line: Seq<char>) -> Option<Seq<char>> {
    let l = trim(line);
    if starts(l, "__version__"@) {
        let r0 = trim_start(l.skip(11));
        let rhs = trim(r0.skip(lead_run(r0, '=') as int));
        let t = trim_quotes_end(trim_quotes_start(rhs));
        if t.len() > 0 {
            Some(t)
        } else {
            None
        }
    } else {
        None
    }
}

/// The version declared by the first line of `lines` that declares one.
pub open spec fn version_in(lines: Seq<Seq<char>>) -> Option<Seq<char>>
    decreases lines.len(),
{
    if lines.len() == 0 {
        None
    } else {
        match version_of_line(lines[0]) {
            Some(v) => Some(v),
            None => version_in(lines.drop_first()),
        }
    }
}

fn lead_count(v: &Vec<char>, c: char) -> (n: usize)
    ensures
        n == lead_run(v@, c),
        n <= v@.len(),
{
    let mut i: usize = 0;
    assert(v@.skip(0) =~= v@);
    while i < v.len() && v[i] == c
        invariant
            i <= v@.len(),
            lead_run(v@, c) == i + lead_run(v@.skip(i as int), c),
        decreases v@.len() - i,
    {
        assert(v@.skip(i as int).drop_first() =~= v@.skip(i + 1));
        i = i + 1;
    }
    i
}

fn trim_quote_chars(v: &Vec<char>) -> (r: Vec<char>)
    ensures
        r@ == trim_quotes_end(trim_quotes_start(v@)),
{
    let mut i: usize = 0;
    assert(v@.skip(0) =~= v@);
    while i < v.len() && (v[i] == '"' || v[i] == '\'')
        invariant
            i <= v@.len(),
            trim_quotes_start(v@) == trim_quotes_start(v@.skip(i as int)),
        decreases v@.len() - i,
    {
        assert(v@.skip(i as int).drop_first() =~= v@.skip(i + 1));
        i = i + 1;
    }
    let ghost t = v@.skip(i as int);
    let mut j: usize = v.len();
    assert(t.take(t.len() as int) =~= t);
    while j > i && (v[j - 1] == '"' || v[j - 1] == '\'')
        invariant
            i <= j <= v@.len(),
            t == v@.skip(i as int),
            trim_quotes_end(t) == trim_quotes_end(v@.subrange(i as int, j as int)),
        decreases j,
    {
        assert(v@.subrange(i as int, j as int).drop_last() =~= v@.subrange(i as int, j - 1));
        j = j - 1;
    }
    assert(t =~= v@.subrange(i as int, v@.len() as int));
    slice_chars(v, i, j)
}

fn version_line(line: &Vec<char>) -> (r: Option<Vec<char>>)
    ensures
        match r {
            Some(v) => version_of_line(line@) == Some(v@),
            None => version_of_line(line@) is None,
        },
{
    let l = trim_chars(line);
    let key = chars_of("__version__");
    proof {
        reveal_strlit("__version__");
    }
    if !starts_with_chars(&l, &key) {
        return None;
    }
    let rest = slice_chars(&l, 11, l.len());
    assert(rest@ =~= l@.skip(11));
    let k = lead_ws_end(&rest);
    let r0 = slice_chars(&rest, k, rest.len());
    assert(r0@ =~= rest@.skip(k as int));
    let e = lead_count(&r0, '=');
    let r1 = slice_chars(&r0, e, r0.len());
    assert(r1@ =~= r0@.skip(e as int));
    let rhs = trim_chars(&r1);
    let t = trim_quote_chars(&rhs);
    if t.len() > 0 {
        Some(t)
    } else {
        None
    }
}

/// The version `comfyui_version.py` (text `text`) declares, if any.
pub fn comfyui_version_from(text: &str) -> (r: Option<String>)
    ensures
        match r {
            Some(v) => version_in(lines_of(text@)) == Some(v@),
            None => version_in(lines_of(text@)) is None,
        },
{
    let lines = text_lines(text);
    let ghost ls = lines@.map_values(|x: Vec<char>| x@);
    let mut i: usize = 0;
    assert(ls.skip(0) =~= ls);
    while i < lines.len()
        invariant
            i <= lines@.len() == ls.len(),
            ls == lines@.map_values(|x: Vec<char>| x@),
            ls == lines_of(text@),
            version_in(ls) == version_in(ls.skip(i as int)),
        decreases lines@.len() - i,
    {
        assert(ls.skip(i as int)[0] == lines@[i as int]@);
        assert(ls.skip(i as int).drop_first() =~= ls.skip(i + 1));
        match version_line(&lines[i]) {
            Some(v) => {
                return Some(string_of(&v));
            },
            None => {},
        }
        i = i + 1;
    }
    None
}

/// The parser's state: the groups so far, their `(group, key, values)`
/// entries (held group by group, in order), and the key of an open `|`
/// block scalar with its indent.
pub type PathsState = (Seq<Seq<char>>, Seq<(nat, Seq<char>, Seq<Seq<char>>)>, Option<(Seq<char>, nat)>);

/// The line `raw` without its comment (from the first `#` on).
pub open spec fn without_comment(raw: Seq<char>) -> Seq<char> {
    match first_index(raw, '#') {
        Some(i) => raw.take(i),
        None => raw,
    }
}

/// From entry `i` on, the first entry of group `g` with key `k`.
pub open spec fn first_from(es: Seq<(nat, Seq<char>, Seq<Seq<char>>)>, g: nat, k: Seq<char>, i: int) -> Option<int>
    decreases es.len() - i,
{
    if i < 0 || i >= es.len() {
        None
    } else if es[i].0 == g && es[i].1 == k {
        Some(i)
    } else {
        first_from(es, g, k, i + 1)
    }
}

/// One line of `extra_model_paths.yaml`. Blank lines (after dropping the
/// comment) change nothing. A line indented deeper than an open block
/// scalar's key adds its text to the first entry of the current group with
/// that key; any other line closes the block. At column 0, `name:` starts
/// a group (other lines there are ignored). Deeper, inside a group,
/// `key: value` adds an entry with that value, and `key: |` an empty entry
/// that opens a block scalar; lines without a `:` are ignored.
pub open spec fn paths_step(st: PathsState, raw: Seq<char>) -> PathsState {
    let c = without_comment(raw);
    let indent = lead_run(c, ' ');
    let s = trim(c);
    let groups = st.0;
    let es = st.1;
    if s.len() == 0 {
        st
    } else if st.2 matches Some((k, ki)) && indent > ki {
        if groups.len() > 0 {
            match first_from(es, (groups.len() - 1) as nat, st.2.unwrap().0, 0) {
                Some(i) => (groups, es.update(i, (es[i].0, es[i].1, es[i].2.push(s))), st.2),
                None => st,
            }
        } else {
            st
        }
    } else if indent == 0 {
        if s.last() == ':' && trim(s.drop_last()).len() > 0 {
            (groups.push(trim(s.drop_last())), es, None)
        } else {
            (groups, es, None)
        }
    } else if groups.len() == 0 {
        (groups, es, None)
    } else {
        match first_index(s, ':') {
            None => (groups, es, None),
            Some(i) => {
                let k = trim(s.take(i));
                let v = trim(s.skip(i + 1));
                let g = (groups.len() - 1) as nat;
                if v == seq!['|'] {
                    (groups, es.push((g, k, Seq::empty())), Some((k, indent)))
                } else {
                    (groups, es.push((g, k, seq![v])), None)
                }
            },
        }
    }
}

/// The state after the lines `ls`.
pub open spec fn paths_run(ls: Seq<Seq<char>>) -> PathsState
    decreases ls.len(),
{
    if ls.len() == 0 {
        (Seq::empty(), Seq::empty(), None)
    } else {
        paths_step(paths_run(ls.drop_last()), ls.last())
    }
}

/// Whether `p` is an absolute path.
pub open spec fn is_abs(p: Seq<char>) -> bool {
    p.len() > 0 && p[0] == '/'
}

/// The base path of group `g`: the first value of its first `base_path`
/// entry.
pub open spec fn base_of(es: Seq<(nat, Seq<char>, Seq<Seq<char>>)>, g: nat) -> Option<Seq<char>> {
    match first_from(es, g, "base_path"@, 0) {
        Some(i) => if es[i].2.len() > 0 {
            Some(es[i].2[0])
        } else {
            None
        },
        None => None,
    }
}

/// Where the path `v` points: itself when absolute, else below the group's
/// base path (itself below `root` when relative), else below `root`.
pub open spec fn resolve_path(v: Seq<char>, base: Option<Seq<char>>, root: Seq<char>) -> Seq<char> {
    if is_abs(v) {
        v
    } else {
        match base {
            Some(b) => path_join(
                if is_abs(b) {
                    b
                } else {
                    path_join(root, b)
                },
                v,
            ),
            None => path_join(root, v),
        }
    }
}

/// The `(group, category, path)` triples of one entry's non-empty values.
pub open spec fn values_out(
    group: Seq<char>,
    key: Seq<char>,
    vs: Seq<Seq<char>>,
    base: Option<Seq<char>>,
    root: Seq<char>,
) -> Seq<(Seq<char>, Seq<char>, Seq<char>)>
    decreases vs.len(),
{
    if vs.len() == 0 {
        Seq::empty()
    } else {
        let p = values_out(group, key, vs.drop_last(), base, root);
        if vs.last().len() == 0 {
            p
        } else {
            p.push((group, key, resolve_path(vs.last(), base, root)))
        }
    }
}

/// The triples of the entries `es` (of all entries `all`), skipping the
/// `base_path` and `is_default` keys.
pub open spec fn entries_out(
    groups: Seq<Seq<char>>,
    all: Seq<(nat, Seq<char>, Seq<Seq<char>>)>,
    es: Seq<(nat, Seq<char>, Seq<Seq<char>>)>,
    root: Seq<char>,
) -> Seq<(Seq<char>, Seq<char>, Seq<char>)>
    decreases es.len(),
{
    if es.len() == 0 {
        Seq::empty()
    } else {
        let e = es.last();
        let p = entries_out(groups, all, es.drop_last(), root);
        if e.1 == "base_path"@ || e.1 == "is_default"@ {
            p
        } else {
            p + values_out(groups[e.0 as int], e.1, e.2, base_of(all, e.0), root)
        }
    }
}

/// The model folders `extra_model_paths.yaml` (lines `ls`) lists, for a
/// ComfyUI installation at `root`: one `(group, category, path)` triple
/// per listed path, group by group and entry by entry.
pub open spec fn extra_paths(ls: Seq<Seq<char>>, root: Seq<char>) -> Seq<(Seq<char>, Seq<char>, Seq<char>)> {
    let st = paths_run(ls);
    entries_out(st.0, st.1, st.1, root)
}

/// Plain views of a list of strings.
pub open spec fn texts(v: Seq<Vec<char>>) -> Seq<Seq<char>> {
    v.map_values(|x: Vec<char>| x@)
}

/// Plain views of the parser's entries.
pub open spec fn entries_view(v: Seq<(usize, Vec<char>, Vec<Vec<char>>)>) -> Seq<
    (nat, Seq<char>, Seq<Seq<char>>),
> {
    v.map_values(|e: (usize, Vec<char>, Vec<Vec<char>>)| (e.0 as nat, e.1@, texts(e.2@)))
}

/// Plain view of the open block scalar.
pub open spec fn pending_view(p: Option<(Vec<char>, usize)>) -> Option<(Seq<char>, nat)> {
    match p {
        Some((k, i)) => Some((k@, i as nat)),
        None => None,
    }
}

fn find_entry(es: &Vec<(usize, Vec<char>, Vec<Vec<char>>)>, g: usize, k: &Vec<char>) -> (r: Option<usize>)
    ensures
        match r {
            Some(i) => first_from(entries_view(es@), g as nat, k@, 0) == Some(i as int) && i < es@.len(),
            None => first_from(entries_view(es@), g as nat, k@, 0) is None,
        },
{
    let ghost ev = entries_view(es@);
    let mut i: usize = 0;
    while i < es.len()
        invariant
            i <= es@.len() == ev.len(),
            ev == entries_view(es@),
            first_from(ev, g as nat, k@, 0) == first_from(ev, g as nat, k@, i as int),
        decreases es@.len() - i,
    {
        assert(ev[i as int] == (es@[i as int].0 as nat, es@[i as int].1@, texts(es@[i as int].2@)));
        if es[i].0 == g && chars_eq(&es[i].1, k) {
            return Some(i);
        }
        i = i + 1;
    }
    None
}

fn paths_step_exec(
    groups: &mut Vec<Vec<char>>,
    es: &mut Vec<(usize, Vec<char>, Vec<Vec<char>>)>,
    pending: &mut Option<(Vec<char>, usize)>,
    raw: &Vec<char>,
)
    ensures
        (texts(final(groups)@), entries_view(final(es)@), pending_view(*final(pending))) == paths_step(
            (texts(old(groups)@), entries_view(old(es)@), pending_view(*old(pending))),
            raw@,
        ),
{
    let c = match find_char(raw, '#') {
        Some(i) => slice_chars(raw, 0, i),
        None => copy_chars(raw),
    };
    assert(c@ =~= without_comment(raw@));
    let indent = lead_count(&c, ' ');
    let s = trim_chars(&c);
    if s.len() == 0 {
        return;
    }
    let open = match pending {
        Some((k, ki)) => indent > *ki,
        None => false,
    };
    if open {
        if groups.len() > 0 {
            let key = match pending {
                Some((k, _)) => copy_chars(k),
                None => Vec::new(),
            };
            match find_entry(es, groups.len() - 1, &key) {
                Some(i) => {
                    let ghost before = entries_view(es@);
                    let mut cell: (usize, Vec<char>, Vec<Vec<char>>) = (0, Vec::new(), Vec::new());
                    std::mem::swap(&mut cell, &mut es[i]);
                    let ghost vals = texts(cell.2@);
                    cell.2.push(s);
                    assert(texts(cell.2@) =~= vals.push(s@));
                    es.set(i, cell);
                    assert(entries_view(es@) =~= before.update(
                        i as int,
                        (before[i as int].0, before[i as int].1, before[i as int].2.push(s@)),
                    ));
                },
                None => {},
            }
        }
        return;
    }
    *pending = None;
    if indent == 0 {
        if s[s.len() - 1] == ':' {
            let name = trim_chars(&slice_chars(&s, 0, s.len() - 1));
            assert(s@.subrange(0, s@.len() - 1) =~= s@.drop_last());
            if name.len() > 0 {
                let ghost g0 = texts(groups@);
                groups.push(name);
                assert(texts(groups@) =~= g0.push(trim(s@.drop_last())));
            }
        }
        return;
    }
    if groups.len() == 0 {
        return;
    }
    match find_char(&s, ':') {
        None => {},
        Some(i) => {
            let k = trim_chars(&slice_chars(&s, 0, i));
            let v = trim_chars(&slice_chars(&s, i + 1, s.len()));
            assert(s@.subrange(0, i as int) =~= s@.take(i as int));
            assert(s@.subrange(i + 1, s@.len() as int) =~= s@.skip(i + 1));
            let g = groups.len() - 1;
            let ghost e0 = entries_view(es@);
            let is_block = v.len() == 1 && v[0] == '|';
            assert(is_block == (v@ == seq!['|'])) by {
                if v@ == seq!['|'] {
                    assert(v@[0] == '|');
                }
                if is_block {
                    assert(v@ =~= seq!['|']);
                }
            }
            if is_block {
                let kk = copy_chars(&k);
                es.push((g, k, Vec::new()));
                assert(texts(Seq::<Vec<char>>::empty()) =~= Seq::<Seq<char>>::empty());
                assert(entries_view(es@) =~= e0.push((g as nat, kk@, Seq::<Seq<char>>::empty())));
                *pending = Some((kk, indent));
            } else {
                let mut vs: Vec<Vec<char>> = Vec::new();
                let ghost vv = v@;
                vs.push(v);
                assert(texts(vs@) =~= seq![vv]);
                es.push((g, k, vs));
                assert(entries_view(es@) =~= e0.push((g as nat, trim(s@.take(i as int)), seq![vv])));
            }
        },
    }
}

/// Every entry belongs to an existing group.
pub open spec fn paths_wf(gs: Seq<Seq<char>>, es: Seq<(nat, Seq<char>, Seq<Seq<char>>)>) -> bool {
    forall|i: int| 0 <= i < es.len() ==> #[trigger] es[i].0 < gs.len()
}

proof fn lemma_first_from_range(es: Seq<(nat, Seq<char>, Seq<Seq<char>>)>, g: nat, k: Seq<char>, i: int)
    ensures
        first_from(es, g, k, i) matches Some(x) ==> i <= x < es.len() && 0 <= x,
    decreases es.len() - i,
{
    if 0 <= i < es.len() && !(es[i].0 == g && es[i].1 == k) {
        lemma_first_from_range(es, g, k, i + 1);
    }
}

proof fn lemma_step_wf(st: PathsState, raw: Seq<char>)
    requires
        paths_wf(st.0, st.1),
    ensures
        paths_wf(paths_step(st, raw).0, paths_step(st, raw).1),
{
    let n = paths_step(st, raw);
    let c = without_comment(raw);
    let indent = lead_run(c, ' ');
    let s = trim(c);
    if s.len() == 0 {
    } else if st.2 matches Some((k, ki)) && indent > ki {
        if st.0.len() > 0 {
            match first_from(st.1, (st.0.len() - 1) as nat, st.2.unwrap().0, 0) {
                Some(x) => {
                    lemma_first_from_range(st.1, (st.0.len() - 1) as nat, st.2.unwrap().0, 0);
                    assert(0 <= x < st.1.len());
                    assert forall|i: int| 0 <= i < n.1.len() implies #[trigger] n.1[i].0 < n.0.len() by {
                        assert(st.1[i].0 < st.0.len());
                    }
                },
                None => {},
            }
        }
    } else if indent == 0 {
        assert forall|i: int| 0 <= i < n.1.len() implies #[trigger] n.1[i].0 < n.0.len() by {
            assert(st.1[i].0 < st.0.len());
        }
    } else if st.0.len() == 0 {
    } else {
        assert forall|i: int| 0 <= i < n.1.len() implies #[trigger] n.1[i].0 < n.0.len() by {
            if i < st.1.len() {
                assert(st.1[i].0 < st.0.len());
            }
        }
    }
}

/// Plain views of `(group, category, path)` triples.
pub open spec fn triples(v: Seq<(String, String, String)>) -> Seq<(Seq<char>, Seq<char>, Seq<char>)> {
    v.map_values(|t: (String, String, String)| (t.0@, t.1@, t.2@))
}

fn base_exec(es: &Vec<(usize, Vec<char>, Vec<Vec<char>>)>, g: usize) -> (r: Option<Vec<char>>)
    ensures
        match r {
            Some(b) => base_of(entries_view(es@), g as nat) == Some(b@),
            None => base_of(entries_view(es@), g as nat) is None,
        },
{
    let key = chars_of("base_path");
    match find_entry(es, g, &key) {
        Some(i) => {
            assert(entries_view(es@)[i as int].2 == texts(es@[i as int].2@));
            if es[i].2.len() > 0 {
                Some(copy_chars(&es[i].2[0]))
            } else {
                None
            }
        },
        None => None,
    }
}

fn resolve_exec(v: &Vec<char>, base: &Option<Vec<char>>, root: &str) -> (r: String)
    ensures
        r@ == resolve_path(v@, match base {
            Some(b) => Some(b@),
            None => None,
        }, root@),
{
    if v.len() > 0 && v[0] == '/' {
        return string_of(v);
    }
    let vs = string_of(v);
    match base {
        Some(b) => {
            let bs = string_of(b);
            let abs_base = if b.len() > 0 && b[0] == '/' {
                bs
            } else {
                join(root, bs.as_str())
            };
            join(abs_base.as_str(), vs.as_str())
        },
        None => join(root, vs.as_str()),
    }
}

/// The model folders listed by `extra_model_paths.yaml` (text `text`) for
/// a ComfyUI installation at `root` (see [`extra_paths`]).
pub fn extra_model_paths_from(text: &str, root: &str) -> (r: Vec<(String, String, String)>)
    ensures
        triples(r@) == extra_paths(lines_of(text@), root@),
{
    let lines = text_lines(text);
    let ghost ls = texts(lines@);
    let mut groups: Vec<Vec<char>> = Vec::new();
    let mut es: Vec<(usize, Vec<char>, Vec<Vec<char>>)> = Vec::new();
    let mut pending: Option<(Vec<char>, usize)> = None;
    let mut i: usize = 0;
    assert(ls.take(0) =~= Seq::<Seq<char>>::empty());
    assert(texts(groups@) =~= Seq::<Seq<char>>::empty());
    assert(entries_view(es@) =~= Seq::<(nat, Seq<char>, Seq<Seq<char>>)>::empty());
    while i < lines.len()
        invariant
            i <= lines@.len() == ls.len(),
            ls == texts(lines@),
            ls == lines_of(text@),
            (texts(groups@), entries_view(es@), pending_view(pending)) == paths_run(
                ls.take(i as int),
            ),
            paths_wf(paths_run(ls.take(i as int)).0, paths_run(ls.take(i as int)).1),
        decreases lines@.len() - i,
    {
        proof {
            assert(ls.take(i + 1).drop_last() =~= ls.take(i as int));
            assert(ls.take(i + 1).last() == lines@[i as int]@);
            lemma_step_wf(paths_run(ls.take(i as int)), lines@[i as int]@);
        }
        paths_step_exec(&mut groups, &mut es, &mut pending, &lines[i]);
        i = i + 1;
    }
    assert(ls.take(lines@.len() as int) =~= ls);
    let ghost gv = texts(groups@);
    let ghost ev = entries_view(es@);
    assert(paths_wf(gv, ev));
    let bp = chars_of("base_path");
    let isd = chars_of("is_default");
    let mut out: Vec<(String, String, String)> = Vec::new();
    let mut j: usize = 0;
    assert(ev.take(0) =~= Seq::<(nat, Seq<char>, Seq<Seq<char>>)>::empty());
    assert(triples(out@) =~= Seq::<(Seq<char>, Seq<char>, Seq<char>)>::empty());
    while j < es.len()
        invariant
            j <= es@.len() == ev.len(),
            gv == texts(groups@),
            ev == entries_view(es@),
            bp@ == "base_path"@,
            isd@ == "is_default"@,
            paths_wf(gv, ev),
            triples(out@) == entries_out(gv, ev, ev.take(j as int), root@),
        decreases es@.len() - j,
    {
        let ghost e = ev[j as int];
        assert(e == (es@[j as int].0 as nat, es@[j as int].1@, texts(es@[j as int].2@)));
        assert(ev.take(j + 1).drop_last() =~= ev.take(j as int));
        assert(ev.take(j + 1).last() == e);
        assert(e.0 < gv.len());
        let skip = chars_eq(&es[j].1, &bp) || chars_eq(&es[j].1, &isd);
        if !skip {
            let g = es[j].0;
            let base = base_exec(&es, g);
            let gname = string_of(&groups[g]);
            let ghost before = triples(out@);
            let vs = &es[j].2;
            let ghost vv = texts(vs@);
            let mut m: usize = 0;
            assert(vv.take(0) =~= Seq::<Seq<char>>::empty());
            while m < vs.len()
                invariant
                    m <= vs@.len() == vv.len(),
                    vv == texts(vs@),
                    gname@ == gv[g as int],
                    vv == e.2,
                    e.0 == g,
                    triples(out@) == before + values_out(
                        gv[g as int],
                        e.1,
                        vv.take(m as int),
                        base_of(ev, g as nat),
                        root@,
                    ),
                    match base {
                        Some(b) => base_of(ev, g as nat) == Some(b@),
                        None => base_of(ev, g as nat) is None,
                    },
                    es@[j as int].1@ == e.1,
                    j < es@.len(),
                    vs == es@[j as int].2,
                decreases vs@.len() - m,
            {
                assert(vv.take(m + 1).drop_last() =~= vv.take(m as int));
                assert(vv.take(m + 1).last() == vs@[m as int]@);
                if vs[m].len() > 0 {
                    let p = resolve_exec(&vs[m], &base, root);
                    let ghost prev = triples(out@);
                    out.push((gname.clone(), string_of(&es[j].1), p));
                    assert(triples(out@) =~= prev.push((gv[g as int], e.1, resolve_path(
                        vv[m as int],
                        base_of(ev, g as nat),
                        root@,
                    ))));
                }
                m = m + 1;
            }
            assert(vv.take(vv.len() as int) =~= vv);
        }
        j = j + 1;
    }
    assert(ev.take(ev.len() as int) =~= ev);
    out
}

} // verus!
