//! Environment variables for spawned child processes.
//!
//! Translates the launcher's `[network]` settings into the variables that
//! pip, git and Huggingface tooling honour. An environment is an ordered
//! list of `(name, value)` pairs in which no name occurs twice.

use crate::config::Network;
use crate::strs::{
    chars_of, dec, dec_chars, find_char, first_index, join_chars, join_with, split_chars,
    split_on, string_of, trim, trim_chars, lacks, lemma_split_join, lemma_split_on_lacks,
    lemma_trim_idem, lemma_trim_lacks, lemma_join_clean, lemma_first_index_prefix,
};
use vstd::prelude::*;

verus! {

/// An environment: `(name, value)` pairs in insertion order.
pub type EnvList = Vec<(String, String)>;

/// The pairs of an environment, as character sequences.
pub open spec fn env_view(e: Seq<(String, String)>) -> Seq<(Seq<char>, Seq<char>)> {
    e.map_values(|p: (String, String)| (p.0@, p.1@))
}

/// Position of the pair named `k`, if any.
pub open spec fn env_pos(e: Seq<(Seq<char>, Seq<char>)>, k: Seq<char>) -> Option<int>
    decreases e.len(),
{
    if e.len() == 0 {
        None
    } else {
        match env_pos(e.drop_last(), k) {
            Some(p) => Some(p),
            None => if e.last().0 == k {
                Some(e.len() - 1)
            } else {
                None
            },
        }
    }
}

/// `HashMap::insert`: replaces the value of an existing name, otherwise
/// appends the pair.
pub open spec fn env_insert(e: Seq<(Seq<char>, Seq<char>)>, k: Seq<char>, v: Seq<char>) -> Seq<
    (Seq<char>, Seq<char>),
> {
    match env_pos(e, k) {
        Some(p) => e.update(p, (k, v)),
        None => e.push((k, v)),
    }
}

/// Value bound to `k`, if any (`HashMap::get`).
pub open spec fn env_get(e: Seq<(Seq<char>, Seq<char>)>, k: Seq<char>) -> Option<Seq<char>> {
    match env_pos(e, k) {
        Some(p) => Some(e[p].1),
        None => None,
    }
}

proof fn lemma_env_pos_facts(e: Seq<(Seq<char>, Seq<char>)>, k: Seq<char>)
    ensures
        env_pos(e, k) matches Some(p) ==> 0 <= p < e.len() && e[p].0 == k,
        env_pos(e, k) is None ==> forall|i: int| 0 <= i < e.len() ==> e[i].0 != k,
    decreases e.len(),
{
    if e.len() > 0 {
        lemma_env_pos_facts(e.drop_last(), k);
        if env_pos(e.drop_last(), k) is None {
            assert forall|i: int| 0 <= i < e.len() - 1 implies e[i].0 != k by {
                assert(e.drop_last()[i] == e[i]);
            };
        }
    }
}

/// Index of the pair named `k`.
pub fn env_find(e: &EnvList, k: &String) -> (r: Option<usize>)
    ensures
        r matches Some(i) ==> env_pos(env_view(e@), k@) == Some(i as int) && i < e@.len(),
        r is None ==> env_pos(env_view(e@), k@) is None,
{
    let ghost ev = env_view(e@);
    let mut i: usize = 0;
    assert(ev.take(0) =~= Seq::<(Seq<char>, Seq<char>)>::empty());
    while i < e.len()
        invariant
            i <= e.len(),
            ev == env_view(e@),
            env_pos(ev.take(i as int), k@) is None,
        decreases e.len() - i,
    {
        assert(ev.take(i + 1).drop_last() =~= ev.take(i as int));
        if e[i].0 == *k {
            proof {
                assert(ev.take(i + 1).last().0 == k@);
                lemma_env_pos_prefix(ev, i + 1, k@);
            }
            return Some(i);
        }
        i = i + 1;
    }
    assert(ev.take(e.len() as int) =~= ev);
    None
}

proof fn lemma_env_pos_prefix(e: Seq<(Seq<char>, Seq<char>)>, j: int, k: Seq<char>)
    requires
        0 <= j <= e.len(),
        env_pos(e.take(j), k) is Some,
    ensures
        env_pos(e, k) == env_pos(e.take(j), k),
    decreases e.len() - j,
{
    if j < e.len() {
        assert(e.take(j + 1).drop_last() =~= e.take(j));
        lemma_env_pos_prefix(e, j + 1, k);
    } else {
        assert(e.take(j) =~= e);
    }
}

/// `HashMap::insert` on an environment list.
pub fn env_set(e: &mut EnvList, k: String, v: String)
    ensures
        env_view(final(e)@) == env_insert(env_view(old(e)@), k@, v@),
{
    let ghost kv = k@;
    let ghost vv = v@;
    match env_find(e, &k) {
        Some(i) => {
            e.set(i, (k, v));
            assert(env_view(e@) =~= env_view(old(e)@).update(i as int, (kv, vv)));
        },
        None => {
            e.push((k, v));
            assert(env_view(e@) =~= env_view(old(e)@).push((kv, vv)));
        },
    }
}

/// `HashMap::contains_key` on an environment list.
pub fn env_has(e: &EnvList, k: &String) -> (r: bool)
    ensures
        r == env_pos(env_view(e@), k@) is Some,
{
    match env_find(e, k) {
        Some(_) => true,
        None => false,
    }
}

/// Pieces of a `;`-separated list, trimmed, with empty pieces dropped.
pub open spec fn keep_items(pieces: Seq<Seq<char>>) -> Seq<Seq<char>>
    decreases pieces.len(),
{
    if pieces.len() == 0 {
        Seq::empty()
    } else {
        let rest = keep_items(pieces.drop_last());
        if trim(pieces.last()).len() > 0 {
            rest.push(trim(pieces.last()))
        } else {
            rest
        }
    }
}

/// Items of a `;`-separated list: split at `;`, trimmed, empties dropped.
pub open spec fn list_items(s: Seq<char>) -> Seq<Seq<char>> {
    keep_items(split_on(s, ';'))
}

/// Splits a `;`-separated string into trimmed non-empty items.
pub fn split_list(s: &str) -> (r: Vec<Vec<char>>)
    ensures
        r@.map_values(|x: Vec<char>| x@) == list_items(s@),
{
    let v = chars_of(s);
    let pieces = split_chars(&v, ';');
    let ghost ps = pieces@.map_values(|x: Vec<char>| x@);
    let mut out: Vec<Vec<char>> = Vec::new();
    let mut i: usize = 0;
    assert(ps.take(0) =~= Seq::<Seq<char>>::empty());
    while i < pieces.len()
        invariant
            i <= pieces.len(),
            ps == pieces@.map_values(|x: Vec<char>| x@),
            ps == split_on(v@, ';'),
            out@.map_values(|x: Vec<char>| x@) == keep_items(ps.take(i as int)),
        decreases pieces.len() - i,
    {
        proof {
            assert(ps.take(i + 1).drop_last() =~= ps.take(i as int));
            assert(ps.take(i + 1).last() == pieces@[i as int]@);
        }
        let t = trim_chars(&pieces[i]);
        if t.len() > 0 {
            let ghost before = out@.map_values(|x: Vec<char>| x@);
            out.push(t);
            assert(out@.map_values(|x: Vec<char>| x@) =~= before.push(t@));
        }
        i = i + 1;
    }
    assert(ps.take(pieces.len() as int) =~= ps);
    out
}

/// The canonical `a;b;c` form of a `;`-separated list.
pub open spec fn normalized_list(s: Seq<char>) -> Seq<char> {
    join_with(list_items(s), seq![';'])
}

/// Returns the canonical wire form of a semicolon-separated list.
///
/// Each item is trimmed, empty items are dropped, and the remainder is
/// rejoined with a single `;` and no surrounding spaces.
pub fn normalize_semicolon_list(s: &str) -> (r: String)
    ensures
        r@ == normalized_list(s@),
{
    let items = split_list(s);
    let mut sep: Vec<char> = Vec::new();
    sep.push(';');
    assert(sep@ =~= seq![';']);
    let j = join_chars(&items, &sep);
    string_of(&j)
}

/// The items kept from pieces without `;` are non-empty, trimmed and
/// without `;`.
proof fn lemma_keep_items_clean(ps: Seq<Seq<char>>)
    requires
        forall|i: int| 0 <= i < ps.len() ==> lacks(#[trigger] ps[i], ';'),
    ensures
        forall|i: int|
            0 <= i < keep_items(ps).len() ==> #[trigger] keep_items(ps)[i].len() > 0 && trim(
                keep_items(ps)[i],
            ) == keep_items(ps)[i] && lacks(keep_items(ps)[i], ';'),
    decreases ps.len(),
{
    if ps.len() > 0 {
        let init = ps.drop_last();
        assert forall|i: int| 0 <= i < init.len() implies lacks(#[trigger] init[i], ';') by {
            assert(init[i] == ps[i]);
        }
        lemma_keep_items_clean(init);
        let t = trim(ps.last());
        lemma_trim_idem(ps.last());
        assert(lacks(ps[ps.len() - 1], ';'));
        lemma_trim_lacks(ps.last(), ';');
        let r = keep_items(init);
        assert forall|i: int| 0 <= i < keep_items(ps).len() implies #[trigger] keep_items(ps)[i].len()
            > 0 && trim(keep_items(ps)[i]) == keep_items(ps)[i] && lacks(keep_items(ps)[i], ';') by {
            if i < r.len() {
                assert(keep_items(ps)[i] == r[i]);
            }
        }
    }
}

/// Items that are non-empty and trimmed are all kept as they are.
proof fn lemma_keep_items_fixed(ps: Seq<Seq<char>>)
    requires
        forall|i: int| 0 <= i < ps.len() ==> #[trigger] ps[i].len() > 0 && trim(ps[i]) == ps[i],
    ensures
        keep_items(ps) == ps,
    decreases ps.len(),
{
    if ps.len() > 0 {
        let init = ps.drop_last();
        assert forall|i: int| 0 <= i < init.len() implies #[trigger] init[i].len() > 0 && trim(
            init[i],
        ) == init[i] by {
            assert(init[i] == ps[i]);
        }
        lemma_keep_items_fixed(init);
        assert(ps[ps.len() - 1].len() > 0 && trim(ps[ps.len() - 1]) == ps[ps.len() - 1]);
        assert(init.push(ps.last()) =~= ps);
    }
}

/// Normalizing a normalized list changes nothing: its items are already
/// trimmed, non-empty and free of `;`, and the list neither starts nor ends
/// with `;` nor holds `;;`.
pub proof fn law_normalize_idempotent(s: Seq<char>)
    ensures
        normalized_list(normalized_list(s)) == normalized_list(s),
        normalized_list(s).len() > 0 ==> normalized_list(s)[0] != ';' && normalized_list(s).last()
            != ';',
        forall|i: int|
            0 <= i < normalized_list(s).len() - 1 ==> !(#[trigger] normalized_list(s)[i] == ';'
                && normalized_list(s)[i + 1] == ';'),
        forall|i: int|
            0 <= i < list_items(s).len() ==> #[trigger] list_items(s)[i].len() > 0 && trim(
                list_items(s)[i],
            ) == list_items(s)[i] && lacks(list_items(s)[i], ';'),
{
    let ps = split_on(s, ';');
    lemma_split_on_lacks(s, ';');
    lemma_keep_items_clean(ps);
    let it = list_items(s);
    let n = normalized_list(s);
    lemma_join_clean(it, ';');
    if it.len() == 0 {
        assert(n =~= Seq::<char>::empty());
        assert(split_on(n, ';') =~= seq![Seq::<char>::empty()]);
        assert(trim(Seq::<char>::empty()) =~= Seq::<char>::empty());
        assert(keep_items(seq![Seq::<char>::empty()]) =~= Seq::<Seq<char>>::empty()) by {
            assert(seq![Seq::<char>::empty()].drop_last() =~= Seq::<Seq<char>>::empty());
            assert(seq![Seq::<char>::empty()].last() == Seq::<char>::empty());
            assert(trim(Seq::<char>::empty()).len() == 0);
            reveal_with_fuel(keep_items, 2);
        }
    } else {
        assert forall|i: int| 0 <= i < it.len() implies lacks(#[trigger] it[i], ';') by {}
        lemma_split_join(it, ';');
        lemma_keep_items_fixed(it);
    }
}

/// The `(mirror, original)` pair of one git mirror rule: `mirror=original`,
/// or a bare mirror URL that substitutes GitHub.
pub open spec fn git_rule(item: Seq<char>) -> (Seq<char>, Seq<char>) {
    match first_index(item, '=') {
        Some(p) => (trim(item.take(p)), trim(item.skip(p + 1))),
        None => (item, "https://github.com/"@),
    }
}

/// A text without `c` has no first `c`.
proof fn lemma_first_index_none(m: Seq<char>, c: char)
    requires
        lacks(m, c),
    ensures
        first_index(m, c) is None,
    decreases m.len(),
{
    if m.len() > 0 {
        assert(lacks(m.drop_last(), c)) by {
            assert forall|i: int| 0 <= i < m.drop_last().len() implies #[trigger] m.drop_last()[i]
                != c by {
                assert(m.drop_last()[i] == m[i]);
            }
        }
        lemma_first_index_none(m.drop_last(), c);
        assert(m[m.len() - 1] != c);
    }
}

/// A git mirror rule `m=o` (no `=` in `m`) reads as mirror `m` for the
/// original `o`, each trimmed: URLs under `o` are fetched from `m`. (The
/// text before the first `=` is the mirror, the rest the original.)
pub proof fn law_git_rule_direction(m: Seq<char>, o: Seq<char>)
    requires
        lacks(m, '='),
    ensures
        git_rule(m + seq!['='] + o) == (trim(m), trim(o)),
{
    let item = m + seq!['='] + o;
    lemma_first_index_none(m, '=');
    let j: int = m.len() as int + 1;
    assert(item.take(j) =~= m.push('='));
    assert(m.push('=').drop_last() =~= m);
    assert(first_index(item.take(j), '=') == Some(m.len() as int));
    lemma_first_index_prefix(item, j, '=');
    assert(item.take(m.len() as int) =~= m);
    assert(item.skip(j) =~= o);
}

/// With one git mirror rule `m=o` (already trimmed as a whole, no `;`, no
/// `=` in `m`), the environment holds one rewrite: `GIT_CONFIG_KEY_0` is
/// `url.<m>.insteadOf` and `GIT_CONFIG_VALUE_0` is `o` (each part trimmed),
/// so git fetches `o`'s URLs from the mirror `m`.
pub proof fn law_git_mirror_env(m: Seq<char>, o: Seq<char>)
    requires
        lacks(m, '='),
        lacks(m + seq!['='] + o, ';'),
        trim(m + seq!['='] + o) == m + seq!['='] + o,
    ensures
        git_pairs(m + seq!['='] + o) == seq![
            ("GIT_CONFIG_COUNT"@, dec(1)),
            ("GIT_CONFIG_KEY_"@ + dec(0), "url."@ + trim(m) + ".insteadOf"@),
            ("GIT_CONFIG_VALUE_"@ + dec(0), trim(o)),
        ],
{
    let item = m + seq!['='] + o;
    lemma_split_join(seq![item], ';');
    assert(join_with(seq![item], seq![';']) == item);
    assert(split_on(item, ';') == seq![item]);
    assert(keep_items(seq![item]) =~= seq![item]) by {
        assert(seq![item].drop_last() =~= Seq::<Seq<char>>::empty());
        assert(item.len() > 0);
        reveal_with_fuel(keep_items, 2);
    }
    law_git_rule_direction(m, o);
    let rules = list_items(item).map_values(|it: Seq<char>| git_rule(it));
    assert(rules =~= seq![(trim(m), trim(o))]);
    assert(rules.drop_last() =~= Seq::<(Seq<char>, Seq<char>)>::empty());
    assert(git_rule_pairs(rules) =~= seq![
        ("GIT_CONFIG_KEY_"@ + dec(0), "url."@ + trim(m) + ".insteadOf"@),
        ("GIT_CONFIG_VALUE_"@ + dec(0), trim(o)),
    ]) by {
        reveal_with_fuel(git_rule_pairs, 2);
    }
}

/// Environment pairs for the git `insteadOf` rules, numbered from 0.
pub open spec fn git_rule_pairs(rules: Seq<(Seq<char>, Seq<char>)>) -> Seq<(Seq<char>, Seq<char>)>
    decreases rules.len(),
{
    if rules.len() == 0 {
        Seq::empty()
    } else {
        let i = rules.len() - 1;
        git_rule_pairs(rules.drop_last()) + seq![
            ("GIT_CONFIG_KEY_"@ + dec(i as nat), "url."@ + rules[i].0 + ".insteadOf"@),
            ("GIT_CONFIG_VALUE_"@ + dec(i as nat), rules[i].1),
        ]
    }
}

/// One pair for the first item of a list, or nothing for an empty list.
pub open spec fn first_item_pair(name: Seq<char>, items: Seq<Seq<char>>) -> Seq<
    (Seq<char>, Seq<char>),
> {
    if items.len() == 0 {
        Seq::empty()
    } else {
        seq![(name, items[0])]
    }
}

/// The pairs for one proxy setting, set under both spellings of its name.
pub open spec fn proxy_pairs(upper: Seq<char>, lower: Seq<char>, v: Seq<char>) -> Seq<
    (Seq<char>, Seq<char>),
> {
    if v.len() == 0 {
        Seq::empty()
    } else {
        seq![(upper, v), (lower, v)]
    }
}

/// The environment [`build`] produces for `n`, in insertion order.
pub open spec fn network_env(n: Network) -> Seq<(Seq<char>, Seq<char>)> {
    pypi_pairs(list_items(n.pypi_mirror@)) + first_item_pair("HF_ENDPOINT"@, list_items(n.hf_mirror@))
        + git_pairs(n.git_mirror@) + first_item_pair("GH_ACCEL"@, list_items(n.github_accel@))
        + proxy_pairs("HTTP_PROXY"@, "http_proxy"@, n.http_proxy@) + proxy_pairs(
        "HTTPS_PROXY"@,
        "https_proxy"@,
        n.https_proxy@,
    ) + proxy_pairs("NO_PROXY"@, "no_proxy"@, n.no_proxy@)
}

fn lit(s: &str) -> (r: String)
    ensures
        r@ == s@,
{
    s.to_string()
}

fn push_pair(e: &mut EnvList, k: String, v: String)
    ensures
        env_view(final(e)@) == env_view(old(e)@).push((k@, v@)),
{
    let ghost kv = k@;
    let ghost vv = v@;
    e.push((k, v));
    assert(env_view(e@) =~= env_view(old(e)@).push((kv, vv)));
}

fn copy_chars(v: &Vec<char>) -> (r: Vec<char>)
    ensures
        r@ == v@,
{
    let r = crate::strs::slice_chars(v, 0, v.len());
    assert(r@ =~= v@);
    r
}

fn rule_of(item: &Vec<char>) -> (r: (Vec<char>, Vec<char>))
    ensures
        (r.0@, r.1@) == git_rule(item@),
{
    match find_char(item, '=') {
        Some(p) => {
            let n = item.len();
            assert(p < n);
            let a = crate::strs::slice_chars(item, 0, p);
            let b = crate::strs::slice_chars(item, p + 1, n);
            assert(a@ =~= item@.take(p as int));
            assert(b@ =~= item@.skip(p + 1));
            (trim_chars(&a), trim_chars(&b))
        },
        None => (copy_chars(item), chars_of("https://github.com/")),
    }
}

/// The PyPI part of [`network_env`].
pub open spec fn pypi_pairs(pypi: Seq<Seq<char>>) -> Seq<(Seq<char>, Seq<char>)> {
    if pypi.len() == 0 {
        Seq::empty()
    } else if pypi.len() == 1 {
        seq![("PIP_INDEX_URL"@, pypi[0])]
    } else {
        seq![("PIP_INDEX_URL"@, pypi[0]), ("PIP_EXTRA_INDEX_URL"@, join_with(pypi.skip(1), seq![' ']))]
    }
}

/// The git part of [`network_env`].
pub open spec fn git_pairs(git_mirror: Seq<char>) -> Seq<(Seq<char>, Seq<char>)> {
    let rules = list_items(git_mirror).map_values(|it: Seq<char>| git_rule(it));
    if rules.len() == 0 {
        Seq::empty()
    } else {
        seq![("GIT_CONFIG_COUNT"@, dec(rules.len()))] + git_rule_pairs(rules)
    }
}

fn add_pypi(e: &mut EnvList, mirror: &String)
    ensures
        env_view(final(e)@) == env_view(old(e)@) + pypi_pairs(list_items(mirror@)),
{
    let pypi = split_list(mirror.as_str());
    let ghost pv = pypi@.map_values(|x: Vec<char>| x@);
    if pypi.len() >= 1 {
        assert(pv[0] == pypi@[0]@);
        push_pair(e, lit("PIP_INDEX_URL"), string_of(&pypi[0]));
        if pypi.len() > 1 {
            let mut rest: Vec<Vec<char>> = Vec::new();
            let mut i: usize = 1;
            while i < pypi.len()
                invariant
                    1 <= i <= pypi.len(),
                    pv == pypi@.map_values(|x: Vec<char>| x@),
                    rest@.len() == i - 1,
                    rest@.map_values(|x: Vec<char>| x@) == pv.subrange(1, i as int),
                decreases pypi.len() - i,
            {
                let c = copy_chars(&pypi[i]);
                assert(c@ == pv[i as int]);
                rest.push(c);
                assert(rest@[i - 1]@ == pv[i as int]);
                i = i + 1;
                assert(rest@.map_values(|x: Vec<char>| x@) =~= pv.subrange(1, i as int));
            }
            assert(pv.subrange(1, pypi.len() as int) =~= pv.skip(1));
            let mut sp: Vec<char> = Vec::new();
            sp.push(' ');
            assert(sp@ =~= seq![' ']);
            let joined = join_chars(&rest, &sp);
            push_pair(e, lit("PIP_EXTRA_INDEX_URL"), string_of(&joined));
        }
    }
    assert(env_view(e@) =~= env_view(old(e)@) + pypi_pairs(list_items(mirror@)));
}

fn add_first(e: &mut EnvList, name: &str, list: &String)
    ensures
        env_view(final(e)@) == env_view(old(e)@) + first_item_pair(name@, list_items(list@)),
{
    let items = split_list(list.as_str());
    if items.len() >= 1 {
        assert(items@.map_values(|x: Vec<char>| x@)[0] == items@[0]@);
        push_pair(e, lit(name), string_of(&items[0]));
    }
    assert(env_view(e@) =~= env_view(old(e)@) + first_item_pair(name@, list_items(list@)));
}

fn add_proxy(e: &mut EnvList, upper: &str, lower: &str, v: &String)
    ensures
        env_view(final(e)@) == env_view(old(e)@) + proxy_pairs(upper@, lower@, v@),
{
    if !v.as_str().is_empty() {
        push_pair(e, lit(upper), v.clone());
        push_pair(e, lit(lower), v.clone());
    }
    assert(env_view(e@) =~= env_view(old(e)@) + proxy_pairs(upper@, lower@, v@));
}

fn add_git(e: &mut EnvList, git_mirror: &String)
    ensures
        env_view(final(e)@) == env_view(old(e)@) + git_pairs(git_mirror@),
{
    let items = split_list(git_mirror.as_str());
    let ghost rules_spec = list_items(git_mirror@).map_values(|it: Seq<char>| git_rule(it));
    if items.len() > 0 {
        let count = dec_chars(items.len() as u64);
        push_pair(e, lit("GIT_CONFIG_COUNT"), string_of(&count));
        let ghost base = env_view(e@);
        let mut i: usize = 0;
        assert(rules_spec.take(0) =~= Seq::<(Seq<char>, Seq<char>)>::empty());
        assert(base =~= base + git_rule_pairs(rules_spec.take(0)));
        while i < items.len()
            invariant
                i <= items.len(),
                rules_spec.len() == items.len(),
                rules_spec == list_items(git_mirror@).map_values(|it: Seq<char>| git_rule(it)),
                items@.map_values(|x: Vec<char>| x@) == list_items(git_mirror@),
                env_view(e@) == base + git_rule_pairs(rules_spec.take(i as int)),
            decreases items.len() - i,
        {
            let (m, o) = rule_of(&items[i]);
            proof {
                assert(items@.map_values(|x: Vec<char>| x@)[i as int] == items@[i as int]@);
                assert(rules_spec[i as int] == (m@, o@));
                assert(rules_spec.take(i + 1).drop_last() =~= rules_spec.take(i as int));
            }
            let idx = dec_chars(i as u64);
            let mut key = lit("GIT_CONFIG_KEY_");
            key.append(string_of(&idx).as_str());
            let mut val = lit("url.");
            val.append(string_of(&m).as_str());
            val.append(".insteadOf");
            push_pair(e, key, val);
            let mut vkey = lit("GIT_CONFIG_VALUE_");
            vkey.append(string_of(&idx).as_str());
            push_pair(e, vkey, string_of(&o));
            i = i + 1;
            proof {
                let r = rules_spec.take(i as int);
                assert(r.len() - 1 == i - 1);
                assert(r[i - 1] == rules_spec[i - 1]);
                assert(env_view(e@) =~= base + git_rule_pairs(rules_spec.take(i as int)));
            }
        }
        assert(rules_spec.take(items.len() as int) =~= rules_spec);
    }
    assert(env_view(e@) =~= env_view(old(e)@) + git_pairs(git_mirror@));
}

/// Builds the environment variables to inject into child processes based
/// on the supplied `Network` settings.
///
/// The first PyPI mirror becomes `PIP_INDEX_URL` and the rest
/// `PIP_EXTRA_INDEX_URL` (space-separated); the first Huggingface mirror
/// becomes `HF_ENDPOINT`; each git rule becomes a numbered
/// `GIT_CONFIG_KEY_<n>` / `GIT_CONFIG_VALUE_<n>` pair after
/// `GIT_CONFIG_COUNT`; the first acceleration prefix becomes `GH_ACCEL`;
/// non-empty proxies are exported under both upper- and lower-case names.
pub fn build(n: &Network) -> (e: EnvList)
    ensures
        env_view(e@) == network_env(*n),
{
    let mut e: EnvList = Vec::new();
    add_pypi(&mut e, &n.pypi_mirror);
    add_first(&mut e, "HF_ENDPOINT", &n.hf_mirror);
    add_git(&mut e, &n.git_mirror);
    add_first(&mut e, "GH_ACCEL", &n.github_accel);
    add_proxy(&mut e, "HTTP_PROXY", "http_proxy", &n.http_proxy);
    add_proxy(&mut e, "HTTPS_PROXY", "https_proxy", &n.https_proxy);
    add_proxy(&mut e, "NO_PROXY", "no_proxy", &n.no_proxy);
    assert(env_view(e@) =~= network_env(*n));
    e
}

} // verus!
