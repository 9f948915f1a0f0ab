//! Width-aware text utilities for terminal layout.
//!
//! Terminal cells are not characters: wide ideographs take two cells and
//! combining marks take none. Every width measurement goes through the
//! `unicode_width` crate, reached through the two trusted items below.

use crate::strs::{chars_of, copy_chars, push_char, slice_chars, string_of};
use unicode_width::{UnicodeWidthChar, UnicodeWidthStr};
use vstd::prelude::*;

verus! {

/// What `UnicodeWidthChar::width` returns for a character.
pub uninterp spec fn char_width_of(c: char) -> Option<usize>;

/// What `UnicodeWidthStr::width` returns for a string.
pub uninterp spec fn str_width_of(s: Seq<char>) -> nat;

/// Calls `UnicodeWidthChar::width`. Beyond naming the result, the contract
/// states what the crate's source shows for the low code points: printable
/// ASCII is one cell wide, C0 and C1 control codes have no width, and every
/// character from U+00A0 on has some width.
#[verifier::external_body]
pub(crate) fn char_width(c: char) -> (r: Option<usize>)
    ensures
        r == char_width_of(c),
        (' ' <= c && c < '\u{7f}') ==> r == Some(1usize),
        (c < ' ' || ('\u{7f}' <= c && c < '\u{a0}')) ==> r is None,
        c >= '\u{a0}' ==> r is Some,
{
    UnicodeWidthChar::width(c)
}

/// `k` ASCII spaces.
pub open spec fn spaces(k: nat) -> Seq<char> {
    Seq::new(k, |i: int| ' ')
}

/// Returns the display width of `s` in terminal cells
/// (`UnicodeWidthStr::width`). The empty string is zero cells wide, and
/// each ASCII space appended to `s` adds one cell (the crate's `str_width`
/// folds from the right, and a space followed by nothing counts one cell
/// and leaves the fold as it starts), as long as the total fits in a
/// `usize`.
#[verifier::external_body]
pub fn width(s: &str) -> (r: usize)
    ensures
        r == str_width_of(s@),
        s@.len() == 0 ==> r == 0,
        forall|k: nat| r + k <= usize::MAX ==> #[trigger] str_width_of(s@ + spaces(k)) == r + k,
{
    UnicodeWidthStr::width(s)
}

/// Cells taken by one character when it is laid out alone; control
/// characters count as zero.
pub open spec fn cells(c: char) -> nat {
    match char_width_of(c) {
        Some(w) => w as nat,
        None => 0,
    }
}

/// Length of the longest prefix of `s` whose characters, added one at a
/// time, never exceed `budget` cells.
pub open spec fn fit_len(s: Seq<char>, budget: int) -> nat
    decreases s.len(),
{
    if s.len() == 0 || cells(s[0]) > budget {
        0
    } else {
        1 + fit_len(s.drop_first(), budget - cells(s[0]))
    }
}

/// The result of [`truncate_to_width`].
pub open spec fn truncated(s: Seq<char>, max_cells: nat) -> Seq<char> {
    if str_width_of(s) <= max_cells {
        s
    } else if max_cells == 0 {
        Seq::<char>::empty()
    } else if max_cells == 1 {
        seq!['…']
    } else {
        s.take(fit_len(s, max_cells - 1) as int).push('…')
    }
}

fn char_cells(c: char) -> (w: usize)
    ensures
        w == cells(c),
{
    match char_width(c) {
        Some(w) => w,
        None => 0,
    }
}

/// Truncates `s` so its rendered width does not exceed `max_cells`.
///
/// When truncation happens, appends a single-cell `…`. For `max_cells == 0`
/// returns the empty string; for `max_cells == 1` returns the ellipsis
/// only. Zero-width and combining characters are counted as zero cells.
pub fn truncate_to_width(s: &str, max_cells: usize) -> (r: String)
    ensures
        r@ == truncated(s@, max_cells as nat),
{
    if width(s) <= max_cells {
        return s.to_string();
    }
    if max_cells == 0 {
        return String::new();
    }
    if max_cells == 1 {
        let mut r = String::new();
        push_char(&mut r, '…');
        assert(r@ =~= seq!['…']);
        return r;
    }
    let budget: usize = max_cells - 1;
    let v = chars_of(s);
    let mut out: Vec<char> = Vec::new();
    let mut used: usize = 0;
    let mut i: usize = 0;
    assert(v@.skip(0) =~= v@);
    while i < v.len()
        invariant_except_break
            i <= v.len(),
            used <= budget,
            out@ == v@.take(i as int),
            fit_len(v@, budget as int) == i + fit_len(v@.skip(i as int), budget - used),
        ensures
            out@ == v@.take(fit_len(v@, budget as int) as int),
        decreases v.len() - i,
    {
        let w = char_cells(v[i]);
        if w > budget - used {
            assert(v@.skip(i as int)[0] == v@[i as int]);
            break;
        }
        out.push(v[i]);
        proof {
            assert(v@.skip(i as int)[0] == v@[i as int]);
            assert(v@.skip(i as int).drop_first() =~= v@.skip(i + 1));
        }
        used = used + w;
        i = i + 1;
        assert(out@ =~= v@.take(i as int));
        if i == v.len() {
            assert(v@.skip(i as int).len() == 0);
        }
    }
    out.push('…');
    string_of(&out)
}

/// The result of [`pad_to_width`]: `s` followed by spaces up to
/// `target_cells` cells when it is not wider; otherwise its truncation
/// (see [`truncated`]) followed by spaces up to `target_cells`, or only
/// spaces when even the truncation is too wide (which happens with control
/// characters, which a string's width counts as one cell each).
pub open spec fn padded(s: Seq<char>, target_cells: nat) -> Seq<char> {
    let w = str_width_of(s);
    if w <= target_cells {
        s + spaces((target_cells - w) as nat)
    } else {
        let t = truncated(s, target_cells);
        let tw = str_width_of(t);
        if tw <= target_cells {
            t + spaces((target_cells - tw) as nat)
        } else {
            spaces(target_cells)
        }
    }
}

/// `s` followed by `n` spaces.
fn push_spaces(s: String, n: usize) -> (r: String)
    ensures
        r@ == s@ + spaces(n as nat),
{
    let mut out = s;
    let ghost s0 = out@;
    let mut k: usize = 0;
    assert(s0 + spaces(0) =~= s0);
    while k < n
        invariant
            k <= n,
            out@ == s0 + spaces(k as nat),
        decreases n - k,
    {
        push_char(&mut out, ' ');
        k = k + 1;
        assert(out@ =~= s0 + spaces(k as nat));
    }
    out
}

/// Pads `s` on the right with ASCII spaces so the result renders in
/// exactly `target_cells` cells.
///
/// When `s` is wider than the target, it is truncated first (see
/// [`truncate_to_width`]) and then padded, so the result still renders in
/// exactly `target_cells` cells.
pub fn pad_to_width(s: &str, target_cells: usize) -> (r: String)
    ensures
        r@ == padded(s@, target_cells as nat),
        str_width_of(r@) == target_cells,
        str_width_of(s@) <= target_cells ==> r@ == s@ + spaces((target_cells - str_width_of(s@)) as nat),
{
    let w = width(s);
    if w <= target_cells {
        let r = push_spaces(s.to_string(), target_cells - w);
        assert(str_width_of(s@ + spaces((target_cells - w) as nat)) == target_cells);
        return r;
    }
    let t = truncate_to_width(s, target_cells);
    let tw = width(t.as_str());
    if tw <= target_cells {
        let r = push_spaces(t, target_cells - tw);
        assert(str_width_of(t@ + spaces((target_cells - tw) as nat)) == target_cells);
        return r;
    }
    let e = String::new();
    let ew = width(e.as_str());
    assert(e@ + spaces(target_cells as nat) =~= spaces(target_cells as nat));
    assert(str_width_of(e@ + spaces(target_cells as nat)) == target_cells);
    push_spaces(e, target_cells)
}


/// Whether `l` renders in at most `max` cells.
pub open spec fn fits_in(l: Seq<char>, max: int) -> bool {
    str_width_of(l) <= max
}

/// Position of the last space in `l`, if any.
pub open spec fn last_space(l: Seq<char>) -> Option<int>
    decreases l.len(),
{
    if l.len() == 0 {
        None
    } else if l.last() == ' ' {
        Some(l.len() - 1)
    } else {
        last_space(l.drop_last())
    }
}

/// `out` with the line `l` added, unless `l` is empty.
pub open spec fn add_line(out: Seq<Seq<char>>, l: Seq<char>) -> Seq<Seq<char>> {
    if l.len() == 0 {
        out
    } else {
        out.push(l)
    }
}

/// Line-breaking state of [`wrap_to_width`] after some prefix of the input:
/// the finished lines and the line being filled.
pub struct WrapState {
    /// Finished lines.
    pub out: Seq<Seq<char>>,
    /// Line being filled.
    pub cur: Seq<char>,
}

/// Feeds one character to the line breaker. When it still fits, it joins
/// the current line. Otherwise the line is broken at its last space when
/// both the part before the space and the rest (with the new character)
/// fit; failing that, the line ends there and the character starts the
/// next one. Empty lines are never emitted.
pub open spec fn wrap_step(st: WrapState, ch: char, max: int) -> WrapState {
    let cand = st.cur.push(ch);
    if fits_in(cand, max) {
        WrapState { out: st.out, cur: cand }
    } else {
        match last_space(st.cur) {
            Some(sp) => if fits_in(st.cur.take(sp), max) && fits_in(st.cur.skip(sp + 1).push(ch), max) {
                WrapState { out: add_line(st.out, st.cur.take(sp)), cur: st.cur.skip(sp + 1).push(ch) }
            } else {
                WrapState { out: add_line(st.out, st.cur), cur: seq![ch] }
            },
            None => WrapState { out: add_line(st.out, st.cur), cur: seq![ch] },
        }
    }
}

/// State after feeding every character of `s`, starting from nothing.
pub open spec fn wrap_run(s: Seq<char>, max: int) -> WrapState
    decreases s.len(),
{
    if s.len() == 0 {
        WrapState { out: Seq::empty(), cur: Seq::empty() }
    } else {
        wrap_step(wrap_run(s.drop_last(), max), s.last(), max)
    }
}

/// The lines produced by [`wrap_to_width`]: one empty line for an empty
/// input or a zero width, the input itself when it fits, and otherwise the
/// line breaker's lines (at least one).
pub open spec fn wrapped(s: Seq<char>, max_cells: nat) -> Seq<Seq<char>> {
    if max_cells == 0 || s.len() == 0 {
        seq![Seq::<char>::empty()]
    } else if str_width_of(s) <= max_cells {
        seq![s]
    } else {
        let st = wrap_run(s, max_cells as int);
        let out = add_line(st.out, st.cur);
        if out.len() == 0 {
            seq![Seq::<char>::empty()]
        } else {
            out
        }
    }
}

/// `s` without its spaces.
pub open spec fn without_spaces(s: Seq<char>) -> Seq<char>
    decreases s.len(),
{
    if s.len() == 0 {
        s
    } else if s.last() == ' ' {
        without_spaces(s.drop_last())
    } else {
        without_spaces(s.drop_last()).push(s.last())
    }
}

/// The lines `ls` written one after another.
pub open spec fn concat_lines(ls: Seq<Seq<char>>) -> Seq<char>
    decreases ls.len(),
{
    if ls.len() == 0 {
        Seq::empty()
    } else {
        concat_lines(ls.drop_last()) + ls.last()
    }
}

/// Removing spaces distributes over concatenation.
pub proof fn lemma_without_spaces_add(a: Seq<char>, b: Seq<char>)
    ensures
        without_spaces(a + b) == without_spaces(a) + without_spaces(b),
    decreases b.len(),
{
    if b.len() == 0 {
        assert(a + b =~= a);
        assert(without_spaces(a) + without_spaces(b) =~= without_spaces(a));
    } else {
        lemma_without_spaces_add(a, b.drop_last());
        assert((a + b).drop_last() =~= a + b.drop_last());
        assert((a + b).last() == b.last());
        if b.last() == ' ' {
        } else {
            assert(without_spaces(a) + without_spaces(b) =~= (without_spaces(a) + without_spaces(
                b.drop_last(),
            )).push(b.last()));
        }
    }
}

/// What a line breaker owes after any prefix `p` of the input: every
/// finished line is non-empty and fits or is a single character, the
/// current line fits or has at most one character, and the finished lines
/// followed by the current one hold the prefix's characters other than
/// spaces, in order.
pub open spec fn wrap_ok(st: WrapState, p: Seq<char>, max: int) -> bool {
    &&& forall|j: int|
        0 <= j < st.out.len() ==> #[trigger] st.out[j].len() > 0 && (fits_in(st.out[j], max)
            || st.out[j].len() == 1)
    &&& (fits_in(st.cur, max) || st.cur.len() <= 1)
    &&& without_spaces(concat_lines(st.out)) + without_spaces(st.cur) == without_spaces(p)
}

/// Each step of the line breaker keeps [`wrap_ok`].
pub proof fn lemma_wrap_step_ok(st: WrapState, p: Seq<char>, ch: char, max: int)
    requires
        wrap_ok(st, p, max),
    ensures
        wrap_ok(wrap_step(st, ch, max), p.push(ch), max),
{
    let st2 = wrap_step(st, ch, max);
    let cand = st.cur.push(ch);
    let a = without_spaces(concat_lines(st.out));
    let c = without_spaces(st.cur);
    let x = without_spaces(seq![ch]);
    lemma_without_spaces_add(p, seq![ch]);
    assert(p.push(ch) =~= p + seq![ch]);
    lemma_without_spaces_add(st.cur, seq![ch]);
    assert(cand =~= st.cur + seq![ch]);
    assert((a + c) + x =~= a + (c + x));
    if fits_in(cand, max) {
        assert(wrap_ok(st2, p.push(ch), max));
    } else {
        // Closing the current line as it is.
        let out1 = add_line(st.out, st.cur);
        assert(without_spaces(concat_lines(out1)) == a + c) by {
            if st.cur.len() > 0 {
                assert(out1.drop_last() =~= st.out);
                lemma_without_spaces_add(concat_lines(st.out), st.cur);
            } else {
                assert(c =~= Seq::<char>::empty());
                assert(a + c =~= a);
            }
        }
        assert(forall|j: int|
            0 <= j < out1.len() ==> #[trigger] out1[j].len() > 0 && (fits_in(out1[j], max)
                || out1[j].len() == 1)) by {
            assert forall|j: int| 0 <= j < out1.len() implies #[trigger] out1[j].len() > 0 && (
            fits_in(out1[j], max) || out1[j].len() == 1) by {
                if j < st.out.len() {
                    assert(out1[j] == st.out[j]);
                }
            }
        }
        let hard = WrapState { out: out1, cur: seq![ch] };
        assert(wrap_ok(hard, p.push(ch), max));
        match last_space(st.cur) {
            Some(sp) => {
                lemma_last_space_range(st.cur);
                let head = st.cur.take(sp);
                let tail = st.cur.skip(sp + 1);
                if fits_in(head, max) && fits_in(tail.push(ch), max) {
                    let out2 = add_line(st.out, head);
                    assert(st.cur =~= head + (seq![' '] + tail));
                    lemma_without_spaces_add(head, seq![' '] + tail);
                    lemma_without_spaces_add(seq![' '], tail);
                    assert(without_spaces(seq![' ']) =~= Seq::<char>::empty()) by {
                        assert(seq![' '].drop_last() =~= Seq::<char>::empty());
                        reveal_with_fuel(without_spaces, 2);
                    }
                    assert(Seq::<char>::empty() + without_spaces(tail) =~= without_spaces(tail));
                    let h = without_spaces(head);
                    let t = without_spaces(tail);
                    assert(c == h + t);
                    lemma_without_spaces_add(tail, seq![ch]);
                    assert(tail.push(ch) =~= tail + seq![ch]);
                    assert(without_spaces(concat_lines(out2)) == a + h) by {
                        if head.len() > 0 {
                            assert(out2.drop_last() =~= st.out);
                            lemma_without_spaces_add(concat_lines(st.out), head);
                        } else {
                            assert(h =~= Seq::<char>::empty());
                            assert(a + h =~= a);
                        }
                    }
                    assert((a + h) + (t + x) =~= (a + (h + t)) + x);
                    assert(forall|j: int|
                        0 <= j < out2.len() ==> #[trigger] out2[j].len() > 0 && (fits_in(
                            out2[j],
                            max,
                        ) || out2[j].len() == 1)) by {
                        assert forall|j: int| 0 <= j < out2.len() implies #[trigger] out2[j].len()
                            > 0 && (fits_in(out2[j], max) || out2[j].len() == 1) by {
                            if j < st.out.len() {
                                assert(out2[j] == st.out[j]);
                            }
                        }
                    }
                    assert(wrap_ok(st2, p.push(ch), max));
                } else {
                    assert(st2 == hard);
                }
            },
            None => {
                assert(st2 == hard);
            },
        }
    }
}

/// The last space, when there is one, lies inside the line.
proof fn lemma_last_space_range(l: Seq<char>)
    ensures
        last_space(l) matches Some(sp) ==> 0 <= sp < l.len() && l[sp] == ' ',
    decreases l.len(),
{
    if l.len() > 0 && l.last() != ' ' {
        lemma_last_space_range(l.drop_last());
    }
}

/// A space with no space after it is the last space.
proof fn lemma_last_space_is(l: Seq<char>, k: int)
    requires
        0 <= k < l.len(),
        l[k] == ' ',
        forall|m: int| k < m < l.len() ==> l[m] != ' ',
    ensures
        last_space(l) == Some(k),
    decreases l.len(),
{
    if k < l.len() - 1 {
        let d = l.drop_last();
        assert forall|m: int| k < m < d.len() implies d[m] != ' ' by {
            assert(d[m] == l[m]);
        }
        lemma_last_space_is(d, k);
    }
}

/// A line that cannot take the next character `ch` is broken at its last
/// space `k` (the most recent one, not an earlier one) when the part before
/// that space and the rest followed by `ch` both fit: the part before
/// becomes a finished line and the rest carries over. Otherwise the line is
/// finished as it is and `ch` starts the next one.
pub proof fn law_break_at_last_space(st: WrapState, ch: char, max: int, k: int)
    requires
        !fits_in(st.cur.push(ch), max),
        0 <= k < st.cur.len(),
        st.cur[k] == ' ',
        forall|m: int| k < m < st.cur.len() ==> st.cur[m] != ' ',
    ensures
        fits_in(st.cur.take(k), max) && fits_in(st.cur.skip(k + 1).push(ch), max) ==> wrap_step(
            st,
            ch,
            max,
        ) == (WrapState { out: add_line(st.out, st.cur.take(k)), cur: st.cur.skip(k + 1).push(ch) }),
        !(fits_in(st.cur.take(k), max) && fits_in(st.cur.skip(k + 1).push(ch), max))
            ==> wrap_step(st, ch, max) == (WrapState { out: add_line(st.out, st.cur), cur: seq![ch] }),
{
    lemma_last_space_is(st.cur, k);
}

/// The line breaker keeps [`wrap_ok`] over any input.
pub proof fn lemma_wrap_run_ok(s: Seq<char>, max: int)
    ensures
        wrap_ok(wrap_run(s, max), s, max),
    decreases s.len(),
{
    if s.len() == 0 {
        let e = Seq::<char>::empty();
        assert(concat_lines(Seq::<Seq<char>>::empty()) =~= e);
        assert(without_spaces(e) =~= e);
        assert(s =~= e);
        assert(e + e =~= e);
    } else {
        lemma_wrap_run_ok(s.drop_last(), max);
        lemma_wrap_step_ok(wrap_run(s.drop_last(), max), s.drop_last(), s.last(), max);
        assert(s.drop_last().push(s.last()) =~= s);
    }
}

/// After at least one character the line being filled is never empty.
proof fn lemma_wrap_cur_nonempty(s: Seq<char>, max: int)
    requires
        s.len() > 0,
    ensures
        wrap_run(s, max).cur.len() > 0,
{
    let st = wrap_run(s.drop_last(), max);
    let st2 = wrap_step(st, s.last(), max);
    assert(st2.cur.len() > 0) by {
        match last_space(st.cur) {
            Some(sp) => {},
            None => {},
        }
    }
}

/// Wrapping loses no character other than spaces and keeps their order;
/// every line fits in `max_cells` cells unless it is a single character
/// that is wider on its own; an input that fits comes back as one line.
pub proof fn lemma_wrapped_lines(s: Seq<char>, max_cells: nat)
    requires
        max_cells > 0,
        s.len() == 0 ==> str_width_of(s) == 0,
    ensures
        wrapped(s, max_cells).len() >= 1,
        forall|j: int|
            0 <= j < wrapped(s, max_cells).len() ==> fits_in(
                #[trigger] wrapped(s, max_cells)[j],
                max_cells as int,
            ) || wrapped(s, max_cells)[j].len() == 1,
        without_spaces(concat_lines(wrapped(s, max_cells))) == without_spaces(s),
        str_width_of(s) <= max_cells ==> wrapped(s, max_cells) == seq![s],
{
    let w = wrapped(s, max_cells);
    if s.len() == 0 {
        assert(w.drop_last() =~= Seq::<Seq<char>>::empty());
        assert(concat_lines(w) =~= Seq::<char>::empty() + w.last()) by {
            reveal_with_fuel(concat_lines, 2);
        }
        assert(concat_lines(w) =~= Seq::<char>::empty());
        assert(s =~= Seq::<char>::empty());
        assert(str_width_of(w[0]) == str_width_of(s));
    } else if str_width_of(s) <= max_cells {
        assert(w.drop_last() =~= Seq::<Seq<char>>::empty());
        assert(concat_lines(w) =~= Seq::<char>::empty() + s) by {
            reveal_with_fuel(concat_lines, 2);
        }
    } else {
        let st = wrap_run(s, max_cells as int);
        lemma_wrap_run_ok(s, max_cells as int);
        lemma_without_spaces_add(concat_lines(st.out), st.cur);
        if st.cur.len() > 0 {
            assert(add_line(st.out, st.cur).drop_last() =~= st.out);
        } else {
            assert(without_spaces(st.cur) =~= Seq::<char>::empty());
            assert(concat_lines(st.out) + st.cur =~= concat_lines(st.out));
        }
        lemma_wrap_cur_nonempty(s, max_cells as int);
    }
}

/// [`lemma_wrapped_lines`] read on the strings that hold the lines.
proof fn lemma_wrapped_strings(r: Seq<String>, s: Seq<char>, max_cells: nat)
    requires
        max_cells > 0,
        s.len() == 0 ==> str_width_of(s) == 0,
        r.map_values(|x: String| x@) == wrapped(s, max_cells),
    ensures
        forall|j: int| 0 <= j < r.len() ==> str_width_of(#[trigger] r[j]@) <= max_cells || r[j]@.len() == 1,
        without_spaces(concat_lines(r.map_values(|x: String| x@))) == without_spaces(s),
        str_width_of(s) <= max_cells ==> r.len() == 1 && r[0]@ == s,
{
    lemma_wrapped_lines(s, max_cells);
    let w = r.map_values(|x: String| x@);
    assert(w.len() == r.len());
    assert forall|j: int| 0 <= j < r.len() implies str_width_of(#[trigger] r[j]@) <= max_cells
        || r[j]@.len() == 1 by {
        assert(w[j] == r[j]@);
        assert(fits_in(wrapped(s, max_cells)[j], max_cells as int) || wrapped(s, max_cells)[j].len()
            == 1);
    }
    if str_width_of(s) <= max_cells {
        assert(w[0] == r[0]@);
    }
}

/// Width of `v` as a string, by calling [`width`].
fn width_of_chars(v: &Vec<char>) -> (w: usize)
    ensures
        w == str_width_of(v@),
{
    let s = string_of(v);
    width(s.as_str())
}

/// The position of the last space in `l` (see [`last_space`]).
fn find_last_space(l: &Vec<char>) -> (r: Option<usize>)
    ensures
        match r {
            Some(k) => last_space(l@) == Some(k as int),
            None => last_space(l@) is None,
        },
{
    let mut i: usize = l.len();
    assert(l@.take(i as int) =~= l@);
    while i > 0
        invariant
            i <= l.len(),
            last_space(l@) == last_space(l@.take(i as int)),
        decreases i,
    {
        assert(l@.take(i as int).drop_last() =~= l@.take(i - 1));
        assert(l@.take(i as int).last() == l@[i - 1]);
        if l[i - 1] == ' ' {
            return Some(i - 1);
        }
        i = i - 1;
    }
    None
}

/// Word-wraps `s` so each returned line renders in at most `max_cells`
/// cells.
///
/// Prefers breaking at ASCII spaces (the space itself is dropped); falls
/// back to a hard break when no space break fits. A single character wider
/// than the limit still gets a line of its own, so no character but a
/// breaking space is ever lost (see [`lemma_wrapped_lines`]). Always
/// returns at least one element.
pub fn wrap_to_width(s: &str, max_cells: usize) -> (r: Vec<String>)
    ensures
        r@.map_values(|x: String| x@) == wrapped(s@, max_cells as nat),
        r@.len() >= 1,
        max_cells > 0 ==> forall|j: int|
            0 <= j < r@.len() ==> str_width_of(#[trigger] r@[j]@) <= max_cells || r@[j]@.len() == 1,
        max_cells > 0 ==> without_spaces(concat_lines(r@.map_values(|x: String| x@)))
            == without_spaces(s@),
        max_cells > 0 && str_width_of(s@) <= max_cells ==> r@.len() == 1 && r@[0]@ == s@,
{
    let w = width(s);
    let v = chars_of(s);
    if max_cells == 0 || v.len() == 0 {
        let mut r: Vec<String> = Vec::new();
        r.push(String::new());
        assert(r@.map_values(|x: String| x@) =~= seq![Seq::<char>::empty()]);
        proof {
            if max_cells > 0 {
                lemma_wrapped_strings(r@, s@, max_cells as nat);
            }
        }
        return r;
    }
    if w <= max_cells {
        let mut r: Vec<String> = Vec::new();
        r.push(s.to_string());
        assert(r@.map_values(|x: String| x@) =~= seq![s@]);
        proof {
            lemma_wrapped_strings(r@, s@, max_cells as nat);
        }
        return r;
    }
    let ghost m = max_cells as int;
    let mut out: Vec<Vec<char>> = Vec::new();
    let mut cur: Vec<char> = Vec::new();
    let mut i: usize = 0;
    assert(v@.take(0) =~= Seq::<char>::empty());
    while i < v.len()
        invariant
            i <= v.len(),
            m == max_cells as int,
            ({
                let st = wrap_run(v@.take(i as int), m);
                &&& st.out == out@.map_values(|x: Vec<char>| x@)
                &&& st.cur == cur@
            }),
        decreases v.len() - i,
    {
        let ghost st0 = wrap_run(v@.take(i as int), m);
        proof {
            assert(v@.take(i + 1).drop_last() =~= v@.take(i as int));
            assert(v@.take(i + 1).last() == v@[i as int]);
        }
        let ch = v[i];
        let mut cand = copy_chars(&cur);
        cand.push(ch);
        if width_of_chars(&cand) <= max_cells {
            cur = cand;
        } else {
            let mut broke = false;
            match find_last_space(&cur) {
                Some(sp) => {
                    proof {
                        lemma_last_space_range(cur@);
                    }
                    let n = cur.len();
                    let head = slice_chars(&cur, 0, sp);
                    let mut rest = slice_chars(&cur, sp + 1, n);
                    rest.push(ch);
                    proof {
                        assert(head@ =~= cur@.take(sp as int));
                        assert(rest@ =~= cur@.skip(sp + 1).push(ch));
                    }
                    if width_of_chars(&head) <= max_cells && width_of_chars(&rest) <= max_cells {
                        if head.len() > 0 {
                            out.push(head);
                        }
                        cur = rest;
                        broke = true;
                    }
                },
                None => {},
            }
            if !broke {
                if cur.len() > 0 {
                    let done = copy_chars(&cur);
                    out.push(done);
                }
                let mut one: Vec<char> = Vec::new();
                one.push(ch);
                cur = one;
            }
        }
        i = i + 1;
        proof {
            let st1 = wrap_run(v@.take(i as int), m);
            assert(st1 == wrap_step(st0, ch, m));
            assert(st1.out =~= out@.map_values(|x: Vec<char>| x@));
            assert(st1.cur =~= cur@);
        }
    }
    assert(v@.take(v.len() as int) =~= v@);
    if cur.len() > 0 {
        out.push(cur);
    }
    let mut r: Vec<String> = Vec::new();
    let mut k: usize = 0;
    while k < out.len()
        invariant
            k <= out.len(),
            r@.len() == k,
            r@.map_values(|x: String| x@) == out@.map_values(|x: Vec<char>| x@).take(k as int),
        decreases out.len() - k,
    {
        let line = string_of(&out[k]);
        r.push(line);
        assert(r@[k as int]@ == out@[k as int]@);
        k = k + 1;
        assert(r@.map_values(|x: String| x@) =~= out@.map_values(|x: Vec<char>| x@).take(
            k as int,
        ));
    }
    assert(out@.map_values(|x: Vec<char>| x@).take(out.len() as int) =~= out@.map_values(
        |x: Vec<char>| x@,
    ));
    if r.len() == 0 {
        r.push(String::new());
        assert(r@.map_values(|x: String| x@) =~= seq![Seq::<char>::empty()]);
    }
    assert(r@.map_values(|x: String| x@) == wrapped(s@, max_cells as nat));
    proof {
        lemma_wrapped_strings(r@, s@, max_cells as nat);
    }
    r
}

} // verus!
