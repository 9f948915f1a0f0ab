//! Single-line text input.

use crate::geom::Key;
use crate::strs::{chars_of, string_of};
use vstd::prelude::*;

verus! {

/// Editable single-line text input.
pub struct Input {
    /// Current text value.
    pub value: String,
    /// Cursor position as a character index into `value`.
    pub cursor: usize,
    /// Optional i18n key for the placeholder shown when `value` is empty.
    pub placeholder_key: Option<&'static str>,
}

/// `s` with `c` inserted before character `i` (at the end when `i` is past
/// it).
pub open spec fn insert_at(s: Seq<char>, i: int, c: char) -> Seq<char> {
    let k = if i < s.len() {
        i
    } else {
        s.len() as int
    };
    s.take(k).push(c) + s.skip(k)
}

/// `s` without character `i` (unchanged when `i` is past the end).
pub open spec fn remove_at(s: Seq<char>, i: int) -> Seq<char> {
    if 0 <= i < s.len() {
        s.take(i) + s.skip(i + 1)
    } else {
        s
    }
}

/// Text and cursor after one key press on text `s` with cursor `cur`.
pub open spec fn input_step(s: Seq<char>, cur: int, k: Key) -> (Seq<char>, int) {
    match k {
        Key::Char(c) => (insert_at(s, cur, c), cur + 1),
        Key::Backspace => if cur > 0 {
            (remove_at(s, cur - 1), cur - 1)
        } else {
            (s, cur)
        },
        Key::Delete => (remove_at(s, cur), cur),
        Key::Left => if cur > 0 {
            (s, cur - 1)
        } else {
            (s, cur)
        },
        Key::Right => if cur < s.len() {
            (s, cur + 1)
        } else {
            (s, cur)
        },
        Key::Home => (s, 0),
        Key::End => (s, s.len() as int),
        _ => (s, cur),
    }
}

/// Typing a character and then Backspace gives back the text and the
/// cursor, wherever the cursor stood within the text.
pub proof fn law_type_then_backspace(s: Seq<char>, cur: int, c: char)
    requires
        0 <= cur <= s.len(),
    ensures
        input_step(s, cur, Key::Char(c)).0.len() == s.len() + 1,
        input_step(s, cur, Key::Char(c)).0[cur] == c,
        input_step(s, cur, Key::Char(c)).1 == cur + 1,
        input_step(input_step(s, cur, Key::Char(c)).0, cur + 1, Key::Backspace) == (s, cur),
{
    let t = insert_at(s, cur, c);
    assert(t == s.take(cur).push(c) + s.skip(cur));
    assert(t.take(cur) =~= s.take(cur));
    assert(t.skip(cur + 1) =~= s.skip(cur));
    assert(s.take(cur) + s.skip(cur) =~= s);
}

impl Default for Input {
    fn default() -> (r: Self)
        ensures
            r.value@ == Seq::<char>::empty(),
            r.cursor == 0,
            r.placeholder_key is None,
    {
        Input { value: String::new(), cursor: 0, placeholder_key: None }
    }
}

impl Input {
    /// Constructs an input pre-populated with `value`, with the cursor at the
    /// end.
    pub fn with(value: String) -> (r: Self)
        ensures
            r.value@ == value@,
            r.cursor == value@.len(),
            r.placeholder_key is None,
    {
        let c = value.unicode_len();
        Input { value, cursor: c, placeholder_key: None }
    }

    /// Attaches a placeholder hint by i18n key in builder style.
    pub fn placeholder(self, key: &'static str) -> (r: Self)
        ensures
            r.value == self.value,
            r.cursor == self.cursor,
            r.placeholder_key == Some(key),
    {
        let mut s = self;
        s.placeholder_key = Some(key);
        s
    }

    /// Returns `true` when the cursor is at position 0 (left edge).
    pub fn at_start(&self) -> (b: bool)
        ensures
            b == (self.cursor == 0),
    {
        self.cursor == 0
    }

    /// Returns `true` when the cursor is at or past the last character.
    pub fn at_end(&self) -> (b: bool)
        ensures
            b == (self.cursor >= self.value@.len()),
    {
        self.cursor >= self.value.unicode_len()
    }

    /// Processes one key press.
    pub fn on_key(&mut self, k: Key)
        requires
            k is Char ==> old(self).cursor < usize::MAX,
        ensures
            final(self).placeholder_key == old(self).placeholder_key,
            (final(self).value@, final(self).cursor as int) == input_step(
                old(self).value@,
                old(self).cursor as int,
                k,
            ),
    {
        let cs = chars_of(self.value.as_str());
        let n = cs.len();
        let cur = self.cursor;
        match k {
            Key::Char(c) => {
                let at = if cur < n {
                    cur
                } else {
                    n
                };
                let mut out: Vec<char> = Vec::new();
                let mut i: usize = 0;
                while i < at
                    invariant
                        at <= n == cs@.len(),
                        i <= at,
                        out@ == cs@.take(i as int),
                    decreases at - i,
                {
                    out.push(cs[i]);
                    i = i + 1;
                    assert(out@ =~= cs@.take(i as int));
                }
                out.push(c);
                let mut j: usize = at;
                while j < n
                    invariant
                        at <= j <= n == cs@.len(),
                        out@ == cs@.take(at as int).push(c) + cs@.subrange(at as int, j as int),
                    decreases n - j,
                {
                    out.push(cs[j]);
                    j = j + 1;
                    assert(out@ =~= cs@.take(at as int).push(c) + cs@.subrange(
                        at as int,
                        j as int,
                    ));
                }
                assert(cs@.subrange(at as int, n as int) =~= cs@.skip(at as int));
                self.value = string_of(&out);
                self.cursor = cur + 1;
            },
            Key::Backspace => {
                if cur > 0 {
                    self.value = string_of(&without(&cs, cur - 1));
                    self.cursor = cur - 1;
                }
            },
            Key::Delete => {
                self.value = string_of(&without(&cs, cur));
            },
            Key::Left => {
                if cur > 0 {
                    self.cursor = cur - 1;
                }
            },
            Key::Right => {
                if cur < n {
                    self.cursor = cur + 1;
                }
            },
            Key::Home => {
                self.cursor = 0;
            },
            Key::End => {
                self.cursor = n;
            },
            _ => {},
        }
    }
}

/// `v` without the character at `i` (a copy of `v` when `i` is past the end).
fn without(v: &Vec<char>, i: usize) -> (r: Vec<char>)
    ensures
        r@ == remove_at(v@, i as int),
{
    let mut out: Vec<char> = Vec::new();
    let mut j: usize = 0;
    while j < v.len()
        invariant
            j <= v.len(),
            out@ == (if j <= i {
                v@.take(j as int)
            } else {
                v@.take(i as int) + v@.subrange(i + 1, j as int)
            }),
        decreases v.len() - j,
    {
        if j != i {
            out.push(v[j]);
        }
        j = j + 1;
        assert(out@ =~= (if j <= i {
            v@.take(j as int)
        } else {
            v@.take(i as int) + v@.subrange(i + 1, j as int)
        }));
    }
    if i < v.len() {
        assert(v@.subrange(i + 1, v.len() as int) =~= v@.skip(i + 1));
    } else {
        assert(v@.take(v.len() as int) =~= v@);
    }
    out
}

} // verus!
