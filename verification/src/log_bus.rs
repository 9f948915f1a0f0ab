//! The launcher's log: a bounded buffer of recent lines.
//!
//! The process-wide instance, its lock and the session log file belong to
//! the application shell.

use crate::strs::{append_chars, chars_of, string_of};
use vstd::prelude::*;

verus! {

/// Number of lines the buffer keeps; the oldest line goes first.
pub const CAPACITY: usize = 4000;

/// A single log entry produced by the launcher or a child process.
#[derive(Debug, Clone)]
pub struct LogLine {
    /// Timestamp formatted as `HH:MM:SS`.
    pub ts: String,
    /// Logical source name (for example `git`, `pip`, `launcher`).
    pub source: String,
    /// Message text.
    pub text: String,
}

/// A line as (timestamp, source, text).
pub type LineView = (Seq<char>, Seq<char>, Seq<char>);

/// The fields of `l`.
pub open spec fn line_view(l: LogLine) -> LineView {
    (l.ts@, l.source@, l.text@)
}

/// The fields of each line.
pub open spec fn lines_view(ls: Seq<LogLine>) -> Seq<LineView> {
    ls.map_values(|l: LogLine| line_view(l))
}

/// A line as the dump writes it: `HH:MM:SS [source] message` and a newline.
pub open spec fn dump_line(l: LineView) -> Seq<char> {
    l.0 + " ["@ + l.1 + "] "@ + l.2 + "\n"@
}

/// All lines dumped one after another.
pub open spec fn dump_of(ls: Seq<LineView>) -> Seq<char>
    decreases ls.len(),
{
    if ls.len() == 0 {
        Seq::empty()
    } else {
        dump_of(ls.drop_last()) + dump_line(ls.last())
    }
}

/// The bounded buffer of recent log lines.
pub struct LogBus {
    lines: Vec<LogLine>,
}

impl View for LogBus {
    type V = Seq<LineView>;

    closed spec fn view(&self) -> Seq<LineView> {
        lines_view(self.lines@)
    }
}

impl LogBus {
    /// Whether the buffer respects its capacity.
    pub closed spec fn wf(&self) -> bool {
        self.lines@.len() <= CAPACITY
    }

    /// An empty buffer.
    pub fn new() -> (b: Self)
        ensures
            b.wf(),
            b@.len() == 0,
    {
        LogBus { lines: Vec::new() }
    }

    /// Appends a line; when the buffer is full the oldest line is dropped
    /// first.
    pub fn push(&mut self, line: LogLine)
        requires
            old(self).wf(),
        ensures
            final(self).wf(),
            final(self)@ == (if old(self)@.len() == CAPACITY {
                old(self)@.drop_first()
            } else {
                old(self)@
            }).push(line_view(line)),
    {
        let ghost lv = line_view(line);
        if self.lines.len() == CAPACITY {
            let ghost before = self.lines@;
            self.lines.remove(0);
            assert(lines_view(self.lines@) =~= lines_view(before).drop_first());
        }
        let ghost mid = self.lines@;
        self.lines.push(line);
        assert(lines_view(self.lines@) =~= lines_view(mid).push(lv));
    }

    /// A copy of the lines held, oldest first.
    pub fn snapshot(&self) -> (r: Vec<LogLine>)
        ensures
            lines_view(r@) == self@,
    {
        let mut out: Vec<LogLine> = Vec::new();
        let mut i: usize = 0;
        while i < self.lines.len()
            invariant
                i <= self.lines@.len(),
                lines_view(out@) == lines_view(self.lines@.take(i as int)),
            decreases self.lines@.len() - i,
        {
            let l = &self.lines[i];
            let c = LogLine { ts: l.ts.clone(), source: l.source.clone(), text: l.text.clone() };
            let ghost before = out@;
            assert(line_view(c) == line_view(self.lines@[i as int]));
            out.push(c);
            assert(lines_view(out@) =~= lines_view(before).push(line_view(c)));
            assert(lines_view(self.lines@.take(i + 1)) =~= lines_view(self.lines@.take(i as int)).push(
                line_view(self.lines@[i as int]),
            ));
            i = i + 1;
        }
        assert(self.lines@.take(self.lines@.len() as int) =~= self.lines@);
        out
    }

    /// The number of lines held.
    pub fn len(&self) -> (n: usize)
        ensures
            n == self@.len(),
    {
        self.lines.len()
    }

    /// The line at `i` (oldest first).
    pub fn line(&self, i: usize) -> (l: &LogLine)
        requires
            i < self@.len(),
        ensures
            line_view(*l) == self@[i as int],
    {
        &self.lines[i]
    }

    /// A newline-delimited dump of the buffer, one `HH:MM:SS [source]
    /// message` line per entry.
    pub fn dump_text(&self) -> (r: String)
        ensures
            r@ == dump_of(self@),
    {
        let ghost lv = lines_view(self.lines@);
        let mut out: Vec<char> = Vec::new();
        let mut i: usize = 0;
        assert(lv.take(0) =~= Seq::<LineView>::empty());
        while i < self.lines.len()
            invariant
                i <= self.lines.len(),
                lv == lines_view(self.lines@),
                out@ == dump_of(lv.take(i as int)),
            decreases self.lines.len() - i,
        {
            assert(lv.take(i + 1).drop_last() =~= lv.take(i as int));
            let l = &self.lines[i];
            let ghost before = out@;
            append_chars(&mut out, &chars_of(l.ts.as_str()));
            out.push(' ');
            out.push('[');
            append_chars(&mut out, &chars_of(l.source.as_str()));
            out.push(']');
            out.push(' ');
            append_chars(&mut out, &chars_of(l.text.as_str()));
            out.push('\n');
            assert(out@ =~= before + dump_line(lv[i as int])) by {
                reveal_strlit(" [");
                reveal_strlit("] ");
                reveal_strlit("\n");
            }
            i = i + 1;
        }
        assert(lv.take(self.lines.len() as int) =~= lv);
        string_of(&out)
    }
}

/// The buffer never holds more than [`CAPACITY`] lines, and after a push
/// the newest line is the one pushed.
pub proof fn lemma_push_bounded(before: Seq<LineView>, after: Seq<LineView>, l: LineView)
    requires
        before.len() <= CAPACITY,
        after == (if before.len() == CAPACITY {
            before.drop_first()
        } else {
            before
        }).push(l),
    ensures
        after.len() <= CAPACITY,
        after.last() == l,
        after.len() == (if before.len() == CAPACITY {
            CAPACITY as int
        } else {
            before.len() + 1int
        }),
{
}

/// The buffer's lines after one push of `l` onto `v` (see [`LogBus::push`]).
pub open spec fn pushed(v: Seq<LineView>, l: LineView) -> Seq<LineView> {
    (if v.len() == CAPACITY {
        v.drop_first()
    } else {
        v
    }).push(l)
}

/// The lines after pushing each of `xs`, in order, onto `v`.
pub open spec fn pushed_all(v: Seq<LineView>, xs: Seq<LineView>) -> Seq<LineView>
    decreases xs.len(),
{
    if xs.len() == 0 {
        v
    } else {
        pushed(pushed_all(v, xs.drop_last()), xs.last())
    }
}

/// The newest `n` of `xs` (all of them when there are fewer), oldest first.
pub open spec fn newest(xs: Seq<LineView>, n: nat) -> Seq<LineView> {
    if xs.len() <= n {
        xs
    } else {
        xs.skip(xs.len() - n)
    }
}

/// Starting empty, any number of pushes leave exactly the newest
/// [`CAPACITY`] lines pushed, oldest first; taking a snapshot (which only
/// reads the buffer) changes nothing.
pub proof fn law_keeps_newest(xs: Seq<LineView>)
    ensures
        pushed_all(Seq::empty(), xs) == newest(xs, CAPACITY as nat),
    decreases xs.len(),
{
    if xs.len() > 0 {
        let ys = xs.drop_last();
        law_keeps_newest(ys);
        if ys.len() < CAPACITY {
            assert(ys.push(xs.last()) =~= xs);
        } else {
            let k = ys.len() - CAPACITY;
            assert(newest(ys, CAPACITY as nat).len() == CAPACITY);
            assert(ys.skip(k).drop_first().push(xs.last()) =~= xs.skip(xs.len() - CAPACITY));
        }
    }
}

} // verus!
