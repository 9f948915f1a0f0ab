//! Child-process invocations as plain values.
//!
//! A [`Cmd`] says what to run; spawning it and streaming its output belongs
//! to the application shell around this library.

use crate::env::{env_insert, env_set, env_view, EnvList};
use vstd::prelude::*;

verus! {

/// Builder for a child process invocation.
pub struct Cmd {
    /// Path to the executable.
    pub program: String,
    /// Arguments passed to the executable.
    pub args: Vec<String>,
    /// Optional working directory.
    pub cwd: Option<String>,
    /// Additional environment variables.
    pub env: EnvList,
}

/// `base` with every pair of `add` inserted in turn (`HashMap::extend`).
pub open spec fn env_extend(
    base: Seq<(Seq<char>, Seq<char>)>,
    add: Seq<(Seq<char>, Seq<char>)>,
) -> Seq<(Seq<char>, Seq<char>)>
    decreases add.len(),
{
    if add.len() == 0 {
        base
    } else {
        let e = env_extend(base, add.drop_last());
        env_insert(e, add.last().0, add.last().1)
    }
}

/// The views of the strings in `v`.
pub open spec fn strings_view(v: Seq<String>) -> Seq<Seq<char>> {
    v.map_values(|s: String| s@)
}

impl Cmd {
    /// Constructs a command for `program` with no arguments, no working
    /// directory and no extra environment.
    pub fn new(program: String) -> (c: Self)
        ensures
            c.program == program,
            c.args@.len() == 0,
            c.cwd is None,
            c.env@.len() == 0,
    {
        Cmd { program, args: Vec::new(), cwd: None, env: Vec::new() }
    }

    /// Appends one argument.
    pub fn arg(self, s: String) -> (c: Self)
        ensures
            c.program == self.program,
            c.args@ == self.args@.push(s),
            strings_view(c.args@) == strings_view(self.args@).push(s@),
            c.cwd == self.cwd,
            c.env == self.env,
    {
        let mut c = self;
        let ghost sv = s@;
        c.args.push(s);
        assert(strings_view(c.args@) =~= strings_view(self.args@).push(sv));
        c
    }

    /// Merges the given environment variables into the command; a name
    /// already present takes the new value.
    pub fn envs(self, e: EnvList) -> (c: Self)
        ensures
            c.program == self.program,
            c.args == self.args,
            c.cwd == self.cwd,
            env_view(c.env@) == env_extend(env_view(self.env@), env_view(e@)),
    {
        let mut c = self;
        let ghost ev = env_view(e@);
        let mut i: usize = 0;
        while i < e.len()
            invariant
                i <= e.len(),
                ev == env_view(e@),
                c.program == self.program,
                c.args == self.args,
                c.cwd == self.cwd,
                env_view(c.env@) == env_extend(env_view(self.env@), ev.take(i as int)),
            decreases e.len() - i,
        {
            let k = e[i].0.clone();
            let v = e[i].1.clone();
            assert(ev.take(i + 1).drop_last() =~= ev.take(i as int));
            env_set(&mut c.env, k, v);
            i = i + 1;
        }
        assert(ev.take(e.len() as int) =~= ev);
        c
    }
}

} // verus!
