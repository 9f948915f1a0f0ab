//! The pip install command used by the extension install and update
//! flows.

use crate::env::{env_view, EnvList};
use crate::paths::{join, path_join};
use crate::process::{env_extend, strings_view, Cmd};
use vstd::prelude::*;

verus! {

/// The requirements file of the repository `repo`.
pub fn requirements_path(repo: &str) -> (r: String)
    ensures
        r@ == path_join(repo@, "requirements.txt"@),
{
    join(repo, "requirements.txt")
}

/// `python -m pip install -r <repo>/requirements.txt` with the extra
/// environment `env` (run only when the file exists; a missing file means
/// there is nothing to install).
pub fn install_requirements_cmd(python: &str, repo: &str, env: EnvList) -> (c: Cmd)
    ensures
        c.program@ == python@,
        strings_view(c.args@) == seq![
            "-m"@,
            "pip"@,
            "install"@,
            "-r"@,
            path_join(repo@, "requirements.txt"@),
        ],
        c.cwd is None,
        env_view(c.env@) == env_extend(Seq::empty(), env_view(env@)),
{
    let c = Cmd::new(python.to_string()).arg("-m".to_string()).arg("pip".to_string()).arg(
        "install".to_string(),
    ).arg("-r".to_string()).arg(requirements_path(repo));
    assert(env_view(c.env@) =~= Seq::empty());
    let c = c.envs(env);
    assert(strings_view(c.args@) =~= seq![
        "-m"@,
        "pip"@,
        "install"@,
        "-r"@,
        path_join(repo@, "requirements.txt"@),
    ]);
    c
}

} // verus!
