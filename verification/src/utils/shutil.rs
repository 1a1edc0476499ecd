//! Host-tool configuration: which optional helper tools exist is probed
//! once at process start and carried around explicitly, instead of living
//! in process-wide mutable flags.

use vstd::prelude::*;

verus! {

/// Which optional helper tools the host offers. Probed once, passed
/// explicitly to whatever needs it.
#[derive(Clone, Copy, Debug, PartialEq, Eq, Structural)]
pub struct ToolConfig {
    /// A fast file finder is on the path.
    pub fd_exists: bool,
    /// A fast text searcher is on the path.
    pub rg_exists: bool,
}

impl ToolConfig {
    pub fn new(fd_exists: bool, rg_exists: bool) -> (r: ToolConfig)
        ensures
            r.fd_exists == fd_exists,
            r.rg_exists == rg_exists,
    {
        ToolConfig { fd_exists, rg_exists }
    }
}

/// What a tool probe's exit status means: status zero is "the tool is on
/// the path", anything else is "it is not", reported with the status.
pub fn which_outcome(code: i32) -> (r: Result<(), i32>)
    ensures
        r == if code == 0 {
            Ok::<(), i32>(())
        } else {
            Err::<(), i32>(code)
        },
{
    if code == 0 {
        return Ok(());
    }
    Err(code)
}

/// The argument list of the file-find step, if the host has a finder at
/// all: list the plain files named `item` under `path`.
pub fn find_command(cfg: &ToolConfig, item: &String, path: &String) -> (r: Option<Vec<String>>)
    ensures
        match r {
            Some(args) => cfg.fd_exists && args.deep_view() =~= seq![
                "fd"@,
                "-t"@,
                "f"@,
                item@,
                path@,
            ],
            None => !cfg.fd_exists,
        },
{
    if !cfg.fd_exists {
        return None;
    }
    let mut args: Vec<String> = Vec::new();
    args.push("fd".to_owned());
    args.push("-t".to_owned());
    args.push("f".to_owned());
    args.push(item.as_str().to_owned());
    args.push(path.as_str().to_owned());
    proof {
        assert(args.deep_view() =~= seq!["fd"@, "-t"@, "f"@, item@, path@]);
    }
    Some(args)
}

} // verus!
