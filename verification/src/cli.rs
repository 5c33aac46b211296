//! The daemon's command line: install, install the companion, uninstall, or run.
use vstd::prelude::*;
use vstd::string::StringExecFns;

use crate::text::{has_prefix, starts_with};

verus! {

/// What the daemon was asked to do.
#[derive(Debug, PartialEq, Eq)]
pub enum Command {
    /// Remove the installed files; `confirmed` when `--yes` was given.
    Uninstall { confirmed: bool },
    /// Install the companion binary, from `path` when given.
    InstallRndctl { path: Option<String> },
    /// Install the binary and service files; `start` unless `--no-start`.
    Install { start: bool },
    /// Run the daemon.
    Run,
}

/// The arguments by their characters.
pub open spec fn args_view(args: Seq<String>) -> Seq<Seq<char>> {
    args.map_values(|a: String| a@)
}

/// The prefix of the companion path option.
pub open spec fn path_option() -> Seq<char> {
    "--rndctl-path="@
}

/// The value of the first argument of the form `--rndctl-path=VALUE`.
pub open spec fn first_path_option(args: Seq<Seq<char>>) -> Option<Seq<char>>
    decreases args.len(),
{
    if args.len() == 0 {
        None
    } else if has_prefix(args[0], path_option()) {
        Some(args[0].skip(path_option().len() as int))
    } else {
        first_path_option(args.drop_first())
    }
}

/// The command the arguments ask for: `--uninstall` first, then
/// `--install-rndctl`, then `--install`, else running the daemon.
pub open spec fn is_command(r: Command, args: Seq<Seq<char>>) -> bool {
    if args.contains("--uninstall"@) {
        r == Command::Uninstall { confirmed: args.contains("--yes"@) }
    } else if args.contains("--install-rndctl"@) {
        match r {
            Command::InstallRndctl { path } => match (path, first_path_option(args)) {
                (Some(p), Some(q)) => p@ == q,
                (None, None) => true,
                _ => false,
            },
            _ => false,
        }
    } else if args.contains("--install"@) {
        r == Command::Install { start: !args.contains("--no-start"@) }
    } else {
        r == Command::Run
    }
}

/// Whether some argument equals `flag`.
fn has_arg(args: &Vec<String>, flag: &str) -> (r: bool)
    ensures
        r == args_view(args@).contains(flag@),
{
    let ghost av = args_view(args@);
    let target = String::from_str(flag);
    let n = args.len();
    for i in 0..n
        invariant
            n == args@.len(),
            av == args_view(args@),
            target@ == flag@,
            forall|k: int| 0 <= k < i ==> av[k] != flag@,
    {
        if args[i] == target {
            assert(av[i as int] == flag@);
            return true;
        }
    }
    false
}

/// The value of the first `--rndctl-path=VALUE` argument.
fn path_argument(args: &Vec<String>) -> (r: Option<String>)
    ensures
        match (r, first_path_option(args_view(args@))) {
            (Some(p), Some(q)) => p@ == q,
            (None, None) => true,
            _ => false,
        },
{
    let ghost av = args_view(args@);
    let n = args.len();
    let prefix = "--rndctl-path=";
    assert(av.skip(0) =~= av);
    for i in 0..n
        invariant
            n == args@.len(),
            av == args_view(args@),
            prefix@ == path_option(),
            first_path_option(av) == first_path_option(av.skip(i as int)),
    {
        assert(av.skip(i as int).drop_first() =~= av.skip(i + 1));
        assert(av.skip(i as int)[0] == args@[i as int]@);
        let a = args[i].as_str();
        if starts_with(a, prefix) {
            let from = prefix.unicode_len();
            let to = a.unicode_len();
            let value = a.substring_char(from, to);
            assert(value@ =~= args@[i as int]@.skip(path_option().len() as int));
            return Some(String::from_str(value));
        }
    }
    assert(av.skip(n as int) =~= Seq::<Seq<char>>::empty());
    None
}

/// Reads the daemon's command line (all arguments, the program name included).
pub fn parse_args(args: &Vec<String>) -> (r: Command)
    ensures
        is_command(r, args_view(args@)),
{
    if has_arg(args, "--uninstall") {
        Command::Uninstall { confirmed: has_arg(args, "--yes") }
    } else if has_arg(args, "--install-rndctl") {
        Command::InstallRndctl { path: path_argument(args) }
    } else if has_arg(args, "--install") {
        Command::Install { start: !has_arg(args, "--no-start") }
    } else {
        Command::Run
    }
}

} // verus!
