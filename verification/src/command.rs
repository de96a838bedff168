//! Command-line grammar.
//!
//! A command line is a run of flags followed by a subcommand and its
//! positional arguments.  Parsing works on the argument list as plain
//! values; reading the process arguments and printing errors belong to
//! the caller.

use vstd::prelude::*;
use crate::textfmt::{starts_with_double_dash, str_eq};

verus! {

/// The run flags: a full rebuild ignores page freshness; private
/// selects the private store and output namespace.
#[derive(Clone, Copy, Debug, PartialEq, Eq, Structural)]
pub struct Flags {
    pub full_build: bool,
    pub private: bool,
}

impl Flags {
    /// Whether every page is rebuilt regardless of freshness.
    pub fn full_build(self) -> (r: bool)
        ensures
            r == self.full_build,
    {
        self.full_build
    }

    /// Whether the private store and output namespace are used.
    pub fn private(self) -> (r: bool)
        ensures
            r == self.private,
    {
        self.private
    }
}

/// Which subcommand a command line names.
#[derive(Clone, Copy, Debug, PartialEq, Eq, Structural)]
pub enum CmdTag {
    RenderBatch,
    Render,
    Init,
}

/// A parsed subcommand with its positional arguments.
#[derive(Clone, Debug)]
pub enum SubCmd {
    RenderBatch,
    Render { repo_name: String },
    Init { repo_name: String, description: String },
}

/// A parsed command line.
#[derive(Clone, Debug)]
pub struct Cmd {
    pub sub_cmd: SubCmd,
    pub flags: Flags,
}

/// Why a command line was rejected.
#[derive(Clone, Debug)]
pub enum CmdError {
    /// No subcommand was given.
    NoSubCmd,
    /// An argument of flag shape that is not a known flag.
    UnknownFlag(String),
    /// A first non-flag argument that is not a known subcommand.
    UnknownSubCmd(String),
    /// The subcommand needs a repository name and none was given.
    MissingRepoName(CmdTag),
    /// `init` needs a description and none was given.
    MissingDescription,
}

/// An argument that is one of the two known flags.
pub open spec fn is_flag_arg(a: Seq<char>) -> bool {
    a == "--full-build"@ || a == "--private"@
}

/// `k` is the end of the leading run of known flags: everything before
/// it is a known flag and it is the list's end or a non-flag.
pub open spec fn flag_run_end(args: Seq<String>, k: int) -> bool {
    &&& 0 <= k <= args.len()
    &&& forall|i: int| 0 <= i < k ==> is_flag_arg(#[trigger] args[i]@)
    &&& (k == args.len() || !is_flag_arg(args[k]@))
}

/// What parsing returns, given the end `k` of the flag run: the
/// subcommand at `k` decides the shape, the flags are whichever of the
/// two appeared before `k`, and the boolean reports ignored trailing
/// arguments.
pub open spec fn parse_post(
    args: Seq<String>,
    k: int,
    r: Result<(Cmd, bool), CmdError>,
) -> bool {
    let fb = exists|i: int| 0 <= i < k && #[trigger] args[i]@ == "--full-build"@;
    let pv = exists|i: int| 0 <= i < k && #[trigger] args[i]@ == "--private"@;
    if k == args.len() {
        r == Result::<(Cmd, bool), CmdError>::Err(CmdError::NoSubCmd)
    } else {
        let a = args[k]@;
        if a == "render-batch"@ {
            match r {
                Ok((cmd, trailing)) => {
                    &&& cmd.sub_cmd is RenderBatch
                    &&& cmd.flags == Flags { full_build: fb, private: pv }
                    &&& trailing == (args.len() > k + 1)
                },
                Err(_) => false,
            }
        } else if a == "render"@ {
            if args.len() >= k + 2 {
                match r {
                    Ok((cmd, trailing)) => {
                        &&& match cmd.sub_cmd {
                            SubCmd::Render { repo_name } => repo_name@ == args[k + 1]@,
                            _ => false,
                        }
                        &&& cmd.flags == Flags { full_build: fb, private: pv }
                        &&& trailing == (args.len() > k + 2)
                    },
                    Err(_) => false,
                }
            } else {
                match r {
                    Err(CmdError::MissingRepoName(t)) => t == CmdTag::Render,
                    _ => false,
                }
            }
        } else if a == "init"@ {
            if args.len() >= k + 3 {
                match r {
                    Ok((cmd, trailing)) => {
                        &&& match cmd.sub_cmd {
                            SubCmd::Init { repo_name, description } => repo_name@ == args[
                                k + 1
                            ]@ && description@ == args[k + 2]@,
                            _ => false,
                        }
                        &&& cmd.flags == Flags { full_build: fb, private: pv }
                        &&& trailing == (args.len() > k + 3)
                    },
                    Err(_) => false,
                }
            } else if args.len() == k + 2 {
                r == Result::<(Cmd, bool), CmdError>::Err(CmdError::MissingDescription)
            } else {
                match r {
                    Err(CmdError::MissingRepoName(t)) => t == CmdTag::Init,
                    _ => false,
                }
            }
        } else if a.len() >= 2 && a[0] == '-' && a[1] == '-' {
            match r {
                Err(CmdError::UnknownFlag(s)) => s@ == a,
                _ => false,
            }
        } else {
            match r {
                Err(CmdError::UnknownSubCmd(s)) => s@ == a,
                _ => false,
            }
        }
    }
}

impl Cmd {
    /// Parses a command line (the arguments after the program name):
    /// leading known flags, then a subcommand with its positional
    /// arguments.  The boolean reports that trailing arguments were
    /// given and ignored.
    pub fn parse(args: &Vec<String>) -> (r: Result<(Cmd, bool), CmdError>)
        ensures
            forall|k: int| flag_run_end(args@, k) ==> parse_post(args@, k, r),
    {
        let n = args.len();
        let mut i: usize = 0;
        let mut fb = false;
        let mut pv = false;
        let mut scanning = true;
        while scanning && i < n
            invariant
                i <= n == args@.len(),
                forall|j: int| 0 <= j < i ==> is_flag_arg(#[trigger] args@[j]@),
                fb == exists|j: int|
                    0 <= j < i && #[trigger] args@[j]@ == "--full-build"@,
                pv == exists|j: int| 0 <= j < i && #[trigger] args@[j]@ == "--private"@,
                !scanning ==> (i < n && !is_flag_arg(args@[i as int]@)),
            decreases n - i + if scanning {
                1int
            } else {
                0int
            },
        {
            proof {
                reveal_strlit("--full-build");
                reveal_strlit("--private");
                assert("--full-build"@.len() == 12);
                assert("--private"@.len() == 9);
                assert("--full-build"@ != "--private"@);
            }
            let a = &args[i];
            if str_eq(a.as_str(), "--full-build") {
                fb = true;
                i = i + 1;
            } else if str_eq(a.as_str(), "--private") {
                pv = true;
                i = i + 1;
            } else {
                scanning = false;
            }
        }
        proof {
            assert(flag_run_end(args@, i as int));
        }
        let ghost k = i as int;

        let r: Result<(Cmd, bool), CmdError> = if i >= n {
            Err(CmdError::NoSubCmd)
        } else {
            let a = &args[i];
            let flags = Flags { full_build: fb, private: pv };
            if str_eq(a.as_str(), "render-batch") {
                Ok((Cmd { sub_cmd: SubCmd::RenderBatch, flags }, n - i > 1))
            } else if str_eq(a.as_str(), "render") {
                if n - i > 1 {
                    let repo_name = args[i + 1].clone();
                    Ok(
                        (
                            Cmd { sub_cmd: SubCmd::Render { repo_name }, flags },
                            n - i > 2,
                        ),
                    )
                } else {
                    Err(CmdError::MissingRepoName(CmdTag::Render))
                }
            } else if str_eq(a.as_str(), "init") {
                if n - i > 2 {
                    let repo_name = args[i + 1].clone();
                    let description = args[i + 2].clone();
                    Ok(
                        (
                            Cmd {
                                sub_cmd: SubCmd::Init { repo_name, description },
                                flags,
                            },
                            n - i > 3,
                        ),
                    )
                } else if n - i == 2 {
                    Err(CmdError::MissingDescription)
                } else {
                    Err(CmdError::MissingRepoName(CmdTag::Init))
                }
            } else if starts_with_double_dash(a.as_str()) {
                Err(CmdError::UnknownFlag(a.clone()))
            } else {
                Err(CmdError::UnknownSubCmd(a.clone()))
            }
        };
        proof {
            assert forall|k2: int| flag_run_end(args@, k2) implies parse_post(
                args@,
                k2,
                r,
            ) by {
                if k2 < k {
                    assert(is_flag_arg(args@[k2]@));
                    assert(false);
                } else if k2 > k {
                    assert(is_flag_arg(args@[k]@));
                    assert(false);
                }
            }
        }
        r
    }
}

/// The usage line for a subcommand, or the general one.
pub open spec fn usage_spec(program_name: Seq<char>, tag: Option<CmdTag>) -> Seq<char> {
    match tag {
        Option::None => program_name + " [--full-build] [--private] <command> [<args>]"@,
        Option::Some(CmdTag::RenderBatch) => program_name
            + " [--full-build] [--private] render-batch"@,
        Option::Some(CmdTag::Render) => program_name
            + " [--full-build] [--private] render <repo-name>"@,
        Option::Some(CmdTag::Init) => program_name + " [--private] init <repo-name>"@,
    }
}

/// Builds the usage line that matches a subcommand.
pub fn usage(program_name: &str, tag: Option<CmdTag>) -> (out: String)
    ensures
        out@ == usage_spec(program_name@, tag),
{
    let mut out = program_name.to_owned();
    match tag {
        Option::None => out.append(" [--full-build] [--private] <command> [<args>]"),
        Option::Some(CmdTag::RenderBatch) => out.append(
            " [--full-build] [--private] render-batch",
        ),
        Option::Some(CmdTag::Render) => out.append(
            " [--full-build] [--private] render <repo-name>",
        ),
        Option::Some(CmdTag::Init) => out.append(" [--private] init <repo-name>"),
    }
    out
}

} // verus!
