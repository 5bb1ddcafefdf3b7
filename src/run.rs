//! One run: the environment is prepared, the command launched, and the
//! outcome turned into the process's exit status.
use vstd::prelude::*;
use crate::command::{planned, ExecMode, LaunchPlan, Platform};
use crate::dotenv::{assignment_views, Assignment};
use crate::environment::{apply_assignments, load_env, Environment};

verus! {

/// Why a dotenv file could not be read.
#[derive(Clone, Copy, Debug, PartialEq, Eq, Structural)]
pub enum ReadFailure {
    NotFound,
    PermissionDenied,
    InvalidText,
    Other,
}

/// How a launched child ended.
#[derive(Clone, Copy, Debug, PartialEq, Eq, Structural)]
pub enum ChildStatus {
    /// It exited with this code.
    Exited(i32),
    /// It was ended by this signal, without an exit code.
    Killed(i32),
}

/// What a run ended with, where nothing failed.
#[derive(Clone, Copy, Debug, PartialEq, Eq, Structural)]
pub enum Outcome {
    /// There was no command, and nothing was launched.
    NothingToRun,
    /// The child was launched and ended so.
    Finished(ChildStatus),
}

/// Why a run stopped before the child ended.
pub enum RunError {
    /// A dotenv file could not be read; nothing was launched.
    Load { path: String, failure: ReadFailure, reason: String },
    /// The child could not be started.
    Launch { program: String, reason: String },
}

/// The exit status for a child ended by signal `n`: `128 + n` for a signal
/// number of 1 to 127, as POSIX shells report it, else 1.
pub open spec fn killed_status(n: int) -> int {
    if 1 <= n <= 127 {
        128 + n
    } else {
        1
    }
}

/// The process's exit status for what a run ended with: 0 where nothing was
/// to run, the child's own code where it exited, and 1 where the run failed.
pub open spec fn status_of(r: Result<Outcome, RunError>) -> int {
    match r {
        Ok(Outcome::NothingToRun) => 0,
        Ok(Outcome::Finished(ChildStatus::Exited(c))) => c as int,
        Ok(Outcome::Finished(ChildStatus::Killed(n))) => killed_status(n as int),
        Err(_) => 1,
    }
}

/// With no command words nothing is launched, and the run succeeds.
pub proof fn lemma_empty_command_succeeds(mode: ExecMode, p: Platform)
    ensures
        planned(Seq::empty(), mode, p) is None,
        status_of(Ok(Outcome::NothingToRun)) == 0,
{
}

/// A dotenv file that cannot be read stops the run before anything is
/// launched, with a status other than 0.
pub proof fn lemma_failed_load_exits_nonzero(path: String, failure: ReadFailure, reason: String)
    ensures
        status_of(Err(RunError::Load { path, failure, reason })) != 0,
{
}

/// The environment that a run starts from: empty where it is to be cleared,
/// else the inherited variables.
pub fn initial_environment(inherited: &Vec<Assignment>, clear: bool) -> (r: Environment)
    ensures
        r.wf(),
        r@ == (if clear {
            Map::empty()
        } else {
            apply_assignments(Map::empty(), assignment_views(inherited@))
        }),
{
    let mut env = Environment::from_assignments(inherited);
    if clear {
        env.clear();
    }
    env
}

/// Loads into `env` the dotenv file at `path`, given what reading it gave.
/// Where the read failed the environment is left as it was and the run is to
/// stop. Returns the positions of the file's malformed lines.
pub fn load_file(env: &mut Environment, path: &String, read: Result<String, (ReadFailure, String)>) -> (r: Result<
    Vec<usize>,
    RunError,
>)
    requires
        old(env).wf(),
    ensures
        final(env).wf(),
        match read {
            Ok(content) => {
                &&& r matches Ok(m)
                &&& final(env)@ == load_env(old(env)@, content@)
                &&& crate::dotenv::positions(m@) == crate::dotenv::dotenv_malformed(content@)
            },
            Err((failure, reason)) => {
                &&& r matches Err(RunError::Load { path: p, failure: f, reason: why })
                &&& p@ == path@ && f == failure && why@ == reason@
                &&& final(env)@ == old(env)@
            },
        },
{
    match read {
        Ok(content) => Ok(env.load(content.as_str())),
        Err((failure, reason)) => Err(RunError::Load { path: path.clone(), failure, reason }),
    }
}

/// What a run ends with, given what launching `plan` gave: the child's
/// status, or the reason it could not be started.
pub fn launch_outcome(plan: &LaunchPlan, launched: Result<ChildStatus, String>) -> (r: Result<
    Outcome,
    RunError,
>)
    ensures
        match launched {
            Ok(s) => r == Ok::<Outcome, RunError>(Outcome::Finished(s)),
            Err(reason) => r matches Err(RunError::Launch { program: p, reason: why }) && p@
                == plan.program@ && why@ == reason@,
        },
{
    match launched {
        Ok(s) => Ok(Outcome::Finished(s)),
        Err(reason) => Err(RunError::Launch { program: plan.program.clone(), reason }),
    }
}

/// The process's exit status for what a run ended with.
pub fn exit_status(r: &Result<Outcome, RunError>) -> (code: i32)
    ensures
        code as int == status_of(*r),
{
    match r {
        Ok(Outcome::NothingToRun) => 0,
        Ok(Outcome::Finished(ChildStatus::Exited(c))) => *c,
        Ok(Outcome::Finished(ChildStatus::Killed(n))) => {
            if 1 <= *n && *n <= 127 {
                128 + *n
            } else {
                1
            }
        },
        Err(_) => 1,
    }
}

impl RunError {
    /// The one line that reports the failure, starting with what the run was
    /// doing: `loading dotenv file: <path>: <reason>` or
    /// `running command: <program>: <reason>`.
    pub fn message(&self) -> (r: String)
        ensures
            r@ == match self {
                RunError::Load { path, reason, .. } => "loading dotenv file: "@ + path@ + ": "@
                    + reason@,
                RunError::Launch { program, reason } => "running command: "@ + program@ + ": "@
                    + reason@,
            },
    {
        match self {
            RunError::Load { path, reason, .. } => {
                let mut r = "loading dotenv file: ".to_string();
                r.append(path.as_str());
                r.append(": ");
                r.append(reason.as_str());
                r
            },
            RunError::Launch { program, reason } => {
                let mut r = "running command: ".to_string();
                r.append(program.as_str());
                r.append(": ");
                r.append(reason.as_str());
                r
            },
        }
    }
}

} // verus!
