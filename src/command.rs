//! How a command is launched: directly, or through a shell.
use vstd::prelude::*;

verus! {

/// The family of operating system that the command runs on.
#[derive(Clone, Copy, Debug, PartialEq, Eq, Structural)]
pub enum Platform {
    Unix,
    Windows,
}

/// How the command's words are handed to the system.
pub enum ExecMode {
    /// The first word is the program, the others its arguments, untouched.
    Direct,
    /// The words, joined by single spaces, form one command line for a shell:
    /// the one named, or else the platform's default.
    Shell(Option<String>),
}

/// A program to start and the arguments to start it with.
pub struct LaunchPlan {
    pub program: String,
    pub args: Vec<String>,
}

/// The views of a sequence of strings.
pub open spec fn string_views(v: Seq<String>) -> Seq<Seq<char>> {
    v.map_values(|s: String| s@)
}

/// The default shell of a platform.
pub open spec fn default_shell(p: Platform) -> Seq<char> {
    match p {
        Platform::Unix => "sh"@,
        Platform::Windows => "cmd"@,
    }
}

/// The flag that makes a platform's shell run the command line that follows.
pub open spec fn shell_flag(p: Platform) -> Seq<char> {
    match p {
        Platform::Unix => "-c"@,
        Platform::Windows => "/c"@,
    }
}

/// The words of `w` joined by single spaces.
pub open spec fn join_words(w: Seq<Seq<char>>) -> Seq<char>
    decreases w.len(),
{
    if w.len() == 0 {
        Seq::empty()
    } else if w.len() == 1 {
        w[0]
    } else {
        join_words(w.drop_last()) + " "@ + w.last()
    }
}

/// The program and arguments that the words `cmd` are launched with, or
/// `None` where there are no words and nothing is launched.
pub open spec fn planned(cmd: Seq<Seq<char>>, mode: ExecMode, p: Platform) -> Option<
    (Seq<char>, Seq<Seq<char>>),
> {
    if cmd.len() == 0 {
        None
    } else {
        match mode {
            ExecMode::Direct => Some((cmd[0], cmd.skip(1))),
            ExecMode::Shell(shell) => Some(
                (
                    match shell {
                        Some(s) => s@,
                        None => default_shell(p),
                    },
                    seq![shell_flag(p), join_words(cmd)],
                ),
            ),
        }
    }
}

/// The default shell of a platform and the flag that hands it a command line.
pub fn default_shell_for(p: Platform) -> (r: (String, String))
    ensures
        r.0@ == default_shell(p),
        r.1@ == shell_flag(p),
{
    match p {
        Platform::Unix => ("sh".to_string(), "-c".to_string()),
        Platform::Windows => ("cmd".to_string(), "/c".to_string()),
    }
}

/// The words of `cmd` joined by single spaces, with no quoting: the shell
/// reads spaces and special characters inside a word as its own.
pub fn join_command(cmd: &Vec<String>) -> (r: String)
    ensures
        r@ == join_words(string_views(cmd@)),
{
    let mut r = String::new();
    let mut i: usize = 0;
    while i < cmd.len()
        invariant
            i <= cmd@.len(),
            r@ == join_words(string_views(cmd@).take(i as int)),
        decreases cmd@.len() - i,
    {
        let ghost w = string_views(cmd@).take(i + 1);
        assert(w.drop_last() =~= string_views(cmd@).take(i as int));
        if i > 0 {
            r.append(" ");
        }
        r.append(cmd[i].as_str());
        proof {
            if i == 0 {
                assert(r@ =~= w[0]);
            } else {
                assert(r@ =~= join_words(w.drop_last()) + " "@ + w.last());
            }
        }
        i = i + 1;
    }
    assert(string_views(cmd@).take(i as int) =~= string_views(cmd@));
    r
}

/// What the words `cmd` are launched as; `None` where there are none, and
/// nothing is to be launched.
pub fn plan_command(cmd: &Vec<String>, mode: &ExecMode, p: Platform) -> (r: Option<LaunchPlan>)
    ensures
        match r {
            Some(plan) => planned(string_views(cmd@), *mode, p) == Some(
                (plan.program@, string_views(plan.args@)),
            ),
            None => planned(string_views(cmd@), *mode, p) is None,
        },
{
    if cmd.len() == 0 {
        return None;
    }
    match mode {
        ExecMode::Direct => {
            let mut args: Vec<String> = Vec::new();
            let mut i: usize = 1;
            while i < cmd.len()
                invariant
                    1 <= i <= cmd@.len(),
                    string_views(args@) == string_views(cmd@).skip(1).take(i - 1),
                decreases cmd@.len() - i,
            {
                let a = cmd[i].clone();
                let ghost before = args@;
                args.push(a);
                assert(string_views(args@) =~= string_views(before).push(a@));
                assert(string_views(args@) =~= string_views(cmd@).skip(1).take(i as int));
                i = i + 1;
            }
            assert(string_views(cmd@).skip(1).take(i - 1) =~= string_views(cmd@).skip(1));
            Some(LaunchPlan { program: cmd[0].clone(), args })
        },
        ExecMode::Shell(shell) => {
            let (default, flag) = default_shell_for(p);
            let program = match shell {
                Some(s) => s.clone(),
                None => default,
            };
            let mut args: Vec<String> = Vec::new();
            args.push(flag);
            args.push(join_command(cmd));
            assert(string_views(args@) =~= seq![shell_flag(p), join_words(string_views(cmd@))]);
            Some(LaunchPlan { program, args })
        },
    }
}

} // verus!
