//! Shells named by their program, piped command lines and remote scripts.
use vstd::prelude::*;
use crate::text::{copy_string, copy_strings, owned};
use crate::specs::shell::{Shell, ShellView, CommandLine, CommandLineView, shell_of};
use crate::specs::shell::command::{Outcome, CommandError, call, outcome_error, same_error};

verus! {

/// Two command lines run together, the standard output of `first` feeding
/// the standard input of `second`.
pub struct Pipe {
    pub first: CommandLine,
    pub second: CommandLine,
}

/// Mathematical form of a [`Pipe`].
pub struct PipeView {
    pub first: CommandLineView,
    pub second: CommandLineView,
}

impl View for Pipe {
    type V = PipeView;

    open spec fn view(&self) -> PipeView {
        PipeView { first: self.first@, second: self.second@ }
    }
}

/// `program_a args_a | program_b args_b`.
pub fn pipe(program_a: &str, args_a: &Vec<String>, program_b: &str, args_b: &Vec<String>) -> (r: Pipe)
    ensures
        r@.first == (CommandLineView { program: program_a@, args: args_a@.map_values(|a: String| a@) }),
        r@.second == (CommandLineView { program: program_b@, args: args_b@.map_values(|a: String| a@) }),
{
    Pipe {
        first: CommandLine { program: owned(program_a), args: copy_strings(args_a) },
        second: CommandLine { program: owned(program_b), args: copy_strings(args_b) },
    }
}

/// What the second command of a pipe that succeeded wrote.
#[derive(Debug)]
pub struct PipeOutput {
    /// Its standard output.
    pub stdout: Vec<u8>,
    /// Its standard error.
    pub stderr: String,
}

/// What a command wrote to its standard error, as its outcome records it.
pub open spec fn outcome_stderr(o: Outcome) -> Seq<char> {
    match o {
        Outcome::Exited { stderr, .. } => stderr@,
        Outcome::Signaled { stderr } => stderr@,
        Outcome::NotStarted { .. } => Seq::empty(),
    }
}

/// A pipe succeeds when its second command exits with code zero, and then
/// gives that command's output: `stdout`, what it wrote to its standard
/// output, and its standard error; otherwise it fails with what that
/// command reported.
pub fn pipe_result(second: &Outcome, stdout: Vec<u8>) -> (r: Result<PipeOutput, CommandError>)
    ensures
        match outcome_error(*second) {
            None => r matches Ok(o) && o.stdout@ == stdout@ && o.stderr@ == outcome_stderr(*second),
            Some(e) => r matches Err(f) && same_error(f, e),
        },
{
    match call(second) {
        Ok(()) => {
            let stderr = match second {
                Outcome::Exited { stderr, .. } => copy_string(stderr),
                Outcome::Signaled { stderr } => copy_string(stderr),
                Outcome::NotStarted { .. } => String::new(),
            };
            Ok(PipeOutput { stdout, stderr })
        },
        Err(e) => Err(e),
    }
}

/// The program `curl`.
pub open spec fn curl_program() -> Seq<char> {
    seq!['c', 'u', 'r', 'l']
}

/// Fetching a script with `curl` and running it in `shell`.
pub open spec fn remote_script_pipe(shell: ShellView, curl_args: Seq<Seq<char>>) -> PipeView {
    PipeView {
        first: CommandLineView { program: curl_program(), args: curl_args },
        second: CommandLineView { program: shell.command, args: Seq::empty() },
    }
}

/// Shell in the form it is written in a build file: the program's path.
pub struct ShellSpec(pub String);

impl ShellSpec {
    /// The shell the spec names.
    pub fn into_shell(self) -> (r: Shell)
        ensures
            r@ == shell_of(self.0@),
    {
        Shell::from(self.0)
    }

    /// The spec naming `shell`.
    pub fn from_shell(shell: Shell) -> (r: ShellSpec)
        ensures
            r.0@ == shell@.command,
    {
        ShellSpec(shell.command)
    }
}

impl Shell {
    /// Runs the script that `curl` fetches with `curl_args` in this shell
    /// (`curl <curl_args> | <shell>`).
    pub fn remote_script(&self, curl_args: &Vec<String>) -> (r: Pipe)
        ensures
            r@ == remote_script_pipe(self@, curl_args@.map_values(|a: String| a@)),
    {
        proof {
            reveal_strlit("curl");
            assert("curl"@ =~= curl_program());
        }
        let none: Vec<String> = Vec::new();
        let r = pipe("curl", curl_args, self.command.as_str(), &none);
        assert(none@.map_values(|a: String| a@) =~= Seq::<Seq<char>>::empty());
        r
    }
}

} // verus!
