use vstd::prelude::*;

use vstd::string::StringExecFns;

verus! {

/// What can end a run early.
#[derive(Clone, Debug, PartialEq, Eq)]
pub enum RunError {
    /// The program could not be started in its working directory.
    Spawn { program: String, workdir: String, reason: String },
    /// A captured stream could not be read or decoded.
    Stream { program: String, reason: String },
    /// A processor failed, for instance the advice service.
    Processor { program: String, reason: String },
    /// The advice service answered without any choice.
    NoAdvice,
    /// A tmux subcommand could not be launched or exited non-zero.
    TmuxProtocol { subcommand: String },
    /// The command ran and exited unsuccessfully (no code: ended by a signal).
    Exit { name: String, code: Option<i32> },
}

impl RunError {
    /// A one-line description for the user.
    pub fn message(&self) -> (r: String)
        ensures
            match self {
                RunError::Spawn { program, workdir, reason } => r@ == "could not spawn "@ + program@ + " in "@
                    + workdir@ + ": "@ + reason@,
                RunError::Stream { program, reason } => r@ == "could not read the output of "@ + program@ + ": "@
                    + reason@,
                RunError::Processor { program, reason } => r@ == "a processor failed on the output of "@ + program@
                    + ": "@ + reason@,
                RunError::NoAdvice => r@ == "no choice returned by the advice service"@,
                RunError::TmuxProtocol { subcommand } => r@ == "tmux command failed: "@ + subcommand@,
                RunError::Exit { name, .. } => r@ == "command exited unsuccessfully: "@ + name@,
            },
    {
        match self {
            RunError::Spawn { program, workdir, reason } => {
                let mut m = String::from_str("could not spawn ");
                m.append(program.as_str());
                m.append(" in ");
                m.append(workdir.as_str());
                m.append(": ");
                m.append(reason.as_str());
                m
            },
            RunError::Stream { program, reason } => {
                let mut m = String::from_str("could not read the output of ");
                m.append(program.as_str());
                m.append(": ");
                m.append(reason.as_str());
                m
            },
            RunError::Processor { program, reason } => {
                let mut m = String::from_str("a processor failed on the output of ");
                m.append(program.as_str());
                m.append(": ");
                m.append(reason.as_str());
                m
            },
            RunError::NoAdvice => String::from_str("no choice returned by the advice service"),
            RunError::TmuxProtocol { subcommand } => {
                let mut m = String::from_str("tmux command failed: ");
                m.append(subcommand.as_str());
                m
            },
            RunError::Exit { name, .. } => {
                let mut m = String::from_str("command exited unsuccessfully: ");
                m.append(name.as_str());
                m
            },
        }
    }
}

} // verus!
