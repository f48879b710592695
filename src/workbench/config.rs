use crate::shell::{shell_split, shell_split_of};
use crate::text::views;
use vstd::prelude::*;
use vstd::string::StringExecFns;

verus! {

#[derive(Clone, Debug, PartialEq, Eq)]
pub struct Config {
    pub mode: Mode,
    pub tmux: Tmux,
    pub runs: Vec<Run>,
}

#[derive(Clone, Copy, Debug, PartialEq, Eq)]
pub enum Mode {
    Sequential,
    Parallel,
    Tmux,
}

#[derive(Clone, Debug, PartialEq, Eq)]
pub struct Tmux {
    pub program: String,
    pub session_prefix: String,
    pub socket_path: String,
}

#[derive(Clone, Debug, PartialEq, Eq)]
pub struct Run {
    pub cmd: Cmd,
}

/// A command, as one shell line or as its words.
#[derive(Clone, Debug, PartialEq, Eq)]
pub enum Cmd {
    CmdString(String),
    CmdVec(Vec<String>),
}

/// Why a command has no program to run.
#[derive(Clone, Copy, Debug, PartialEq, Eq)]
pub enum CmdError {
    /// The shell line leaves a quote open.
    Unbalanced,
    /// The command has no words.
    Empty,
}

/// The words of a command, or none when its shell line cannot be split.
pub open spec fn cmd_words(cmd: Cmd) -> Option<Seq<Seq<char>>> {
    match cmd {
        Cmd::CmdString(s) => shell_split_of(s@),
        Cmd::CmdVec(v) => Some(views(v@)),
    }
}

impl Default for Config {
    fn default() -> (r: Config)
        ensures
            r.mode == Mode::Sequential,
            r.tmux.program@ == "tmux"@,
            r.tmux.session_prefix@ == "workbench-"@,
            r.tmux.socket_path@ == "/tmp/tmux.workbench.sock"@,
            r.runs@.len() == 0,
    {
        Config {
            mode: Mode::Sequential,
            tmux: Tmux {
                program: String::from_str("tmux"),
                session_prefix: String::from_str("workbench-"),
                socket_path: String::from_str("/tmp/tmux.workbench.sock"),
            },
            runs: Vec::new(),
        }
    }
}

impl Cmd {
    /// The program and its arguments.
    pub fn parse(&self) -> (r: Result<(String, Vec<String>), CmdError>)
        ensures
            match cmd_words(*self) {
                None => r == Err::<(String, Vec<String>), CmdError>(CmdError::Unbalanced),
                Some(w) => if w.len() == 0 {
                    r == Err::<(String, Vec<String>), CmdError>(CmdError::Empty)
                } else {
                    r matches Ok((p, a)) && p@ == w[0] && views(a@) == w.drop_first()
                },
            },
    {
        let words: Vec<String> = match self {
            Cmd::CmdString(s) => match shell_split(s.as_str()) {
                Ok(w) => w,
                Err(_) => {
                    return Err(CmdError::Unbalanced);
                },
            },
            Cmd::CmdVec(v) => {
                let mut w: Vec<String> = Vec::new();
                let mut i: usize = 0;
                while i < v.len()
                    invariant
                        i <= v@.len(),
                        views(w@) == views(v@).subrange(0, i as int),
                    decreases v@.len() - i,
                {
                    let ghost before = w@;
                    w.push(v[i].clone());
                    assert(views(w@) =~= views(before).push(v@[i as int]@));
                    assert(views(w@) =~= views(v@).subrange(0, i + 1));
                    i = i + 1;
                }
                assert(views(v@).subrange(0, v@.len() as int) =~= views(v@));
                w
            },
        };
        if words.len() == 0 {
            return Err(CmdError::Empty);
        }
        let program = words[0].clone();
        let mut args: Vec<String> = Vec::new();
        let mut i: usize = 1;
        while i < words.len()
            invariant
                1 <= i <= words@.len(),
                views(args@) == views(words@).subrange(1, i as int),
            decreases words@.len() - i,
        {
            let ghost before = args@;
            args.push(words[i].clone());
            assert(views(args@) =~= views(before).push(words@[i as int]@));
            assert(views(args@) =~= views(words@).subrange(1, i + 1));
            i = i + 1;
        }
        assert(views(words@).drop_first() =~= views(words@).subrange(1, words@.len() as int));
        Ok((program, args))
    }
}

} // verus!
