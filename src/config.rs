use crate::paths::{is_absolute, join_path, joined, path_is_absolute};
use crate::pipeline::DEFAULT_API_BASE_URL;
use crate::runner::{
    RunnerCommand, RunnerLog, RunnerMode, RunnerOpenai, RunnerOptions, RunnerPrefix, RunnerTmux,
};
use crate::shell::{shell_split, shell_split_of};
use crate::text::views;
use vstd::prelude::*;
use vstd::string::StrSliceExecFns;
use vstd::string::StringExecFns;

verus! {

/// Settings from the command line and the configuration file; every field
/// may be unset, and defaults are applied when options are resolved.
#[derive(Clone, Debug, Default, PartialEq, Eq)]
pub struct Config {
    pub envs: Vec<String>,
    pub log: Log,
    pub mode: Option<Mode>,
    pub openai: Openai,
    pub prefix: Prefix,
    pub raw: Option<Option<bool>>,
    pub runs: Vec<Command>,
    pub tags: Option<Vec<String>>,
    pub tmux: Tmux,
    pub workdir: Option<String>,
}

/// One command as configured: its words, environment, name, description,
/// tags and working directory (relative to the base one).
#[derive(Clone, Debug, Default, PartialEq, Eq)]
pub struct Command {
    pub command_cmd: Vec<String>,
    pub command_envs: Vec<String>,
    pub command_name: Option<String>,
    pub command_description: Option<String>,
    pub command_tags: Vec<String>,
    pub command_workdir: Option<String>,
}

#[derive(Clone, Debug, Default, PartialEq, Eq)]
pub struct Log {
    pub log_enabled: Option<Option<bool>>,
    pub log_spawns: Option<Option<bool>>,
    pub log_terminations: Option<Option<bool>>,
}

#[derive(Clone, Debug, Default, PartialEq, Eq)]
pub struct Openai {
    pub openai_enabled: Option<Option<bool>>,
    pub openai_api_base_url: Option<String>,
    pub openai_api_key: Option<String>,
}

#[derive(Clone, Copy, Debug, Default, PartialEq, Eq)]
pub enum Mode {
    #[default]
    Sequential,
    Parallel,
    Tmux,
}

#[derive(Clone, Debug, Default, PartialEq, Eq)]
pub struct Prefix {
    pub prefix_enabled: Option<Option<bool>>,
}

#[derive(Clone, Debug, Default, PartialEq, Eq)]
pub struct Tmux {
    pub tmux_kill_duplicate_session: Option<Option<bool>>,
    pub tmux_program: Option<String>,
    pub tmux_session_prefix: Option<String>,
    pub tmux_socket_path: Option<String>,
}

/// Why a configuration cannot be run.
#[derive(Clone, Debug, PartialEq, Eq)]
pub enum ConfigError {
    /// The base working directory is not absolute.
    RelativeWorkdir,
    /// No command is configured.
    NoCommands,
    /// A command has no program.
    NoProgram,
    /// An environment entry has no `=`; it is given back.
    InvalidEnv(String),
    /// A command line leaves a quote open; it is given back.
    UnbalancedQuote(String),
    /// A literate configuration holds a code block that is not fenced `toml`.
    UntaggedCodeBlock,
    /// The configuration file's path has no parent directory.
    NoParentDirectory,
}

/// A boolean flag: unset gives the default, set without a value means true.
pub open spec fn resolved(opts: Option<Option<bool>>, default_value: bool) -> bool {
    match opts {
        Some(Some(b)) => b,
        Some(None) => true,
        None => default_value,
    }
}

pub fn resolve_bool(opts: Option<Option<bool>>, default_value: bool) -> (r: bool)
    ensures
        r == resolved(opts, default_value),
{
    match opts {
        Some(Some(b)) => b,
        Some(None) => true,
        None => default_value,
    }
}

/// `k` and `v` are what lies before and after the first `=` of `kv`.
pub open spec fn env_split(kv: Seq<char>, k: Seq<char>, v: Seq<char>) -> bool {
    kv == k + seq!['='] + v && !k.contains('=')
}

/// Relies on str::split_once: the text before and after the first `=`,
/// when there is one.
#[verifier::external_body]
fn split_env(kv: &str) -> (r: Option<(String, String)>)
    ensures
        match r {
            None => !kv@.contains('='),
            Some((k, v)) => env_split(kv@, k@, v@),
        },
{
    match kv.split_once('=') {
        Some((k, v)) => Some((k.to_string(), v.to_string())),
        None => None,
    }
}

/// The first entry of `envs` that has no `=`.
pub open spec fn first_invalid_env(envs: Seq<Seq<char>>) -> Option<Seq<char>>
    decreases envs.len(),
{
    if envs.len() == 0 {
        None
    } else if !envs[0].contains('=') {
        Some(envs[0])
    } else {
        first_invalid_env(envs.drop_first())
    }
}

/// The environment of a command: the shared entries, then its own.
pub open spec fn run_envs(config: Config, run: Command) -> Seq<Seq<char>> {
    views(config.envs@) + views(run.command_envs@)
}

/// The command `run` cannot be resolved.
pub open spec fn run_is_bad(config: Config, run: Command) -> bool {
    run.command_cmd@.len() == 0 || first_invalid_env(run_envs(config, run)) is Some
}

/// The first position `i` or later of a command that cannot be resolved.
pub open spec fn first_bad_run(config: Config, i: int) -> Option<int>
    decreases config.runs@.len() - i,
{
    if i < 0 || i >= config.runs@.len() {
        None
    } else if run_is_bad(config, config.runs@[i]) {
        Some(i)
    } else {
        first_bad_run(config, i + 1)
    }
}

/// The directory that relative working directories start from.
pub open spec fn base_workdir(config: Config, cwd: Seq<char>) -> Seq<char> {
    match config.workdir {
        Some(w) => w@,
        None => cwd,
    }
}

/// `c` is the command `run` resolved against the base directory `base`.
pub open spec fn resolved_command(config: Config, run: Command, base: Seq<char>, c: RunnerCommand) -> bool {
    &&& run.command_cmd@.len() > 0
    &&& c.program@ == run.command_cmd@[0]@
    &&& views(c.args@) == views(run.command_cmd@).drop_first()
    &&& c.description == run.command_description
    &&& c.envs@.len() == run_envs(config, run).len()
    &&& forall|j: int| 0 <= j < c.envs@.len() ==> env_split(
        #[trigger] run_envs(config, run)[j],
        c.envs@[j].0@,
        c.envs@[j].1@,
    )
    &&& c.name@ == match run.command_name {
        Some(n) => n@,
        None => run.command_cmd@[0]@,
    }
    &&& c.tags@ == run.command_tags@
    &&& c.workdir@ == match run.command_workdir {
        Some(w) => joined(base, w@),
        None => base,
    }
}

/// `o` holds the settings of `config` with their defaults applied.
pub open spec fn resolved_settings(config: Config, temp_dir: Seq<char>, o: RunnerOptions) -> bool {
    let raw = resolved(config.raw, false);
    let log_enabled = resolved(config.log.log_enabled, true);
    &&& o.log.spawns == (log_enabled && resolved(config.log.log_spawns, false))
    &&& o.log.terminations == (log_enabled && resolved(config.log.log_terminations, true))
    &&& o.mode == match config.mode {
        Some(Mode::Parallel) => RunnerMode::Parallel,
        Some(Mode::Tmux) => RunnerMode::Tmux,
        _ => RunnerMode::Sequential,
    }
    &&& (o.openai is Enabled <==> (!raw && resolved(config.openai.openai_enabled, false)
        && config.openai.openai_api_key is Some))
    &&& (o.openai matches RunnerOpenai::Enabled { api_key, api_base_url } ==> {
        &&& config.openai.openai_api_key == Some(api_key)
        &&& api_base_url@ == match config.openai.openai_api_base_url {
            Some(u) => u@,
            None => DEFAULT_API_BASE_URL@,
        }
    })
    &&& (o.prefix is Enabled <==> (!raw && resolved(config.prefix.prefix_enabled, true)))
    &&& o.tags@ == match config.tags {
        Some(t) => t@,
        None => Seq::<String>::empty(),
    }
    &&& o.tmux.kill_duplicate_session == resolved(config.tmux.tmux_kill_duplicate_session, true)
    &&& o.tmux.program@ == match config.tmux.tmux_program {
        Some(p) => p@,
        None => "tmux"@,
    }
    &&& o.tmux.session_prefix@ == match config.tmux.tmux_session_prefix {
        Some(p) => p@,
        None => "run-cli-"@,
    }
    &&& o.tmux.socket_path@ == match config.tmux.tmux_socket_path {
        Some(p) => p@,
        None => joined(temp_dir, "tmux.run_cli.sock"@),
    }
}

fn clone_strings(v: &Vec<String>) -> (r: Vec<String>)
    ensures
        r@ == v@,
{
    let mut out: Vec<String> = Vec::new();
    let mut i: usize = 0;
    while i < v.len()
        invariant
            i <= v@.len(),
            out@ == v@.subrange(0, i as int),
        decreases v@.len() - i,
    {
        out.push(v[i].clone());
        assert(out@ =~= v@.subrange(0, i + 1));
        i = i + 1;
    }
    assert(v@.subrange(0, v@.len() as int) =~= v@);
    out
}

fn clone_opt(v: &Option<String>) -> (r: Option<String>)
    ensures
        r == *v,
{
    match v {
        Some(s) => Some(s.clone()),
        None => None,
    }
}

/// Splits each entry of `envs` at its first `=` and appends the pairs to
/// `out`; gives back the first entry without one.
fn push_env_pairs(envs: &Vec<String>, out: &mut Vec<(String, String)>) -> (r: Option<String>)
    ensures
        match r {
            Some(bad) => first_invalid_env(views(envs@)) == Some(bad@),
            None => {
                &&& first_invalid_env(views(envs@)) is None
                &&& final(out)@.len() == old(out)@.len() + envs@.len()
                &&& final(out)@.subrange(0, old(out)@.len() as int) == old(out)@
                &&& forall|j: int| 0 <= j < envs@.len() ==> env_split(
                    #[trigger] envs@[j]@,
                    final(out)@[old(out)@.len() + j].0@,
                    final(out)@[old(out)@.len() + j].1@,
                )
            },
        },
{
    let ghost start = out@;
    assert(views(envs@).subrange(0, envs@.len() as int) =~= views(envs@));
    let mut i: usize = 0;
    while i < envs.len()
        invariant
            i <= envs@.len(),
            first_invalid_env(views(envs@)) == first_invalid_env(views(envs@).subrange(i as int, envs@.len() as int)),
            out@.len() == start.len() + i,
            out@.subrange(0, start.len() as int) == start,
            forall|j: int| 0 <= j < i ==> env_split(
                #[trigger] envs@[j]@,
                out@[start.len() + j].0@,
                out@[start.len() + j].1@,
            ),
        decreases envs@.len() - i,
    {
        let ghost rest = views(envs@).subrange(i as int, envs@.len() as int);
        match split_env(envs[i].as_str()) {
            Some(pair) => {
                assert(rest.drop_first() =~= views(envs@).subrange(i + 1, envs@.len() as int));
                assert(rest[0].contains('=')) by {
                    let k = pair.0@.len() as int;
                    assert(rest[0][k] == '=');
                }
                let ghost before = out@;
                out.push(pair);
                assert(out@.subrange(0, start.len() as int) =~= before.subrange(0, start.len() as int));
            },
            None => {
                return Some(envs[i].clone());
            },
        }
        i = i + 1;
    }
    None
}

proof fn lemma_invalid_env_concat(a: Seq<Seq<char>>, b: Seq<Seq<char>>)
    ensures
        first_invalid_env(a + b) == match first_invalid_env(a) {
            Some(x) => Some(x),
            None => first_invalid_env(b),
        },
    decreases a.len(),
{
    if a.len() > 0 {
        assert((a + b).drop_first() =~= a.drop_first() + b);
        lemma_invalid_env_concat(a.drop_first(), b);
    } else {
        assert(a + b =~= b);
    }
}

/// Resolves one configured command against the base directory `base`.
fn resolve_command(config: &Config, run: &Command, base: &String) -> (r: Result<RunnerCommand, ConfigError>)
    ensures
        match r {
            Ok(c) => !run_is_bad(*config, *run) && resolved_command(*config, *run, base@, c),
            Err(e) => {
                &&& run_is_bad(*config, *run)
                &&& run.command_cmd@.len() == 0 ==> e == ConfigError::NoProgram
                &&& run.command_cmd@.len() > 0 ==> (e matches ConfigError::InvalidEnv(bad)
                    && first_invalid_env(run_envs(*config, *run)) == Some(bad@))
            },
        },
{
    if run.command_cmd.len() == 0 {
        return Err(ConfigError::NoProgram);
    }
    let program = run.command_cmd[0].clone();
    let mut args: Vec<String> = Vec::new();
    let mut i: usize = 1;
    while i < run.command_cmd.len()
        invariant
            1 <= i <= run.command_cmd@.len(),
            views(args@) == views(run.command_cmd@).subrange(1, i as int),
        decreases run.command_cmd@.len() - i,
    {
        let ghost before = args@;
        args.push(run.command_cmd[i].clone());
        assert(views(args@) =~= views(before).push(run.command_cmd@[i as int]@));
        assert(views(args@) =~= views(run.command_cmd@).subrange(1, i + 1));
        i = i + 1;
    }
    assert(views(run.command_cmd@).drop_first() =~= views(run.command_cmd@).subrange(
        1,
        run.command_cmd@.len() as int,
    ));
    let mut envs: Vec<(String, String)> = Vec::new();
    proof {
        lemma_invalid_env_concat(views(config.envs@), views(run.command_envs@));
    }
    match push_env_pairs(&config.envs, &mut envs) {
        Some(bad) => {
            return Err(ConfigError::InvalidEnv(bad));
        },
        None => {},
    }
    let ghost shared = envs@;
    match push_env_pairs(&run.command_envs, &mut envs) {
        Some(bad) => {
            return Err(ConfigError::InvalidEnv(bad));
        },
        None => {},
    }
    proof {
        let all = run_envs(*config, *run);
        let nc = config.envs@.len() as int;
        assert forall|j: int| 0 <= j < envs@.len() implies env_split(
            #[trigger] all[j],
            envs@[j].0@,
            envs@[j].1@,
        ) by {
            if j < nc {
                assert(envs@[j] == envs@.subrange(0, shared.len() as int)[j]);
                assert(all[j] == config.envs@[j]@);
            } else {
                assert(all[j] == run.command_envs@[j - nc]@);
            }
        }
    }
    let name = match &run.command_name {
        Some(n) => n.clone(),
        None => program.clone(),
    };
    let workdir = match &run.command_workdir {
        Some(w) => join_path(base.as_str(), w.as_str()),
        None => base.clone(),
    };
    Ok(RunnerCommand {
        program,
        args,
        description: clone_opt(&run.command_description),
        envs,
        name,
        tags: clone_strings(&run.command_tags),
        workdir,
    })
}

/// How a configuration file is written.
#[derive(Clone, Copy, Debug, PartialEq, Eq)]
pub enum ConfigFormat {
    /// Plain TOML.
    Toml,
    /// Markdown whose fenced `toml` code blocks hold the settings.
    LiterateToml,
}

/// `s` ends with `suffix`.
pub open spec fn has_suffix(s: Seq<char>, suffix: Seq<char>) -> bool {
    s.len() >= suffix.len() && s.subrange(s.len() - suffix.len(), s.len() as int) == suffix
}

/// Tells whether `s` ends with `suffix`.
pub fn ends_with(s: &str, suffix: &str) -> (r: bool)
    ensures
        r == has_suffix(s@, suffix@),
{
    let n = s.unicode_len();
    let k = suffix.unicode_len();
    if k > n {
        return false;
    }
    let mut i: usize = 0;
    while i < k
        invariant
            n == s@.len(),
            k == suffix@.len(),
            k <= n,
            i <= k,
            forall|j: int| 0 <= j < i ==> s@[n - k + j] == suffix@[j],
        decreases k - i,
    {
        if s.get_char(n - k + i) != suffix.get_char(i) {
            assert(s@.subrange(n - k, n as int)[i as int] != suffix@[i as int]);
            return false;
        }
        i = i + 1;
    }
    assert(s@.subrange(n - k, n as int) =~= suffix@);
    true
}

/// The format of the configuration file at `path`, told by its extension:
/// `.toml`, or `.toml.md` for a literate one; none for any other.
pub fn config_format(path: &str) -> (r: Option<ConfigFormat>)
    ensures
        has_suffix(path@, ".toml"@) ==> r == Some(ConfigFormat::Toml),
        !has_suffix(path@, ".toml"@) && has_suffix(path@, ".toml.md"@) ==> r == Some(ConfigFormat::LiterateToml),
        !has_suffix(path@, ".toml"@) && !has_suffix(path@, ".toml.md"@) ==> r is None,
{
    if ends_with(path, ".toml") {
        Some(ConfigFormat::Toml)
    } else if ends_with(path, ".toml.md") {
        Some(ConfigFormat::LiterateToml)
    } else {
        None
    }
}

/// What std::path::Path::parent gives for a path.
pub uninterp spec fn parent_of(p: Seq<char>) -> Option<Seq<char>>;

/// Relies on std::path::Path::parent: the path without its last
/// component, or none for a root or an empty path.
#[verifier::external_body]
fn path_parent(p: &str) -> (r: Option<String>)
    ensures
        match r {
            Some(d) => parent_of(p@) == Some(d@),
            None => parent_of(p@) is None,
        },
{
    std::path::Path::new(p).parent().map(|d| d.to_string_lossy().into_owned())
}

/// A command made of the words `words` alone, every other setting unset.
pub open spec fn plain_command(c: Command, words: Seq<Seq<char>>) -> bool {
    &&& views(c.command_cmd@) == words
    &&& c.command_envs@.len() == 0
    &&& c.command_name is None
    &&& c.command_description is None
    &&& c.command_tags@.len() == 0
    &&& c.command_workdir is None
}

impl Config {
    /// Makes the base working directory start from the directory of the
    /// configuration file at `config_path`: that directory itself when none
    /// is set, else the set one taken from there.
    pub fn set_absolute_workdir(&mut self, config_path: &str) -> (r: Result<(), ConfigError>)
        ensures
            parent_of(config_path@) is None ==> r == Err::<(), ConfigError>(ConfigError::NoParentDirectory)
                && *final(self) == *old(self),
            parent_of(config_path@) matches Some(dir) ==> {
                &&& r is Ok
                &&& final(self).workdir matches Some(w) && w@ == match old(self).workdir {
                    Some(v) => joined(dir, v@),
                    None => dir,
                }
                &&& final(self).runs == old(self).runs
                &&& final(self).envs == old(self).envs
            },
    {
        let dir = match path_parent(config_path) {
            Some(d) => d,
            None => {
                return Err(ConfigError::NoParentDirectory);
            },
        };
        let workdir = match &self.workdir {
            Some(w) => join_path(dir.as_str(), w.as_str()),
            None => dir,
        };
        self.workdir = Some(workdir);
        Ok(())
    }

    /// Appends a command for each shell line of `lines`, split into words as
    /// a POSIX shell would; stops at the first line that leaves a quote open.
    pub fn append_command_lines(&mut self, lines: &Vec<String>) -> (r: Result<(), ConfigError>)
        ensures
            final(self).envs == old(self).envs,
            final(self).workdir == old(self).workdir,
            final(self).runs@.len() >= old(self).runs@.len(),
            final(self).runs@.subrange(0, old(self).runs@.len() as int) == old(self).runs@,
            forall|j: int| old(self).runs@.len() <= j < final(self).runs@.len() ==> plain_command(
                #[trigger] final(self).runs@[j],
                shell_split_of(lines@[j - old(self).runs@.len()]@)->Some_0,
            ) && shell_split_of(lines@[j - old(self).runs@.len()]@) is Some,
            r is Ok <==> forall|j: int| 0 <= j < lines@.len() ==> #[trigger] shell_split_of(lines@[j]@) is Some,
            r is Ok ==> final(self).runs@.len() == old(self).runs@.len() + lines@.len(),
            r matches Err(e) ==> e matches ConfigError::UnbalancedQuote(l) && exists|j: int|
                0 <= j < lines@.len() && lines@[j]@ == l@ && shell_split_of(lines@[j]@) is None
                    && final(self).runs@.len() == old(self).runs@.len() + j,
    {
        let ghost start = self.runs@;
        let mut i: usize = 0;
        while i < lines.len()
            invariant
                i <= lines@.len(),
                self.envs == old(self).envs,
                self.workdir == old(self).workdir,
                start == old(self).runs@,
                self.runs@.len() == start.len() + i,
                self.runs@.subrange(0, start.len() as int) == start,
                forall|j: int| 0 <= j < i ==> #[trigger] shell_split_of(lines@[j]@) is Some,
                forall|j: int| start.len() <= j < self.runs@.len() ==> plain_command(
                    #[trigger] self.runs@[j],
                    shell_split_of(lines@[j - start.len()]@)->Some_0,
                ) && shell_split_of(lines@[j - start.len()]@) is Some,
            decreases lines@.len() - i,
        {
            match shell_split(lines[i].as_str()) {
                Ok(words) => {
                    let ghost before = self.runs@;
                    self.runs.push(Command {
                        command_cmd: words,
                        command_envs: Vec::new(),
                        command_name: None,
                        command_description: None,
                        command_tags: Vec::new(),
                        command_workdir: None,
                    });
                    assert(self.runs@.subrange(0, start.len() as int) =~= before.subrange(0, start.len() as int));
                },
                Err(_) => {
                    return Err(ConfigError::UnbalancedQuote(lines[i].clone()));
                },
            }
            i = i + 1;
        }
        Ok(())
    }
}

impl RunnerOptions {
    /// Resolves a configuration into the engine's options. Relative working
    /// directories start from the configured one, else from `cwd`; the tmux
    /// socket defaults to a file in `temp_dir`.
    pub fn from_config(config: Config, cwd: String, temp_dir: String) -> (r: Result<RunnerOptions, ConfigError>)
        ensures
            !is_absolute(base_workdir(config, cwd@)) ==> r == Err::<RunnerOptions, ConfigError>(
                ConfigError::RelativeWorkdir,
            ),
            is_absolute(base_workdir(config, cwd@)) && config.runs@.len() == 0 ==> r == Err::<
                RunnerOptions,
                ConfigError,
            >(ConfigError::NoCommands),
            is_absolute(base_workdir(config, cwd@)) && config.runs@.len() > 0 ==> match first_bad_run(config, 0) {
                Some(i) => {
                    let run = config.runs@[i];
                    &&& r is Err
                    &&& run.command_cmd@.len() == 0 ==> r == Err::<RunnerOptions, ConfigError>(ConfigError::NoProgram)
                    &&& run.command_cmd@.len() > 0 ==> (r matches Err(ConfigError::InvalidEnv(bad))
                        && first_invalid_env(run_envs(config, run)) == Some(bad@))
                },
                None => r matches Ok(o) && {
                    &&& o.commands@.len() == config.runs@.len()
                    &&& forall|i: int| 0 <= i < config.runs@.len() ==> resolved_command(
                        config,
                        #[trigger] config.runs@[i],
                        base_workdir(config, cwd@),
                        o.commands@[i],
                    )
                    &&& resolved_settings(config, temp_dir@, o)
                },
            },
    {
        let base = match &config.workdir {
            Some(w) => w.clone(),
            None => cwd,
        };
        if !path_is_absolute(base.as_str()) {
            return Err(ConfigError::RelativeWorkdir);
        }
        if config.runs.len() == 0 {
            return Err(ConfigError::NoCommands);
        }
        let mut commands: Vec<RunnerCommand> = Vec::new();
        let mut i: usize = 0;
        while i < config.runs.len()
            invariant
                i <= config.runs@.len(),
                base@ == base_workdir(config, cwd@),
                is_absolute(base@),
                first_bad_run(config, 0) == first_bad_run(config, i as int),
                commands@.len() == i,
                forall|j: int| 0 <= j < i ==> resolved_command(
                    config,
                    #[trigger] config.runs@[j],
                    base@,
                    commands@[j],
                ),
            decreases config.runs@.len() - i,
        {
            match resolve_command(&config, &config.runs[i], &base) {
                Ok(c) => {
                    commands.push(c);
                },
                Err(e) => {
                    return Err(e);
                },
            }
            i = i + 1;
        }
        let raw = resolve_bool(config.raw, false);
        let log_enabled = resolve_bool(config.log.log_enabled, true);
        let log = RunnerLog {
            spawns: log_enabled && resolve_bool(config.log.log_spawns, false),
            terminations: log_enabled && resolve_bool(config.log.log_terminations, true),
        };
        let mode = match config.mode {
            Some(Mode::Parallel) => RunnerMode::Parallel,
            Some(Mode::Tmux) => RunnerMode::Tmux,
            _ => RunnerMode::Sequential,
        };
        let openai_enabled = resolve_bool(config.openai.openai_enabled, false);
        let openai = match (raw, openai_enabled, clone_opt(&config.openai.openai_api_key)) {
            (false, true, Some(api_key)) => RunnerOpenai::Enabled {
                api_key,
                api_base_url: match &config.openai.openai_api_base_url {
                    Some(u) => u.clone(),
                    None => String::from_str(DEFAULT_API_BASE_URL),
                },
            },
            _ => RunnerOpenai::Disabled,
        };
        let prefix = if !raw && resolve_bool(config.prefix.prefix_enabled, true) {
            RunnerPrefix::Enabled
        } else {
            RunnerPrefix::Disabled
        };
        let tags = match &config.tags {
            Some(t) => clone_strings(t),
            None => Vec::new(),
        };
        let tmux = RunnerTmux {
            kill_duplicate_session: resolve_bool(config.tmux.tmux_kill_duplicate_session, true),
            program: match &config.tmux.tmux_program {
                Some(p) => p.clone(),
                None => String::from_str("tmux"),
            },
            session_prefix: match &config.tmux.tmux_session_prefix {
                Some(p) => p.clone(),
                None => String::from_str("run-cli-"),
            },
            socket_path: match &config.tmux.tmux_socket_path {
                Some(p) => p.clone(),
                None => join_path(temp_dir.as_str(), "tmux.run_cli.sock"),
            },
        };
        Ok(RunnerOptions { commands, log, mode, openai, prefix, tags, tmux })
    }
}

} // verus!
