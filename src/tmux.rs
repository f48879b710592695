use crate::error::RunError;
use crate::runner::{Runner, RunnerCommand};
use crate::shell::{shell_join, shell_joined_of};
use crate::text::views;
use vstd::prelude::*;
use vstd::string::StringExecFns;

verus! {

/// One invocation of tmux: its subcommand and arguments, and whether a
/// failure of it ends the run.
#[derive(Clone, Debug, PartialEq, Eq)]
pub struct TmuxCall {
    pub args: Vec<String>,
    pub required: bool,
}

/// The program and then the arguments of a command.
pub open spec fn command_words(cmd: RunnerCommand) -> Seq<Seq<char>> {
    seq![cmd.program@] + views(cmd.args@)
}

/// The shell line a pane runs for `cmd`: the command, then a `read` that
/// keeps the pane open once it has exited.
pub open spec fn pane_line(cmd: RunnerCommand) -> Seq<char> {
    shell_joined_of(command_words(cmd)) + "; read"@
}

pub open spec fn kill_call(s: Seq<char>) -> Seq<Seq<char>> {
    seq!["kill-session"@, "-t"@, s]
}

/// The call that creates the pane of `cmd`: the session itself for the
/// first command, a vertical split of it for the others.
pub open spec fn create_call(s: Seq<char>, cmd: RunnerCommand, first: bool) -> Seq<Seq<char>> {
    if first {
        seq!["new-session"@, "-s"@, s, "-d"@, "-c"@, cmd.workdir@, pane_line(cmd)]
    } else {
        seq!["split-window"@, "-t"@, s, "-v"@, "-c"@, cmd.workdir@, pane_line(cmd)]
    }
}

pub open spec fn title_call(s: Seq<char>, cmd: RunnerCommand) -> Seq<Seq<char>> {
    seq!["select-pane"@, "-t"@, s, "-T"@, cmd.name@]
}

pub open spec fn layout_call(s: Seq<char>) -> Seq<Seq<char>> {
    seq!["select-layout"@, "-t"@, s, "even-vertical"@]
}

/// For each of the first `n` commands, in order: create its pane, title it
/// with the command's name, and lay the window out again.
pub open spec fn pane_calls(s: Seq<char>, cmds: Seq<RunnerCommand>, n: int) -> Seq<Seq<Seq<char>>>
    decreases n,
{
    if n <= 0 {
        seq![]
    } else {
        pane_calls(s, cmds, n - 1) + seq![
            create_call(s, cmds[n - 1], n - 1 == 0),
            title_call(s, cmds[n - 1]),
            layout_call(s),
        ]
    }
}

/// The session's display options, name and value.
pub open spec fn session_options() -> Seq<(Seq<char>, Seq<char>)> {
    seq![
        ("mouse"@, "on"@),
        ("status"@, "on"@),
        ("status-position"@, "top"@),
        ("status-justify"@, "absolute-centre"@),
        ("status-left"@, ""@),
        ("status-left-length"@, "0"@),
        ("status-right"@, ""@),
        ("status-right-length"@, "0"@),
        ("window-status-current-format"@, "~ RUN ~"@),
        ("pane-border-format"@, "╣ #{pane_title} ╠"@),
        ("pane-border-indicators"@, "off"@),
        ("pane-border-lines"@, "double"@),
        ("pane-border-status"@, "top"@),
        ("status-style"@, "fg=white bg=orange"@),
        ("pane-border-style"@, "fg=white bg=orange"@),
        ("pane-active-border-style"@, "fg=white bg=orange"@),
    ]
}

pub open spec fn option_call(s: Seq<char>, o: (Seq<char>, Seq<char>)) -> Seq<Seq<char>> {
    seq!["set-option"@, "-t"@, s, "-s"@, o.0, o.1]
}

pub open spec fn attach_call(s: Seq<char>) -> Seq<Seq<char>> {
    seq!["attach-session"@, "-t"@, s]
}

/// Every tmux invocation of a run in session `s`, in order: the optional
/// kill of a stale session, the panes, the display options, and the attach.
pub open spec fn tmux_plan(kill: bool, s: Seq<char>, cmds: Seq<RunnerCommand>) -> Seq<Seq<Seq<char>>> {
    (if kill {
        seq![kill_call(s)]
    } else {
        seq![]
    }) + pane_calls(s, cmds, cmds.len() as int) + session_options().map_values(
        |o: (Seq<char>, Seq<char>)| option_call(s, o),
    ) + seq![attach_call(s)]
}

/// The arguments of each call.
pub open spec fn calls_view(calls: Seq<TmuxCall>) -> Seq<Seq<Seq<char>>> {
    calls.map_values(|c: TmuxCall| views(c.args@))
}

fn strings(parts: &[&str]) -> (r: Vec<String>)
    ensures
        r@.len() == parts@.len(),
        forall|i: int| 0 <= i < parts@.len() ==> r@[i]@ == parts@[i]@,
{
    let mut out: Vec<String> = Vec::new();
    let mut i: usize = 0;
    while i < parts.len()
        invariant
            i <= parts@.len(),
            out@.len() == i,
            forall|j: int| 0 <= j < i ==> out@[j]@ == parts@[j]@,
        decreases parts@.len() - i,
    {
        out.push(String::from_str(parts[i]));
        i = i + 1;
    }
    out
}

/// The shell line a pane runs for `cmd`.
fn pane_line_of(cmd: &RunnerCommand) -> (r: String)
    ensures
        r@ == pane_line(*cmd),
{
    let mut words: Vec<String> = Vec::new();
    words.push(cmd.program.clone());
    let mut i: usize = 0;
    while i < cmd.args.len()
        invariant
            i <= cmd.args@.len(),
            views(words@) == seq![cmd.program@] + views(cmd.args@.subrange(0, i as int)),
        decreases cmd.args@.len() - i,
    {
        let ghost before = words@;
        words.push(cmd.args[i].clone());
        assert(views(words@) =~= views(before).push(cmd.args@[i as int]@));
        assert(views(cmd.args@.subrange(0, i + 1)) =~= views(cmd.args@.subrange(0, i as int)).push(cmd.args@[i as int]@));
        i = i + 1;
    }
    assert(cmd.args@.subrange(0, cmd.args@.len() as int) =~= cmd.args@);
    let mut line = shell_join(&words);
    line.append("; read");
    line
}

fn option_call_of(s: &String, name: &str, value: &str) -> (r: TmuxCall)
    ensures
        views(r.args@) == option_call(s@, (name@, value@)),
        r.required,
{
    let mut args = strings(&["set-option", "-t"]);
    args.push(s.clone());
    args.push(String::from_str("-s"));
    args.push(String::from_str(name));
    args.push(String::from_str(value));
    assert(views(args@) =~= option_call(s@, (name@, value@)));
    TmuxCall { args, required: true }
}


/// The call `call` runs the subcommand `sub`.
pub open spec fn runs_subcommand(call: Seq<Seq<char>>, sub: Seq<char>) -> bool {
    call.len() > 0 && call[0] == sub
}

/// How many of `calls` run the subcommand `sub`.
pub open spec fn count_calls(calls: Seq<Seq<Seq<char>>>, sub: Seq<char>) -> nat
    decreases calls.len(),
{
    if calls.len() == 0 {
        0
    } else {
        count_calls(calls.drop_last(), sub) + if runs_subcommand(calls.last(), sub) {
            1nat
        } else {
            0nat
        }
    }
}

proof fn lemma_count_concat(a: Seq<Seq<Seq<char>>>, b: Seq<Seq<Seq<char>>>, sub: Seq<char>)
    ensures
        count_calls(a + b, sub) == count_calls(a, sub) + count_calls(b, sub),
    decreases b.len(),
{
    if b.len() == 0 {
        assert(a + b =~= a);
    } else {
        lemma_count_concat(a, b.drop_last(), sub);
        assert((a + b).drop_last() =~= a + b.drop_last());
    }
}

proof fn lemma_count_none(calls: Seq<Seq<Seq<char>>>, sub: Seq<char>)
    requires
        forall|i: int| 0 <= i < calls.len() ==> !#[trigger] runs_subcommand(calls[i], sub),
    ensures
        count_calls(calls, sub) == 0,
    decreases calls.len(),
{
    if calls.len() > 0 {
        let rest = calls.drop_last();
        assert forall|i: int| 0 <= i < rest.len() implies !#[trigger] runs_subcommand(rest[i], sub) by {
            assert(rest[i] == calls[i]);
            assert(!runs_subcommand(calls[i], sub));
        }
        lemma_count_none(rest, sub);
        assert(!runs_subcommand(calls[calls.len() - 1], sub));
    }
}

proof fn reveal_subcommands()
    ensures
        "new-session"@ != "split-window"@,
        "new-session"@ != "select-pane"@,
        "new-session"@ != "select-layout"@,
        "split-window"@ != "select-pane"@,
        "split-window"@ != "select-layout"@,
        "select-pane"@ != "select-layout"@,
        "kill-session"@ != "new-session"@,
        "kill-session"@ != "split-window"@,
        "kill-session"@ != "select-pane"@,
        "kill-session"@ != "select-layout"@,
        "set-option"@ != "new-session"@,
        "set-option"@ != "split-window"@,
        "set-option"@ != "select-pane"@,
        "set-option"@ != "select-layout"@,
        "attach-session"@ != "new-session"@,
        "attach-session"@ != "split-window"@,
        "attach-session"@ != "select-pane"@,
        "attach-session"@ != "select-layout"@,
{
    reveal_strlit("new-session");
    reveal_strlit("split-window");
    reveal_strlit("select-pane");
    reveal_strlit("select-layout");
    reveal_strlit("kill-session");
    reveal_strlit("set-option");
    reveal_strlit("attach-session");
    assert("new-session"@[1] != "split-window"@[1]);
    assert("new-session"@[0] != "select-pane"@[0]);
    assert("new-session"@[0] != "select-layout"@[0]);
    assert("split-window"@[1] != "select-pane"@[1]);
    assert("split-window"@[1] != "select-layout"@[1]);
    assert("select-pane"@.len() != "select-layout"@.len());
    assert("kill-session"@[0] != "new-session"@[0]);
    assert("kill-session"@[0] != "split-window"@[0]);
    assert("kill-session"@[0] != "select-pane"@[0]);
    assert("kill-session"@[0] != "select-layout"@[0]);
    assert("set-option"@[0] != "new-session"@[0]);
    assert("set-option"@[1] != "split-window"@[1]);
    assert("set-option"@[2] != "select-pane"@[2]);
    assert("set-option"@[2] != "select-layout"@[2]);
    assert("attach-session"@[0] != "new-session"@[0]);
    assert("attach-session"@[0] != "split-window"@[0]);
    assert("attach-session"@[0] != "select-pane"@[0]);
    assert("attach-session"@[0] != "select-layout"@[0]);
}

/// The calls for one pane.
pub open spec fn pane_block(s: Seq<char>, cmd: RunnerCommand, first: bool) -> Seq<Seq<Seq<char>>> {
    seq![create_call(s, cmd, first), title_call(s, cmd), layout_call(s)]
}

proof fn lemma_pane_block_counts(s: Seq<char>, cmd: RunnerCommand, first: bool)
    ensures
        count_calls(pane_block(s, cmd, first), "new-session"@) == if first { 1int } else { 0int },
        count_calls(pane_block(s, cmd, first), "split-window"@) == if first { 0int } else { 1int },
        count_calls(pane_block(s, cmd, first), "select-pane"@) == 1,
        count_calls(pane_block(s, cmd, first), "select-layout"@) == 1,
{
    reveal_subcommands();
    reveal_with_fuel(count_calls, 4);
    let b = pane_block(s, cmd, first);
    let b2 = seq![create_call(s, cmd, first), title_call(s, cmd)];
    let b1 = seq![create_call(s, cmd, first)];
    assert(b.drop_last() =~= b2);
    assert(b2.drop_last() =~= b1);
    assert(b1.drop_last() =~= Seq::<Seq<Seq<char>>>::empty());
    assert(b.last() == layout_call(s));
    assert(b2.last() == title_call(s, cmd));
    assert(b1.last() == create_call(s, cmd, first));
}

proof fn lemma_pane_counts(s: Seq<char>, cmds: Seq<RunnerCommand>, n: int)
    requires
        0 <= n <= cmds.len(),
    ensures
        count_calls(pane_calls(s, cmds, n), "new-session"@) == if n > 0 { 1int } else { 0int },
        count_calls(pane_calls(s, cmds, n), "split-window"@) == if n > 0 { n - 1 } else { 0int },
        count_calls(pane_calls(s, cmds, n), "select-pane"@) == n,
        count_calls(pane_calls(s, cmds, n), "select-layout"@) == n,
    decreases n,
{
    if n > 0 {
        lemma_pane_counts(s, cmds, n - 1);
        let a = pane_calls(s, cmds, n - 1);
        let b = pane_block(s, cmds[n - 1], n - 1 == 0);
        assert(pane_calls(s, cmds, n) == a + b);
        lemma_pane_block_counts(s, cmds[n - 1], n - 1 == 0);
        lemma_count_concat(a, b, "new-session"@);
        lemma_count_concat(a, b, "split-window"@);
        lemma_count_concat(a, b, "select-pane"@);
        lemma_count_concat(a, b, "select-layout"@);
    }
}

proof fn lemma_pane_positions(s: Seq<char>, cmds: Seq<RunnerCommand>, n: int)
    requires
        0 <= n <= cmds.len(),
    ensures
        pane_calls(s, cmds, n).len() == 3 * n,
        forall|i: int| 0 <= i < n ==> pane_block(s, cmds[i], i == 0)
            == #[trigger] pane_calls(s, cmds, n).subrange(3 * i, 3 * i + 3),
    decreases n,
{
    if n > 0 {
        lemma_pane_positions(s, cmds, n - 1);
        let a = pane_calls(s, cmds, n - 1);
        let b = pane_block(s, cmds[n - 1], n - 1 == 0);
        let p = pane_calls(s, cmds, n);
        assert(p == a + b);
        assert forall|i: int| 0 <= i < n implies pane_block(s, cmds[i], i == 0)
            == #[trigger] p.subrange(3 * i, 3 * i + 3) by {
            if i < n - 1 {
                assert(p.subrange(3 * i, 3 * i + 3) =~= a.subrange(3 * i, 3 * i + 3));
            } else {
                assert(p.subrange(3 * i, 3 * i + 3) =~= b);
            }
        }
    }
}

proof fn lemma_options_count(s: Seq<char>, sub: Seq<char>)
    requires
        sub != "set-option"@,
    ensures
        count_calls(session_options().map_values(|o: (Seq<char>, Seq<char>)| option_call(s, o)), sub) == 0,
{
    let opts = session_options().map_values(|o: (Seq<char>, Seq<char>)| option_call(s, o));
    assert forall|i: int| 0 <= i < opts.len() implies !#[trigger] runs_subcommand(opts[i], sub) by {
        assert(opts[i] == option_call(s, session_options()[i]));
    }
    lemma_count_none(opts, sub);
}

proof fn lemma_plan_count(kill: bool, s: Seq<char>, cmds: Seq<RunnerCommand>, sub: Seq<char>)
    requires
        sub != "set-option"@,
        sub != "kill-session"@,
        sub != "attach-session"@,
    ensures
        count_calls(tmux_plan(kill, s, cmds), sub) == count_calls(pane_calls(s, cmds, cmds.len() as int), sub),
{
    let head: Seq<Seq<Seq<char>>> = if kill { seq![kill_call(s)] } else { seq![] };
    let panes = pane_calls(s, cmds, cmds.len() as int);
    let opts = session_options().map_values(|o: (Seq<char>, Seq<char>)| option_call(s, o));
    let tail = seq![attach_call(s)];
    assert(tmux_plan(kill, s, cmds) == head + panes + opts + tail);
    assert forall|i: int| 0 <= i < head.len() implies !#[trigger] runs_subcommand(head[i], sub) by {
        assert(head[i] == kill_call(s));
    }
    assert forall|i: int| 0 <= i < tail.len() implies !#[trigger] runs_subcommand(tail[i], sub) by {
        assert(tail[i] == attach_call(s));
    }
    lemma_count_none(head, sub);
    lemma_count_none(tail, sub);
    lemma_options_count(s, sub);
    lemma_count_concat(head, panes, sub);
    lemma_count_concat(head + panes, opts, sub);
    lemma_count_concat(head + panes + opts, tail, sub);
}

/// Where the calls for the `i`-th pane start in a run's plan.
pub open spec fn pane_start(kill: bool, i: int) -> int {
    (if kill { 1int } else { 0int }) + 3 * i
}

/// The pane protocol: for `n` ≥ 1 commands a run issues exactly one
/// `new-session`, `n - 1` `split-window`, `n` `select-pane` and `n`
/// `select-layout` calls; the `i`-th pane's creation is followed at once by
/// its title and then by a layout call, so the layout is applied after each
/// pane and not once at the end.
pub proof fn lemma_tmux_pane_protocol(kill: bool, s: Seq<char>, cmds: Seq<RunnerCommand>)
    requires
        cmds.len() >= 1,
    ensures
        count_calls(tmux_plan(kill, s, cmds), "new-session"@) == 1,
        count_calls(tmux_plan(kill, s, cmds), "split-window"@) == cmds.len() - 1,
        count_calls(tmux_plan(kill, s, cmds), "select-pane"@) == cmds.len(),
        count_calls(tmux_plan(kill, s, cmds), "select-layout"@) == cmds.len(),
        forall|i: int| 0 <= i < cmds.len() ==> #[trigger] tmux_plan(kill, s, cmds).subrange(
            pane_start(kill, i),
            pane_start(kill, i) + 3,
        ) == pane_block(s, cmds[i], i == 0),
{
    let n = cmds.len() as int;
    reveal_subcommands();
    reveal_strlit("set-option");
    reveal_strlit("kill-session");
    reveal_strlit("attach-session");
    lemma_pane_counts(s, cmds, n);
    lemma_pane_positions(s, cmds, n);
    lemma_plan_count(kill, s, cmds, "new-session"@);
    lemma_plan_count(kill, s, cmds, "split-window"@);
    lemma_plan_count(kill, s, cmds, "select-pane"@);
    lemma_plan_count(kill, s, cmds, "select-layout"@);
    let head: Seq<Seq<Seq<char>>> = if kill { seq![kill_call(s)] } else { seq![] };
    let panes = pane_calls(s, cmds, n);
    let rest = session_options().map_values(|o: (Seq<char>, Seq<char>)| option_call(s, o)) + seq![attach_call(s)];
    let plan = tmux_plan(kill, s, cmds);
    assert(plan =~= head + panes + rest);
    assert forall|i: int| 0 <= i < cmds.len() implies #[trigger] plan.subrange(
        pane_start(kill, i),
        pane_start(kill, i) + 3,
    ) == pane_block(s, cmds[i], i == 0) by {
        assert(panes.subrange(3 * i, 3 * i + 3) == pane_block(s, cmds[i], i == 0));
        assert(plan.subrange(pane_start(kill, i), pane_start(kill, i) + 3) =~= panes.subrange(3 * i, 3 * i + 3));
    }
}

impl Runner {
    /// The name of this run's session: the configured prefix, then `run_id`.
    pub fn session_name(&self, run_id: &String) -> (r: String)
        ensures
            r@ == self.tmux.session_prefix@ + run_id@,
    {
        let mut s = self.tmux.session_prefix.clone();
        s.append(run_id.as_str());
        s
    }

    /// The arguments that precede every call's own: the private socket.
    pub fn tmux_argv(&self, call: &TmuxCall) -> (r: Vec<String>)
        ensures
            views(r@) == seq!["-S"@, self.tmux.socket_path@] + views(call.args@),
    {
        let mut argv = strings(&["-S"]);
        argv.push(self.tmux.socket_path.clone());
        let mut i: usize = 0;
        while i < call.args.len()
            invariant
                i <= call.args@.len(),
                views(argv@) == seq!["-S"@, self.tmux.socket_path@] + views(call.args@.subrange(0, i as int)),
            decreases call.args@.len() - i,
        {
            let ghost before = argv@;
            argv.push(call.args[i].clone());
            assert(views(argv@) =~= views(before).push(call.args@[i as int]@));
            assert(views(call.args@.subrange(0, i + 1)) =~= views(call.args@.subrange(0, i as int)).push(
                call.args@[i as int]@,
            ));
            i = i + 1;
        }
        assert(call.args@.subrange(0, call.args@.len() as int) =~= call.args@);
        argv
    }

    /// Every tmux invocation of this run in session `session`, in order;
    /// only the kill of a stale session may fail without ending the run.
    pub fn tmux_plan(&self, session: &String) -> (r: Vec<TmuxCall>)
        ensures
            calls_view(r@) == tmux_plan(self.tmux.kill_duplicate_session, session@, self.commands@),
            forall|j: int| 0 <= j < r@.len() ==> #[trigger] r@[j].required == !(self.tmux.kill_duplicate_session && j == 0),
    {
        let ghost s = session@;
        let ghost cmds = self.commands@;
        let ghost kill = self.tmux.kill_duplicate_session;
        let mut calls: Vec<TmuxCall> = Vec::new();
        if self.tmux.kill_duplicate_session {
            let mut args = strings(&["kill-session", "-t"]);
            args.push(session.clone());
            assert(views(args@) =~= kill_call(s));
            calls.push(TmuxCall { args, required: false });
        }
        let ghost head = calls_view(calls@);
        assert(head =~= if kill { seq![kill_call(s)] } else { seq![] });
        let mut i: usize = 0;
        while i < self.commands.len()
            invariant
                s == session@,
                cmds == self.commands@,
                kill == self.tmux.kill_duplicate_session,
                head == (if kill { seq![kill_call(s)] } else { seq![] }),
                i <= cmds.len(),
                calls_view(calls@) == head + pane_calls(s, cmds, i as int),
                forall|j: int| 0 <= j < calls@.len() ==> #[trigger] calls@[j].required == !(kill && j == 0),
            decreases cmds.len() - i,
        {
            let cmd = &self.commands[i];
            let line = pane_line_of(cmd);
            let mut create = if i == 0 {
                strings(&["new-session", "-s"])
            } else {
                strings(&["split-window", "-t"])
            };
            create.push(session.clone());
            create.push(String::from_str(if i == 0 { "-d" } else { "-v" }));
            create.push(String::from_str("-c"));
            create.push(cmd.workdir.clone());
            create.push(line);
            assert(views(create@) =~= create_call(s, cmds[i as int], i == 0));
            let mut title = strings(&["select-pane", "-t"]);
            title.push(session.clone());
            title.push(String::from_str("-T"));
            title.push(cmd.name.clone());
            assert(views(title@) =~= title_call(s, cmds[i as int]));
            let mut layout = strings(&["select-layout", "-t"]);
            layout.push(session.clone());
            layout.push(String::from_str("even-vertical"));
            assert(views(layout@) =~= layout_call(s));
            let ghost before = calls@;
            calls.push(TmuxCall { args: create, required: true });
            calls.push(TmuxCall { args: title, required: true });
            calls.push(TmuxCall { args: layout, required: true });
            assert(calls_view(calls@) =~= calls_view(before) + seq![
                create_call(s, cmds[i as int], i == 0),
                title_call(s, cmds[i as int]),
                layout_call(s),
            ]);
            i = i + 1;
        }
        let ghost panes = calls_view(calls@);
        let ghost start = calls@.len();
        calls.push(option_call_of(session, "mouse", "on"));
        calls.push(option_call_of(session, "status", "on"));
        calls.push(option_call_of(session, "status-position", "top"));
        calls.push(option_call_of(session, "status-justify", "absolute-centre"));
        calls.push(option_call_of(session, "status-left", ""));
        calls.push(option_call_of(session, "status-left-length", "0"));
        calls.push(option_call_of(session, "status-right", ""));
        calls.push(option_call_of(session, "status-right-length", "0"));
        calls.push(option_call_of(session, "window-status-current-format", "~ RUN ~"));
        calls.push(option_call_of(session, "pane-border-format", "╣ #{pane_title} ╠"));
        calls.push(option_call_of(session, "pane-border-indicators", "off"));
        calls.push(option_call_of(session, "pane-border-lines", "double"));
        calls.push(option_call_of(session, "pane-border-status", "top"));
        calls.push(option_call_of(session, "status-style", "fg=white bg=orange"));
        calls.push(option_call_of(session, "pane-border-style", "fg=white bg=orange"));
        calls.push(option_call_of(session, "pane-active-border-style", "fg=white bg=orange"));
        let mut attach = strings(&["attach-session", "-t"]);
        attach.push(session.clone());
        assert(views(attach@) =~= attach_call(s));
        calls.push(TmuxCall { args: attach, required: true });
        assert(calls_view(calls@) =~= panes + session_options().map_values(
            |o: (Seq<char>, Seq<char>)| option_call(s, o),
        ) + seq![attach_call(s)]);
        calls
    }
}

impl TmuxCall {
    /// The run's verdict on this call, given whether it succeeded: a failed
    /// required call ends the run with an error naming its subcommand.
    pub fn check(&self, succeeded: bool) -> (r: Result<(), RunError>)
        requires
            self.args@.len() > 0,
        ensures
            succeeded || !self.required ==> r is Ok,
            !succeeded && self.required ==> r == Err::<(), RunError>(
                (RunError::TmuxProtocol { subcommand: self.args@[0] }),
            ),
    {
        if succeeded || !self.required {
            Ok(())
        } else {
            Err(RunError::TmuxProtocol { subcommand: self.args[0].clone() })
        }
    }
}

} // verus!
