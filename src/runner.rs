use itertools::Itertools;
use vstd::prelude::*;
use crate::error::RunError;
use crate::executor::{Executor, Processor};
use crate::processors::openai::Openai;
use crate::processors::prefix::Prefix;
use crate::text::views;
use vstd::string::StringExecFns;

verus! {

/// One command as the engine runs it.
#[derive(Clone, Debug, PartialEq, Eq)]
pub struct RunnerCommand {
    pub program: String,
    pub args: Vec<String>,
    pub description: Option<String>,
    pub envs: Vec<(String, String)>,
    pub name: String,
    pub tags: Vec<String>,
    pub workdir: String,
}

/// How the selected commands are run.
#[derive(Clone, Copy, Debug, PartialEq, Eq)]
pub enum RunnerMode {
    Sequential,
    Parallel,
    Tmux,
}

/// Whether failing output is sent to an advice service, and where.
#[derive(Clone, Debug, PartialEq, Eq)]
pub enum RunnerOpenai {
    Disabled,
    Enabled { api_key: String, api_base_url: String },
}

/// Whether output lines are tagged with the command's name.
#[derive(Clone, Copy, Debug, PartialEq, Eq)]
pub enum RunnerPrefix {
    Disabled,
    Enabled,
}

/// Which lifecycle messages are logged.
#[derive(Clone, Copy, Debug, PartialEq, Eq)]
pub struct RunnerLog {
    pub spawns: bool,
    pub terminations: bool,
}

/// The tmux binary, its private socket, and the session naming.
#[derive(Clone, Debug, PartialEq, Eq)]
pub struct RunnerTmux {
    pub kill_duplicate_session: bool,
    pub program: String,
    pub session_prefix: String,
    pub socket_path: String,
}

/// Everything the engine needs, already resolved and validated.
#[derive(Clone, Debug, PartialEq, Eq)]
pub struct RunnerOptions {
    pub commands: Vec<RunnerCommand>,
    pub log: RunnerLog,
    pub mode: RunnerMode,
    pub openai: RunnerOpenai,
    pub prefix: RunnerPrefix,
    pub tags: Vec<String>,
    pub tmux: RunnerTmux,
}

/// The engine for one run: the selected commands and how to run them.
pub struct Runner {
    pub commands: Vec<RunnerCommand>,
    pub mode: RunnerMode,
    pub openai: RunnerOpenai,
    pub prefix: RunnerPrefix,
    pub tmux: RunnerTmux,
}

/// The first position `p` or later of `filter` that names one of `tags`.
pub open spec fn rank_from(tags: Seq<Seq<char>>, filter: Seq<Seq<char>>, p: int) -> Option<int>
    decreases filter.len() - p,
{
    if p < 0 || p >= filter.len() {
        None
    } else if tags.contains(filter[p]) {
        Some(p)
    } else {
        rank_from(tags, filter, p + 1)
    }
}

/// The priority of a command with `tags` under `filter`: the lowest position
/// in `filter` of any of its tags, or none when no tag is in `filter`.
pub open spec fn best_priority(tags: Seq<Seq<char>>, filter: Seq<Seq<char>>) -> Option<int> {
    rank_from(tags, filter, 0)
}

/// The priority of the command at position `i`.
pub open spec fn rank_of(cmds: Seq<RunnerCommand>, filter: Seq<Seq<char>>, i: int) -> Option<int> {
    best_priority(views(cmds[i].tags@), filter)
}

/// The positions below `n` of the commands whose priority is `p`, in input order.
pub open spec fn positions_ranked(
    cmds: Seq<RunnerCommand>,
    filter: Seq<Seq<char>>,
    p: int,
    n: int,
) -> Seq<int>
    decreases n,
{
    if n <= 0 {
        seq![]
    } else {
        let b = positions_ranked(cmds, filter, p, n - 1);
        if rank_of(cmds, filter, n - 1) == Some(p) {
            b.push(n - 1)
        } else {
            b
        }
    }
}

/// The positions of the commands whose priority is below `k`: those of
/// priority 0 first, then those of priority 1, and so on, each group in input order.
pub open spec fn selection_positions(cmds: Seq<RunnerCommand>, filter: Seq<Seq<char>>, k: int) -> Seq<int>
    decreases k,
{
    if k <= 0 {
        seq![]
    } else {
        selection_positions(cmds, filter, k - 1) + positions_ranked(cmds, filter, k - 1, cmds.len() as int)
    }
}

/// The commands that a run under the tag filter `filter` executes, in order:
/// all of them when `filter` is empty; otherwise those with a tag in
/// `filter`, ordered by priority, ties kept in input order.
pub open spec fn selected(cmds: Seq<RunnerCommand>, filter: Seq<Seq<char>>) -> Seq<RunnerCommand> {
    if filter.len() == 0 {
        cmds
    } else {
        selection_positions(cmds, filter, filter.len() as int).map_values(|i: int| cmds[i])
    }
}

/// Under a non-empty tag filter, the selection holds the position of each
/// command that carries a tag of the filter, each once, and no other; it
/// orders them by priority, and among equal priorities by input position.
/// The selected commands are those at these positions, in this order.
pub proof fn lemma_selection_law(cmds: Seq<RunnerCommand>, filter: Seq<Seq<char>>)
    requires
        filter.len() > 0,
    ensures
        forall|i: int| 0 <= i < cmds.len() ==> (#[trigger] rank_of(cmds, filter, i) is Some
            <==> selection_positions(cmds, filter, filter.len() as int).contains(i)),
        forall|a: int| 0 <= a < selection_positions(cmds, filter, filter.len() as int).len() ==> {
            let i = #[trigger] selection_positions(cmds, filter, filter.len() as int)[a];
            0 <= i < cmds.len() && rank_of(cmds, filter, i) is Some
        },
        forall|a: int, b: int| 0 <= a < b < selection_positions(cmds, filter, filter.len() as int).len() ==> {
            let i = #[trigger] selection_positions(cmds, filter, filter.len() as int)[a];
            let j = #[trigger] selection_positions(cmds, filter, filter.len() as int)[b];
            rank_value(cmds, filter, i) < rank_value(cmds, filter, j)
                || (rank_value(cmds, filter, i) == rank_value(cmds, filter, j) && i < j)
        },
        selected(cmds, filter) == selection_positions(cmds, filter, filter.len() as int).map_values(
            |i: int| cmds[i],
        ),
{
    let k = filter.len() as int;
    lemma_selection_positions(cmds, filter, k);
    let sel = selection_positions(cmds, filter, k);
    assert forall|i: int| 0 <= i < cmds.len() implies (#[trigger] rank_of(cmds, filter, i) is Some
        <==> sel.contains(i)) by {
        lemma_rank_from_bounds(views(cmds[i].tags@), filter, 0);
        if sel.contains(i) {
            let a = choose|a: int| 0 <= a < sel.len() && sel[a] == i;
            assert(rank_of(cmds, filter, sel[a]) is Some);
        }
    }
}

/// The order of priority/position pairs: by priority, then by position.
pub open spec fn pair_lt(a: (usize, usize), b: (usize, usize)) -> bool {
    a.0 < b.0 || (a.0 == b.0 && a.1 < b.1)
}


/// The priority of the command at position `i`, as a number.
pub open spec fn rank_value(cmds: Seq<RunnerCommand>, filter: Seq<Seq<char>>, i: int) -> int {
    match rank_of(cmds, filter, i) {
        Some(p) => p,
        None => 0,
    }
}

/// Priority/position pairs of the commands below `n` that have a priority, in input order.
pub open spec fn rank_keys(cmds: Seq<RunnerCommand>, filter: Seq<Seq<char>>, n: int) -> Seq<(usize, usize)>
    decreases n,
{
    if n <= 0 {
        seq![]
    } else {
        let k = rank_keys(cmds, filter, n - 1);
        match rank_of(cmds, filter, n - 1) {
            Some(p) => k.push((p as usize, (n - 1) as usize)),
            None => k,
        }
    }
}

/// The priority/position pair of each selected command, in selection order.
pub open spec fn selection_pairs(cmds: Seq<RunnerCommand>, filter: Seq<Seq<char>>) -> Seq<(usize, usize)> {
    selection_positions(cmds, filter, filter.len() as int).map_values(
        |i: int| (rank_value(cmds, filter, i) as usize, i as usize),
    )
}

/// Each pair comes before the next in the pair order.
pub open spec fn strictly_sorted(s: Seq<(usize, usize)>) -> bool {
    forall|i: int, j: int| 0 <= i < j < s.len() ==> pair_lt(s[i], s[j])
}

/// `x` is the priority/position pair of one of the commands.
pub open spec fn ranked_pair(cmds: Seq<RunnerCommand>, filter: Seq<Seq<char>>, x: (usize, usize)) -> bool {
    &&& x.1 < cmds.len()
    &&& rank_of(cmds, filter, x.1 as int) == Some(x.0 as int)
}

proof fn lemma_rank_from_bounds(tags: Seq<Seq<char>>, filter: Seq<Seq<char>>, p: int)
    requires
        0 <= p,
    ensures
        rank_from(tags, filter, p) matches Some(q) ==> p <= q < filter.len(),
    decreases filter.len() - p,
{
    if p < filter.len() && !tags.contains(filter[p]) {
        lemma_rank_from_bounds(tags, filter, p + 1);
    }
}

proof fn lemma_rank_keys(cmds: Seq<RunnerCommand>, filter: Seq<Seq<char>>, n: int)
    requires
        0 <= n <= cmds.len() <= usize::MAX,
        filter.len() <= usize::MAX,
    ensures
        forall|a: int, b: int| 0 <= a < b < rank_keys(cmds, filter, n).len()
            ==> rank_keys(cmds, filter, n)[a].1 < rank_keys(cmds, filter, n)[b].1,
        forall|a: int| 0 <= a < rank_keys(cmds, filter, n).len() ==> rank_keys(cmds, filter, n)[a].1 < n,
        forall|x: (usize, usize)| rank_keys(cmds, filter, n).contains(x)
            <==> (ranked_pair(cmds, filter, x) && x.1 < n),
    decreases n,
{
    if n > 0 {
        lemma_rank_keys(cmds, filter, n - 1);
        lemma_rank_from_bounds(views(cmds[n - 1].tags@), filter, 0);
        let k = rank_keys(cmds, filter, n - 1);
        assert forall|x: (usize, usize)| rank_keys(cmds, filter, n).contains(x)
            <==> (ranked_pair(cmds, filter, x) && x.1 < n) by {
            if rank_keys(cmds, filter, n).contains(x) {
                let j = choose|j: int| 0 <= j < rank_keys(cmds, filter, n).len() && rank_keys(cmds, filter, n)[j] == x;
                if j < k.len() {
                    assert(k.contains(x));
                }
            }
            if ranked_pair(cmds, filter, x) && x.1 < n {
                if x.1 < n - 1 {
                    assert(k.contains(x));
                    let j = choose|j: int| 0 <= j < k.len() && k[j] == x;
                    assert(rank_keys(cmds, filter, n)[j] == x);
                } else {
                    assert(rank_keys(cmds, filter, n)[k.len() as int] == x);
                }
            }
        }
    }
}

proof fn lemma_positions_ranked(cmds: Seq<RunnerCommand>, filter: Seq<Seq<char>>, p: int, n: int)
    requires
        0 <= n <= cmds.len(),
    ensures
        forall|a: int, b: int| 0 <= a < b < positions_ranked(cmds, filter, p, n).len()
            ==> positions_ranked(cmds, filter, p, n)[a] < positions_ranked(cmds, filter, p, n)[b],
        forall|a: int| 0 <= a < positions_ranked(cmds, filter, p, n).len() ==> {
            let i = #[trigger] positions_ranked(cmds, filter, p, n)[a];
            0 <= i < n && rank_of(cmds, filter, i) == Some(p)
        },
        forall|i: int| 0 <= i < n && rank_of(cmds, filter, i) == Some(p)
            ==> positions_ranked(cmds, filter, p, n).contains(i),
    decreases n,
{
    if n > 0 {
        lemma_positions_ranked(cmds, filter, p, n - 1);
        let b = positions_ranked(cmds, filter, p, n - 1);
        assert forall|i: int| 0 <= i < n && rank_of(cmds, filter, i) == Some(p)
            implies positions_ranked(cmds, filter, p, n).contains(i) by {
            if i < n - 1 {
                assert(b.contains(i));
                let j = choose|j: int| 0 <= j < b.len() && b[j] == i;
                assert(positions_ranked(cmds, filter, p, n)[j] == i);
            } else {
                assert(positions_ranked(cmds, filter, p, n)[b.len() as int] == i);
            }
        }
    }
}

proof fn lemma_selection_positions(cmds: Seq<RunnerCommand>, filter: Seq<Seq<char>>, k: int)
    requires
        0 <= k,
    ensures
        forall|a: int| 0 <= a < selection_positions(cmds, filter, k).len() ==> {
            let i = #[trigger] selection_positions(cmds, filter, k)[a];
            &&& 0 <= i < cmds.len()
            &&& rank_of(cmds, filter, i) is Some
            &&& 0 <= rank_value(cmds, filter, i) < k
        },
        forall|a: int, b: int| 0 <= a < b < selection_positions(cmds, filter, k).len() ==> {
            let i = #[trigger] selection_positions(cmds, filter, k)[a];
            let j = #[trigger] selection_positions(cmds, filter, k)[b];
            rank_value(cmds, filter, i) < rank_value(cmds, filter, j)
                || (rank_value(cmds, filter, i) == rank_value(cmds, filter, j) && i < j)
        },
        forall|i: int| 0 <= i < cmds.len() && #[trigger] rank_of(cmds, filter, i) is Some
            && 0 <= rank_value(cmds, filter, i) < k ==> selection_positions(cmds, filter, k).contains(i),
    decreases k,
{
    if k > 0 {
        lemma_selection_positions(cmds, filter, k - 1);
        let n = cmds.len() as int;
        lemma_positions_ranked(cmds, filter, k - 1, n);
        let s = selection_positions(cmds, filter, k - 1);
        let b = positions_ranked(cmds, filter, k - 1, n);
        assert(selection_positions(cmds, filter, k) == s + b);
        assert forall|i: int| 0 <= i < cmds.len() && #[trigger] rank_of(cmds, filter, i) is Some
            && 0 <= rank_value(cmds, filter, i) < k implies selection_positions(cmds, filter, k).contains(i) by {
            if rank_value(cmds, filter, i) < k - 1 {
                let j = choose|j: int| 0 <= j < s.len() && s[j] == i;
                assert((s + b)[j] == i);
            } else {
                assert(b.contains(i));
                let j = choose|j: int| 0 <= j < b.len() && b[j] == i;
                assert((s + b)[s.len() + j] == i);
            }
        }
    }
}

proof fn lemma_sorted_unique(a: Seq<(usize, usize)>, b: Seq<(usize, usize)>)
    requires
        strictly_sorted(a),
        strictly_sorted(b),
        forall|x: (usize, usize)| a.contains(x) <==> b.contains(x),
    ensures
        a == b,
    decreases a.len(),
{
    if a.len() == 0 {
        if b.len() > 0 {
            assert(b.contains(b[0]));
        }
        assert(a =~= b);
    } else {
        assert(a.contains(a[0]));
        assert(b.contains(a[0]));
        assert(b.contains(b[0]));
        assert(a.contains(b[0]));
        let i = choose|i: int| 0 <= i < a.len() && a[i] == b[0];
        let j = choose|j: int| 0 <= j < b.len() && b[j] == a[0];
        assert(a[0] == b[0]) by {
            if i > 0 && j > 0 {
                assert(pair_lt(a[0], a[i]));
                assert(pair_lt(b[0], b[j]));
            }
        }
        let a1 = a.drop_first();
        let b1 = b.drop_first();
        assert forall|x: (usize, usize)| a1.contains(x) <==> b1.contains(x) by {
            if a1.contains(x) {
                let p = choose|p: int| 0 <= p < a1.len() && a1[p] == x;
                assert(a[p + 1] == x);
                assert(b.contains(x));
                let q = choose|q: int| 0 <= q < b.len() && b[q] == x;
                assert(pair_lt(a[0], a[p + 1]));
                assert(q != 0);
                assert(b1[q - 1] == x);
            }
            if b1.contains(x) {
                let p = choose|p: int| 0 <= p < b1.len() && b1[p] == x;
                assert(b[p + 1] == x);
                assert(a.contains(x));
                let q = choose|q: int| 0 <= q < a.len() && a[q] == x;
                assert(pair_lt(b[0], b[p + 1]));
                assert(q != 0);
                assert(a1[q - 1] == x);
            }
        }
        lemma_sorted_unique(a1, b1);
        assert(a =~= seq![a[0]] + a1);
        assert(b =~= seq![b[0]] + b1);
    }
}

/// The pairs that the sort hands back are those of the selection, in its order.
proof fn lemma_sorted_keys_are_selection(
    cmds: Seq<RunnerCommand>,
    filter: Seq<Seq<char>>,
    order: Seq<(usize, usize)>,
)
    requires
        cmds.len() <= usize::MAX,
        filter.len() <= usize::MAX,
        order.to_multiset() == rank_keys(cmds, filter, cmds.len() as int).to_multiset(),
        forall|i: int, j: int| 0 <= i < j < order.len() ==> pair_lt(order[i], order[j]) || order[i] == order[j],
    ensures
        order == selection_pairs(cmds, filter),
{
    broadcast use vstd::seq_lib::group_to_multiset_ensures;

    let n = cmds.len() as int;
    let keys = rank_keys(cmds, filter, n);
    lemma_rank_keys(cmds, filter, n);
    assert(keys.no_duplicates()) by {
        assert forall|a: int, b: int| 0 <= a < keys.len() && 0 <= b < keys.len() && a != b
            implies keys[a] != keys[b] by {
            if a < b {
                assert(keys[a].1 < keys[b].1);
            } else {
                assert(keys[b].1 < keys[a].1);
            }
        }
    }
    keys.lemma_multiset_has_no_duplicates();
    order.lemma_multiset_has_no_duplicates_conv();
    assert(strictly_sorted(order)) by {
        assert forall|i: int, j: int| 0 <= i < j < order.len() implies pair_lt(order[i], order[j]) by {
            assert(order[i] != order[j]);
        }
    }
    let sel = selection_positions(cmds, filter, filter.len() as int);
    let t = selection_pairs(cmds, filter);
    lemma_selection_positions(cmds, filter, filter.len() as int);
    assert(strictly_sorted(t)) by {
        assert forall|a: int, b: int| 0 <= a < b < t.len() implies pair_lt(t[a], t[b]) by {
            assert(sel[a] < cmds.len() && sel[b] < cmds.len());
        }
    }
    assert forall|x: (usize, usize)| order.contains(x) <==> t.contains(x) by {
        assert(order.contains(x) <==> order.to_multiset().count(x) > 0);
        assert(keys.contains(x) <==> keys.to_multiset().count(x) > 0);
        if t.contains(x) {
            let a = choose|a: int| 0 <= a < t.len() && t[a] == x;
            assert(sel[a] < cmds.len());
            lemma_rank_from_bounds(views(cmds[sel[a]].tags@), filter, 0);
            assert(ranked_pair(cmds, filter, x));
        }
        if keys.contains(x) {
            let i = x.1 as int;
            assert(ranked_pair(cmds, filter, x));
            lemma_rank_from_bounds(views(cmds[i].tags@), filter, 0);
            assert(rank_of(cmds, filter, i) is Some);
            assert(sel.contains(i));
            let a = choose|a: int| 0 <= a < sel.len() && sel[a] == i;
            assert(t[a] == x);
        }
    }
    lemma_sorted_unique(order, t);
}

/// Relies on itertools::Itertools::sorted: its items, each as often as
/// given, in ascending order (tuples compare field by field).
#[verifier::external_body]
fn sorted_pairs(v: Vec<(usize, usize)>) -> (r: Vec<(usize, usize)>)
    ensures
        r@.to_multiset() == v@.to_multiset(),
        forall|i: int, j: int| 0 <= i < j < r@.len() ==> pair_lt(r@[i], r@[j]) || r@[i] == r@[j],
{
    v.into_iter().sorted().collect()
}

/// Tells whether `tags` holds a tag with the text of `t`.
fn has_tag(tags: &Vec<String>, t: &String) -> (r: bool)
    ensures
        r == views(tags@).contains(t@),
{
    let mut i: usize = 0;
    while i < tags.len()
        invariant
            i <= tags.len(),
            forall|j: int| 0 <= j < i ==> tags@[j]@ != t@,
        decreases tags.len() - i,
    {
        if tags[i] == *t {
            assert(views(tags@)[i as int] == t@);
            return true;
        }
        i = i + 1;
    }
    proof {
        if views(tags@).contains(t@) {
            let j = choose|j: int| 0 <= j < views(tags@).len() && views(tags@)[j] == t@;
            assert(tags@[j]@ == t@);
        }
    }
    false
}

/// The priority of a command with `tags` under `filter`.
fn priority_of(tags: &Vec<String>, filter: &Vec<String>) -> (r: Option<usize>)
    ensures
        match r {
            Some(p) => best_priority(views(tags@), views(filter@)) == Some(p as int),
            None => best_priority(views(tags@), views(filter@)) is None,
        },
{
    let mut p: usize = 0;
    while p < filter.len()
        invariant
            p <= filter.len(),
            rank_from(views(tags@), views(filter@), 0) == rank_from(views(tags@), views(filter@), p as int),
        decreases filter.len() - p,
    {
        if has_tag(tags, &filter[p]) {
            return Some(p);
        }
        p = p + 1;
    }
    None
}

/// The commands that a run under the non-empty tag filter `filter` executes, in order.
fn select_by_tags(commands: Vec<RunnerCommand>, filter: &Vec<String>) -> (r: Vec<RunnerCommand>)
    requires
        filter.len() > 0,
    ensures
        r@ == selected(commands@, views(filter@)),
{
    let ghost cmds = commands@;
    let ghost f = views(filter@);
    let n = commands.len();
    let mut keys: Vec<(usize, usize)> = Vec::new();
    let mut i: usize = 0;
    while i < n
        invariant
            n == commands.len(),
            i <= n,
            commands@ == cmds,
            f == views(filter@),
            keys@ == rank_keys(cmds, f, i as int),
        decreases n - i,
    {
        match priority_of(&commands[i].tags, filter) {
            Some(p) => {
                keys.push((p, i));
            },
            None => {},
        }
        i = i + 1;
    }
    let order = sorted_pairs(keys);
    let ghost sel = selection_positions(cmds, f, f.len() as int);
    proof {
        lemma_sorted_keys_are_selection(cmds, f, order@);
        lemma_selection_positions(cmds, f, f.len() as int);
    }
    let mut slots: Vec<Option<RunnerCommand>> = Vec::new();
    for c in it: commands
        invariant
            it.seq() == cmds,
            slots@.len() == it.index(),
            forall|j: int| 0 <= j < it.index() ==> slots@[j] == Some(cmds[j]),
    {
        slots.push(Some(c));
    }
    let mut out: Vec<RunnerCommand> = Vec::new();
    let mut j: usize = 0;
    while j < order.len()
        invariant
            slots@.len() == cmds.len(),
            cmds.len() <= usize::MAX,
            order@ == selection_pairs(cmds, f),
            sel == selection_positions(cmds, f, f.len() as int),
            forall|a: int| 0 <= a < sel.len() ==> 0 <= #[trigger] sel[a] < cmds.len(),
            forall|a: int, b: int| 0 <= a < b < sel.len() ==> #[trigger] sel[a] != #[trigger] sel[b],
            j <= order.len(),
            out@.len() == j,
            forall|k: int| 0 <= k < j ==> out@[k] == cmds[sel[k]],
            forall|k: int| j <= k < order@.len() ==> slots@[sel[k]] == Some(cmds[sel[k]]),
        decreases order.len() - j,
    {
        let idx = order[j].1;
        assert(order@[j as int] == (rank_value(cmds, f, sel[j as int]) as usize, sel[j as int] as usize));
        assert(idx as int == sel[j as int]);
        let c = slots[idx].take();
        if let Some(c) = c {
            out.push(c);
        }
        j = j + 1;
    }
    assert(out@ =~= selected(cmds, f));
    out
}

impl Runner {
    /// Builds the engine for one run: applies the tag filter of `options`
    /// to its commands, once, and keeps how they are to be run.
    pub fn new(options: RunnerOptions) -> (r: Runner)
        ensures
            r.commands@ == selected(options.commands@, views(options.tags@)),
            r.mode == options.mode,
            r.openai == options.openai,
            r.prefix == options.prefix,
            r.tmux == options.tmux,
    {
        let RunnerOptions { commands, mode, openai, prefix, tags, tmux, .. } = options;
        let commands = if tags.len() == 0 {
            commands
        } else {
            select_by_tags(commands, &tags)
        };
        Runner { commands, mode, openai, prefix, tmux }
    }
}

/// A command's display name in brackets, as its output lines are tagged.
pub open spec fn name_tag(name: Seq<char>) -> Seq<char> {
    seq!['['] + name + seq![']']
}

/// Puts a command's display name in brackets.
pub fn bracketed(name: &String) -> (r: String)
    ensures
        r@ == name_tag(name@),
{
    proof {
        reveal_strlit("[");
        reveal_strlit("]");
    }
    let mut t = String::from_str("[");
    t.append(name.as_str());
    t.append("]");
    t
}

/// What one command's execution ended with: its exit code (none when a
/// signal ended it), or the error that stopped it.
pub type CommandOutcome = Result<Option<i32>, RunError>;

/// The failure, if any, in the outcome of the command named `name`: only an
/// exit code of 0 is a success.
pub open spec fn outcome_failure(name: String, outcome: CommandOutcome) -> Option<RunError> {
    match outcome {
        Ok(c) => if c == Some(0i32) {
            None
        } else {
            Some(RunError::Exit { name, code: c })
        },
        Err(e) => Some(e),
    }
}

/// The outcome of the command named `name` as the run sees it.
pub fn outcome_result(name: &String, outcome: CommandOutcome) -> (r: Result<(), RunError>)
    ensures
        r == run_result(outcome_failure(*name, outcome)),
{
    match outcome {
        Ok(Some(0i32)) => Ok(()),
        Ok(code) => Err(RunError::Exit { name: name.clone(), code }),
        Err(e) => Err(e),
    }
}

/// What a run does next.
#[derive(Clone, Copy, Debug, PartialEq, Eq)]
pub enum RunStep {
    /// Execute the command at this position of the selection.
    Exec(usize),
    /// The run is over: its result is ready.
    Done,
}

/// The result of a run whose first failure, if any, is `failure`.
pub open spec fn run_result(failure: Option<RunError>) -> Result<(), RunError> {
    match failure {
        Some(e) => Err(e),
        None => Ok(()),
    }
}

/// A sequential run: one command at a time, in order, stopping at the
/// first failure.
#[derive(Clone, Debug, PartialEq, Eq)]
pub struct SequentialRun {
    pub next: usize,
    pub total: usize,
    pub failure: Option<RunError>,
}

impl SequentialRun {
    /// The run has not gone past its last command.
    pub open spec fn wf(&self) -> bool {
        self.next <= self.total
    }

    /// A run of `total` commands, none executed yet.
    pub fn new(total: usize) -> (r: SequentialRun)
        ensures
            r.wf(),
            r.next == 0,
            r.total == total,
            r.failure is None,
    {
        SequentialRun { next: 0, total, failure: None }
    }

    /// What to do now: stop at a failure, else execute the next command,
    /// else stop, every command having succeeded.
    pub fn step(&self) -> (r: RunStep)
        ensures
            self.failure is Some ==> r == RunStep::Done,
            self.failure is None && self.next < self.total ==> r == RunStep::Exec(self.next),
            self.failure is None && self.next >= self.total ==> r == RunStep::Done,
    {
        if self.failure.is_none() && self.next < self.total {
            RunStep::Exec(self.next)
        } else {
            RunStep::Done
        }
    }

    /// The run's result: its failure, if there was one.
    pub fn into_result(self) -> (r: Result<(), RunError>)
        ensures
            r == run_result(self.failure),
    {
        match self.failure {
            Some(e) => Err(e),
            None => Ok(()),
        }
    }

    /// Takes in the outcome of the command that `step` asked for, named `name`.
    pub fn record(&mut self, name: &String, outcome: CommandOutcome)
        requires
            old(self).wf(),
            old(self).failure is None,
            old(self).next < old(self).total,
        ensures
            final(self).wf(),
            final(self).next == old(self).next + 1,
            final(self).total == old(self).total,
            final(self).failure == outcome_failure(*name, outcome),
    {
        let res = outcome_result(name, outcome);
        self.next = self.next + 1;
        self.failure = match res {
            Ok(_) => None,
            Err(e) => Some(e),
        };
    }
}

/// A parallel run: every command launched at once; the first failure to
/// come in is the run's error, once all have ended.
#[derive(Clone, Debug, PartialEq, Eq)]
pub struct ParallelRun {
    pub pending: usize,
    pub failure: Option<RunError>,
}

impl ParallelRun {
    /// A run of `total` commands, all launched, none ended yet.
    pub fn new(total: usize) -> (r: ParallelRun)
        ensures
            r.pending == total,
            r.failure is None,
    {
        ParallelRun { pending: total, failure: None }
    }

    /// Takes in the outcome of one command, named `name`, as it ends.
    pub fn record(&mut self, name: &String, outcome: CommandOutcome)
        requires
            old(self).pending > 0,
        ensures
            final(self).pending == old(self).pending - 1,
            old(self).failure is Some ==> final(self).failure == old(self).failure,
            old(self).failure is None ==> final(self).failure == outcome_failure(*name, outcome),
    {
        let res = outcome_result(name, outcome);
        self.pending = self.pending - 1;
        if self.failure.is_none() {
            self.failure = match res {
                Ok(_) => None,
                Err(e) => Some(e),
            };
        }
    }

    /// Whether every command has ended.
    pub fn is_done(&self) -> (r: bool)
        ensures
            r == (self.pending == 0),
    {
        self.pending == 0
    }

    /// The run's result: the first failure that came in, if there was one.
    pub fn into_result(self) -> (r: Result<(), RunError>)
        ensures
            r == run_result(self.failure),
    {
        match self.failure {
            Some(e) => Err(e),
            None => Ok(()),
        }
    }
}

impl Runner {
    /// The processor chains for one execution of `cmd`: the standard output
    /// chain is the name tag when prefixing is on; the standard error chain is
    /// the advice processor when the service is on, then the name tag when
    /// prefixing is on.
    pub fn executor_for(&self, cmd: &RunnerCommand) -> (r: Executor)
        ensures
            self.prefix is Disabled ==> r.out_processors@.len() == 0,
            self.prefix is Enabled ==> {
                &&& r.out_processors@.len() == 1
                &&& r.out_processors@[0] matches Processor::Prefix(p) && p.prefix@ == name_tag(cmd.name@)
                &&& r.err_processors@.last() matches Processor::Prefix(p) && p.prefix@ == name_tag(cmd.name@)
            },
            r.err_processors@.len() == (if self.openai is Enabled { 1int } else { 0int }) + (if self.prefix is Enabled {
                1int
            } else {
                0int
            }),
            self.openai matches RunnerOpenai::Enabled { api_key, api_base_url } ==> {
                r.err_processors@[0] matches Processor::Openai(o) && o.lines@.len() == 0 && o.api_key == api_key
                    && o.api_base_url == api_base_url
            },
    {
        let mut executor = Executor::new();
        if let RunnerOpenai::Enabled { api_base_url, api_key } = &self.openai {
            executor.push_err(Processor::Openai(Openai::new(api_base_url.clone(), api_key.clone())));
        }
        if let RunnerPrefix::Enabled = self.prefix {
            executor.push_out(Processor::Prefix(Prefix::new(bracketed(&cmd.name))));
            executor.push_err(Processor::Prefix(Prefix::new(bracketed(&cmd.name))));
        }
        executor
    }
}

} // verus!
