use crate::processors::openai::{request_of, AdviceRequest, Openai};
use crate::processors::prefix::{prefixed, Prefix};
use crate::text::views;
use vstd::prelude::*;

verus! {

/// A line processor: tags lines, or collects them for the advice service.
#[derive(Clone, Debug, PartialEq, Eq)]
pub enum Processor {
    Prefix(Prefix),
    Openai(Openai),
}

/// The line that `p` hands on for the input `line`.
pub open spec fn step(p: Processor, line: Seq<char>) -> Seq<char> {
    match p {
        Processor::Prefix(x) => prefixed(x.prefix@, line),
        Processor::Openai(_) => line,
    }
}

/// `after` is `before` once it has processed the line `input`: a prefix
/// processor is unchanged, an advice processor has collected the line.
pub open spec fn stepped(before: Processor, after: Processor, input: Seq<char>) -> bool {
    match (before, after) {
        (Processor::Prefix(a), Processor::Prefix(b)) => a == b,
        (Processor::Openai(a), Processor::Openai(b)) => {
            &&& b.api_key == a.api_key
            &&& b.api_base_url == a.api_base_url
            &&& views(b.lines@) == views(a.lines@).push(input)
        },
        _ => false,
    }
}

/// The line as it leaves the first `k` processors of `chain`.
pub open spec fn chain_line(chain: Seq<Processor>, line: Seq<char>, k: int) -> Seq<char>
    decreases k,
{
    if k <= 0 {
        line
    } else {
        step(chain[k - 1], chain_line(chain, line, k - 1))
    }
}

/// `after` is the chain `before` once the line `line` has passed through
/// all of it: each processor has seen the line as the ones before it left it.
pub open spec fn chain_stepped(before: Seq<Processor>, after: Seq<Processor>, line: Seq<char>) -> bool {
    &&& after.len() == before.len()
    &&& forall|k: int| 0 <= k < before.len() ==> stepped(#[trigger] before[k], after[k], chain_line(before, line, k))
}

impl Processor {
    /// Passes one line through this processor.
    pub fn process(&mut self, line: String) -> (r: String)
        ensures
            r@ == step(*old(self), line@),
            stepped(*old(self), *final(self), line@),
    {
        match self {
            Processor::Prefix(p) => p.process(line),
            Processor::Openai(o) => {
                let ghost before = o.lines@;
                let r = o.process(line);
                assert(views(o.lines@) =~= views(before).push(r@));
                r
            },
        }
    }

    /// What this processor sends once its stream has ended: only an advice
    /// processor that collected lines sends anything.
    pub fn flush_request(&self) -> (r: Option<AdviceRequest>)
        ensures
            match self {
                Processor::Prefix(_) => r is None,
                Processor::Openai(o) => (r is None <==> o.lines@.len() == 0) && (r matches Some(q) ==> request_of(
                    *o,
                    q,
                )),
            },
    {
        match self {
            Processor::Prefix(_) => None,
            Processor::Openai(o) => o.request(),
        }
    }
}

/// Passes one line through every processor of `chain`, in order.
pub fn apply_chain(chain: &mut Vec<Processor>, line: String) -> (r: String)
    ensures
        r@ == chain_line(old(chain)@, line@, old(chain)@.len() as int),
        chain_stepped(old(chain)@, final(chain)@, line@),
{
    let ghost before = chain@;
    let mut line = line;
    let ghost input = line@;
    let mut i: usize = 0;
    while i < chain.len()
        invariant
            chain@.len() == before.len(),
            i <= chain@.len(),
            line@ == chain_line(before, input, i as int),
            forall|k: int| i <= k < before.len() ==> chain@[k] == before[k],
            forall|k: int| 0 <= k < i ==> stepped(#[trigger] before[k], chain@[k], chain_line(before, input, k)),
        decreases chain.len() - i,
    {
        line = chain[i].process(line);
        i = i + 1;
    }
    line
}

/// The processor chains of one command's execution: one for its standard
/// output, one for its standard error. A stream whose chain is empty is not
/// captured; a captured one passes each line through its chain in declared
/// order, and once it ends, each processor of the chain is flushed, also in
/// declared order.
#[derive(Clone, Debug, PartialEq, Eq)]
pub struct Executor {
    pub out_processors: Vec<Processor>,
    pub err_processors: Vec<Processor>,
}

impl Executor {
    /// An executor with both chains empty: both streams are inherited.
    pub fn new() -> (r: Executor)
        ensures
            r.out_processors@.len() == 0,
            r.err_processors@.len() == 0,
    {
        Executor { out_processors: Vec::new(), err_processors: Vec::new() }
    }

    /// Appends a processor to the standard output chain.
    pub fn push_out(&mut self, processor: Processor)
        ensures
            final(self).out_processors@ == old(self).out_processors@.push(processor),
            final(self).err_processors == old(self).err_processors,
    {
        self.out_processors.push(processor);
    }

    /// Appends a processor to the standard error chain.
    pub fn push_err(&mut self, processor: Processor)
        ensures
            final(self).err_processors@ == old(self).err_processors@.push(processor),
            final(self).out_processors == old(self).out_processors,
    {
        self.err_processors.push(processor);
    }

    /// Whether standard output is captured; with no processor it is inherited.
    pub fn captures_out(&self) -> (r: bool)
        ensures
            r == (self.out_processors@.len() > 0),
    {
        self.out_processors.len() > 0
    }

    /// Whether standard error is captured; with no processor it is inherited.
    pub fn captures_err(&self) -> (r: bool)
        ensures
            r == (self.err_processors@.len() > 0),
    {
        self.err_processors.len() > 0
    }

    /// Passes one line of standard output through its chain.
    pub fn process_out(&mut self, line: String) -> (r: String)
        ensures
            r@ == chain_line(old(self).out_processors@, line@, old(self).out_processors@.len() as int),
            chain_stepped(old(self).out_processors@, final(self).out_processors@, line@),
            final(self).err_processors == old(self).err_processors,
    {
        apply_chain(&mut self.out_processors, line)
    }

    /// Passes one line of standard error through its chain.
    pub fn process_err(&mut self, line: String) -> (r: String)
        ensures
            r@ == chain_line(old(self).err_processors@, line@, old(self).err_processors@.len() as int),
            chain_stepped(old(self).err_processors@, final(self).err_processors@, line@),
            final(self).out_processors == old(self).out_processors,
    {
        apply_chain(&mut self.err_processors, line)
    }
}

} // verus!
