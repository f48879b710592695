use crate::executor::{apply_chain, chain_line, chain_stepped, Processor};
use crate::processors::openai::Openai;
use crate::processors::prefix::Prefix;
use vstd::prelude::*;
use vstd::string::StringExecFns;

verus! {

/// The address of the advice service when none is configured.
pub const DEFAULT_API_BASE_URL: &'static str = "https://api.openai.com";

/// The processor chains of one command, built from a prefix and an
/// optional key for the advice service.
#[derive(Clone, Debug, PartialEq, Eq)]
pub struct Pipeline {
    pub out_processors: Vec<Processor>,
    pub err_processors: Vec<Processor>,
}

impl Pipeline {
    /// Standard output is tagged with `prefix`; standard error is collected
    /// for the advice service when a key is given, then tagged with `prefix`.
    pub fn new(prefix: String, openai_api_key: Option<String>) -> (r: Pipeline)
        ensures
            r.out_processors@ == seq![Processor::Prefix(Prefix { prefix })],
            openai_api_key is None ==> r.err_processors@ == seq![Processor::Prefix(Prefix { prefix })],
            openai_api_key matches Some(key) ==> {
                &&& r.err_processors@.len() == 2
                &&& r.err_processors@[0] matches Processor::Openai(o) && o.lines@.len() == 0 && o.api_key == key
                    && o.api_base_url@ == DEFAULT_API_BASE_URL@
                &&& r.err_processors@[1] == Processor::Prefix(Prefix { prefix })
            },
    {
        let mut out_processors: Vec<Processor> = Vec::new();
        let mut err_processors: Vec<Processor> = Vec::new();
        out_processors.push(Processor::Prefix(Prefix::new(prefix.clone())));
        if let Some(key) = openai_api_key {
            err_processors.push(Processor::Openai(Openai::new(String::from_str(DEFAULT_API_BASE_URL), key)));
        }
        err_processors.push(Processor::Prefix(Prefix::new(prefix)));
        Pipeline { out_processors, err_processors }
    }

    /// Passes one line of standard output through its chain.
    pub fn process_out(&mut self, line: String) -> (r: String)
        ensures
            r@ == chain_line(old(self).out_processors@, line@, old(self).out_processors@.len() as int),
            chain_stepped(old(self).out_processors@, final(self).out_processors@, line@),
            final(self).err_processors == old(self).err_processors,
    {
        apply_chain(&mut self.out_processors, line)
    }

    /// Passes one line of standard error through its chain.
    pub fn process_err(&mut self, line: String) -> (r: String)
        ensures
            r@ == chain_line(old(self).err_processors@, line@, old(self).err_processors@.len() as int),
            chain_stepped(old(self).err_processors@, final(self).err_processors@, line@),
            final(self).out_processors == old(self).out_processors,
    {
        apply_chain(&mut self.err_processors, line)
    }
}

/// A reply of the chat completions service.
#[derive(Clone, Debug, Default, PartialEq, Eq)]
pub struct OpenaiResponse {
    pub id: String,
    pub object: String,
    pub created: i64,
    pub model: String,
    pub usage: Usage,
    pub choices: Vec<Choice>,
}

#[derive(Clone, Debug, Default, PartialEq, Eq)]
pub struct Usage {
    pub prompt_tokens: i64,
    pub completion_tokens: i64,
    pub total_tokens: i64,
}

#[derive(Clone, Debug, Default, PartialEq, Eq)]
pub struct Choice {
    pub message: Message,
    pub finish_reason: String,
    pub index: i64,
}

#[derive(Clone, Debug, Default, PartialEq, Eq)]
pub struct Message {
    pub role: String,
    pub content: String,
}

} // verus!
