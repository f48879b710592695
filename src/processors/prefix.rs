use vstd::prelude::*;
use vstd::string::StringExecFns;

verus! {

/// Tags each line with a fixed prefix, separated by one space.
#[derive(Clone, Debug, PartialEq, Eq)]
pub struct Prefix {
    pub prefix: String,
}

/// `line` as a prefix processor with `prefix` prints it.
pub open spec fn prefixed(prefix: Seq<char>, line: Seq<char>) -> Seq<char> {
    prefix + seq![' '] + line
}

impl Prefix {
    pub fn new(prefix: String) -> (r: Prefix)
        ensures
            r.prefix == prefix,
    {
        Prefix { prefix }
    }

    /// The line with the prefix in front of it; nothing is kept.
    pub fn process(&self, input: String) -> (r: String)
        ensures
            r@ == prefixed(self.prefix@, input@),
    {
        let mut out = self.prefix.clone();
        proof {
            reveal_strlit(" ");
        }
        out.append(" ");
        out.append(input.as_str());
        out
    }
}

} // verus!
