use crate::error::RunError;
use crate::pipeline::OpenaiResponse;
use crate::text::{join_lines, joined_lines, views};
use vstd::prelude::*;
use vstd::string::StrSliceExecFns;
use vstd::string::StringExecFns;

verus! {

/// The request that the advice service's endpoint is sent.
#[derive(Clone, Debug, PartialEq, Eq)]
pub struct AdviceRequest {
    pub url: String,
    pub api_key: String,
    pub model: String,
    pub prompt: String,
}

pub const COMPLETIONS_PATH: &'static str = "/v1/chat/completions";

pub const MODEL: &'static str = "gpt-3.5-turbo";

pub const PROMPT_INTRO: &'static str = "I am a developer working in a terminal. The command I run fails with the following error message. In a first paragraph explain what the issue is and why it is happening. In a second paragraph explain how to fix the issue. You can suggest at most one command that might help fixing the issue. Use the triple backtick notation if you need to print code.\n\n";

/// The width of the text inside the advice frame.
pub const FRAME_WIDTH: usize = 76;

pub const FRAME_TOP: &'static str = "+=============================[ ChatGPT Feedback ]=============================+";

pub const FRAME_BLANK: &'static str = "|                                                                              |";

pub const FRAME_BOTTOM: &'static str = "+==============================================================================+";

/// `line` followed by spaces up to `width` characters.
pub open spec fn padded(line: Seq<char>, width: nat) -> Seq<char> {
    if line.len() >= width {
        line
    } else {
        line + Seq::new((width - line.len()) as nat, |i: int| ' ')
    }
}

/// One line of text inside the advice frame.
pub open spec fn framed_line(line: Seq<char>) -> Seq<char> {
    seq!['|', ' '] + padded(line, FRAME_WIDTH as nat) + seq![' ', '|']
}

/// The advice frame around `lines`, with an empty line above and below it.
pub open spec fn frame(lines: Seq<Seq<char>>) -> Seq<Seq<char>> {
    seq![seq![], FRAME_TOP@, FRAME_BLANK@] + lines.map_values(|l: Seq<char>| framed_line(l)) + seq![
        FRAME_BLANK@,
        FRAME_BOTTOM@,
        seq![],
    ]
}

/// What str::trim gives for a text.
pub uninterp spec fn trimmed_of(s: Seq<char>) -> Seq<char>;

/// What textwrap::wrap gives for a text and a width.
pub uninterp spec fn wrapped_of(text: Seq<char>, width: nat) -> Seq<Seq<char>>;

/// Relies on str::trim: the text without leading and trailing whitespace.
#[verifier::external_body]
fn trim_text(s: &str) -> (r: String)
    ensures
        r@ == trimmed_of(s@),
{
    s.trim().to_string()
}

/// Relies on textwrap::wrap: the text broken into lines of at most `width`
/// columns where its words allow it.
#[verifier::external_body]
fn wrap_text(text: &str, width: usize) -> (r: Vec<String>)
    requires
        width > 0,
    ensures
        views(r@) == wrapped_of(text@, width as nat),
{
    textwrap::wrap(text, width).into_iter().map(|l| l.into_owned()).collect()
}

/// Puts `line` inside the frame, padded to the frame's width.
fn frame_one(line: &String) -> (r: String)
    ensures
        r@ == framed_line(line@),
{
    proof {
        reveal_strlit("| ");
        reveal_strlit(" ");
        reveal_strlit(" |");
    }
    let mut out = String::from_str("| ");
    out.append(line.as_str());
    let n = line.as_str().unicode_len();
    let mut k: usize = n;
    while k < FRAME_WIDTH
        invariant
            n == line@.len(),
            n <= k <= FRAME_WIDTH || (n > FRAME_WIDTH && k == n),
            out@ == seq!['|', ' '] + line@ + Seq::new((k - n) as nat, |i: int| ' '),
        decreases FRAME_WIDTH - k,
    {
        proof {
            reveal_strlit(" ");
        }
        let ghost before = out@;
        out.append(" ");
        assert(Seq::new((k + 1 - n) as nat, |i: int| ' ') =~= Seq::new((k - n) as nat, |i: int| ' ')
            + seq![' ']);
        assert(out@ =~= seq!['|', ' '] + line@ + Seq::new((k + 1 - n) as nat, |i: int| ' '));
        k = k + 1;
    }
    out.append(" |");
    proof {
        if n >= FRAME_WIDTH {
            assert(Seq::new((k - n) as nat, |i: int| ' ') =~= Seq::<char>::empty());
        }
        assert(out@ =~= framed_line(line@));
    }
    out
}

/// The lines of the advice frame around the lines of `wrapped`.
pub fn frame_lines(wrapped: &Vec<String>) -> (r: Vec<String>)
    ensures
        views(r@) == frame(views(wrapped@)),
{
    let mut out: Vec<String> = Vec::new();
    out.push(String::new());
    out.push(String::from_str(FRAME_TOP));
    out.push(String::from_str(FRAME_BLANK));
    let mut i: usize = 0;
    while i < wrapped.len()
        invariant
            i <= wrapped.len(),
            views(out@) == seq![seq![], FRAME_TOP@, FRAME_BLANK@] + views(wrapped@).subrange(0, i as int).map_values(
                |l: Seq<char>| framed_line(l),
            ),
        decreases wrapped.len() - i,
    {
        let line = frame_one(&wrapped[i]);
        let ghost before = out@;
        out.push(line);
        proof {
            assert(views(out@) =~= views(before).push(framed_line(wrapped@[i as int]@)));
            assert(views(wrapped@).subrange(0, i + 1) =~= views(wrapped@).subrange(0, i as int).push(wrapped@[i as int]@));
            assert(views(out@) =~= seq![seq![], FRAME_TOP@, FRAME_BLANK@] + views(wrapped@).subrange(0, i + 1).map_values(
                |l: Seq<char>| framed_line(l),
            ));
        }
        i = i + 1;
    }
    out.push(String::from_str(FRAME_BLANK));
    out.push(String::from_str(FRAME_BOTTOM));
    out.push(String::new());
    assert(views(wrapped@).subrange(0, wrapped@.len() as int) =~= views(wrapped@));
    assert(views(out@) =~= frame(views(wrapped@)));
    out
}

/// The lines written to the error stream for the advice `reply`: the reply,
/// trimmed and wrapped to the frame's width, inside the frame.
pub fn advice_block(reply: &str) -> (r: Vec<String>)
    ensures
        views(r@) == frame(wrapped_of(trimmed_of(reply@), FRAME_WIDTH as nat)),
{
    let text = trim_text(reply);
    let wrapped = wrap_text(text.as_str(), FRAME_WIDTH);
    frame_lines(&wrapped)
}

/// The advice in a reply of the service: the text of its first choice.
pub fn advice_text(resp: &OpenaiResponse) -> (r: Result<String, RunError>)
    ensures
        resp.choices@.len() == 0 ==> r == Err::<String, RunError>(RunError::NoAdvice),
        resp.choices@.len() > 0 ==> r == Ok::<String, RunError>(resp.choices@[0].message.content),
{
    if resp.choices.len() == 0 {
        Err(RunError::NoAdvice)
    } else {
        Ok(resp.choices[0].message.content.clone())
    }
}

/// `q` is the request that the advice processor `o` sends.
pub open spec fn request_of(o: Openai, q: AdviceRequest) -> bool {
    &&& q.url@ == o.api_base_url@ + COMPLETIONS_PATH@
    &&& q.api_key == o.api_key
    &&& q.model@ == MODEL@
    &&& q.prompt@ == PROMPT_INTRO@ + joined_lines(views(o.lines@))
}

/// Collects the lines of a stream, unchanged, so that they can be sent
/// to an advice service once the stream ends.
#[derive(Clone, Debug, PartialEq, Eq)]
pub struct Openai {
    pub lines: Vec<String>,
    pub api_key: String,
    pub api_base_url: String,
}

impl Openai {
    pub fn new(api_base_url: String, api_key: String) -> (r: Openai)
        ensures
            r.lines@.len() == 0,
            r.api_base_url == api_base_url,
            r.api_key == api_key,
    {
        Openai { lines: Vec::new(), api_base_url, api_key }
    }

    /// Keeps a copy of the line and hands it on unchanged.
    pub fn process(&mut self, input: String) -> (r: String)
        ensures
            r == input,
            final(self).lines@ == old(self).lines@.push(input),
            final(self).api_key == old(self).api_key,
            final(self).api_base_url == old(self).api_base_url,
    {
        self.lines.push(input.clone());
        input
    }

    /// What the end of the stream sends: nothing when no line came, else
    /// one request whose prompt holds every line collected.
    pub fn request(&self) -> (r: Option<AdviceRequest>)
        ensures
            r is None <==> self.lines@.len() == 0,
            r matches Some(q) ==> request_of(*self, q),
    {
        if self.lines.len() == 0 {
            return None;
        }
        let mut url = self.api_base_url.clone();
        url.append(COMPLETIONS_PATH);
        let mut prompt = String::from_str(PROMPT_INTRO);
        let body = join_lines(&self.lines);
        prompt.append(body.as_str());
        Some(AdviceRequest { url, api_key: self.api_key.clone(), model: String::from_str(MODEL), prompt })
    }
}

} // verus!
