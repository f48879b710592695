use crate::config::ConfigError;
use pulldown_cmark::{CodeBlockKind, Event, Tag};
use vstd::prelude::*;
use vstd::string::StringExecFns;

verus! {

/// What the extraction of settings from a Markdown document looks at in
/// each of its events.
#[derive(Clone, Debug, PartialEq, Eq)]
pub enum MdEvent {
    /// A code block opens: fenced, with its info string, or indented (none).
    CodeStart(Option<String>),
    /// A code block closes.
    CodeEnd,
    /// A run of text.
    Text(String),
    /// Anything else.
    Other,
}

/// An event as the contracts see it.
pub enum MdEventView {
    CodeStart(Option<Seq<char>>),
    CodeEnd,
    Text(Seq<char>),
    Other,
}

pub open spec fn md_view(e: MdEvent) -> MdEventView {
    match e {
        MdEvent::CodeStart(Some(l)) => MdEventView::CodeStart(Some(l@)),
        MdEvent::CodeStart(None) => MdEventView::CodeStart(None),
        MdEvent::CodeEnd => MdEventView::CodeEnd,
        MdEvent::Text(t) => MdEventView::Text(t@),
        MdEvent::Other => MdEventView::Other,
    }
}

pub open spec fn md_views(v: Seq<MdEvent>) -> Seq<MdEventView> {
    v.map_values(|e: MdEvent| md_view(e))
}

/// What pulldown_cmark's parser yields for a Markdown document, as events.
pub uninterp spec fn markdown_events_of(text: Seq<char>) -> Seq<MdEventView>;

/// Relies on pulldown_cmark::Parser (CommonMark, no extensions): the events
/// of the document in order, code block boundaries and text kept apart.
#[verifier::external_body]
fn markdown_events(text: &str) -> (r: Vec<MdEvent>)
    ensures
        md_views(r@) == markdown_events_of(text@),
{
    pulldown_cmark::Parser::new(text).map(|event| match event {
        Event::Start(Tag::CodeBlock(CodeBlockKind::Fenced(info))) => MdEvent::CodeStart(Some(info.to_string())),
        Event::Start(Tag::CodeBlock(CodeBlockKind::Indented)) => MdEvent::CodeStart(None),
        Event::End(Tag::CodeBlock(_)) => MdEvent::CodeEnd,
        Event::Text(t) => MdEvent::Text(t.to_string()),
        _ => MdEvent::Other,
    }).collect()
}

/// The settings text gathered from the first `n` events, and whether the
/// last of them left a code block open; none once a code block other than
/// a fenced `toml` one has opened.
pub open spec fn scan_events(events: Seq<MdEventView>, n: int) -> Option<(Seq<char>, bool)>
    decreases n,
{
    if n <= 0 {
        Some((seq![], false))
    } else {
        match scan_events(events, n - 1) {
            None => None,
            Some((acc, open)) => match events[n - 1] {
                MdEventView::CodeStart(info) => if info == Some("toml"@) {
                    Some((acc, true))
                } else {
                    None
                },
                MdEventView::CodeEnd => Some((acc, false)),
                MdEventView::Text(t) => if open {
                    Some((acc + t, open))
                } else {
                    Some((acc, open))
                },
                MdEventView::Other => Some((acc, open)),
            },
        }
    }
}

/// The text of the fenced `toml` code blocks of a document's events, one
/// after the other; none when another kind of code block appears.
pub open spec fn literate_settings(events: Seq<MdEventView>) -> Option<Seq<char>> {
    match scan_events(events, events.len() as int) {
        Some((acc, _)) => Some(acc),
        None => None,
    }
}

/// Gathers the text of the fenced `toml` code blocks among `events`.
pub fn toml_of_events(events: &Vec<MdEvent>) -> (r: Result<String, ConfigError>)
    ensures
        match literate_settings(md_views(events@)) {
            Some(t) => r matches Ok(s) && s@ == t,
            None => r == Err::<String, ConfigError>(ConfigError::UntaggedCodeBlock),
        },
{
    let ghost evs = md_views(events@);
    let toml = String::from_str("toml");
    let mut acc = String::new();
    let mut open = false;
    let mut i: usize = 0;
    while i < events.len()
        invariant
            i <= events@.len(),
            evs == md_views(events@),
            toml@ == "toml"@,
            scan_events(evs, i as int) == Some((acc@, open)),
        decreases events@.len() - i,
    {
        assert(evs[i as int] == md_view(events@[i as int]));
        match &events[i] {
            MdEvent::CodeStart(info) => {
                let fenced_toml = match info {
                    Some(l) => *l == toml,
                    None => false,
                };
                if fenced_toml {
                    open = true;
                } else {
                    proof {
                        lemma_scan_stays_failed(evs, i as int + 1, evs.len() as int);
                    }
                    return Err(ConfigError::UntaggedCodeBlock);
                }
            },
            MdEvent::CodeEnd => {
                open = false;
            },
            MdEvent::Text(t) => {
                if open {
                    acc.append(t.as_str());
                }
            },
            MdEvent::Other => {},
        }
        i = i + 1;
    }
    Ok(acc)
}

proof fn lemma_scan_stays_failed(events: Seq<MdEventView>, n: int, m: int)
    requires
        0 <= n <= m,
        scan_events(events, n) is None,
    ensures
        scan_events(events, m) is None,
    decreases m - n,
{
    if n < m {
        lemma_scan_stays_failed(events, n, m - 1);
    }
}

/// The settings text of a literate configuration: the fenced `toml` code
/// blocks of the Markdown document `text`, one after the other.
pub fn literate_toml(text: &str) -> (r: Result<String, ConfigError>)
    ensures
        match literate_settings(markdown_events_of(text@)) {
            Some(t) => r matches Ok(s) && s@ == t,
            None => r == Err::<String, ConfigError>(ConfigError::UntaggedCodeBlock),
        },
{
    let events = markdown_events(text);
    toml_of_events(&events)
}

} // verus!
