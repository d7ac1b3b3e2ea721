//! Markdown to HTML: the event stream of `pulldown_cmark`, with code blocks replaced by
//! the highlighted HTML of `syntect`, and the excerpt cut at the `<!--more-->` marker.
use vstd::prelude::*;
use vstd::slice::slice_subrange;
use crate::text::same_text;
use pulldown_cmark::{CodeBlockKind, Event, Tag, TagEnd};

verus! {

#[verifier::external_type_specification]
#[verifier::external_body]
pub struct ExEvent<'a>(pulldown_cmark::Event<'a>);

/// The events of a markdown text that the renderer tells apart.
pub enum MdEvent {
    /// A block of raw HTML.
    Html(String),
    /// The start of a code block, with the info string of its fence (empty when indented).
    CodeStart(String),
    /// The end of a code block.
    CodeEnd,
    /// Text.
    Text(String),
    /// Any other event, passed on as it is.
    Other(pulldown_cmark::Event<'static>),
}

/// An event with its strings as character sequences.
pub enum EventView {
    Html(Seq<char>),
    CodeStart(Seq<char>),
    CodeEnd,
    Text(Seq<char>),
    Other(pulldown_cmark::Event<'static>),
}

impl View for MdEvent {
    type V = EventView;

    open spec fn view(&self) -> EventView {
        match self {
            MdEvent::Html(h) => EventView::Html(h@),
            MdEvent::CodeStart(info) => EventView::CodeStart(info@),
            MdEvent::CodeEnd => EventView::CodeEnd,
            MdEvent::Text(t) => EventView::Text(t@),
            MdEvent::Other(e) => EventView::Other(*e),
        }
    }
}

pub open spec fn views(events: Seq<MdEvent>) -> Seq<EventView> {
    events.map_values(|e: MdEvent| e@)
}

/// The events that `pulldown_cmark::Parser::new` yields for a text.
pub uninterp spec fn markdown_events_of(text: Seq<char>) -> Seq<EventView>;

/// The HTML that `pulldown_cmark::html::push_html` writes for an event stream.
pub uninterp spec fn html_of(events: Seq<EventView>) -> Seq<char>;

/// Whether a syntax of `syntect`'s default set answers to a token.
pub uninterp spec fn syntax_known(token: Seq<char>) -> bool;

/// The HTML that `syntect` makes of a piece of code in the syntax that answers to a token,
/// in a theme of its default set; `None` when there is no such syntax or theme, or
/// highlighting fails.
pub uninterp spec fn highlighted(code: Seq<char>, token: Seq<char>, theme: Seq<char>) -> Option<
    Seq<char>,
>;

/// The HTML that `syntect` makes of a piece of code as plain text, in a theme of its default
/// set; `None` when there is no such theme or highlighting fails.
pub uninterp spec fn highlighted_plain(code: Seq<char>, theme: Seq<char>) -> Option<Seq<char>>;

/// Relies on `pulldown_cmark::Parser::new` (default options): the event stream of a text is
/// a function of the text. Each event is moved into `MdEvent` as it is.
#[verifier::external_body]
fn markdown_events(text: &str) -> (r: Vec<MdEvent>)
    ensures
        views(r@) == markdown_events_of(text@),
{
    let mut r = Vec::new();
    for event in pulldown_cmark::Parser::new(text) {
        r.push(match event {
            Event::Html(h) => MdEvent::Html(h.to_string()),
            Event::Start(Tag::CodeBlock(CodeBlockKind::Fenced(i))) => MdEvent::CodeStart(i.to_string()),
            Event::Start(Tag::CodeBlock(CodeBlockKind::Indented)) => MdEvent::CodeStart(String::new()),
            Event::End(TagEnd::CodeBlock) => MdEvent::CodeEnd,
            Event::Text(t) => MdEvent::Text(t.to_string()),
            other => MdEvent::Other(other.into_static()),
        });
    }
    r
}

/// Relies on `pulldown_cmark::html::push_html`: the HTML of an event stream is a function
/// of the events. Each `MdEvent` is turned back into the event it stands for.
#[verifier::external_body]
fn render_events(events: &[MdEvent]) -> (r: String)
    ensures
        r@ == html_of(views(events@)),
{
    let mut out = Vec::new();
    for e in events {
        out.push(match e {
            MdEvent::Html(h) => Event::Html(h.clone().into()),
            MdEvent::CodeStart(i) => Event::Start(Tag::CodeBlock(CodeBlockKind::Fenced(i.clone().into()))),
            MdEvent::CodeEnd => Event::End(TagEnd::CodeBlock),
            MdEvent::Text(t) => Event::Text(t.clone().into()),
            MdEvent::Other(other) => other.clone(),
        });
    }
    let mut html = String::new();
    pulldown_cmark::html::push_html(&mut html, out.into_iter());
    html
}

/// Relies on `syntect::parsing::SyntaxSet::load_defaults_newlines` (built into the crate)
/// and `SyntaxSet::find_syntax_by_token`: whether a syntax answers to the token.
#[verifier::external_body]
fn has_syntax(token: &str) -> (r: bool)
    ensures
        r == syntax_known(token@),
{
    syntect::parsing::SyntaxSet::load_defaults_newlines().find_syntax_by_token(token).is_some()
}

/// Relies on `syntect`: the default syntax and theme sets, `SyntaxSet::find_syntax_by_token`
/// and `html::highlighted_html_for_string`. `None` when no syntax answers to the token, the
/// theme is not in the set, or highlighting fails.
#[verifier::external_body]
fn highlight_in(code: &str, token: &str, theme: &str) -> (r: Option<String>)
    ensures
        match r {
            Some(h) => highlighted(code@, token@, theme@) == Some(h@),
            None => highlighted(code@, token@, theme@) is None,
        },
{
    let syntaxes = syntect::parsing::SyntaxSet::load_defaults_newlines();
    let themes = syntect::highlighting::ThemeSet::load_defaults();
    let syntax = syntaxes.find_syntax_by_token(token)?;
    let theme = themes.themes.get(theme)?;
    syntect::html::highlighted_html_for_string(code, &syntaxes, syntax, theme).ok()
}

/// Relies on `syntect`: the default syntax and theme sets, `SyntaxSet::find_syntax_plain_text`
/// and `html::highlighted_html_for_string`. `None` when the theme is not in the set or
/// highlighting fails.
#[verifier::external_body]
fn highlight_plain(code: &str, theme: &str) -> (r: Option<String>)
    ensures
        match r {
            Some(h) => highlighted_plain(code@, theme@) == Some(h@),
            None => highlighted_plain(code@, theme@) is None,
        },
{
    let syntaxes = syntect::parsing::SyntaxSet::load_defaults_newlines();
    let themes = syntect::highlighting::ThemeSet::load_defaults();
    let syntax = syntaxes.find_syntax_plain_text();
    let theme = themes.themes.get(theme)?;
    syntect::html::highlighted_html_for_string(code, &syntaxes, syntax, theme).ok()
}

/// The theme that code blocks are highlighted in.
pub const THEME: &'static str = "InspiredGitHub";

/// The raw HTML line that ends the excerpt.
pub const MORE_MARKER: &'static str = "<!--more-->\n";

pub open spec fn theme_name() -> Seq<char> {
    THEME@
}

pub open spec fn more_marker() -> Seq<char> {
    MORE_MARKER@
}

/// The HTML that stands for a code block: the code highlighted in the syntax that answers
/// to the fence's token, or as plain text when there is no token (an indented block or a
/// bare fence) or no syntax answers to it; the code itself when highlighting fails.
pub open spec fn code_html(code: Seq<char>, token: Seq<char>) -> Seq<char> {
    let h = if token.len() > 0 && syntax_known(token) {
        highlighted(code, token, theme_name())
    } else {
        highlighted_plain(code, theme_name())
    };
    match h {
        Some(h) => h,
        None => code,
    }
}

/// Where a scan of the event stream stands.
pub struct Scan {
    /// The events of the body so far.
    pub body: Seq<EventView>,
    /// The length of the body when the marker was met, if it was.
    pub cut: Option<nat>,
    /// Inside a code block.
    pub in_code: bool,
    /// The text of the current code block so far.
    pub code: Seq<char>,
    /// The token of the current code block.
    pub token: Seq<char>,
}

pub open spec fn scan_start() -> Scan {
    Scan { body: seq![], cut: None, in_code: false, code: seq![], token: seq![] }
}

/// One event of the scan: raw HTML passes but for the marker, which fixes the excerpt's
/// end the first time; a code block's text is collected and comes out highlighted at its end;
/// everything else passes.
pub open spec fn scan_step(s: Scan, e: EventView) -> Scan {
    match e {
        EventView::Html(h) => if h == more_marker() {
            Scan { cut: if s.cut is None { Some(s.body.len()) } else { s.cut }, ..s }
        } else {
            Scan { body: s.body.push(e), ..s }
        },
        EventView::CodeStart(token) => Scan { in_code: true, code: seq![], token, ..s },
        EventView::CodeEnd => Scan {
            in_code: false,
            body: s.body.push(EventView::Html(code_html(s.code, s.token))),
            ..s
        },
        EventView::Text(t) => if s.in_code {
            Scan { code: s.code + t, ..s }
        } else {
            Scan { body: s.body.push(e), ..s }
        },
        EventView::Other(_) => Scan { body: s.body.push(e), ..s },
    }
}

pub open spec fn scan(events: Seq<EventView>) -> Scan {
    events.fold_left(scan_start(), |s: Scan, e: EventView| scan_step(s, e))
}

/// The events of the excerpt: those of the body before the marker.
pub open spec fn excerpt_events(s: Scan) -> Option<Seq<EventView>> {
    match s.cut {
        Some(k) => Some(s.body.take(k as int)),
        None => None,
    }
}

proof fn lemma_scan_cut(events: Seq<EventView>)
    ensures
        scan(events).cut matches Some(k) ==> k <= scan(events).body.len(),
    decreases events.len(),
{
    if events.len() > 0 {
        lemma_scan_cut(events.drop_last());
    }
}

/// Replaces each code block of an event stream by its highlighted HTML, and finds where
/// the excerpt ends. Returns the body's events and the length of the excerpt, if the
/// stream holds the marker.
pub fn highlight_events(events: Vec<MdEvent>) -> (r: (Vec<MdEvent>, Option<usize>))
    ensures
        views(r.0@) == scan(views(events@)).body,
        r.1 matches Some(k) ==> scan(views(events@)).cut == Some(k as nat),
        r.1 is None ==> scan(views(events@)).cut is None,
{
    let ghost all = views(events@);
    let mut body: Vec<MdEvent> = Vec::new();
    let mut cut: Option<usize> = None;
    let mut in_code = false;
    let mut code = String::new();
    let mut token = String::new();
    proof {
        assert(all.take(0) =~= seq![]);
        assert(views(body@) =~= seq![]);
        reveal_strlit("InspiredGitHub");
    }
    for e in it: events
        invariant
            views(it.seq()) == all,
            ({
                let s = scan(all.take(it.index() as int));
                &&& views(body@) == s.body
                &&& s.in_code == in_code
                &&& s.code == code@
                &&& s.token == token@
                &&& match cut {
                    Some(k) => s.cut == Some(k as nat),
                    None => s.cut is None,
                }
            }),
    {
        let ghost i = it.index();
        proof {
            assert(all.take(i + 1).drop_last() =~= all.take(i as int));
            assert(all.take(i + 1).last() == all[i as int]);
            assert(e@ == all[i as int]);
        }
        let ghost body0 = body@;
        match e {
            MdEvent::Html(h) => {
                if same_text(h.as_str(), MORE_MARKER) {
                    if cut.is_none() {
                        cut = Some(body.len());
                    }
                    assert(body@ == body0);
                } else {
                    body.push(MdEvent::Html(h));
                }
            },
            MdEvent::CodeStart(t) => {
                in_code = true;
                code = String::new();
                token = t;
            },
            MdEvent::CodeEnd => {
                in_code = false;
                let highlighted_code = if token.as_str().unicode_len() > 0 && has_syntax(
                    token.as_str(),
                ) {
                    highlight_in(code.as_str(), token.as_str(), THEME)
                } else {
                    highlight_plain(code.as_str(), THEME)
                };
                let html = match highlighted_code {
                    Some(h) => h,
                    None => code.clone(),
                };
                body.push(MdEvent::Html(html));
            },
            MdEvent::Text(t) => {
                if in_code {
                    code.append(t.as_str());
                } else {
                    body.push(MdEvent::Text(t));
                }
            },
            MdEvent::Other(o) => {
                body.push(MdEvent::Other(o));
            },
        }
        proof {
            assert(views(body@) =~= scan(all.take(i + 1)).body);
        }
    }
    proof {
        assert(all.take(all.len() as int) =~= all);
    }
    (body, cut)
}

/// The HTML of a markdown body.
pub open spec fn body_html(text: Seq<char>) -> Seq<char> {
    html_of(scan(markdown_events_of(text)).body)
}

/// The HTML of the excerpt of a markdown body, if the body holds the marker.
pub open spec fn excerpt_html(text: Seq<char>) -> Option<Seq<char>> {
    match excerpt_events(scan(markdown_events_of(text))) {
        Some(events) => Some(html_of(events)),
        None => None,
    }
}

/// Renders a markdown body to HTML, with highlighted code blocks, and renders its excerpt:
/// what comes before the `<!--more-->` marker line, if there is one.
pub fn render(text: &str) -> (r: (String, Option<String>))
    ensures
        r.0@ == body_html(text@),
        match r.1 {
            Some(x) => excerpt_html(text@) == Some(x@),
            None => excerpt_html(text@) is None,
        },
{
    let events = markdown_events(text);
    let (body, cut) = highlight_events(events);
    let html = render_events(body.as_slice());
    proof {
        lemma_scan_cut(markdown_events_of(text@));
    }
    match cut {
        None => (html, None),
        Some(k) => {
            let head = slice_subrange(body.as_slice(), 0, k);
            proof {
                assert(views(head@) =~= views(body@).take(k as int));
            }
            (html, Some(render_events(head)))
        },
    }
}

/// Without the marker line there is no excerpt: when no raw HTML event of the stream is
/// the marker, the scan never fixes an end for the excerpt.
pub proof fn law_no_marker_no_excerpt(events: Seq<EventView>)
    requires
        forall|i: int| 0 <= i < events.len() ==> events[i] != EventView::Html(more_marker()),
    ensures
        scan(events).cut is None,
        excerpt_events(scan(events)) is None,
    decreases events.len(),
{
    if events.len() > 0 {
        let init = events.drop_last();
        assert forall|i: int| 0 <= i < init.len() implies init[i] != EventView::Html(
            more_marker(),
        ) by {
            assert(init[i] == events[i]);
        }
        law_no_marker_no_excerpt(init);
        assert(events.last() == events[events.len() - 1]);
    }
}

/// A document rendered without highlighting: its frontmatter and its body as HTML.
#[derive(Debug)]
pub struct Page {
    pub frontmatter: crate::parser::Frontmatter,
    pub body: String,
}

/// What `parse` makes of a document, as a relation on its result: the frontmatter as
/// `extract_frontmatter` finds it, and the body converted to HTML as it is.
pub open spec fn parses_plain(doc: Seq<char>, r: Result<Page, crate::parser::Error>) -> bool {
    let body = crate::parser::body_text(doc);
    if crate::parser::has_block(doc) && !crate::text::is_blank(crate::parser::before_block(doc)) {
        r matches Err(crate::parser::Error::ContentBeforeFrontmatter(t)) && t@
            == crate::parser::before_block(doc)
    } else if crate::parser::has_block(doc) && crate::frontmatter::toml_parse(
        crate::parser::block_text(doc),
    ) is None {
        r matches Err(crate::parser::Error::InvalidFrontmatter(m)) && m@
            == crate::frontmatter::toml_error_message(crate::parser::block_text(doc))
    } else {
        &&& r is Ok
        &&& if crate::parser::has_block(doc) {
            crate::frontmatter::toml_parse(crate::parser::block_text(doc)) == Some(
                r->Ok_0.frontmatter,
            )
        } else {
            crate::parser::is_empty_table(r->Ok_0.frontmatter)
        }
        &&& r->Ok_0.body@ == html_of(markdown_events_of(body))
    }
}

/// Splits a document and converts its body to HTML, with no highlighting and no excerpt.
pub fn parse(markdown: &str) -> (r: Result<Page, crate::parser::Error>)
    ensures
        parses_plain(markdown@, r),
{
    let (frontmatter, body) = crate::parser::extract_frontmatter(markdown)?;
    let events = markdown_events(body.as_str());
    let html = render_events(events.as_slice());
    Ok(Page { frontmatter, body: html })
}

} // verus!
