use vstd::prelude::*;

use crate::resolve::concat_texts;
use crate::resolve::escaped_texts_within;
use crate::resolve::get_highlight_lines;
use crate::resolve::highlight_line;
use crate::resolve::snippet_start;
use crate::resolve::span_texts;
use crate::resolve::styled_to_html;
use crate::PostError;
use pulldown_cmark::CodeBlockKind;
use pulldown_cmark::Event;
use pulldown_cmark::Options;
use pulldown_cmark::Parser;
use pulldown_cmark::Tag;

verus! {

#[verifier::external_type_specification]
#[verifier::external_body]
pub struct ExEvent<'a>(Event<'a>);

/// One structural event of the body markup as the rewriter reads it: a
/// text node, a code-region boundary with its optional language hint, or
/// any event of the open remaining set, to be passed through untouched.
pub enum Tok<'a> {
    Text(String),
    StartCode(Option<String>),
    EndCode,
    Other(Event<'a>),
}

/// One output slot of the rewriter: a text node kept as it was, an
/// injected HTML fragment, or an event passed through untouched.
pub enum OutItem<'a> {
    Text(String),
    Html(String),
    Other(Event<'a>),
}

/// Relies on Parser::new_ext, with the table and
/// strikethrough extensions enabled: the structural event stream of the
/// body, with text nodes, code-region boundaries and their fenced language
/// hints told apart from the open set of other events.
#[verifier::external_body]
fn md_tokens<'a>(body: &'a str) -> Vec<Tok<'a>> {
    let opts = Options::ENABLE_STRIKETHROUGH | Options::ENABLE_TABLES;
    Parser::new_ext(body, opts).map(|ev| match ev {
        Event::Text(t) => Tok::Text(t.to_string()),
        Event::Start(Tag::CodeBlock(CodeBlockKind::Fenced(info))) => Tok::StartCode(
            Some(info.to_string()),
        ),
        Event::Start(Tag::CodeBlock(CodeBlockKind::Indented)) => Tok::StartCode(None),
        Event::End(Tag::CodeBlock(_)) => Tok::EndCode,
        other => Tok::Other(other),
    }).collect()
}

/// Relies on Event::Text and CowStr::from: a text event
/// holding exactly the given characters.
#[verifier::external_body]
fn mk_text_event<'a>(s: String) -> Event<'a> {
    Event::Text(s.into())
}

/// Relies on Event::Html and CowStr::from: an HTML event
/// holding exactly the given characters.
#[verifier::external_body]
fn mk_html_event<'a>(s: String) -> Event<'a> {
    Event::Html(s.into())
}

/// Relies on pulldown_cmark::html::push_html: the HTML serialization of an
/// event stream, in event order.
#[verifier::external_body]
fn render_events(events: Vec<Event>) -> String {
    let mut out = String::new();
    pulldown_cmark::html::push_html(&mut out, events.into_iter());
    out
}

/// The rewriter's state while observing event `n`: inside a code region
/// exactly when the most recent boundary among the first `n` events opened
/// one. The tokenizer guarantees well-nested fences; this state is total
/// over any stream all the same.
pub open spec fn in_code<'a>(toks: Seq<Tok<'a>>, n: int) -> bool
    decreases n,
{
    if n <= 0 {
        false
    } else {
        match toks[n - 1] {
            Tok::StartCode(_) => true,
            Tok::EndCode => false,
            _ => in_code(toks, n - 1),
        }
    }
}

/// Some event of the stream asks for highlighting work: a code region
/// opens there, or text stands inside one.
pub open spec fn has_highlight_site<'a>(toks: Seq<Tok<'a>>) -> bool {
    exists|i: int|
        #![trigger toks[i]]
        0 <= i < toks.len() && (toks[i] matches Tok::StartCode(_) || (toks[i] matches Tok::Text(
            _,
        ) && in_code(toks, i)))
}

/// The injected fragment renders the raw code text: it embeds, in order,
/// the HTML-escaping of span texts that concatenate to the line, so every
/// character of the line reaches the fragment, escaped — and never as a
/// text node.
pub open spec fn code_text_rendered(line: Seq<char>, out: Seq<char>) -> bool {
    exists|texts: Seq<Seq<char>>|
        #![trigger escaped_texts_within(texts, out)]
        concat_texts(texts) == line && escaped_texts_within(texts, out)
}

/// How output slot `i` relates to event `i`: text outside a code region
/// and every other structural event pass through unchanged, text inside a
/// code region is replaced by an injected HTML fragment that renders it
/// escaped, a region opening is replaced by an injected preamble, and a
/// region closing by the fixed closing element.
pub open spec fn rewritten_at<'a>(toks: Seq<Tok<'a>>, items: Seq<OutItem<'a>>, i: int) -> bool {
    match toks[i] {
        Tok::Text(t) => if in_code(toks, i) {
            items[i] matches OutItem::Html(h) && code_text_rendered(t@, h@)
        } else {
            items[i] matches OutItem::Text(u) && u@ == t@
        },
        Tok::StartCode(_) => items[i] is Html,
        Tok::EndCode => items[i] matches OutItem::Html(h) && h@ == "</pre>"@,
        Tok::Other(e) => items[i] matches OutItem::Other(e2) && e2 == e,
    }
}

/// The streaming rewrite pass: one output slot per input event, related
/// slot by slot as `rewritten_at` says. A failure can arise only from
/// resolving or running a highlighter, so only where a code region opens
/// or where text stands inside one.
#[verifier::loop_isolation(false)]
pub fn rewrite<'a, 't>(
    toks: Vec<Tok<'a>>,
    ss: &syntect::parsing::SyntaxSet,
    theme: &'t syntect::highlighting::Theme,
) -> (r: Result<Vec<OutItem<'a>>, PostError>)
    ensures
        match r {
            Ok(items) => {
                &&& items@.len() == toks@.len()
                &&& forall|i: int| 0 <= i < toks@.len() ==> rewritten_at(toks@, items@, i)
            },
            Err(e) => {
                &&& e == PostError::Highlight
                &&& has_highlight_site(toks@)
            },
        },
{
    let ghost otoks = toks@;
    let mut rest = toks;
    let mut items: Vec<OutItem<'a>> = Vec::new();
    let mut hl: Option<syntect::easy::HighlightLines<'t>> = None;
    proof {
        assert(otoks.skip(0) =~= otoks);
    }
    while rest.len() > 0
        invariant
            items@.len() + rest@.len() == otoks.len(),
            rest@ == otoks.skip(items@.len() as int),
            hl is Some <==> in_code(otoks, items@.len() as int),
            forall|j: int| 0 <= j < items@.len() ==> rewritten_at(otoks, items@, j),
        decreases rest@.len(),
    {
        let ghost i = items@.len() as int;
        let t = rest.remove(0);
        proof {
            assert(0 <= i < otoks.len());
            assert(otoks.skip(i)[0] == otoks[i]);
            assert(otoks.skip(i).remove(0) =~= otoks.skip(i + 1));
        }
        let item: OutItem<'a>;
        match t {
            Tok::Text(s) => {
                match hl {
                    Some(mut h) => {
                        let regions = match highlight_line(&mut h, s.as_str(), ss) {
                            Ok(rg) => rg,
                            Err(_) => {
                                proof {
                                    assert(0 <= i < otoks.len());
                                    assert(otoks[i] matches Tok::Text(_) && in_code(otoks, i));
                                    assert(has_highlight_site(otoks));
                                }
                                return Err(PostError::Highlight);
                            },
                        };
                        let html = match styled_to_html(regions.as_slice()) {
                            Ok(x) => x,
                            Err(_) => {
                                proof {
                                    assert(0 <= i < otoks.len());
                                    assert(otoks[i] matches Tok::Text(_) && in_code(otoks, i));
                                    assert(has_highlight_site(otoks));
                                }
                                return Err(PostError::Highlight);
                            },
                        };
                        proof {
                            assert(concat_texts(span_texts(regions@)) == s@);
                            assert(escaped_texts_within(span_texts(regions@), html@));
                            assert(code_text_rendered(s@, html@));
                        }
                        item = OutItem::Html(html);
                        hl = Some(h);
                    },
                    None => {
                        item = OutItem::Text(s);
                        hl = None;
                    },
                }
            },
            Tok::StartCode(hint) => {
                let token = match hint {
                    Some(h) => h,
                    None => String::new(),
                };
                match get_highlight_lines(token.as_str(), ss, theme) {
                    Some(h) => {
                        let pre = snippet_start(theme);
                        item = OutItem::Html(pre);
                        hl = Some(h);
                    },
                    None => {
                        proof {
                            assert(0 <= i < otoks.len());
                            assert(otoks[i] matches Tok::StartCode(_));
                            assert(has_highlight_site(otoks));
                        }
                        return Err(PostError::Highlight);
                    },
                }
            },
            Tok::EndCode => {
                item = OutItem::Html("</pre>".to_owned());
                hl = None;
            },
            Tok::Other(e) => {
                item = OutItem::Other(e);
            },
        }
        let ghost items0 = items@;
        items.push(item);
        proof {
            assert(rewritten_at(otoks, items@, i));
            assert forall|j: int| 0 <= j < items@.len() implies rewritten_at(
                otoks,
                items@,
                j,
            ) by {
                if j < i {
                    assert(items@[j] == items0[j]);
                    assert(rewritten_at(otoks, items0, j));
                }
            }
        }
    }
    Ok(items)
}

/// Maps the rewriter's output slots back to an event stream for the
/// renderer: kept text becomes a text event with the same characters,
/// injected fragments become HTML events, passed-through events stand
/// unchanged at their positions.
pub fn to_events<'a>(items: Vec<OutItem<'a>>) -> (evs: Vec<Event<'a>>)
    ensures
        evs@.len() == items@.len(),
        forall|i: int|
            #![trigger items@[i]]
            0 <= i < items@.len() ==> (items@[i] matches OutItem::Other(e) ==> evs@[i] == e),
{
    let ghost oitems = items@;
    let mut rest = items;
    let mut evs: Vec<Event<'a>> = Vec::new();
    proof {
        assert(oitems.skip(0) =~= oitems);
    }
    while rest.len() > 0
        invariant
            evs@.len() + rest@.len() == oitems.len(),
            rest@ == oitems.skip(evs@.len() as int),
            forall|i: int|
                #![trigger oitems[i]]
                0 <= i < evs@.len() ==> (oitems[i] matches OutItem::Other(e) ==> evs@[i] == e),
        decreases rest@.len(),
    {
        let ghost i = evs@.len() as int;
        let it = rest.remove(0);
        proof {
            assert(oitems.skip(i)[0] == oitems[i]);
            assert(oitems.skip(i).remove(0) =~= oitems.skip(i + 1));
        }
        match it {
            OutItem::Text(s) => evs.push(mk_text_event(s)),
            OutItem::Html(s) => evs.push(mk_html_event(s)),
            OutItem::Other(e) => evs.push(e),
        }
    }
    evs
}

/// The whole body transform: tokenize the body, run the rewrite pass, and
/// serialize the resulting event stream to HTML. The slot-by-slot
/// guarantees live on `rewrite`; a failure can only be a highlighting
/// failure.
pub fn rewrite_markdown<'t>(
    body: &str,
    ss: &syntect::parsing::SyntaxSet,
    theme: &'t syntect::highlighting::Theme,
) -> (r: Result<String, PostError>)
    ensures
        r matches Err(e) ==> e == PostError::Highlight,
{
    let toks = md_tokens(body);
    match rewrite(toks, ss, theme) {
        Ok(items) => Ok(render_events(to_events(items))),
        Err(e) => Err(e),
    }
}

/// Law: the rewrite pass is the identity on text observed outside any code
/// region — such a text node reaches the renderer byte for byte.
pub proof fn lemma_noncode_text_is_identity<'a>(
    toks: Seq<Tok<'a>>,
    items: Seq<OutItem<'a>>,
    i: int,
)
    requires
        items.len() == toks.len(),
        forall|j: int| 0 <= j < toks.len() ==> rewritten_at(toks, items, j),
        0 <= i < toks.len(),
        !in_code(toks, i),
    ensures
        toks[i] matches Tok::Text(t) ==> (items[i] matches OutItem::Text(u) && u@ == t@),
{
    assert(rewritten_at(toks, items, i));
}

/// Law: every structural event outside the code-region protocol passes
/// through the rewrite pass unchanged, at its own position.
pub proof fn lemma_structural_passthrough<'a>(
    toks: Seq<Tok<'a>>,
    items: Seq<OutItem<'a>>,
    i: int,
)
    requires
        items.len() == toks.len(),
        forall|j: int| 0 <= j < toks.len() ==> rewritten_at(toks, items, j),
        0 <= i < toks.len(),
    ensures
        toks[i] matches Tok::Other(e) ==> (items[i] matches OutItem::Other(e2) && e2 == e),
{
    assert(rewritten_at(toks, items, i));
}

/// Law: the raw text of a code region is never emitted verbatim as a text
/// node — a text event observed inside a code region is always replaced by
/// an injected HTML fragment, and that fragment embeds, in order, the
/// HTML-escaping of span texts that concatenate to the raw text, so every
/// character of it appears there, escaped.
pub proof fn lemma_code_text_never_verbatim<'a>(
    toks: Seq<Tok<'a>>,
    items: Seq<OutItem<'a>>,
    i: int,
)
    requires
        items.len() == toks.len(),
        forall|j: int| 0 <= j < toks.len() ==> rewritten_at(toks, items, j),
        0 <= i < toks.len(),
        in_code(toks, i),
    ensures
        toks[i] matches Tok::Text(t) ==> (items[i] matches OutItem::Html(h)
            && code_text_rendered(t@, h@)),
{
    assert(rewritten_at(toks, items, i));
}

} // verus!
