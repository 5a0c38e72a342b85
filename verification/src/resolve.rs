use vstd::prelude::*;

verus! {

#[verifier::external_type_specification]
#[verifier::external_body]
pub struct ExSyntaxSet(syntect::parsing::SyntaxSet);

#[verifier::external_type_specification]
#[verifier::external_body]
pub struct ExSyntaxReference(syntect::parsing::SyntaxReference);

#[verifier::external_type_specification]
#[verifier::external_body]
pub struct ExTheme(syntect::highlighting::Theme);

#[verifier::external_type_specification]
#[verifier::external_body]
pub struct ExHighlightLines<'a>(syntect::easy::HighlightLines<'a>);

#[verifier::external_type_specification]
#[verifier::external_body]
pub struct ExStyle(syntect::highlighting::Style);

#[verifier::external_type_specification]
#[verifier::external_body]
pub struct ExSyntectError(syntect::Error);

/// The contents of the grammar registry as the resolver reads it: the set
/// of language tokens under which some grammar is registered.
pub uninterp spec fn syntax_tokens(ss: syntect::parsing::SyntaxSet) -> Set<Seq<char>>;

/// The registry holds a grammar registered under the designated
/// plain-text name.
pub uninterp spec fn has_plain_text_grammar(ss: syntect::parsing::SyntaxSet) -> bool;

/// Relies on SyntaxSet::find_syntax_by_token: the grammar registered under
/// a language token, present exactly when the registry knows the token.
#[verifier::external_body]
fn find_syntax_by_token<'s>(
    ss: &'s syntect::parsing::SyntaxSet,
    token: &str,
) -> (r: Option<&'s syntect::parsing::SyntaxReference>)
    ensures
        r is Some <==> syntax_tokens(*ss).contains(token@),
{
    ss.find_syntax_by_token(token)
}

/// Relies on SyntaxSet::find_syntax_by_name, asked for the name under
/// which a plain-text grammar is registered: present exactly when the
/// registry holds one. (The registry's own plain-text accessor panics in
/// its absence; this lookup reports it instead.)
#[verifier::external_body]
fn find_plain_text_syntax<'s>(
    ss: &'s syntect::parsing::SyntaxSet,
) -> (r: Option<&'s syntect::parsing::SyntaxReference>)
    ensures
        r is Some <==> has_plain_text_grammar(*ss),
{
    ss.find_syntax_by_name("Plain Text")
}

/// Relies on HighlightLines::new: a fresh highlighting session for one
/// grammar, bound to the run's theme, stateful across the lines of one
/// code region.
#[verifier::external_body]
fn new_highlight_lines<'t>(
    syntax: &syntect::parsing::SyntaxReference,
    theme: &'t syntect::highlighting::Theme,
) -> syntect::easy::HighlightLines<'t> {
    syntect::easy::HighlightLines::new(syntax, theme)
}

/// Maps a language token to a fresh highlighting session: the grammar
/// registered under the token when one exists, else the plain-text
/// grammar, so that an empty or unrecognized token resolves to plain
/// text. Resolution fails only when the registry knows neither the token
/// nor a plain-text grammar — never for the bundled registries.
pub fn get_highlight_lines<'t>(
    lang: &str,
    ss: &syntect::parsing::SyntaxSet,
    theme: &'t syntect::highlighting::Theme,
) -> (r: Option<syntect::easy::HighlightLines<'t>>)
    ensures
        r is Some <==> (syntax_tokens(*ss).contains(lang@) || has_plain_text_grammar(*ss)),
{
    let syntax = match find_syntax_by_token(ss, lang) {
        Some(s) => Some(s),
        None => find_plain_text_syntax(ss),
    };
    match syntax {
        Some(s) => Some(new_highlight_lines(s, theme)),
        None => None,
    }
}

/// The concatenation of a sequence of text pieces.
pub open spec fn concat_texts(texts: Seq<Seq<char>>) -> Seq<char>
    decreases texts.len(),
{
    if texts.len() == 0 {
        Seq::empty()
    } else {
        texts[0] + concat_texts(texts.skip(1))
    }
}

/// The texts of a sequence of styled spans.
pub open spec fn span_texts(v: Seq<(syntect::highlighting::Style, &str)>) -> Seq<Seq<char>> {
    v.map_values(|p: (syntect::highlighting::Style, &str)| p.1@)
}

/// One character, HTML-escaped: the five escaped characters become their
/// entities, every other character stands as it is.
pub open spec fn html_escape_char(c: char) -> Seq<char> {
    if c == '<' {
        seq!['&', 'l', 't', ';']
    } else if c == '>' {
        seq!['&', 'g', 't', ';']
    } else if c == '&' {
        seq!['&', 'a', 'm', 'p', ';']
    } else if c == '\'' {
        seq!['&', '#', '3', '9', ';']
    } else if c == '"' {
        seq!['&', 'q', 'u', 'o', 't', ';']
    } else {
        seq![c]
    }
}

/// A text, HTML-escaped character by character.
pub open spec fn html_escaped(s: Seq<char>) -> Seq<char>
    decreases s.len(),
{
    if s.len() == 0 {
        Seq::empty()
    } else {
        html_escape_char(s[0]) + html_escaped(s.skip(1))
    }
}

/// The escaped texts each stand whole somewhere in `out`, in order and
/// without overlap: markup may come before, between and after them, but
/// every character of every text reaches `out`, escaped.
pub open spec fn escaped_texts_within(texts: Seq<Seq<char>>, out: Seq<char>) -> bool
    decreases texts.len(),
{
    if texts.len() == 0 {
        true
    } else {
        exists|k: int|
            #![trigger out.subrange(k, k + html_escaped(texts[0]).len())]
            0 <= k && k + html_escaped(texts[0]).len() <= out.len() && out.subrange(
                k,
                k + html_escaped(texts[0]).len(),
            ) == html_escaped(texts[0]) && escaped_texts_within(
                texts.skip(1),
                out.skip(k + html_escaped(texts[0]).len()),
            )
    }
}

/// Relies on HighlightLines::highlight_line: the styled spans of one line
/// of code under the session's grammar and theme; the span texts
/// concatenate to the original line, as the highlight iterator documents.
#[verifier::external_body]
pub(crate) fn highlight_line<'t, 'b>(
    h: &mut syntect::easy::HighlightLines<'t>,
    line: &'b str,
    ss: &syntect::parsing::SyntaxSet,
) -> (r: Result<Vec<(syntect::highlighting::Style, &'b str)>, syntect::Error>)
    ensures
        r matches Ok(v) ==> concat_texts(span_texts(v@)) == line@,
{
    h.highlight_line(line, ss)
}

/// Relies on styled_line_to_highlighted_html: the HTML rendering of styled
/// spans, colors and background attributes inlined; every span's text is
/// written HTML-escaped, in span order, between markup.
#[verifier::external_body]
pub(crate) fn styled_to_html(
    v: &[(syntect::highlighting::Style, &str)],
) -> (r: Result<String, syntect::Error>)
    ensures
        r matches Ok(out) ==> escaped_texts_within(span_texts(v@), out@),
{
    syntect::html::styled_line_to_highlighted_html(v, syntect::html::IncludeBackground::Yes)
}

/// Relies on start_highlighted_html_snippet: the opening block element of a
/// highlighted code region, pre-styled with the theme's background color.
#[verifier::external_body]
pub(crate) fn snippet_start(theme: &syntect::highlighting::Theme) -> String {
    syntect::html::start_highlighted_html_snippet(theme).0
}

} // verus!
