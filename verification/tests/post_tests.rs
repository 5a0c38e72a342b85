use sitegen::index::aggregate;
use sitegen::process_post;
use sitegen::PostError;
use syntect::highlighting::Theme;
use syntect::highlighting::ThemeSet;
use syntect::parsing::SyntaxSet;

fn any_theme() -> Theme {
    let ts = ThemeSet::load_defaults();
    ts.themes.iter().next().unwrap().1.clone()
}

const TEMPLATE: &str = "<t>{{title}}|{{date}}|{{tags}}|{{content}}</t>";

#[test]
fn empty_body_document_renders_page_and_defaults_tags() {
    let ss = SyntaxSet::load_defaults_newlines();
    let theme = any_theme();
    let doc = "+++\ntitle = \"Hello\"\ndate = \"2020-01-01\"\nsummary = \"Intro\"\ntags = []\n+++\n";
    let p = process_post(TEMPLATE, doc, &ss, &theme).unwrap();
    assert_eq!(p.front.tags, vec!["misc".to_string()]);
    assert_eq!(
        p.page_html,
        "<t>Hello|2020-01-01|<a href=\"/tags/misc\">misc</a>|</t>"
    );
    assert_eq!(
        p.summary_html,
        "<li><h3><a href=\"\"></a>Hello</h3><div>2020-01-01</div><p>Intro</p></li>"
    );
    let agg = aggregate(&vec![(p.front, p.summary_html.clone())]);
    assert_eq!(agg.tags, vec![("misc".to_string(), p.summary_html)]);
}

#[test]
fn malformed_document_terminates_the_run() {
    let ss = SyntaxSet::load_defaults_newlines();
    let theme = any_theme();
    let doc = "+++\ntitle = \"T\"\nsummary = \"S\"\ntags = []\n";
    let r = process_post(TEMPLATE, doc, &ss, &theme);
    assert!(matches!(r, Err(PostError::MissingDelimiter)));
}

#[test]
fn missing_date_is_fatal_at_render_time() {
    let ss = SyntaxSet::load_defaults_newlines();
    let theme = any_theme();
    let doc = "+++\ntitle = \"T\"\nsummary = \"S\"\ntags = [\"x\"]\n+++\nbody\n";
    let r = process_post(TEMPLATE, doc, &ss, &theme);
    assert!(matches!(r, Err(PostError::MissingDate)));
}

#[test]
fn bad_metadata_is_fatal() {
    let ss = SyntaxSet::load_defaults_newlines();
    let theme = any_theme();
    let doc = "+++\nsummary = \"S\"\ntags = []\n+++\nbody\n";
    let r = process_post(TEMPLATE, doc, &ss, &theme);
    assert!(matches!(r, Err(PostError::BadMetadata)));
}

#[test]
fn code_region_document_renders_highlighted_page() {
    let ss = SyntaxSet::load_defaults_newlines();
    let theme = any_theme();
    let doc = "+++\ntitle = \"T\"\ndate = \"2020-01-01\"\nsummary = \"S\"\ntags = [\"rust\"]\n+++\n```rust\nfn main() {}\n```\n";
    let p = process_post(TEMPLATE, doc, &ss, &theme).unwrap();
    assert!(p.page_html.contains("<pre style=\"background-color:#"));
    assert!(p.page_html.contains("</pre>"));
}
