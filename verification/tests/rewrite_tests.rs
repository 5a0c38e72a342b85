use sitegen::rewrite::rewrite_markdown;
use syntect::highlighting::Theme;
use syntect::highlighting::ThemeSet;
use syntect::parsing::SyntaxSet;

fn any_theme() -> Theme {
    let ts = ThemeSet::load_defaults();
    ts.themes.iter().next().unwrap().1.clone()
}

fn direct_render(body: &str) -> String {
    let mut opts = pulldown_cmark::Options::empty();
    opts.insert(pulldown_cmark::Options::ENABLE_STRIKETHROUGH);
    opts.insert(pulldown_cmark::Options::ENABLE_TABLES);
    let mut out = String::new();
    pulldown_cmark::html::push_html(&mut out, pulldown_cmark::Parser::new_ext(body, opts));
    out
}

#[test]
fn noncode_body_matches_plain_renderer_byte_for_byte() {
    let ss = SyntaxSet::load_defaults_newlines();
    let theme = any_theme();
    let body = "# Title\n\nhello *world*\n\n| a | b |\n|---|---|\n| 1 | 2 |\n\n~~gone~~\n";
    let ours = rewrite_markdown(body, &ss, &theme).unwrap();
    assert_eq!(ours, direct_render(body));
}

#[test]
fn fenced_code_region_becomes_styled_block() {
    let ss = SyntaxSet::load_defaults_newlines();
    let theme = any_theme();
    let body = "```rust\nfn main() {}\n```\n";
    let out = rewrite_markdown(body, &ss, &theme).unwrap();
    assert!(out.contains("<pre style=\"background-color:#"));
    assert!(out.contains("</pre>"));
    assert!(out.contains("<span"));
    assert_ne!(out, direct_render(body));
}

#[test]
fn unknown_token_matches_plain_text_fallback_byte_for_byte() {
    let ss = SyntaxSet::load_defaults_newlines();
    let theme = any_theme();
    let unknown = "```zzznotalanguage\nsome plain code\n```\n";
    let empty_hint = "```\nsome plain code\n```\n";
    let a = rewrite_markdown(unknown, &ss, &theme).unwrap();
    let b = rewrite_markdown(empty_hint, &ss, &theme).unwrap();
    assert_eq!(a, b);
}

#[test]
fn rust_highlight_differs_from_plain_fallback() {
    let ss = SyntaxSet::load_defaults_newlines();
    let theme = any_theme();
    let rust = rewrite_markdown("```rust\nfn main() {}\n```\n", &ss, &theme).unwrap();
    let plain = rewrite_markdown("```\nfn main() {}\n```\n", &ss, &theme).unwrap();
    assert_ne!(rust, plain);
}

#[test]
fn code_text_appears_reescaped_not_verbatim() {
    let ss = SyntaxSet::load_defaults_newlines();
    let theme = any_theme();
    let body = "```\n<div>&x</div>\n```\n";
    let out = rewrite_markdown(body, &ss, &theme).unwrap();
    assert!(out.contains("&lt;div&gt;"));
    assert!(out.contains("&amp;x"));
    assert!(!out.contains("<div>&x</div>"));
}

#[test]
fn text_after_code_region_passes_through_again() {
    let ss = SyntaxSet::load_defaults_newlines();
    let theme = any_theme();
    let body = "before\n\n```\ncode\n```\n\nafter\n";
    let out = rewrite_markdown(body, &ss, &theme).unwrap();
    assert!(out.contains("<p>before</p>"));
    assert!(out.contains("<p>after</p>"));
}

#[test]
fn resolver_never_fails_on_bundled_registry() {
    let ss = SyntaxSet::load_defaults_newlines();
    let theme = any_theme();
    assert!(sitegen::get_highlight_lines("rust", &ss, &theme).is_some());
    assert!(sitegen::get_highlight_lines("", &ss, &theme).is_some());
    assert!(sitegen::get_highlight_lines("zzznotalanguage", &ss, &theme).is_some());
}
