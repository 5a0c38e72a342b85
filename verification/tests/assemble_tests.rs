use sitegen::assemble::assemble_page;
use sitegen::assemble::post_path;
use sitegen::assemble::render_tag_links;
use sitegen::assemble::replace_all;
use sitegen::assemble::tag_path;
use sitegen::get_summary_html;
use sitegen::FrontMatter;

fn sample_front() -> FrontMatter {
    FrontMatter {
        date: Some("2020-01-01".to_string()),
        title: "Hello".to_string(),
        summary: "Intro".to_string(),
        tags: vec!["misc".to_string()],
        draft: None,
    }
}

#[test]
fn replace_all_replaces_every_occurrence() {
    assert_eq!(replace_all("a{{x}}b{{x}}c", "{{x}}", "Y"), "aYbYc");
}

#[test]
fn replace_all_without_match_is_identity() {
    assert_eq!(replace_all("unchanged text", "{{x}}", "Y"), "unchanged text");
}

#[test]
fn replace_all_is_leftmost_without_overlap() {
    assert_eq!(replace_all("aaa", "aa", "b"), "ba");
}

#[test]
fn replace_all_does_not_rescan_replacements() {
    assert_eq!(replace_all("x{{a}}y", "{{a}}", "{{a}}z"), "x{{a}}zy");
}

#[test]
fn tag_links_in_front_matter_order() {
    let tags = vec!["a".to_string(), "b".to_string()];
    assert_eq!(
        render_tag_links(&tags),
        "<a href=\"/tags/a\">a</a><a href=\"/tags/b\">b</a>"
    );
}

#[test]
fn tag_links_of_no_tags_is_empty() {
    assert_eq!(render_tag_links(&vec![]), "");
}

#[test]
fn assemble_substitutes_all_four_placeholders() {
    let fm = sample_front();
    let page = assemble_page(
        "<html><h1>{{title}}</h1><time>{{date}}</time>{{tags}}<main>{{content}}</main></html>",
        &fm,
        "<p>hi</p>",
    );
    assert_eq!(
        page,
        "<html><h1>Hello</h1><time>2020-01-01</time><a href=\"/tags/misc\">misc</a><main><p>hi</p></main></html>"
    );
}

#[test]
fn assemble_replaces_repeated_placeholders() {
    let fm = sample_front();
    let page = assemble_page("{{title}}/{{title}}", &fm, "");
    assert_eq!(page, "Hello/Hello");
}

#[test]
fn summary_fragment_has_exact_shape() {
    let fm = sample_front();
    assert_eq!(
        get_summary_html(&fm),
        "<li><h3><a href=\"\"></a>Hello</h3><div>2020-01-01</div><p>Intro</p></li>"
    );
}

#[test]
fn output_paths_are_derived_from_stem_and_tag() {
    assert_eq!(post_path("first-post"), "posts/first-post.html");
    assert_eq!(tag_path("misc"), "tags/misc.html");
}
