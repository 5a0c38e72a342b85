use sitegen::decode::build_front_matter;
use sitegen::decode::parse_front_matter;
use sitegen::PostError;

#[test]
fn decodes_full_front_matter() {
    let fm = parse_front_matter(
        "title = \"Hello\"\ndate = \"2020-01-01\"\nsummary = \"Intro\"\ntags = [\"a\", \"b\"]\n",
    )
    .unwrap();
    assert_eq!(fm.title, "Hello");
    assert_eq!(fm.date.as_deref(), Some("2020-01-01"));
    assert_eq!(fm.summary, "Intro");
    assert_eq!(fm.tags, vec!["a".to_string(), "b".to_string()]);
    assert_eq!(fm.draft, None);
}

#[test]
fn empty_tags_default_to_misc() {
    let fm = parse_front_matter(
        "title = \"Hello\"\ndate = \"2020-01-01\"\nsummary = \"Intro\"\ntags = []\n",
    )
    .unwrap();
    assert_eq!(fm.tags, vec!["misc".to_string()]);
}

#[test]
fn date_is_optional_at_decode_time() {
    let fm = parse_front_matter("title = \"T\"\nsummary = \"S\"\ntags = [\"x\"]\n").unwrap();
    assert_eq!(fm.date, None);
}

#[test]
fn missing_title_is_fatal() {
    let r = parse_front_matter("date = \"2020-01-01\"\nsummary = \"S\"\ntags = []\n");
    assert!(matches!(r, Err(PostError::BadMetadata)));
}

#[test]
fn missing_summary_is_fatal() {
    let r = parse_front_matter("title = \"T\"\ntags = []\n");
    assert!(matches!(r, Err(PostError::BadMetadata)));
}

#[test]
fn missing_tags_is_fatal() {
    let r = parse_front_matter("title = \"T\"\nsummary = \"S\"\n");
    assert!(matches!(r, Err(PostError::BadMetadata)));
}

#[test]
fn mistyped_title_is_fatal() {
    let r = parse_front_matter("title = 3\nsummary = \"S\"\ntags = []\n");
    assert!(matches!(r, Err(PostError::BadMetadata)));
}

#[test]
fn mistyped_tag_element_is_fatal() {
    let r = parse_front_matter("title = \"T\"\nsummary = \"S\"\ntags = [1, 2]\n");
    assert!(matches!(r, Err(PostError::BadMetadata)));
}

#[test]
fn undecodable_block_is_fatal() {
    let r = parse_front_matter("title = ");
    assert!(matches!(r, Err(PostError::BadMetadata)));
}

#[test]
fn draft_flag_is_parsed_but_optional() {
    let fm = parse_front_matter(
        "title = \"T\"\nsummary = \"S\"\ntags = [\"x\"]\ndraft = true\n",
    )
    .unwrap();
    assert_eq!(fm.draft, Some(true));
}

#[test]
fn unknown_fields_are_ignored() {
    let fm = parse_front_matter(
        "title = \"T\"\nsummary = \"S\"\ntags = [\"x\"]\nextra = \"ignored\"\n",
    )
    .unwrap();
    assert_eq!(fm.title, "T");
}

#[test]
fn build_requires_title_summary_and_tags() {
    let r = build_front_matter(None, None, Some("S".to_string()), Some(vec![]), None);
    assert!(matches!(r, Err(PostError::BadMetadata)));
    let fm = build_front_matter(
        Some("T".to_string()),
        Some("D".to_string()),
        Some("S".to_string()),
        Some(vec![]),
        Some(false),
    )
    .unwrap();
    assert_eq!(fm.tags, vec!["misc".to_string()]);
    assert_eq!(fm.draft, Some(false));
}

#[test]
fn datetime_typed_date_is_fatal() {
    let r = parse_front_matter("title = \"T\"\ndate = 2020-01-01\nsummary = \"S\"\ntags = []\n");
    assert!(matches!(r, Err(PostError::BadMetadata)));
}
