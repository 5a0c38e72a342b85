use sitegen::index::aggregate;
use sitegen::index::IndexAggregator;
use sitegen::FrontMatter;

fn front_with_tags(tags: &[&str]) -> FrontMatter {
    FrontMatter {
        date: Some("2020-01-01".to_string()),
        title: "T".to_string(),
        summary: "S".to_string(),
        tags: tags.iter().map(|t| t.to_string()).collect(),
        draft: None,
    }
}

#[test]
fn recency_list_is_first_six_in_order() {
    let mut entries: Vec<(FrontMatter, String)> = Vec::new();
    for i in 0..8 {
        entries.push((front_with_tags(&["t"]), format!("f{}", i)));
    }
    let agg = aggregate(&entries);
    assert_eq!(agg.recent, "f0f1f2f3f4f5");
    assert_eq!(agg.all, "f0f1f2f3f4f5f6f7");
    assert_eq!(agg.count, 8);
}

#[test]
fn recency_list_under_the_limit_holds_everything() {
    let entries = vec![
        (front_with_tags(&["a"]), "x".to_string()),
        (front_with_tags(&["b"]), "y".to_string()),
    ];
    let agg = aggregate(&entries);
    assert_eq!(agg.recent, "xy");
    assert_eq!(agg.all, "xy");
}

#[test]
fn tag_index_first_writer_wins() {
    let entries = vec![
        (front_with_tags(&["a", "b"]), "F1".to_string()),
        (front_with_tags(&["b", "c"]), "F2".to_string()),
    ];
    let agg = aggregate(&entries);
    assert_eq!(
        agg.tags,
        vec![
            ("a".to_string(), "F1".to_string()),
            ("b".to_string(), "F1".to_string()),
            ("c".to_string(), "F2".to_string()),
        ]
    );
}

#[test]
fn two_tags_share_one_fragment() {
    let entries = vec![
        (front_with_tags(&["a", "b"]), "S".to_string()),
        (front_with_tags(&["a"]), "OTHER".to_string()),
    ];
    let agg = aggregate(&entries);
    assert_eq!(
        agg.tags,
        vec![("a".to_string(), "S".to_string()), ("b".to_string(), "S".to_string())]
    );
}

#[test]
fn duplicate_tags_within_one_document_are_deduplicated() {
    let entries = vec![(front_with_tags(&["a", "a"]), "F".to_string())];
    let agg = aggregate(&entries);
    assert_eq!(agg.tags, vec![("a".to_string(), "F".to_string())]);
}

#[test]
fn observe_counts_documents() {
    let mut agg = IndexAggregator::new();
    let fm = front_with_tags(&["x"]);
    agg.observe(&fm, &"one".to_string());
    agg.observe(&fm, &"two".to_string());
    assert_eq!(agg.count, 2);
    assert_eq!(agg.all, "onetwo");
    assert_eq!(agg.recent, "onetwo");
    assert_eq!(agg.tags.len(), 1);
}

#[test]
fn empty_stream_gives_empty_outputs() {
    let agg = aggregate(&Vec::new());
    assert_eq!(agg.count, 0);
    assert_eq!(agg.recent, "");
    assert_eq!(agg.all, "");
    assert!(agg.tags.is_empty());
}
