use sitegen::split_document;
use sitegen::PostError;

#[test]
fn splits_meta_and_body() {
    let doc = "+++\ntitle = \"T\"\n+++\nbody text";
    let (meta, body) = split_document(doc).unwrap();
    assert_eq!(meta, "\ntitle = \"T\"\n");
    assert_eq!(body, "\nbody text");
}

#[test]
fn single_delimiter_is_fatal() {
    let doc = "+++\ntitle = \"T\"\n";
    assert!(matches!(split_document(doc), Err(PostError::MissingDelimiter)));
}

#[test]
fn no_delimiter_is_fatal() {
    assert!(matches!(split_document("hello world"), Err(PostError::MissingDelimiter)));
}

#[test]
fn empty_document_is_fatal() {
    assert!(matches!(split_document(""), Err(PostError::MissingDelimiter)));
}

#[test]
fn body_keeps_later_delimiters() {
    let doc = "+++a+++b+++c";
    let (meta, body) = split_document(doc).unwrap();
    assert_eq!(meta, "a");
    assert_eq!(body, "b+++c");
}

#[test]
fn adjacent_delimiters_give_empty_parts() {
    let doc = "++++++";
    let (meta, body) = split_document(doc).unwrap();
    assert_eq!(meta, "");
    assert_eq!(body, "");
}

#[test]
fn prefix_before_first_delimiter_is_dropped() {
    let doc = "junk+++meta+++body";
    let (meta, body) = split_document(doc).unwrap();
    assert_eq!(meta, "meta");
    assert_eq!(body, "body");
}
