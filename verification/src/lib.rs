use vstd::prelude::*;

pub mod assemble;
pub mod decode;
mod front;
pub mod index;
mod parse;
pub mod post;
pub mod resolve;
pub mod rewrite;

pub use front::get_summary_html;
pub use front::summary_html_spec;
pub use front::FrontMatter;
pub use parse::find_marker_spec;
pub use parse::marker_at;
pub use parse::split_document;
pub use parse::split_spec;
pub use post::process_post;
pub use post::Processed;
pub use resolve::get_highlight_lines;

verus! {

/// The ways a document can defeat the build: the delimiter structure is
/// broken, the metadata block does not decode into the expected shape, the
/// date is absent when a page or summary must be rendered, or the
/// highlighting engine reports a failure.
#[derive(Clone, Copy, PartialEq, Eq, Structural, Debug)]
pub enum PostError {
    MissingDelimiter,
    BadMetadata,
    MissingDate,
    Highlight,
}

} // verus!
