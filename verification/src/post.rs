use vstd::prelude::*;

use crate::assemble::assemble_page;
use crate::assemble::assemble_spec;
use crate::decode::decoded_front;
use crate::decode::front_decode_ok;
use crate::decode::front_from_parts;
use crate::decode::parse_front_matter;
use crate::front::get_summary_html;
use crate::front::summary_html_spec;
use crate::front::FrontMatter;
use crate::parse::split_document;
use crate::parse::split_spec;
use crate::rewrite::rewrite_markdown;
use crate::PostError;

verus! {

/// Everything one document yields: its decoded front matter, the rewritten
/// body HTML, the full page built around it, and the summary fragment that
/// represents the document in listings.
pub struct Processed {
    pub front: FrontMatter,
    pub body_html: String,
    pub page_html: String,
    pub summary_html: String,
}

/// The per-document pipeline: split the raw text on the delimiter, decode
/// the metadata block, rewrite the body markup with highlighted code
/// regions, and assemble the page around the rewritten body. Each failure
/// comes exactly when its stage says: a missing second delimiter, a
/// metadata block that does not decode with its required fields, a decoded
/// block without a date; past those, only a highlighting failure can stand
/// between the document and its page. Any failure is fatal for the whole
/// run, as the caller decides.
pub fn process_post(
    template: &str,
    raw: &str,
    ss: &syntect::parsing::SyntaxSet,
    theme: &syntect::highlighting::Theme,
) -> (r: Result<Processed, PostError>)
    ensures
        r == Err::<Processed, PostError>(PostError::MissingDelimiter) <==> split_spec(raw@) is None,
        r == Err::<Processed, PostError>(PostError::BadMetadata) <==> (split_spec(raw@) matches Some(
            sp,
        ) && !front_decode_ok(sp.0)),
        r == Err::<Processed, PostError>(PostError::MissingDate) <==> (split_spec(raw@) matches Some(
            sp,
        ) && front_decode_ok(sp.0) && decoded_front(sp.0).unwrap().date is None),
        (split_spec(raw@) matches Some(sp) && front_decode_ok(sp.0) && decoded_front(
            sp.0,
        ).unwrap().date is Some) ==> (r is Ok || r == Err::<Processed, PostError>(
            PostError::Highlight,
        )),
        r matches Ok(p) ==> {
            &&& split_spec(raw@) matches Some(sp) && front_decode_ok(sp.0) && front_from_parts(
                p.front,
                decoded_front(sp.0).unwrap(),
            )
            &&& p.front.wf()
            &&& p.front.date is Some
            &&& p.summary_html@ == summary_html_spec(p.front)
            &&& p.page_html@ == assemble_spec(template@, p.front, p.body_html@)
        },
{
    let split = match split_document(raw) {
        Ok(p) => p,
        Err(e) => {
            return Err(e);
        },
    };
    let fm = match parse_front_matter(split.0.as_str()) {
        Ok(f) => f,
        Err(e) => {
            return Err(e);
        },
    };
    if fm.date.is_none() {
        return Err(PostError::MissingDate);
    }
    let body_html = match rewrite_markdown(split.1.as_str(), ss, theme) {
        Ok(h) => h,
        Err(e) => {
            return Err(e);
        },
    };
    let page_html = assemble_page(template, &fm, body_html.as_str());
    let summary_html = get_summary_html(&fm);
    let p = Processed { front: fm, body_html, page_html, summary_html };
    proof {
        assert(p.page_html@ == assemble_spec(template@, p.front, p.body_html@));
    }
    Ok(p)
}

} // verus!
