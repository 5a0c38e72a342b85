use vstd::prelude::*;

use vstd::string::StringExecFns;

verus! {

/// The metadata block of one document: a display date, a title, a summary
/// used verbatim in listings, the tag sequence, and a draft flag that no
/// downstream logic consults.
pub struct FrontMatter {
    pub date: Option<String>,
    pub title: String,
    pub summary: String,
    pub tags: Vec<String>,
    pub draft: Option<bool>,
}

impl FrontMatter {
    /// Every front matter that reaches the aggregation stage carries at
    /// least one tag.
    pub open spec fn wf(self) -> bool {
        self.tags@.len() >= 1
    }
}

/// The summary fragment that represents one document in every listing:
/// title, date and summary text wrapped in a fixed list-item shell.
pub open spec fn summary_html_spec(fm: FrontMatter) -> Seq<char> {
    "<li><h3><a href=\"\"></a>"@ + fm.title@ + "</h3><div>"@ + fm.date.unwrap()@
        + "</div><p>"@ + fm.summary@ + "</p></li>"@
}

/// Renders the summary fragment for one document.
pub fn get_summary_html(front_matter: &FrontMatter) -> (r: String)
    requires
        front_matter.date is Some,
    ensures
        r@ == summary_html_spec(*front_matter),
{
    let mut r = String::new();
    r.append("<li><h3><a href=\"\"></a>");
    r.append(front_matter.title.as_str());
    r.append("</h3><div>");
    if let Some(d) = &front_matter.date {
        r.append(d.as_str());
    }
    r.append("</div><p>");
    r.append(front_matter.summary.as_str());
    r.append("</p></li>");
    r
}

} // verus!
