use vstd::prelude::*;

use crate::front::FrontMatter;
use vstd::string::StrSliceExecFns;
use vstd::string::StringExecFns;

verus! {

/// `s` with every occurrence of `pat` replaced by `rep`, scanning left to
/// right without overlap, exactly as the original text is substituted into
/// the page template.
pub open spec fn replace_spec(s: Seq<char>, pat: Seq<char>, rep: Seq<char>) -> Seq<char>
    decreases s.len(),
{
    if pat.len() == 0 || s.len() < pat.len() {
        s
    } else if s.subrange(0, pat.len() as int) == pat {
        rep + replace_spec(s.skip(pat.len() as int), pat, rep)
    } else {
        seq![s[0]] + replace_spec(s.skip(1), pat, rep)
    }
}

/// `pat` stands at position `i` of `s`.
fn matches_at(s: &str, i: usize, pat: &str) -> (b: bool)
    ensures
        b == (i + pat@.len() <= s@.len() && s@.subrange(
            i as int,
            i + pat@.len(),
        ) == pat@),
{
    let n = s.unicode_len();
    let m = pat.unicode_len();
    if m > n || i > n - m {
        return false;
    }
    let mut k: usize = 0;
    while k < m
        invariant
            n == s@.len(),
            m == pat@.len(),
            i + m <= n,
            k <= m,
            forall|l: int| 0 <= l < k ==> s@[i + l] == pat@[l],
        decreases m - k,
    {
        if s.get_char(i + k) != pat.get_char(k) {
            proof {
                let sub = s@.subrange(i as int, i + m as int);
                assert(sub[k as int] == s@[i + k]);
                assert(sub != pat@) by {
                    if sub == pat@ {
                        assert(sub[k as int] == pat@[k as int]);
                    }
                }
            }
            return false;
        }
        k = k + 1;
    }
    proof {
        assert(s@.subrange(i as int, i + m as int) =~= pat@);
    }
    true
}

/// Replaces every occurrence of `pat` in `s` by `rep`, leftmost first,
/// without rescanning replaced text.
pub fn replace_all(s: &str, pat: &str, rep: &str) -> (r: String)
    requires
        pat@.len() >= 1,
    ensures
        r@ == replace_spec(s@, pat@, rep@),
{
    let n = s.unicode_len();
    let m = pat.unicode_len();
    let mut out = String::new();
    let mut i: usize = 0;
    proof {
        assert(s@.skip(0) =~= s@);
        assert(Seq::<char>::empty() + replace_spec(s@, pat@, rep@) =~= replace_spec(
            s@,
            pat@,
            rep@,
        ));
    }
    while i < n
        invariant
            n == s@.len(),
            m == pat@.len(),
            m >= 1,
            i <= n,
            out@ + replace_spec(s@.skip(i as int), pat@, rep@) == replace_spec(s@, pat@, rep@),
        decreases n - i,
    {
        let ghost t = s@.skip(i as int);
        let ghost out0 = out@;
        if matches_at(s, i, pat) {
            out.append(rep);
            proof {
                assert(t.subrange(0, m as int) =~= s@.subrange(i as int, i + m as int));
                assert(t.skip(m as int) =~= s@.skip(i + m));
                assert(replace_spec(t, pat@, rep@) == rep@ + replace_spec(
                    s@.skip(i + m),
                    pat@,
                    rep@,
                ));
                assert(out@ + replace_spec(s@.skip(i + m), pat@, rep@) =~= out0 + replace_spec(
                    t,
                    pat@,
                    rep@,
                ));
            }
            i = i + m;
        } else {
            let c = s.substring_char(i, i + 1);
            out.append(c);
            proof {
                assert(c@ =~= seq![s@[i as int]]);
                assert(t[0] == s@[i as int]);
                assert(t.skip(1) =~= s@.skip(i + 1));
                if t.len() >= m {
                    assert(t.subrange(0, m as int) =~= s@.subrange(i as int, i + m as int));
                    assert(t.subrange(0, m as int) != pat@);
                    assert(replace_spec(t, pat@, rep@) == seq![t[0]] + replace_spec(
                        t.skip(1),
                        pat@,
                        rep@,
                    ));
                } else {
                    assert(replace_spec(t, pat@, rep@) == t);
                    assert(t.skip(1).len() < m);
                    assert(replace_spec(t.skip(1), pat@, rep@) == t.skip(1));
                    assert(t =~= seq![t[0]] + t.skip(1));
                }
                assert(out@ + replace_spec(s@.skip(i + 1), pat@, rep@) =~= out0 + replace_spec(
                    t,
                    pat@,
                    rep@,
                ));
            }
            i = i + 1;
        }
    }
    proof {
        assert(s@.skip(n as int) =~= Seq::<char>::empty());
        assert(replace_spec(Seq::<char>::empty(), pat@, rep@) == Seq::<char>::empty());
        assert(out@ + Seq::<char>::empty() =~= out@);
    }
    out
}

/// One link element for one tag, pointing at the path derived from the tag
/// name.
pub open spec fn link_of(tag: Seq<char>) -> Seq<char> {
    "<a href=\"/tags/"@ + tag + "\">"@ + tag + "</a>"@
}

/// The tag-links block: one link per tag, in front-matter order.
pub open spec fn tag_links_spec(tags: Seq<String>) -> Seq<char>
    decreases tags.len(),
{
    if tags.len() == 0 {
        Seq::empty()
    } else {
        link_of(tags[0]@) + tag_links_spec(tags.skip(1))
    }
}

proof fn lemma_tag_links_append(a: Seq<String>, b: Seq<String>)
    ensures
        tag_links_spec(a + b) == tag_links_spec(a) + tag_links_spec(b),
    decreases a.len(),
{
    if a.len() == 0 {
        assert(a + b =~= b);
        assert(Seq::<char>::empty() + tag_links_spec(b) =~= tag_links_spec(b));
    } else {
        assert((a + b)[0] == a[0]);
        assert((a + b).skip(1) =~= a.skip(1) + b);
        lemma_tag_links_append(a.skip(1), b);
        assert(link_of(a[0]@) + (tag_links_spec(a.skip(1)) + tag_links_spec(b)) =~= (link_of(a[0]@)
            + tag_links_spec(a.skip(1))) + tag_links_spec(b));
    }
}

/// Renders the tag-links block for a page, one link element per tag in
/// front-matter order.
pub fn render_tag_links(tags: &Vec<String>) -> (r: String)
    ensures
        r@ == tag_links_spec(tags@),
{
    let mut r = String::new();
    let mut i: usize = 0;
    while i < tags.len()
        invariant
            i <= tags@.len(),
            r@ == tag_links_spec(tags@.take(i as int)),
        decreases tags@.len() - i,
    {
        let ghost r0 = r@;
        r.append("<a href=\"/tags/");
        r.append(tags[i].as_str());
        r.append("\">");
        r.append(tags[i].as_str());
        r.append("</a>");
        proof {
            let tag = tags@[i as int]@;
            assert(r@ =~= r0 + link_of(tag));
            let single = seq![tags@[i as int]];
            assert(single.skip(1) =~= Seq::<String>::empty());
            assert(tag_links_spec(Seq::<String>::empty()) == Seq::<char>::empty());
            assert(single[0] == tags@[i as int]);
            assert(tag_links_spec(single) == link_of(tag) + Seq::<char>::empty());
            assert(link_of(tag) + Seq::<char>::empty() =~= link_of(tag));
            assert(tags@.take(i + 1) =~= tags@.take(i as int) + single);
            lemma_tag_links_append(tags@.take(i as int), single);
        }
        i = i + 1;
    }
    proof {
        assert(tags@.take(tags@.len() as int) =~= tags@);
    }
    r
}

/// The assembled page: the template with the four placeholder tokens
/// replaced, in order, by the title, the date, the tag-links block and the
/// rendered body.
pub open spec fn assemble_spec(template: Seq<char>, fm: FrontMatter, content: Seq<char>) -> Seq<
    char,
> {
    replace_spec(
        replace_spec(
            replace_spec(
                replace_spec(template, "{{title}}"@, fm.title@),
                "{{date}}"@,
                fm.date.unwrap()@,
            ),
            "{{tags}}"@,
            tag_links_spec(fm.tags@),
        ),
        "{{content}}"@,
        content,
    )
}

/// Substitutes title, date, tag links and rendered body into the page
/// template. The date must be present; its absence is a per-document
/// failure caught before this step.
pub fn assemble_page(template: &str, fm: &FrontMatter, content_html: &str) -> (r: String)
    requires
        fm.date is Some,
    ensures
        r@ == assemble_spec(template@, *fm, content_html@),
{
    proof {
        reveal_strlit("{{title}}");
        reveal_strlit("{{date}}");
        reveal_strlit("{{tags}}");
        reveal_strlit("{{content}}");
    }
    let r1 = replace_all(template, "{{title}}", fm.title.as_str());
    let date_str = match &fm.date {
        Some(d) => d.as_str(),
        None => "",
    };
    let r2 = replace_all(r1.as_str(), "{{date}}", date_str);
    let links = render_tag_links(&fm.tags);
    let r3 = replace_all(r2.as_str(), "{{tags}}", links.as_str());
    replace_all(r3.as_str(), "{{content}}", content_html)
}

/// The output path of one document page: the source filename stem under the
/// per-post output directory, with the `.html` extension.
pub fn post_path(stem: &str) -> (r: String)
    ensures
        r@ == "posts/"@ + stem@ + ".html"@,
{
    let mut r = String::from_str("posts/");
    r.append(stem);
    r.append(".html");
    r
}

/// The output path of one tag listing page, named after the tag.
pub fn tag_path(tag: &str) -> (r: String)
    ensures
        r@ == "tags/"@ + tag@ + ".html"@,
{
    let mut r = String::from_str("tags/");
    r.append(tag);
    r.append(".html");
    r
}

} // verus!
