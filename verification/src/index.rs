use vstd::prelude::*;

use crate::front::FrontMatter;
use vstd::string::StringExecFns;

verus! {

/// Documents beyond this many are excluded from the recency listing.
pub const RECENT_POST_LIMIT: usize = 6;

/// Some pair of the tag index carries `key` as its tag name.
pub open spec fn has_tag_key(pairs: Seq<(String, String)>, key: Seq<char>) -> bool {
    exists|k: int| 0 <= k < pairs.len() && pairs[k].0@ == key
}

/// The fragment stored under `key`, scanning pairs front to back.
pub open spec fn tag_lookup(pairs: Seq<(String, String)>, key: Seq<char>) -> Option<Seq<char>>
    decreases pairs.len(),
{
    if pairs.len() == 0 {
        None
    } else if pairs[0].0@ == key {
        Some(pairs[0].1@)
    } else {
        tag_lookup(pairs.skip(1), key)
    }
}

/// First-writer-wins insertion: a tag already present keeps its fragment.
pub open spec fn insert_tag(pairs: Seq<(String, String)>, tag: String, frag: String) -> Seq<
    (String, String),
> {
    if has_tag_key(pairs, tag@) {
        pairs
    } else {
        pairs.push((tag, frag))
    }
}

/// One document's whole tag sequence inserted in order, first writer wins.
pub open spec fn insert_tags(
    pairs: Seq<(String, String)>,
    tags: Seq<String>,
    frag: String,
) -> Seq<(String, String)>
    decreases tags.len(),
{
    if tags.len() == 0 {
        pairs
    } else {
        insert_tags(insert_tag(pairs, tags[0], frag), tags.skip(1), frag)
    }
}

/// No tag name occurs twice in the index.
pub open spec fn tags_wf(pairs: Seq<(String, String)>) -> bool {
    forall|k1: int, k2: int| 0 <= k1 < k2 < pairs.len() ==> pairs[k1].0@ != pairs[k2].0@
}

/// The tag sequence `tags` carries the name `t`.
pub open spec fn seq_contains_tag(tags: Seq<String>, t: Seq<char>) -> bool {
    exists|k: int| 0 <= k < tags.len() && tags[k]@ == t
}

/// The document of entry `e` carries the tag `t`.
pub open spec fn entry_has_tag(e: (FrontMatter, String), t: Seq<char>) -> bool {
    seq_contains_tag(e.0.tags@, t)
}

/// All summary fragments of a document stream, concatenated in order.
pub open spec fn frags_concat(entries: Seq<(FrontMatter, String)>) -> Seq<char>
    decreases entries.len(),
{
    if entries.len() == 0 {
        Seq::empty()
    } else {
        entries[0].1@ + frags_concat(entries.skip(1))
    }
}

/// The tag index after a document stream has been folded into `pairs`.
pub open spec fn fold_tags(
    pairs: Seq<(String, String)>,
    entries: Seq<(FrontMatter, String)>,
) -> Seq<(String, String)>
    decreases entries.len(),
{
    if entries.len() == 0 {
        pairs
    } else {
        fold_tags(insert_tags(pairs, entries[0].0.tags@, entries[0].1), entries.skip(1))
    }
}

/// The three aggregate outputs, built from the stream of processed
/// documents: the recency listing, the full listing, and the tag index.
pub struct IndexAggregator {
    pub count: usize,
    pub recent: String,
    pub all: String,
    pub tags: Vec<(String, String)>,
}

proof fn lemma_has_key_skip(pairs: Seq<(String, String)>, t: Seq<char>)
    requires
        pairs.len() > 0,
        pairs[0].0@ != t,
    ensures
        has_tag_key(pairs, t) == has_tag_key(pairs.skip(1), t),
{
    if has_tag_key(pairs, t) {
        let k = choose|k: int| 0 <= k < pairs.len() && pairs[k].0@ == t;
        assert(pairs.skip(1)[k - 1] == pairs[k]);
        assert(has_tag_key(pairs.skip(1), t));
    }
    if has_tag_key(pairs.skip(1), t) {
        let k = choose|k: int| 0 <= k < pairs.skip(1).len() && pairs.skip(1)[k].0@ == t;
        assert(pairs[k + 1] == pairs.skip(1)[k]);
        assert(has_tag_key(pairs, t));
    }
}

proof fn lemma_has_key_push(pairs: Seq<(String, String)>, p: (String, String), t: Seq<char>)
    ensures
        has_tag_key(pairs.push(p), t) == (has_tag_key(pairs, t) || p.0@ == t),
{
    let q = pairs.push(p);
    if has_tag_key(pairs, t) {
        let k = choose|k: int| 0 <= k < pairs.len() && pairs[k].0@ == t;
        assert(q[k] == pairs[k]);
        assert(has_tag_key(q, t));
    }
    if p.0@ == t {
        assert(q[pairs.len() as int] == p);
        assert(has_tag_key(q, t));
    }
    if has_tag_key(q, t) && !has_tag_key(pairs, t) {
        let k = choose|k: int| 0 <= k < q.len() && q[k].0@ == t;
        if k < pairs.len() {
            assert(pairs[k] == q[k]);
            assert(has_tag_key(pairs, t));
        } else {
            assert(q[k] == p);
        }
    }
}

proof fn lemma_lookup_absent(pairs: Seq<(String, String)>, t: Seq<char>)
    requires
        !has_tag_key(pairs, t),
    ensures
        tag_lookup(pairs, t) is None,
    decreases pairs.len(),
{
    if pairs.len() > 0 {
        assert(pairs[0].0@ != t);
        lemma_has_key_skip(pairs, t);
        lemma_lookup_absent(pairs.skip(1), t);
    }
}

proof fn lemma_lookup_push(pairs: Seq<(String, String)>, p: (String, String), t: Seq<char>)
    ensures
        tag_lookup(pairs.push(p), t) == if has_tag_key(pairs, t) {
            tag_lookup(pairs, t)
        } else if p.0@ == t {
            Some(p.1@)
        } else {
            None::<Seq<char>>
        },
    decreases pairs.len(),
{
    let q = pairs.push(p);
    if pairs.len() == 0 {
        assert(q.len() == 1);
        assert(q[0] == p);
        assert(q.skip(1) =~= Seq::<(String, String)>::empty());
    } else {
        assert(q[0] == pairs[0]);
        if pairs[0].0@ == t {
            assert(has_tag_key(pairs, t));
        } else {
            assert(q.skip(1) =~= pairs.skip(1).push(p));
            lemma_lookup_push(pairs.skip(1), p, t);
            lemma_has_key_skip(pairs, t);
        }
    }
}

proof fn lemma_insert_tag_lookup(
    pairs: Seq<(String, String)>,
    tag: String,
    frag: String,
    t: Seq<char>,
)
    ensures
        has_tag_key(insert_tag(pairs, tag, frag), t) == (has_tag_key(pairs, t) || tag@ == t),
        tag_lookup(insert_tag(pairs, tag, frag), t) == if has_tag_key(pairs, t) {
            tag_lookup(pairs, t)
        } else if tag@ == t {
            Some(frag@)
        } else {
            None::<Seq<char>>
        },
{
    if has_tag_key(pairs, tag@) {
        if tag@ == t {
            assert(has_tag_key(pairs, t));
        } else if !has_tag_key(pairs, t) {
            lemma_lookup_absent(pairs, t);
        }
    } else {
        lemma_has_key_push(pairs, (tag, frag), t);
        lemma_lookup_push(pairs, (tag, frag), t);
    }
}

proof fn lemma_contains_tag_skip(tags: Seq<String>, t: Seq<char>)
    requires
        tags.len() > 0,
    ensures
        seq_contains_tag(tags, t) == (tags[0]@ == t || seq_contains_tag(tags.skip(1), t)),
{
    if seq_contains_tag(tags, t) {
        let k = choose|k: int| 0 <= k < tags.len() && tags[k]@ == t;
        if k > 0 {
            assert(tags.skip(1)[k - 1] == tags[k]);
            assert(seq_contains_tag(tags.skip(1), t));
        }
    }
    if seq_contains_tag(tags.skip(1), t) {
        let k = choose|k: int| 0 <= k < tags.skip(1).len() && tags.skip(1)[k]@ == t;
        assert(tags[k + 1] == tags.skip(1)[k]);
        assert(seq_contains_tag(tags, t));
    }
    if tags[0]@ == t {
        assert(seq_contains_tag(tags, t));
    }
}

proof fn lemma_insert_tags_lookup(
    pairs: Seq<(String, String)>,
    tags: Seq<String>,
    frag: String,
    t: Seq<char>,
)
    ensures
        has_tag_key(insert_tags(pairs, tags, frag), t) == (has_tag_key(pairs, t)
            || seq_contains_tag(tags, t)),
        tag_lookup(insert_tags(pairs, tags, frag), t) == if has_tag_key(pairs, t) {
            tag_lookup(pairs, t)
        } else if seq_contains_tag(tags, t) {
            Some(frag@)
        } else {
            None::<Seq<char>>
        },
    decreases tags.len(),
{
    if tags.len() == 0 {
        if !has_tag_key(pairs, t) {
            lemma_lookup_absent(pairs, t);
        }
    } else {
        let p1 = insert_tag(pairs, tags[0], frag);
        assert(insert_tags(pairs, tags, frag) == insert_tags(p1, tags.skip(1), frag));
        lemma_insert_tag_lookup(pairs, tags[0], frag, t);
        lemma_insert_tags_lookup(p1, tags.skip(1), frag, t);
        lemma_contains_tag_skip(tags, t);
        if !has_tag_key(pairs, t) && !seq_contains_tag(tags, t) {
            assert(tags[0]@ != t);
            assert(!has_tag_key(p1, t));
        }
    }
}

proof fn lemma_insert_tag_wf(pairs: Seq<(String, String)>, tag: String, frag: String)
    requires
        tags_wf(pairs),
    ensures
        tags_wf(insert_tag(pairs, tag, frag)),
{
    if !has_tag_key(pairs, tag@) {
        let q = pairs.push((tag, frag));
        assert forall|k1: int, k2: int| 0 <= k1 < k2 < q.len() implies q[k1].0@ != q[k2].0@ by {
            if k2 == pairs.len() {
                assert(q[k1] == pairs[k1]);
                if pairs[k1].0@ == tag@ {
                    assert(has_tag_key(pairs, tag@));
                }
            } else {
                assert(q[k1] == pairs[k1]);
                assert(q[k2] == pairs[k2]);
            }
        }
    }
}

proof fn lemma_insert_tags_wf(pairs: Seq<(String, String)>, tags: Seq<String>, frag: String)
    requires
        tags_wf(pairs),
    ensures
        tags_wf(insert_tags(pairs, tags, frag)),
    decreases tags.len(),
{
    if tags.len() > 0 {
        lemma_insert_tag_wf(pairs, tags[0], frag);
        lemma_insert_tags_wf(insert_tag(pairs, tags[0], frag), tags.skip(1), frag);
    }
}

proof fn lemma_insert_tags_append(
    pairs: Seq<(String, String)>,
    a: Seq<String>,
    b: Seq<String>,
    frag: String,
)
    ensures
        insert_tags(pairs, a + b, frag) == insert_tags(insert_tags(pairs, a, frag), b, frag),
    decreases a.len(),
{
    if a.len() == 0 {
        assert(a + b =~= b);
    } else {
        assert((a + b)[0] == a[0]);
        assert((a + b).skip(1) =~= a.skip(1) + b);
        lemma_insert_tags_append(insert_tag(pairs, a[0], frag), a.skip(1), b, frag);
    }
}

fn contains_tag(pairs: &Vec<(String, String)>, tag: &String) -> (b: bool)
    ensures
        b == has_tag_key(pairs@, tag@),
{
    let mut k: usize = 0;
    while k < pairs.len()
        invariant
            k <= pairs@.len(),
            forall|j: int| 0 <= j < k ==> pairs@[j].0@ != tag@,
        decreases pairs@.len() - k,
    {
        if pairs[k].0 == *tag {
            proof {
                assert(pairs@[k as int].0@ == tag@);
            }
            return true;
        }
        k = k + 1;
    }
    false
}

impl IndexAggregator {
    /// A fresh aggregator: nothing observed, all three outputs empty.
    pub fn new() -> (r: IndexAggregator)
        ensures
            r.count == 0,
            r.recent@ == Seq::<char>::empty(),
            r.all@ == Seq::<char>::empty(),
            r.tags@ == Seq::<(String, String)>::empty(),
    {
        IndexAggregator { count: 0, recent: String::new(), all: String::new(), tags: Vec::new() }
    }

    /// Folds one processed document into the aggregates: its fragment is
    /// appended to the full listing always, to the recency listing only
    /// while fewer than the limit have been observed, and each of its tags
    /// claims an index entry unless an earlier document already owns it.
    pub fn observe(&mut self, fm: &FrontMatter, frag: &String)
        requires
            old(self).count < usize::MAX,
        ensures
            final(self).count == old(self).count + 1,
            final(self).all@ == old(self).all@ + frag@,
            final(self).recent@ == if old(self).count < RECENT_POST_LIMIT {
                old(self).recent@ + frag@
            } else {
                old(self).recent@
            },
            final(self).tags@ == insert_tags(old(self).tags@, fm.tags@, *frag),
            tags_wf(old(self).tags@) ==> tags_wf(final(self).tags@),
    {
        let ghost tags0 = self.tags@;
        self.all.append(frag.as_str());
        if self.count < RECENT_POST_LIMIT {
            self.recent.append(frag.as_str());
        }
        let mut t: usize = 0;
        while t < fm.tags.len()
            invariant
                t <= fm.tags@.len(),
                self.count == old(self).count,
                self.all@ == old(self).all@ + frag@,
                self.recent@ == if old(self).count < RECENT_POST_LIMIT {
                    old(self).recent@ + frag@
                } else {
                    old(self).recent@
                },
                self.tags@ == insert_tags(tags0, fm.tags@.take(t as int), *frag),
            decreases fm.tags@.len() - t,
        {
            let ghost before = self.tags@;
            let tag = &fm.tags[t];
            if !contains_tag(&self.tags, tag) {
                let pair = (tag.clone(), frag.clone());
                self.tags.push(pair);
            }
            proof {
                assert(self.tags@ == insert_tag(before, fm.tags@[t as int], *frag));
                let single = seq![fm.tags@[t as int]];
                assert(single.skip(1) =~= Seq::<String>::empty());
                assert(insert_tags(
                    insert_tag(before, fm.tags@[t as int], *frag),
                    single.skip(1),
                    *frag,
                ) == insert_tag(before, fm.tags@[t as int], *frag));
                assert(insert_tags(before, single, *frag) == insert_tag(
                    before,
                    fm.tags@[t as int],
                    *frag,
                ));
                assert(fm.tags@.take(t + 1) =~= fm.tags@.take(t as int) + single);
                lemma_insert_tags_append(tags0, fm.tags@.take(t as int), single, *frag);
            }
            t = t + 1;
        }
        proof {
            assert(fm.tags@.take(fm.tags@.len() as int) =~= fm.tags@);
            if tags_wf(tags0) {
                lemma_insert_tags_wf(tags0, fm.tags@, *frag);
            }
        }
        self.count = self.count + 1;
    }
}

proof fn lemma_frags_concat_append(a: Seq<(FrontMatter, String)>, b: Seq<(FrontMatter, String)>)
    ensures
        frags_concat(a + b) == frags_concat(a) + frags_concat(b),
    decreases a.len(),
{
    if a.len() == 0 {
        assert(a + b =~= b);
        assert(Seq::<char>::empty() + frags_concat(b) =~= frags_concat(b));
    } else {
        assert((a + b)[0] == a[0]);
        assert((a + b).skip(1) =~= a.skip(1) + b);
        lemma_frags_concat_append(a.skip(1), b);
        assert(a[0].1@ + (frags_concat(a.skip(1)) + frags_concat(b)) =~= (a[0].1@ + frags_concat(
            a.skip(1),
        )) + frags_concat(b));
    }
}

proof fn lemma_fold_tags_append(
    pairs: Seq<(String, String)>,
    a: Seq<(FrontMatter, String)>,
    b: Seq<(FrontMatter, String)>,
)
    ensures
        fold_tags(pairs, a + b) == fold_tags(fold_tags(pairs, a), b),
    decreases a.len(),
{
    if a.len() == 0 {
        assert(a + b =~= b);
    } else {
        assert((a + b)[0] == a[0]);
        assert((a + b).skip(1) =~= a.skip(1) + b);
        lemma_fold_tags_append(insert_tags(pairs, a[0].0.tags@, a[0].1), a.skip(1), b);
    }
}

/// Consumes the ordered stream of processed documents and builds the three
/// aggregates: the full listing holds every fragment in order, the recency
/// listing exactly the first `min(RECENT_POST_LIMIT, total)` fragments in
/// order, and the tag index the first-writer-wins fold of every tag seen.
pub fn aggregate(entries: &Vec<(FrontMatter, String)>) -> (agg: IndexAggregator)
    ensures
        agg.count == entries@.len(),
        agg.all@ == frags_concat(entries@),
        agg.recent@ == frags_concat(
            entries@.take(vstd::math::min(RECENT_POST_LIMIT as int, entries@.len() as int)),
        ),
        agg.tags@ == fold_tags(Seq::<(String, String)>::empty(), entries@),
        tags_wf(agg.tags@),
{
    let mut agg = IndexAggregator::new();
    let mut i: usize = 0;
    proof {
        assert(entries@.take(0) =~= Seq::<(FrontMatter, String)>::empty());
    }
    while i < entries.len()
        invariant
            i <= entries@.len(),
            agg.count == i,
            agg.all@ == frags_concat(entries@.take(i as int)),
            agg.recent@ == frags_concat(
                entries@.take(vstd::math::min(RECENT_POST_LIMIT as int, i as int)),
            ),
            agg.tags@ == fold_tags(Seq::<(String, String)>::empty(), entries@.take(i as int)),
            tags_wf(agg.tags@),
        decreases entries@.len() - i,
    {
        let e = &entries[i];
        agg.observe(&e.0, &e.1);
        proof {
            let single = seq![entries@[i as int]];
            assert(single.skip(1) =~= Seq::<(FrontMatter, String)>::empty());
            assert(entries@.take(i + 1) =~= entries@.take(i as int) + single);
            lemma_frags_concat_append(entries@.take(i as int), single);
            assert(single[0] == entries@[i as int]);
            assert(frags_concat(Seq::<(FrontMatter, String)>::empty()) == Seq::<char>::empty());
            assert(frags_concat(single) == entries@[i as int].1@ + Seq::<char>::empty());
            assert(entries@[i as int].1@ + Seq::<char>::empty() =~= entries@[i as int].1@);
            lemma_fold_tags_append(
                Seq::<(String, String)>::empty(),
                entries@.take(i as int),
                single,
            );
            let prev = fold_tags(Seq::<(String, String)>::empty(), entries@.take(i as int));
            let stepped = insert_tags(prev, entries@[i as int].0.tags@, entries@[i as int].1);
            assert(fold_tags(stepped, single.skip(1)) == stepped);
            assert(fold_tags(prev, single) == stepped);
            if i < RECENT_POST_LIMIT {
                assert(entries@.take(vstd::math::min(RECENT_POST_LIMIT as int, i as int))
                    =~= entries@.take(i as int));
                assert(entries@.take(vstd::math::min(RECENT_POST_LIMIT as int, i + 1))
                    =~= entries@.take(i + 1));
            } else {
                assert(vstd::math::min(RECENT_POST_LIMIT as int, i + 1) == vstd::math::min(
                    RECENT_POST_LIMIT as int,
                    i as int,
                ));
            }
        }
        i = i + 1;
    }
    proof {
        assert(entries@.take(entries@.len() as int) =~= entries@);
    }
    agg
}

/// Law: the tag index built from a document stream has an entry for a tag
/// exactly when some document in the stream carries it, and the entry holds
/// the summary fragment of the first document, in stream order, that does.
pub proof fn lemma_tag_index_first_owner(entries: Seq<(FrontMatter, String)>, t: Seq<char>)
    ensures
        has_tag_key(fold_tags(Seq::<(String, String)>::empty(), entries), t) == (exists|i: int|
            0 <= i < entries.len() && entry_has_tag(entries[i], t)),
        forall|i: int|
            (0 <= i < entries.len() && entry_has_tag(entries[i], t) && (forall|j: int|
                0 <= j < i ==> !entry_has_tag(entries[j], t))) ==> tag_lookup(
                fold_tags(Seq::<(String, String)>::empty(), entries),
                t,
            ) == Some(entries[i].1@),
{
    lemma_fold_tags_props(Seq::<(String, String)>::empty(), entries, t);
}

proof fn lemma_fold_tags_props(
    pairs: Seq<(String, String)>,
    entries: Seq<(FrontMatter, String)>,
    t: Seq<char>,
)
    ensures
        has_tag_key(fold_tags(pairs, entries), t) == (has_tag_key(pairs, t) || (exists|i: int|
            0 <= i < entries.len() && entry_has_tag(entries[i], t))),
        has_tag_key(pairs, t) ==> tag_lookup(fold_tags(pairs, entries), t) == tag_lookup(pairs, t),
        forall|i: int|
            (0 <= i < entries.len() && !has_tag_key(pairs, t) && entry_has_tag(entries[i], t) && (
            forall|j: int| 0 <= j < i ==> !entry_has_tag(entries[j], t))) ==> tag_lookup(
                fold_tags(pairs, entries),
                t,
            ) == Some(entries[i].1@),
    decreases entries.len(),
{
    if entries.len() == 0 {
    } else {
        let e0 = entries[0];
        let p1 = insert_tags(pairs, e0.0.tags@, e0.1);
        lemma_insert_tags_lookup(pairs, e0.0.tags@, e0.1, t);
        lemma_fold_tags_props(p1, entries.skip(1), t);
        let rest = entries.skip(1);
        if has_tag_key(fold_tags(pairs, entries), t) && !has_tag_key(pairs, t) {
            if seq_contains_tag(e0.0.tags@, t) {
                assert(entry_has_tag(entries[0], t));
            } else {
                assert(has_tag_key(fold_tags(p1, rest), t));
                let i = choose|i: int| 0 <= i < rest.len() && entry_has_tag(rest[i], t);
                assert(entries[i + 1] == rest[i]);
                assert(entry_has_tag(entries[i + 1], t));
            }
        }
        if exists|i: int| 0 <= i < entries.len() && entry_has_tag(entries[i], t) {
            let i = choose|i: int| 0 <= i < entries.len() && entry_has_tag(entries[i], t);
            if i == 0 {
                assert(has_tag_key(p1, t));
            } else {
                assert(rest[i - 1] == entries[i]);
                assert(entry_has_tag(rest[i - 1], t));
            }
            assert(has_tag_key(fold_tags(p1, rest), t));
        }
        assert forall|i: int|
            (0 <= i < entries.len() && !has_tag_key(pairs, t) && entry_has_tag(entries[i], t) && (
            forall|j: int| 0 <= j < i ==> !entry_has_tag(entries[j], t))) implies tag_lookup(
            fold_tags(pairs, entries),
            t,
        ) == Some(entries[i].1@) by {
            if i == 0 {
                assert(has_tag_key(p1, t));
                assert(tag_lookup(p1, t) == Some(e0.1@));
            } else {
                assert(!entry_has_tag(entries[0], t));
                assert(!has_tag_key(p1, t));
                assert(rest[i - 1] == entries[i]);
                assert(entry_has_tag(rest[i - 1], t));
                assert forall|j: int| 0 <= j < i - 1 implies !entry_has_tag(rest[j], t) by {
                    assert(rest[j] == entries[j + 1]);
                }
            }
        }
    }
}

} // verus!
