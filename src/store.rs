use vstd::prelude::*;
use crate::snippet::{copy_texts, search_hit, tag_hit, Snippet, SnippetView};

verus! {

/// The mapping that a sequence of snippets gives, keyed by title: a later snippet
/// replaces an earlier one of the same title.
pub open spec fn snippet_map(s: Seq<SnippetView>) -> Map<Seq<char>, SnippetView>
    decreases s.len(),
{
    if s.len() == 0 {
        Map::empty()
    } else {
        snippet_map(s.drop_last()).insert(s.last().title, s.last())
    }
}

/// What each snippet of a sequence holds.
pub open spec fn views_of(v: Seq<Snippet>) -> Seq<SnippetView> {
    v.map_values(|x: Snippet| x@)
}

/// No two snippets of the sequence share a title.
pub open spec fn titles_distinct(s: Seq<SnippetView>) -> bool {
    forall|i: int, j: int| 0 <= i < j < s.len() ==> s[i].title != s[j].title
}

/// The snippet `s` with the new code and the new tags that are present.
pub open spec fn updated_view(s: SnippetView, code: Option<String>, tags: Option<Vec<String>>) -> SnippetView {
    SnippetView {
        title: s.title,
        code: match code {
            Some(c) => c@,
            None => s.code,
        },
        tags: match tags {
            Some(t) => t.deep_view(),
            None => s.tags,
        },
    }
}

/// How a filter chooses snippets.
#[derive(Clone, Copy)]
pub enum Filter {
    /// A case-folded query that occurs in the title, the code or a tag.
    Search,
    /// A case-folded tag that equals one of the snippet's tags, case-folded.
    Tag,
}

/// Whether the filter keeps a snippet for the case-folded text `q`.
pub open spec fn filter_hit(f: Filter, q: Seq<char>, s: SnippetView) -> bool {
    match f {
        Filter::Search => search_hit(q, s),
        Filter::Tag => tag_hit(q, s),
    }
}

/// The entries of `m` that the filter keeps.
pub open spec fn select(m: Map<Seq<char>, SnippetView>, f: Filter, q: Seq<char>) -> Map<
    Seq<char>,
    SnippetView,
> {
    Map::new(|k: Seq<char>| m.contains_key(k) && filter_hit(f, q, m[k]), |k: Seq<char>| m[k])
}

/// A title is a key of the mapping exactly when some snippet of the sequence has it.
pub proof fn lemma_map_dom(s: Seq<SnippetView>, k: Seq<char>)
    ensures
        snippet_map(s).contains_key(k) <==> exists|i: int| 0 <= i < s.len() && s[i].title == k,
    decreases s.len(),
{
    if s.len() > 0 {
        lemma_map_dom(s.drop_last(), k);
        if snippet_map(s.drop_last()).contains_key(k) {
            let i = choose|i: int| 0 <= i < s.len() - 1 && s.drop_last()[i].title == k;
            assert(s[i].title == k);
        }
        if exists|i: int| 0 <= i < s.len() && s[i].title == k {
            let i = choose|i: int| 0 <= i < s.len() && s[i].title == k;
            if i < s.len() - 1 {
                assert(s.drop_last()[i].title == k);
            }
        }
    }
}

/// Where titles are distinct, each snippet of the sequence is what the mapping holds
/// under its title.
pub proof fn lemma_map_value(s: Seq<SnippetView>, i: int)
    requires
        titles_distinct(s),
        0 <= i < s.len(),
    ensures
        snippet_map(s).contains_key(s[i].title),
        snippet_map(s)[s[i].title] == s[i],
    decreases s.len(),
{
    if i < s.len() - 1 {
        assert(titles_distinct(s.drop_last()));
        lemma_map_value(s.drop_last(), i);
        assert(s.drop_last()[i] == s[i]);
    }
}

/// Where titles are distinct, the mapping does not depend on the order of the snippets:
/// two sequences with the same members give the same mapping, so a collection written
/// out and read back in another order is the same collection.
pub proof fn lemma_order_irrelevant(s: Seq<SnippetView>, t: Seq<SnippetView>)
    requires
        titles_distinct(s),
        titles_distinct(t),
        forall|x: SnippetView| s.contains(x) <==> t.contains(x),
    ensures
        snippet_map(s) == snippet_map(t),
{
    assert forall|k: Seq<char>|
        #![trigger snippet_map(s).contains_key(k)]
        snippet_map(s).contains_key(k) == snippet_map(t).contains_key(k) && (snippet_map(
            s,
        ).contains_key(k) ==> snippet_map(s)[k] == snippet_map(t)[k]) by {
        lemma_map_dom(s, k);
        lemma_map_dom(t, k);
        if snippet_map(s).contains_key(k) {
            let i = choose|i: int| 0 <= i < s.len() && s[i].title == k;
            assert(s.contains(s[i]));
            let j = choose|j: int| 0 <= j < t.len() && t[j] == s[i];
            lemma_map_value(s, i);
            lemma_map_value(t, j);
        }
        if snippet_map(t).contains_key(k) {
            let j = choose|j: int| 0 <= j < t.len() && t[j].title == k;
            assert(t.contains(t[j]));
            let i = choose|i: int| 0 <= i < s.len() && s[i] == t[j];
            assert(s[i].title == k);
        }
    }
    assert(snippet_map(s) =~= snippet_map(t));
}

/// Replacing a snippet by one of the same title replaces it in the mapping.
proof fn lemma_map_update(s: Seq<SnippetView>, i: int, x: SnippetView)
    requires
        titles_distinct(s),
        0 <= i < s.len(),
        x.title == s[i].title,
    ensures
        titles_distinct(s.update(i, x)),
        snippet_map(s.update(i, x)) == snippet_map(s).insert(x.title, x),
{
    let t = s.update(i, x);
    assert(titles_distinct(t));
    assert forall|k: Seq<char>|
        #![trigger snippet_map(t).contains_key(k)]
        snippet_map(t).contains_key(k) == snippet_map(s).insert(x.title, x).contains_key(k) && (
        snippet_map(t).contains_key(k) ==> snippet_map(t)[k] == snippet_map(s).insert(
            x.title,
            x,
        )[k]) by {
        lemma_map_dom(t, k);
        lemma_map_dom(s, k);
        if k == x.title {
            lemma_map_value(t, i);
        } else if snippet_map(s).contains_key(k) {
            let j = choose|j: int| 0 <= j < s.len() && s[j].title == k;
            lemma_map_value(s, j);
            lemma_map_value(t, j);
        } else {
            if snippet_map(t).contains_key(k) {
                let j = choose|j: int| 0 <= j < t.len() && t[j].title == k;
                assert(s[j].title == k);
            }
        }
    }
    assert(snippet_map(t) =~= snippet_map(s).insert(x.title, x));
}

/// Taking a snippet out of a sequence of distinct titles takes its title out of the mapping.
proof fn lemma_map_remove(s: Seq<SnippetView>, i: int)
    requires
        titles_distinct(s),
        0 <= i < s.len(),
    ensures
        titles_distinct(s.remove(i)),
        snippet_map(s.remove(i)) == snippet_map(s).remove(s[i].title),
{
    let t = s.remove(i);
    let key = s[i].title;
    assert forall|a: int, b: int| 0 <= a < b < t.len() implies t[a].title != t[b].title by {
        let a2 = if a < i { a } else { a + 1 };
        let b2 = if b < i { b } else { b + 1 };
        assert(t[a] == s[a2]);
        assert(t[b] == s[b2]);
    }
    assert forall|k: Seq<char>|
        #![trigger snippet_map(t).contains_key(k)]
        snippet_map(t).contains_key(k) == snippet_map(s).remove(key).contains_key(k) && (
        snippet_map(t).contains_key(k) ==> snippet_map(t)[k] == snippet_map(s).remove(key)[k]) by {
        lemma_map_dom(t, k);
        lemma_map_dom(s, k);
        if snippet_map(t).contains_key(k) {
            let j = choose|j: int| 0 <= j < t.len() && t[j].title == k;
            let j2 = if j < i { j } else { j + 1 };
            assert(t[j] == s[j2]);
            lemma_map_value(s, j2);
            lemma_map_value(t, j);
        } else if k != key && snippet_map(s).contains_key(k) {
            let j = choose|j: int| 0 <= j < s.len() && s[j].title == k;
            let j2 = if j < i { j } else { j - 1 };
            assert(t[j2] == s[j]);
        }
    }
    assert(snippet_map(t) =~= snippet_map(s).remove(key));
}

/// The in-memory collection of snippets, keyed by title.
pub struct SnippetStore {
    entries: Vec<Snippet>,
}

impl View for SnippetStore {
    type V = Map<Seq<char>, SnippetView>;

    closed spec fn view(&self) -> Map<Seq<char>, SnippetView> {
        snippet_map(views_of(self.entries@))
    }
}

impl SnippetStore {
    /// Every key of the collection is the title of the snippet stored under it.
    pub closed spec fn wf(&self) -> bool {
        titles_distinct(views_of(self.entries@))
    }

    /// Every snippet of the view is stored under its own title.
    pub proof fn lemma_keys_are_titles(&self, k: Seq<char>)
        requires
            self.wf(),
            self@.contains_key(k),
        ensures
            self@[k].title == k,
    {
        let s = views_of(self.entries@);
        lemma_map_dom(s, k);
        let i = choose|i: int| 0 <= i < s.len() && s[i].title == k;
        lemma_map_value(s, i);
    }

    /// An empty collection.
    pub fn new() -> (r: SnippetStore)
        ensures
            r.wf(),
            r@ == Map::<Seq<char>, SnippetView>::empty(),
    {
        let r = SnippetStore { entries: Vec::new() };
        assert(views_of(r.entries@).len() == 0);
        r
    }

    /// Whether no snippet is stored.
    pub fn is_empty(&self) -> (r: bool)
        requires
            self.wf(),
        ensures
            r == (self@ == Map::<Seq<char>, SnippetView>::empty()),
    {
        if self.entries.len() == 0 {
            assert(views_of(self.entries@).len() == 0);
            true
        } else {
            proof {
                lemma_map_value(views_of(self.entries@), 0);
            }
            false
        }
    }

    /// The position of the snippet titled `title`, if there is one.
    fn find(&self, title: &str) -> (r: Option<usize>)
        requires
            self.wf(),
        ensures
            match r {
                Some(i) => i < self.entries.len() && self.entries@[i as int].title@ == title@,
                None => forall|i: int|
                    0 <= i < self.entries.len() ==> self.entries@[i].title@ != title@,
            },
    {
        let wanted = String::from_str(title);
        let mut i: usize = 0;
        while i < self.entries.len()
            invariant
                i <= self.entries.len(),
                wanted@ == title@,
                forall|j: int| 0 <= j < i ==> self.entries@[j].title@ != title@,
            decreases self.entries.len() - i,
        {
            if self.entries[i].title == wanted {
                return Some(i);
            }
            i += 1;
        }
        None
    }

    /// The snippet at position `i` is what the view holds under its title.
    proof fn lemma_find_some(&self, i: int)
        requires
            self.wf(),
            0 <= i < self.entries.len(),
        ensures
            self@.contains_key(self.entries@[i].title@),
            self@[self.entries@[i].title@] == self.entries@[i]@,
    {
        lemma_map_value(views_of(self.entries@), i);
    }

    /// A title that no stored snippet has is not a key of the view.
    proof fn lemma_find_none(&self, k: Seq<char>)
        requires
            forall|i: int| 0 <= i < self.entries.len() ==> self.entries@[i].title@ != k,
        ensures
            !self@.contains_key(k),
    {
        let s = views_of(self.entries@);
        lemma_map_dom(s, k);
        if exists|i: int| 0 <= i < s.len() && s[i].title == k {
            let i = choose|i: int| 0 <= i < s.len() && s[i].title == k;
            assert(self.entries@[i].title@ == k);
        }
    }

    /// Whether a snippet is stored under `title`.
    pub fn contains(&self, title: &str) -> (r: bool)
        requires
            self.wf(),
        ensures
            r == self@.contains_key(title@),
    {
        match self.find(title) {
            Some(i) => {
                proof {
                    self.lemma_find_some(i as int);
                }
                true
            },
            None => {
                proof {
                    self.lemma_find_none(title@);
                }
                false
            },
        }
    }

    /// The snippet stored under `title`, if any.
    pub fn get(&self, title: &str) -> (r: Option<&Snippet>)
        requires
            self.wf(),
        ensures
            match r {
                Some(s) => self@.contains_key(title@) && self@[title@] == s@,
                None => !self@.contains_key(title@),
            },
    {
        match self.find(title) {
            Some(i) => {
                proof {
                    self.lemma_find_some(i as int);
                }
                Some(&self.entries[i])
            },
            None => {
                proof {
                    self.lemma_find_none(title@);
                }
                None
            },
        }
    }

    /// Stores `s` under its title, unless that title is taken; tells whether it stored it.
    pub fn insert(&mut self, s: Snippet) -> (r: bool)
        requires
            old(self).wf(),
        ensures
            final(self).wf(),
            r == !old(self)@.contains_key(s.title@),
            r ==> final(self)@ == old(self)@.insert(s.title@, s@),
            !r ==> final(self)@ == old(self)@,
    {
        match self.find(s.title.as_str()) {
            Some(i) => {
                proof {
                    self.lemma_find_some(i as int);
                }
                false
            },
            None => {
                proof {
                    self.lemma_find_none(s.title@);
                }
                let ghost before = views_of(self.entries@);
                self.entries.push(s);
                proof {
                    assert(views_of(self.entries@) =~= before.push(s@));
                    assert(views_of(self.entries@).drop_last() =~= before);
                }
                true
            },
        }
    }

    /// Stores `s` under its title, replacing what was stored there.
    pub fn upsert(&mut self, s: Snippet)
        requires
            old(self).wf(),
        ensures
            final(self).wf(),
            final(self)@ == old(self)@.insert(s.title@, s@),
    {
        match self.find(s.title.as_str()) {
            Some(i) => {
                let ghost before = views_of(self.entries@);
                let ghost sv = s@;
                self.entries.set(i, s);
                proof {
                    assert(views_of(self.entries@) =~= before.update(i as int, sv));
                    lemma_map_update(before, i as int, sv);
                }
            },
            None => {
                proof {
                    self.lemma_find_none(s.title@);
                }
                let ghost before = views_of(self.entries@);
                self.entries.push(s);
                proof {
                    assert(views_of(self.entries@) =~= before.push(s@));
                    assert(views_of(self.entries@).drop_last() =~= before);
                }
            },
        }
    }

    /// Gives the snippet stored under `title` the new code and the new tags that are
    /// present, keeping each field that is absent; tells whether such a snippet exists.
    pub fn replace_fields(
        &mut self,
        title: &str,
        code: Option<String>,
        tags: Option<Vec<String>>,
    ) -> (r: bool)
        requires
            old(self).wf(),
        ensures
            final(self).wf(),
            r == old(self)@.contains_key(title@),
            r ==> final(self)@ == old(self)@.insert(
                title@,
                updated_view(old(self)@[title@], code, tags),
            ),
            !r ==> final(self)@ == old(self)@,
    {
        match self.find(title) {
            Some(i) => {
                proof {
                    self.lemma_find_some(i as int);
                }
                let current = &self.entries[i];
                let new_code = match code {
                    Some(c) => c,
                    None => current.code.clone(),
                };
                let new_tags = match tags {
                    Some(t) => t,
                    None => copy_texts(&current.tags),
                };
                let s = Snippet::new(current.title.clone(), new_code, new_tags);
                let ghost before = views_of(self.entries@);
                let ghost sv = s@;
                assert(sv == updated_view(before[i as int], code, tags));
                self.entries.set(i, s);
                proof {
                    assert(views_of(self.entries@) =~= before.update(i as int, sv));
                    lemma_map_update(before, i as int, sv);
                }
                true
            },
            None => {
                proof {
                    self.lemma_find_none(title@);
                }
                false
            },
        }
    }

    /// Stores each of `incoming` in turn under its title, replacing what was there.
    pub fn merge(&mut self, incoming: Vec<Snippet>)
        requires
            old(self).wf(),
        ensures
            final(self).wf(),
            final(self)@ == old(self)@.union_prefer_right(snippet_map(views_of(incoming@))),
    {
        let ghost start = self@;
        let ghost all = views_of(incoming@);
        let mut i: usize = 0;
        proof {
            assert(all.subrange(0, 0).len() == 0);
            assert(start.union_prefer_right(Map::empty()) =~= start);
        }
        while i < incoming.len()
            invariant
                i <= incoming.len(),
                all == views_of(incoming@),
                self.wf(),
                self@ == start.union_prefer_right(snippet_map(all.subrange(0, i as int))),
            decreases incoming.len() - i,
        {
            let s = incoming[i].duplicate();
            let ghost prev = snippet_map(all.subrange(0, i as int));
            self.upsert(s);
            proof {
                assert(all.subrange(0, i + 1).drop_last() =~= all.subrange(0, i as int));
                assert(snippet_map(all.subrange(0, i + 1)) == prev.insert(s.title@, s@));
                assert(self@ =~= start.union_prefer_right(snippet_map(all.subrange(0, i + 1))));
            }
            i += 1;
        }
        proof {
            assert(all.subrange(0, incoming.len() as int) =~= all);
        }
    }

    /// The collection that a list of snippets gives: a later snippet replaces an
    /// earlier one of the same title.
    pub fn from_snippets(items: Vec<Snippet>) -> (r: SnippetStore)
        ensures
            r.wf(),
            r@ == snippet_map(views_of(items@)),
    {
        let mut r = SnippetStore::new();
        r.merge(items);
        assert(r@ =~= snippet_map(views_of(items@)));
        r
    }

    /// The collection that was read back, or an empty one where nothing could be read.
    pub fn from_decoded(decoded: Option<Vec<Snippet>>) -> (r: SnippetStore)
        ensures
            r.wf(),
            match decoded {
                Some(items) => r@ == snippet_map(views_of(items@)),
                None => r@ == Map::<Seq<char>, SnippetView>::empty(),
            },
    {
        match decoded {
            Some(items) => SnippetStore::from_snippets(items),
            None => SnippetStore::new(),
        }
    }

    /// A copy of every stored snippet, one per title.
    pub fn to_snippets(&self) -> (r: Vec<Snippet>)
        requires
            self.wf(),
        ensures
            titles_distinct(views_of(r@)),
            snippet_map(views_of(r@)) == self@,
    {
        let mut r: Vec<Snippet> = Vec::new();
        let mut i: usize = 0;
        while i < self.entries.len()
            invariant
                i <= self.entries.len(),
                r@.len() == i,
                forall|j: int| 0 <= j < i ==> #[trigger] r@[j]@ == self.entries@[j]@,
            decreases self.entries.len() - i,
        {
            r.push(self.entries[i].duplicate());
            i += 1;
        }
        proof {
            assert(views_of(r@) =~= views_of(self.entries@));
        }
        r
    }

    /// A copy of each stored snippet that the filter keeps for the case-folded text `q`.
    pub fn select_where(&self, f: Filter, q: &str) -> (r: Vec<Snippet>)
        requires
            self.wf(),
        ensures
            titles_distinct(views_of(r@)),
            snippet_map(views_of(r@)) == select(self@, f, q@),
    {
        let ghost ents = views_of(self.entries@);
        let mut r: Vec<Snippet> = Vec::new();
        let mut i: usize = 0;
        proof {
            assert(views_of(r@).len() == 0);
            assert(ents.subrange(0, 0).len() == 0);
            assert(select(Map::empty(), f, q@) =~= Map::empty());
        }
        while i < self.entries.len()
            invariant
                i <= self.entries.len(),
                ents == views_of(self.entries@),
                self.wf(),
                titles_distinct(views_of(r@)),
                snippet_map(views_of(r@)) == select(snippet_map(ents.subrange(0, i as int)), f, q@),
            decreases self.entries.len() - i,
        {
            let e = &self.entries[i];
            let hit = match f {
                Filter::Search => e.matches_lowered(q),
                Filter::Tag => e.has_lowered_tag(q),
            };
            let ghost prefix = snippet_map(ents.subrange(0, i as int));
            let ghost key = e.title@;
            proof {
                assert(ents.subrange(0, i + 1).drop_last() =~= ents.subrange(0, i as int));
                assert(ents[i as int] == e@);
                assert(snippet_map(ents.subrange(0, i + 1)) == prefix.insert(key, e@));
                lemma_map_dom(ents.subrange(0, i as int), key);
                if prefix.contains_key(key) {
                    let j = choose|j: int|
                        0 <= j < i && #[trigger] ents.subrange(0, i as int)[j].title == key;
                    assert(ents[j].title == key);
                }
                assert(!prefix.contains_key(key));
            }
            if hit {
                let ghost before = views_of(r@);
                r.push(e.duplicate());
                proof {
                    assert(views_of(r@) =~= before.push(e@));
                    assert(views_of(r@).drop_last() =~= before);
                    lemma_map_dom(before, key);
                    assert(!select(prefix, f, q@).contains_key(key));
                    assert(select(prefix.insert(key, e@), f, q@) =~= select(prefix, f, q@).insert(
                        key,
                        e@,
                    ));
                }
            } else {
                proof {
                    assert(select(prefix.insert(key, e@), f, q@) =~= select(prefix, f, q@));
                }
            }
            i += 1;
        }
        proof {
            assert(ents.subrange(0, i as int) =~= ents);
        }
        r
    }

    /// Takes out the snippet stored under `title`, if any.
    pub fn remove(&mut self, title: &str) -> (r: Option<Snippet>)
        requires
            old(self).wf(),
        ensures
            final(self).wf(),
            match r {
                Some(s) => old(self)@.contains_key(title@) && s@ == old(self)@[title@]
                    && final(self)@ == old(self)@.remove(title@),
                None => !old(self)@.contains_key(title@) && final(self)@ == old(self)@,
            },
    {
        match self.find(title) {
            Some(i) => {
                proof {
                    self.lemma_find_some(i as int);
                }
                let ghost before = views_of(self.entries@);
                let s = self.entries.remove(i);
                proof {
                    assert(views_of(self.entries@) =~= before.remove(i as int));
                    lemma_map_remove(before, i as int);
                }
                Some(s)
            },
            None => {
                proof {
                    self.lemma_find_none(title@);
                }
                None
            },
        }
    }
}

} // verus!
