use vstd::prelude::*;
use crate::text::{is_substring, lower_of, lowercase, contains_text};

verus! {

/// A titled block of code with its tags.
pub struct Snippet {
    pub title: String,
    pub code: String,
    pub tags: Vec<String>,
}

/// What a snippet holds, as plain sequences.
pub struct SnippetView {
    pub title: Seq<char>,
    pub code: Seq<char>,
    pub tags: Seq<Seq<char>>,
}

impl View for Snippet {
    type V = SnippetView;

    open spec fn view(&self) -> SnippetView {
        SnippetView { title: self.title@, code: self.code@, tags: self.tags.deep_view() }
    }
}

/// Whether the case-folded query `q` occurs in the title, the code or one of the tags,
/// each case-folded.
pub open spec fn search_hit(q: Seq<char>, s: SnippetView) -> bool {
    is_substring(q, lower_of(s.title)) || is_substring(q, lower_of(s.code)) || exists|i: int|
        0 <= i < s.tags.len() && is_substring(q, lower_of(#[trigger] s.tags[i]))
}

/// Whether the case-folded tag `t` equals one of the snippet's tags, case-folded.
pub open spec fn tag_hit(t: Seq<char>, s: SnippetView) -> bool {
    exists|i: int| 0 <= i < s.tags.len() && lower_of(#[trigger] s.tags[i]) == t
}

/// A copy of a list of texts.
pub fn copy_texts(v: &Vec<String>) -> (r: Vec<String>)
    ensures
        r.deep_view() == v.deep_view(),
{
    let mut r: Vec<String> = Vec::new();
    let mut i: usize = 0;
    while i < v.len()
        invariant
            i <= v.len(),
            r@.len() == i,
            forall|j: int| 0 <= j < i ==> #[trigger] r@[j]@ == v@[j]@,
        decreases v.len() - i,
    {
        r.push(v[i].clone());
        i += 1;
    }
    proof {
        assert(r.deep_view() =~= v.deep_view());
    }
    r
}

impl Snippet {
    /// A snippet with the given fields.
    pub fn new(title: String, code: String, tags: Vec<String>) -> (r: Snippet)
        ensures
            r.title == title,
            r.code == code,
            r.tags == tags,
    {
        Snippet { title, code, tags }
    }

    /// A copy of this snippet.
    pub fn duplicate(&self) -> (r: Snippet)
        ensures
            r@ == self@,
    {
        Snippet { title: self.title.clone(), code: self.code.clone(), tags: copy_texts(&self.tags) }
    }
}

impl Snippet {
    /// Whether the case-folded query `q` occurs in this snippet's title, code or a tag,
    /// each case-folded.
    pub fn matches_lowered(&self, q: &str) -> (r: bool)
        ensures
            r == search_hit(q@, self@),
    {
        let title = lowercase(self.title.as_str());
        if contains_text(title.as_str(), q) {
            return true;
        }
        let code = lowercase(self.code.as_str());
        if contains_text(code.as_str(), q) {
            return true;
        }
        let mut i: usize = 0;
        while i < self.tags.len()
            invariant
                i <= self.tags.len(),
                forall|j: int| 0 <= j < i ==> !is_substring(q@, lower_of(#[trigger] self@.tags[j])),
            decreases self.tags.len() - i,
        {
            let tag = lowercase(self.tags[i].as_str());
            if contains_text(tag.as_str(), q) {
                assert(self@.tags[i as int] == self.tags@[i as int]@);
                return true;
            }
            i += 1;
        }
        false
    }

    /// Whether the case-folded tag `t` equals one of this snippet's tags, case-folded.
    pub fn has_lowered_tag(&self, t: &str) -> (r: bool)
        ensures
            r == tag_hit(t@, self@),
    {
        let wanted = String::from_str(t);
        let mut i: usize = 0;
        while i < self.tags.len()
            invariant
                i <= self.tags.len(),
                wanted@ == t@,
                forall|j: int| 0 <= j < i ==> lower_of(#[trigger] self@.tags[j]) != t@,
            decreases self.tags.len() - i,
        {
            let tag = lowercase(self.tags[i].as_str());
            if tag == wanted {
                assert(self@.tags[i as int] == self.tags@[i as int]@);
                return true;
            }
            i += 1;
        }
        false
    }
}

} // verus!
