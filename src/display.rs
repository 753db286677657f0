use vstd::prelude::*;
use crate::snippet::{Snippet, SnippetView};

verus! {

/// The parts written one after another with `sep` between each two.
pub open spec fn joined(parts: Seq<Seq<char>>, sep: Seq<char>) -> Seq<char>
    decreases parts.len(),
{
    if parts.len() == 0 {
        Seq::empty()
    } else if parts.len() == 1 {
        parts[0]
    } else {
        joined(parts.drop_last(), sep) + sep + parts.last()
    }
}

/// How a snippet is shown in full.
pub open spec fn shown(s: SnippetView) -> Seq<char> {
    "Title: "@ + s.title + "\nCode:\n"@ + s.code + "\nTags: "@ + joined(s.tags, ", "@) + "\n"@
}

/// How a snippet is shown in a listing.
pub open spec fn listed(s: SnippetView) -> Seq<char> {
    "- "@ + s.title + " (Tags: "@ + joined(s.tags, ", "@) + ")"@
}

/// The texts of `parts` with `sep` between each two.
pub fn join_texts(parts: &Vec<String>, sep: &str) -> (r: String)
    ensures
        r@ == joined(parts.deep_view(), sep@),
{
    let ghost all = parts.deep_view();
    let mut r = String::new();
    let mut i: usize = 0;
    while i < parts.len()
        invariant
            i <= parts.len(),
            all == parts.deep_view(),
            r@ == joined(all.subrange(0, i as int), sep@),
        decreases parts.len() - i,
    {
        if i > 0 {
            r.append(sep);
        }
        r.append(parts[i].as_str());
        proof {
            assert(all.subrange(0, i + 1).drop_last() =~= all.subrange(0, i as int));
            if i == 0 {
                assert(r@ =~= joined(all.subrange(0, 1), sep@));
            }
        }
        i += 1;
    }
    proof {
        assert(all.subrange(0, i as int) =~= all);
    }
    r
}

/// The full text of a snippet: its title, its code and its tags.
pub fn display_snippet(s: &Snippet) -> (r: String)
    ensures
        r@ == shown(s@),
{
    let mut r = String::from_str("Title: ");
    r.append(s.title.as_str());
    r.append("\nCode:\n");
    r.append(s.code.as_str());
    r.append("\nTags: ");
    let tags = join_texts(&s.tags, ", ");
    r.append(tags.as_str());
    r.append("\n");
    r
}

/// One line of a listing: the title and the tags.
pub fn listing_line(s: &Snippet) -> (r: String)
    ensures
        r@ == listed(s@),
{
    let mut r = String::from_str("- ");
    r.append(s.title.as_str());
    r.append(" (Tags: ");
    let tags = join_texts(&s.tags, ", ");
    r.append(tags.as_str());
    r.append(")");
    r
}

} // verus!
