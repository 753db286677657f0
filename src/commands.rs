use vstd::prelude::*;
use crate::history::ActionHistory;
use crate::snippet::{Snippet, SnippetView};
use crate::store::{select, snippet_map, titles_distinct, updated_view, views_of, Filter, SnippetStore};
use crate::text::{lower_of, lowercase, split_char, split_on, trim_of, trimmed};

verus! {

/// Why a command changed nothing.
#[derive(Clone, Copy, Debug, PartialEq, Eq, Structural)]
pub enum CommandError {
    /// A snippet with that title is already stored.
    DuplicateTitle,
    /// No snippet with that title is stored.
    NotFound,
}

/// The tags that a comma-separated input gives: each piece between commas, trimmed,
/// with duplicates and empty pieces kept.
pub open spec fn tags_of(input: Seq<char>) -> Seq<Seq<char>> {
    split_on(input, ',').map_values(|p: Seq<char>| trim_of(p))
}

/// The log entry for an added snippet.
pub open spec fn added_message(title: Seq<char>) -> Seq<char> {
    "Added snippet: "@ + title
}

/// The log entry for an edited snippet.
pub open spec fn edited_message(title: Seq<char>) -> Seq<char> {
    "Edited snippet: "@ + title
}

/// The log entry for a deleted snippet.
pub open spec fn deleted_message(title: Seq<char>) -> Seq<char> {
    "Deleted snippet: "@ + title
}

/// The log entry for an import.
pub open spec fn imported_message(file_name: Seq<char>) -> Seq<char> {
    "Imported snippets from file: "@ + file_name
}

/// The snippet that the add command stores.
pub open spec fn added_view(title: Seq<char>, code: Seq<char>, tags_input: Seq<char>) -> SnippetView {
    SnippetView { title, code: trim_of(code), tags: tags_of(tags_input) }
}

/// The snippet `s` after an edit: a field whose input trims to nothing is kept.
pub open spec fn edited_view(s: SnippetView, new_code: Seq<char>, new_tags: Seq<char>) -> SnippetView {
    SnippetView {
        title: s.title,
        code: if trim_of(new_code).len() == 0 {
            s.code
        } else {
            trim_of(new_code)
        },
        tags: if trim_of(new_tags).len() == 0 {
            s.tags
        } else {
            tags_of(new_tags)
        },
    }
}

/// Splits a comma-separated input into tags, each trimmed.
pub fn parse_tags(input: &str) -> (r: Vec<String>)
    ensures
        r.deep_view() == tags_of(input@),
{
    let pieces = split_char(input, ',');
    let mut r: Vec<String> = Vec::new();
    let mut i: usize = 0;
    while i < pieces.len()
        invariant
            i <= pieces.len(),
            pieces.deep_view() == split_on(input@, ','),
            r@.len() == i,
            forall|j: int| 0 <= j < i ==> #[trigger] r@[j]@ == trim_of(pieces@[j]@),
        decreases pieces.len() - i,
    {
        r.push(trimmed(pieces[i].as_str()));
        i += 1;
    }
    proof {
        assert(r.deep_view() =~= tags_of(input@));
    }
    r
}

/// `prefix` followed by `rest`.
fn message(prefix: &str, rest: &str) -> (r: String)
    ensures
        r@ == prefix@ + rest@,
{
    let mut m = String::from_str(prefix);
    m.append(rest);
    m
}

/// Stores a new snippet under `title`, with its code trimmed and its tags parsed,
/// and logs it; a title that is already stored is refused and nothing changes.
pub fn add_snippet(
    snippets: &mut SnippetStore,
    history: &mut ActionHistory,
    title: &str,
    code: &str,
    tags_input: &str,
) -> (r: Result<(), CommandError>)
    requires
        old(snippets).wf(),
    ensures
        final(snippets).wf(),
        old(snippets)@.contains_key(title@) ==> r == Err::<(), CommandError>(
            CommandError::DuplicateTitle,
        ) && final(snippets)@ == old(snippets)@ && final(history)@ == old(history)@,
        !old(snippets)@.contains_key(title@) ==> r == Ok::<(), CommandError>(()) && final(snippets)@ == old(snippets)@.insert(title@, added_view(title@, code@, tags_input@)) && final(history)@ == old(history)@.push(added_message(title@)),
{
    if snippets.contains(title) {
        return Err(CommandError::DuplicateTitle);
    }
    let tags = parse_tags(tags_input);
    let snippet = Snippet::new(String::from_str(title), trimmed(code), tags);
    snippets.insert(snippet);
    history.append(message("Added snippet: ", title));
    Ok(())
}

/// Replaces the code and the tags of the snippet under `title` by the inputs that do
/// not trim to nothing, and logs it; an unknown title changes nothing.
pub fn edit_snippet(
    snippets: &mut SnippetStore,
    history: &mut ActionHistory,
    title: &str,
    new_code: &str,
    new_tags: &str,
) -> (r: Result<(), CommandError>)
    requires
        old(snippets).wf(),
    ensures
        final(snippets).wf(),
        !old(snippets)@.contains_key(title@) ==> r == Err::<(), CommandError>(
            CommandError::NotFound,
        ) && final(snippets)@ == old(snippets)@ && final(history)@ == old(history)@,
        old(snippets)@.contains_key(title@) ==> r == Ok::<(), CommandError>(()) && final(snippets)@ == old(snippets)@.insert(
            title@,
            edited_view(old(snippets)@[title@], new_code@, new_tags@),
        ) && final(history)@ == old(history)@.push(edited_message(title@)),
        old(snippets)@.contains_key(title@) && new_code@.len() == 0 ==> final(snippets)@[title@].code
            == old(snippets)@[title@].code,
        old(snippets)@.contains_key(title@) && new_tags@.len() == 0 ==> final(snippets)@[title@].tags
            == old(snippets)@[title@].tags,
        new_code@.len() == 0 && new_tags@.len() == 0 ==> final(snippets)@ == old(snippets)@,
{
    let code_text = trimmed(new_code);
    let code = if code_text.as_str().is_empty() {
        None
    } else {
        Some(code_text)
    };
    let tags_text = trimmed(new_tags);
    let tags = if tags_text.as_str().is_empty() {
        None
    } else {
        Some(parse_tags(new_tags))
    };
    let ghost before = snippets@;
    let found = snippets.replace_fields(title, code, tags);
    if !found {
        return Err(CommandError::NotFound);
    }
    proof {
        assert(updated_view(before[title@], code, tags) == edited_view(
            before[title@],
            new_code@,
            new_tags@,
        ));
        if new_code@.len() == 0 && new_tags@.len() == 0 {
            old(snippets).lemma_keys_are_titles(title@);
            assert(before.insert(title@, before[title@]) =~= before);
        }
    }
    history.append(message("Edited snippet: ", title));
    Ok(())
}

/// Removes the snippet under `title` and logs it; an unknown title changes nothing.
pub fn delete_snippet(snippets: &mut SnippetStore, history: &mut ActionHistory, title: &str) -> (r:
    Result<(), CommandError>)
    requires
        old(snippets).wf(),
    ensures
        final(snippets).wf(),
        !old(snippets)@.contains_key(title@) ==> r == Err::<(), CommandError>(
            CommandError::NotFound,
        ) && final(snippets)@ == old(snippets)@ && final(history)@ == old(history)@,
        old(snippets)@.contains_key(title@) ==> r == Ok::<(), CommandError>(()) && final(snippets)@ == old(snippets)@.remove(title@) && final(history)@ == old(history)@.push(
            deleted_message(title@),
        ),
{
    match snippets.remove(title) {
        Some(_) => {
            history.append(message("Deleted snippet: ", title));
            Ok(())
        },
        None => Err(CommandError::NotFound),
    }
}

/// Merges the snippets read from `file_name` into the store, each replacing the one
/// stored under its title, and logs it.
pub fn import_snippets(
    snippets: &mut SnippetStore,
    history: &mut ActionHistory,
    file_name: &str,
    imported: Vec<Snippet>,
)
    requires
        old(snippets).wf(),
    ensures
        final(snippets).wf(),
        final(snippets)@ == old(snippets)@.union_prefer_right(snippet_map(views_of(imported@))),
        final(history)@ == old(history)@.push(imported_message(file_name@)),
{
    snippets.merge(imported);
    history.append(message("Imported snippets from file: ", file_name));
}

/// Every stored snippet, one per title.
pub fn list_snippets(snippets: &SnippetStore) -> (r: Vec<Snippet>)
    requires
        snippets.wf(),
    ensures
        titles_distinct(views_of(r@)),
        snippet_map(views_of(r@)) == snippets@,
{
    snippets.to_snippets()
}

/// The stored snippets in whose title, code or a tag the query occurs, ignoring case.
pub fn search_snippets(snippets: &SnippetStore, query: &str) -> (r: Vec<Snippet>)
    requires
        snippets.wf(),
    ensures
        titles_distinct(views_of(r@)),
        snippet_map(views_of(r@)) == select(snippets@, Filter::Search, lower_of(query@)),
{
    let q = lowercase(query);
    snippets.select_where(Filter::Search, q.as_str())
}

/// The stored snippets with a tag equal to `tag`, ignoring case.
pub fn list_snippets_by_tag(snippets: &SnippetStore, tag: &str) -> (r: Vec<Snippet>)
    requires
        snippets.wf(),
    ensures
        titles_distinct(views_of(r@)),
        snippet_map(views_of(r@)) == select(snippets@, Filter::Tag, lower_of(tag@)),
{
    let t = lowercase(tag);
    snippets.select_where(Filter::Tag, t.as_str())
}

} // verus!
