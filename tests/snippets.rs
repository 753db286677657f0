use snippet_manager::commands::{
    add_snippet, delete_snippet, edit_snippet, import_snippets, list_snippets, list_snippets_by_tag,
    parse_tags, search_snippets, CommandError,
};
use snippet_manager::display::{display_snippet, join_texts, listing_line};
use snippet_manager::history::ActionHistory;
use snippet_manager::menu::{parse_choice, MenuChoice};
use snippet_manager::snippet::Snippet;
use snippet_manager::store::SnippetStore;

fn texts(items: &[&str]) -> Vec<String> {
    items.iter().map(|s| s.to_string()).collect()
}

fn snippet(title: &str, code: &str, tags: &[&str]) -> Snippet {
    Snippet::new(title.to_string(), code.to_string(), texts(tags))
}

fn titles(v: &[Snippet]) -> Vec<String> {
    let mut t: Vec<String> = v.iter().map(|s| s.title.clone()).collect();
    t.sort();
    t
}

#[test]
fn add_trims_code_and_splits_tags() {
    let mut store = SnippetStore::new();
    let mut history = ActionHistory::new();
    let r = add_snippet(&mut store, &mut history, "Vec", "  let v = vec![1];  ", "a, b ,c");
    assert_eq!(r, Ok(()));
    let s = store.get("Vec").unwrap();
    assert_eq!(s.title, "Vec");
    assert_eq!(s.code, "let v = vec![1];");
    assert_eq!(s.tags, texts(&["a", "b", "c"]));
    assert_eq!(history.actions(), &texts(&["Added snippet: Vec"]));
}

#[test]
fn duplicate_title_is_rejected() {
    let mut store = SnippetStore::new();
    let mut history = ActionHistory::new();
    add_snippet(&mut store, &mut history, "A", "one", "x").unwrap();
    let r = add_snippet(&mut store, &mut history, "A", "two", "y");
    assert_eq!(r, Err(CommandError::DuplicateTitle));
    let s = store.get("A").unwrap();
    assert_eq!(s.code, "one");
    assert_eq!(s.tags, texts(&["x"]));
    assert_eq!(history.actions().len(), 1);
}

#[test]
fn tags_keep_duplicates_and_empty_pieces() {
    assert_eq!(parse_tags("a,,a"), texts(&["a", "", "a"]));
    assert_eq!(parse_tags(""), texts(&[""]));
    assert_eq!(parse_tags(" rust , io "), texts(&["rust", "io"]));
}

#[test]
fn edit_with_empty_code_changes_only_tags() {
    let mut store = SnippetStore::new();
    let mut history = ActionHistory::new();
    add_snippet(&mut store, &mut history, "T", "code", "old").unwrap();
    assert_eq!(edit_snippet(&mut store, &mut history, "T", "", "new, tags"), Ok(()));
    let s = store.get("T").unwrap();
    assert_eq!(s.code, "code");
    assert_eq!(s.tags, texts(&["new", "tags"]));
    assert_eq!(history.actions()[1], "Edited snippet: T");
}

#[test]
fn edit_with_both_empty_keeps_snippet() {
    let mut store = SnippetStore::new();
    let mut history = ActionHistory::new();
    add_snippet(&mut store, &mut history, "T", "code", "a,b").unwrap();
    assert_eq!(edit_snippet(&mut store, &mut history, "T", "", "   "), Ok(()));
    let s = store.get("T").unwrap();
    assert_eq!(s.title, "T");
    assert_eq!(s.code, "code");
    assert_eq!(s.tags, texts(&["a", "b"]));
}

#[test]
fn edit_replaces_code() {
    let mut store = SnippetStore::new();
    let mut history = ActionHistory::new();
    add_snippet(&mut store, &mut history, "T", "code", "a").unwrap();
    assert_eq!(edit_snippet(&mut store, &mut history, "T", "  fresh ", ""), Ok(()));
    let s = store.get("T").unwrap();
    assert_eq!(s.code, "fresh");
    assert_eq!(s.tags, texts(&["a"]));
}

#[test]
fn edit_of_unknown_title_is_not_found() {
    let mut store = SnippetStore::new();
    let mut history = ActionHistory::new();
    assert_eq!(edit_snippet(&mut store, &mut history, "nope", "x", "y"), Err(CommandError::NotFound));
    assert!(store.is_empty());
    assert!(history.is_empty());
}

#[test]
fn delete_of_unknown_title_is_not_found() {
    let mut store = SnippetStore::new();
    let mut history = ActionHistory::new();
    add_snippet(&mut store, &mut history, "A", "x", "").unwrap();
    assert_eq!(delete_snippet(&mut store, &mut history, "B"), Err(CommandError::NotFound));
    assert!(store.contains("A"));
    assert_eq!(history.actions().len(), 1);
}

#[test]
fn search_is_case_insensitive_substring() {
    let mut store = SnippetStore::new();
    let mut history = ActionHistory::new();
    add_snippet(&mut store, &mut history, "HashMap Example", "let m = 1;", "collections").unwrap();
    add_snippet(&mut store, &mut history, "Other", "fn f() {}", "misc").unwrap();
    assert_eq!(titles(&search_snippets(&store, "hashmap")), texts(&["HashMap Example"]));
    assert_eq!(titles(&search_snippets(&store, "map")), texts(&["HashMap Example"]));
    assert_eq!(titles(&search_snippets(&store, "FN F")), texts(&["Other"]));
    assert_eq!(titles(&search_snippets(&store, "MISC")), texts(&["Other"]));
    assert_eq!(titles(&search_snippets(&store, "zzz")), texts(&[]));
    assert_eq!(titles(&search_snippets(&store, "")), texts(&["HashMap Example", "Other"]));
}

#[test]
fn tag_filter_is_exact_and_case_insensitive() {
    let mut store = SnippetStore::new();
    let mut history = ActionHistory::new();
    add_snippet(&mut store, &mut history, "S", "code", "Collections").unwrap();
    assert_eq!(titles(&list_snippets_by_tag(&store, "collections")), texts(&["S"]));
    assert_eq!(titles(&list_snippets_by_tag(&store, "COLLECTIONS")), texts(&["S"]));
    assert_eq!(titles(&list_snippets_by_tag(&store, "collection")), texts(&[]));
}

#[test]
fn import_overwrites_on_same_title() {
    let mut store = SnippetStore::new();
    let mut history = ActionHistory::new();
    add_snippet(&mut store, &mut history, "A", "v1", "").unwrap();
    let incoming = vec![snippet("A", "v2", &["t"]), snippet("B", "v3", &[])];
    import_snippets(&mut store, &mut history, "in.json", incoming);
    assert_eq!(store.get("A").unwrap().code, "v2");
    assert_eq!(store.get("A").unwrap().tags, texts(&["t"]));
    assert_eq!(store.get("B").unwrap().code, "v3");
    assert_eq!(titles(&list_snippets(&store)), texts(&["A", "B"]));
    assert_eq!(history.actions()[1], "Imported snippets from file: in.json");
}

#[test]
fn loading_nothing_gives_empty_collections() {
    let store = SnippetStore::from_decoded(None);
    assert!(store.is_empty());
    assert!(list_snippets(&store).is_empty());
    let history = ActionHistory::from_decoded(None);
    assert!(history.is_empty());
}

#[test]
fn reloading_saved_snippets_keeps_the_mapping() {
    let mut store = SnippetStore::new();
    let mut history = ActionHistory::new();
    add_snippet(&mut store, &mut history, "A", "x", "p,q").unwrap();
    add_snippet(&mut store, &mut history, "B", "y", "").unwrap();
    let back = SnippetStore::from_decoded(Some(store.to_snippets()));
    for t in ["A", "B"] {
        let a = store.get(t).unwrap();
        let b = back.get(t).unwrap();
        assert_eq!(a.code, b.code);
        assert_eq!(a.tags, b.tags);
    }
    assert_eq!(titles(&back.to_snippets()), texts(&["A", "B"]));
}

#[test]
fn later_snippet_wins_when_loading() {
    let store = SnippetStore::from_snippets(vec![snippet("A", "1", &[]), snippet("A", "2", &[])]);
    assert_eq!(store.get("A").unwrap().code, "2");
    assert_eq!(list_snippets(&store).len(), 1);
}

#[test]
fn history_keeps_order_of_actions() {
    let mut store = SnippetStore::new();
    let mut history = ActionHistory::new();
    add_snippet(&mut store, &mut history, "X", "c", "").unwrap();
    delete_snippet(&mut store, &mut history, "X").unwrap();
    add_snippet(&mut store, &mut history, "Y", "c", "").unwrap();
    assert_eq!(
        history.actions(),
        &texts(&["Added snippet: X", "Deleted snippet: X", "Added snippet: Y"])
    );
    assert!(!store.contains("X"));
    assert!(store.contains("Y"));
}

#[test]
fn loaded_history_is_extended() {
    let mut history = ActionHistory::from_decoded(Some(texts(&["old"])));
    history.append("new".to_string());
    assert_eq!(history.actions(), &texts(&["old", "new"]));
}

#[test]
fn menu_choices_are_parsed() {
    assert_eq!(parse_choice("1"), Some(MenuChoice::Add));
    assert_eq!(parse_choice(" 4 "), Some(MenuChoice::Edit));
    assert_eq!(parse_choice("9"), Some(MenuChoice::ViewHistory));
    assert_eq!(parse_choice("10"), Some(MenuChoice::Exit));
    assert_eq!(parse_choice("11"), None);
    assert_eq!(parse_choice(""), None);
    assert_eq!(parse_choice("one"), None);
}

#[test]
fn snippets_are_shown_with_joined_tags() {
    let s = snippet("T", "x = 1", &["a", "b"]);
    assert_eq!(display_snippet(&s), "Title: T\nCode:\nx = 1\nTags: a, b\n");
    assert_eq!(listing_line(&s), "- T (Tags: a, b)");
    assert_eq!(join_texts(&texts(&[]), ", "), "");
    assert_eq!(join_texts(&texts(&["one"]), ", "), "one");
}

#[test]
fn loading_order_does_not_matter_for_distinct_titles() {
    let one = SnippetStore::from_snippets(vec![snippet("A", "1", &["x"]), snippet("B", "2", &[])]);
    let two = SnippetStore::from_snippets(vec![snippet("B", "2", &[]), snippet("A", "1", &["x"])]);
    for t in ["A", "B"] {
        assert_eq!(one.get(t).unwrap().code, two.get(t).unwrap().code);
        assert_eq!(one.get(t).unwrap().tags, two.get(t).unwrap().tags);
    }
    assert_eq!(titles(&one.to_snippets()), titles(&two.to_snippets()));
}
