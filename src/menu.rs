use vstd::prelude::*;
use crate::text::{trim_of, trimmed};

verus! {

/// The actions of the main menu.
#[derive(Clone, Copy, Debug, PartialEq, Eq, Structural)]
pub enum MenuChoice {
    Add,
    List,
    Search,
    Edit,
    Delete,
    ListByTag,
    Export,
    Import,
    ViewHistory,
    Exit,
}

/// The action that a trimmed menu input names, if any.
pub open spec fn choice_of(t: Seq<char>) -> Option<MenuChoice> {
    if t == "1"@ {
        Some(MenuChoice::Add)
    } else if t == "2"@ {
        Some(MenuChoice::List)
    } else if t == "3"@ {
        Some(MenuChoice::Search)
    } else if t == "4"@ {
        Some(MenuChoice::Edit)
    } else if t == "5"@ {
        Some(MenuChoice::Delete)
    } else if t == "6"@ {
        Some(MenuChoice::ListByTag)
    } else if t == "7"@ {
        Some(MenuChoice::Export)
    } else if t == "8"@ {
        Some(MenuChoice::Import)
    } else if t == "9"@ {
        Some(MenuChoice::ViewHistory)
    } else if t == "10"@ {
        Some(MenuChoice::Exit)
    } else {
        None
    }
}

/// The action that a menu input names once trimmed; `None` for any other input.
pub fn parse_choice(input: &str) -> (r: Option<MenuChoice>)
    ensures
        r == choice_of(trim_of(input@)),
{
    let t = trimmed(input);
    if t == String::from_str("1") {
        Some(MenuChoice::Add)
    } else if t == String::from_str("2") {
        Some(MenuChoice::List)
    } else if t == String::from_str("3") {
        Some(MenuChoice::Search)
    } else if t == String::from_str("4") {
        Some(MenuChoice::Edit)
    } else if t == String::from_str("5") {
        Some(MenuChoice::Delete)
    } else if t == String::from_str("6") {
        Some(MenuChoice::ListByTag)
    } else if t == String::from_str("7") {
        Some(MenuChoice::Export)
    } else if t == String::from_str("8") {
        Some(MenuChoice::Import)
    } else if t == String::from_str("9") {
        Some(MenuChoice::ViewHistory)
    } else if t == String::from_str("10") {
        Some(MenuChoice::Exit)
    } else {
        None
    }
}

} // verus!
