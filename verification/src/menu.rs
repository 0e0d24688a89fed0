//! The main menu and the edit sub-menu: what a line of console input
//! selects.

use vstd::prelude::*;
use crate::task::Field;
use crate::text::{all_digits, dec_value, parse_u64};

verus! {

/// One of the six actions of the main menu.
#[derive(Clone, Copy, PartialEq, Eq, Structural, Debug)]
pub enum MenuChoice {
    AddTask,
    ViewTasks,
    MarkCompleted,
    EditTask,
    RemoveTask,
    Exit,
}

/// The menu action behind a one-based selection number.
pub open spec fn menu_of(n: int) -> MenuChoice
    recommends
        1 <= n <= 6,
{
    if n == 1 {
        MenuChoice::AddTask
    } else if n == 2 {
        MenuChoice::ViewTasks
    } else if n == 3 {
        MenuChoice::MarkCompleted
    } else if n == 4 {
        MenuChoice::EditTask
    } else if n == 5 {
        MenuChoice::RemoveTask
    } else {
        MenuChoice::Exit
    }
}

/// The editable field behind a one-based selection number.
pub open spec fn field_of(n: int) -> Field
    recommends
        1 <= n <= 4,
{
    if n == 1 {
        Field::Name
    } else if n == 2 {
        Field::Description
    } else if n == 3 {
        Field::Priority
    } else {
        Field::DueDate
    }
}

/// Reads a main-menu selection: a decimal number between 1 and 6.
pub fn parse_menu_choice(s: &str) -> (r: Option<MenuChoice>)
    ensures
        (r is Some) <==> (s@.len() > 0 && all_digits(s@) && 1 <= dec_value(s@) <= 6),
        r matches Some(c) ==> c == menu_of(dec_value(s@)),
{
    match parse_u64(s) {
        Some(n) => {
            if n == 1 {
                Some(MenuChoice::AddTask)
            } else if n == 2 {
                Some(MenuChoice::ViewTasks)
            } else if n == 3 {
                Some(MenuChoice::MarkCompleted)
            } else if n == 4 {
                Some(MenuChoice::EditTask)
            } else if n == 5 {
                Some(MenuChoice::RemoveTask)
            } else if n == 6 {
                Some(MenuChoice::Exit)
            } else {
                None
            }
        },
        None => None,
    }
}

/// Reads an edit sub-menu selection: a decimal number between 1 and 4.
pub fn parse_field_choice(s: &str) -> (r: Option<Field>)
    ensures
        (r is Some) <==> (s@.len() > 0 && all_digits(s@) && 1 <= dec_value(s@) <= 4),
        r matches Some(f) ==> f == field_of(dec_value(s@)),
{
    match parse_u64(s) {
        Some(n) => {
            if n == 1 {
                Some(Field::Name)
            } else if n == 2 {
                Some(Field::Description)
            } else if n == 3 {
                Some(Field::Priority)
            } else if n == 4 {
                Some(Field::DueDate)
            } else {
                None
            }
        },
        None => None,
    }
}

} // verus!
