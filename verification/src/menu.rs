//! The options of the menu.

use vstd::prelude::*;

verus! {

/// What the user can choose from the menu.
#[derive(Debug, Clone, Copy, PartialEq, Eq)]
pub enum MenuOption {
    AddHabit,
    MarkComplete,
    MarkIncomplete,
    ViewHabits,
    RemoveHabit,
    Exit,
}

impl MenuOption {
    /// The option that stands under `number` in the menu. The options are
    /// numbered from one, in the order of their declaration; any other
    /// number is no option.
    pub open spec fn numbered(number: nat) -> Option<MenuOption> {
        if number == 1 {
            Some(MenuOption::AddHabit)
        } else if number == 2 {
            Some(MenuOption::MarkComplete)
        } else if number == 3 {
            Some(MenuOption::MarkIncomplete)
        } else if number == 4 {
            Some(MenuOption::ViewHabits)
        } else if number == 5 {
            Some(MenuOption::RemoveHabit)
        } else if number == 6 {
            Some(MenuOption::Exit)
        } else {
            None
        }
    }

    /// The option that stands under `number` in the menu, where there is
    /// one.
    pub fn from_number(number: u32) -> (option: Option<MenuOption>)
        ensures
            option == MenuOption::numbered(number as nat),
    {
        match number {
            1 => Some(MenuOption::AddHabit),
            2 => Some(MenuOption::MarkComplete),
            3 => Some(MenuOption::MarkIncomplete),
            4 => Some(MenuOption::ViewHabits),
            5 => Some(MenuOption::RemoveHabit),
            6 => Some(MenuOption::Exit),
            _ => None,
        }
    }
}

} // verus!
