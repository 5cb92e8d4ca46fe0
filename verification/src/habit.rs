//! A single habit.

use vstd::prelude::*;

verus! {

/// A habit as contracts speak of it: its name as a sequence of characters
/// and its streak as a natural number.
pub struct HabitView {
    pub name: Seq<char>,
    pub completed_today: bool,
    pub streak: nat,
}

impl HabitView {
    /// The habit called `name` as it is when first added: not completed,
    /// with no streak.
    pub open spec fn fresh(name: Seq<char>) -> HabitView {
        HabitView { name, completed_today: false, streak: 0 }
    }

    /// This habit after a completion: completed, its streak one longer.
    pub open spec fn completed(self) -> HabitView {
        HabitView { completed_today: true, streak: self.streak + 1, ..self }
    }

    /// This habit after a reset: not completed, its streak lost.
    pub open spec fn reset(self) -> HabitView {
        HabitView { completed_today: false, streak: 0, ..self }
    }
}

/// A named habit with a completion flag for the current day and the number of
/// completions in a row.
///
/// The flag knows nothing of the calendar: it changes only when it is set.
#[derive(Debug, PartialEq, Eq)]
pub struct Habit {
    pub name: String,
    pub completed_today: bool,
    pub streak: u32,
}

impl View for Habit {
    type V = HabitView;

    open spec fn view(&self) -> HabitView {
        HabitView {
            name: self.name@,
            completed_today: self.completed_today,
            streak: self.streak as nat,
        }
    }
}

impl Habit {
    /// A new habit called `name`: not completed, with no streak.
    pub fn new(name: &str) -> (habit: Habit)
        ensures
            habit@ == HabitView::fresh(name@),
    {
        Habit { name: name.to_owned(), completed_today: false, streak: 0 }
    }
}

} // verus!
