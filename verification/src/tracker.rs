//! The registry of habits and its operations.

use vstd::prelude::*;
use crate::chars::{first_index, lemma_first_index, lemma_first_index_is};
use crate::habit::{Habit, HabitView};

verus! {

/// The names of `habits`, in order.
pub open spec fn names(habits: Seq<HabitView>) -> Seq<Seq<char>> {
    habits.map_values(|h: HabitView| h.name)
}

/// Index of the first habit called `name`, where there is one. Names need
/// not be unique: every operation that goes by name acts on this habit and
/// on no other.
pub open spec fn first_match(habits: Seq<HabitView>, name: Seq<char>) -> Option<int> {
    let i = first_index(names(habits), name);
    if i < habits.len() {
        Some(i)
    } else {
        None
    }
}

/// `habits` with a fresh habit called `name` at the end.
pub open spec fn added(habits: Seq<HabitView>, name: Seq<char>) -> Seq<HabitView> {
    habits.push(HabitView::fresh(name))
}

/// `habits` without the first habit called `name`; `habits` itself where
/// none is called so.
pub open spec fn removed(habits: Seq<HabitView>, name: Seq<char>) -> Seq<HabitView> {
    match first_match(habits, name) {
        Some(i) => habits.remove(i),
        None => habits,
    }
}

/// `habits` with the first habit called `name` completed once more;
/// `habits` itself where none is called so.
pub open spec fn marked_complete(habits: Seq<HabitView>, name: Seq<char>) -> Seq<HabitView> {
    match first_match(habits, name) {
        Some(i) => habits.update(i, habits[i].completed()),
        None => habits,
    }
}

/// `habits` with the first habit called `name` reset; `habits` itself where
/// none is called so.
pub open spec fn marked_incomplete(habits: Seq<HabitView>, name: Seq<char>) -> Seq<HabitView> {
    match first_match(habits, name) {
        Some(i) => habits.update(i, habits[i].reset()),
        None => habits,
    }
}

/// Name and streak of each of `habits`, in order.
pub open spec fn listing(habits: Seq<HabitView>) -> Seq<(Seq<char>, nat)> {
    habits.map_values(|h: HabitView| (h.name, h.streak))
}

/// What `first_match` finds is called `name` and nothing before it is; where
/// it finds nothing, no habit is called `name`.
pub proof fn lemma_first_match(habits: Seq<HabitView>, name: Seq<char>)
    ensures
        first_match(habits, name) matches Some(i) ==> 0 <= i < habits.len(),
        first_match(habits, name) matches Some(i) ==> habits[i].name == name,
        first_match(habits, name) matches Some(i) ==> forall|j: int|
            0 <= j < i ==> habits[j].name != name,
        first_match(habits, name) is None ==> forall|j: int|
            0 <= j < habits.len() ==> habits[j].name != name,
{
    lemma_first_index(names(habits), name);
    let i = first_index(names(habits), name);
    assert forall|j: int| 0 <= j < i implies habits[j].name != name by {
        assert(names(habits)[j] == habits[j].name);
    }
}

/// A habit called `name` with none of that name before it is the first
/// match.
pub proof fn lemma_first_match_is(habits: Seq<HabitView>, name: Seq<char>, i: int)
    requires
        0 <= i < habits.len(),
        habits[i].name == name,
        forall|j: int| 0 <= j < i ==> habits[j].name != name,
    ensures
        first_match(habits, name) == Some(i),
{
    lemma_first_index_is(names(habits), name, i);
}

/// Where no habit is called `name`, there is no first match.
pub proof fn lemma_no_match(habits: Seq<HabitView>, name: Seq<char>)
    requires
        forall|j: int| 0 <= j < habits.len() ==> habits[j].name != name,
    ensures
        first_match(habits, name) is None,
{
    lemma_first_index_is(names(habits), name, habits.len() as int);
}

/// `habits` after adding fresh habits called `new_names`, one by one in
/// that order.
pub open spec fn added_all(habits: Seq<HabitView>, new_names: Seq<Seq<char>>) -> Seq<HabitView>
    decreases new_names.len(),
{
    if new_names.len() == 0 {
        habits
    } else {
        added(added_all(habits, new_names.drop_last()), new_names.last())
    }
}

/// `habits` after completing the first habit called `name` `times` times
/// in a row.
pub open spec fn marked_complete_times(
    habits: Seq<HabitView>,
    name: Seq<char>,
    times: nat,
) -> Seq<HabitView>
    decreases times,
{
    if times == 0 {
        habits
    } else {
        marked_complete(marked_complete_times(habits, name, (times - 1) as nat), name)
    }
}

/// Additions leave what was there before untouched and in front.
pub proof fn lemma_added_all(habits: Seq<HabitView>, new_names: Seq<Seq<char>>)
    ensures
        added_all(habits, new_names) == habits + new_names.map_values(
            |name: Seq<char>| HabitView::fresh(name),
        ),
    decreases new_names.len(),
{
    if new_names.len() > 0 {
        let front = new_names.drop_last();
        lemma_added_all(habits, front);
        assert((habits + front.map_values(|name: Seq<char>| HabitView::fresh(name))).push(
            HabitView::fresh(new_names.last()),
        ) == habits + new_names.map_values(|name: Seq<char>| HabitView::fresh(name)));
    } else {
        assert(habits + new_names.map_values(|name: Seq<char>| HabitView::fresh(name)) == habits);
    }
}

/// Habits come out in the order in which they went in: after any number of
/// additions to an empty registry there is one habit for each name, in the
/// order of the additions, each not completed and with no streak, and the
/// listing shows each name with streak zero.
pub proof fn lemma_added_in_order(new_names: Seq<Seq<char>>)
    ensures
        added_all(Seq::empty(), new_names) == new_names.map_values(
            |name: Seq<char>| HabitView::fresh(name),
        ),
        listing(added_all(Seq::empty(), new_names)) == new_names.map_values(
            |name: Seq<char>| (name, 0nat),
        ),
{
    lemma_added_all(Seq::empty(), new_names);
    let fresh = new_names.map_values(|name: Seq<char>| HabitView::fresh(name));
    assert(Seq::<HabitView>::empty() + fresh == fresh);
    assert(listing(fresh) == new_names.map_values(|name: Seq<char>| (name, 0nat)));
}

/// Every completion counts: `times` completions in a row add `times` to the
/// streak of the first habit called `name` and, where there was at least
/// one, leave it completed. A habit that had no streak has streak `times`.
/// No other habit changes, and without a habit of that name nothing does.
pub proof fn lemma_marked_complete_times(habits: Seq<HabitView>, name: Seq<char>, times: nat)
    ensures
        first_match(habits, name) matches Some(i) ==> marked_complete_times(habits, name, times)
            == habits.update(
            i,
            (HabitView {
                completed_today: times > 0 || habits[i].completed_today,
                streak: habits[i].streak + times,
                ..habits[i]
            }),
        ),
        first_match(habits, name) is None ==> marked_complete_times(habits, name, times) == habits,
    decreases times,
{
    lemma_first_match(habits, name);
    match first_match(habits, name) {
        Some(i) => {
            if times == 0 {
                assert(habits.update(i, habits[i]) == habits);
            } else {
                lemma_marked_complete_times(habits, name, (times - 1) as nat);
                let before = marked_complete_times(habits, name, (times - 1) as nat);
                lemma_first_match_is(before, name, i);
                assert(before.update(i, before[i].completed()) == habits.update(
                    i,
                    before[i].completed(),
                ));
            }
        },
        None => {
            if times > 0 {
                lemma_marked_complete_times(habits, name, (times - 1) as nat);
            }
        },
    }
}

/// An insertion-ordered registry of habits. Names are not kept unique.
#[derive(Debug, PartialEq, Eq)]
pub struct HabitTracker {
    pub habits: Vec<Habit>,
}

impl View for HabitTracker {
    type V = Seq<HabitView>;

    open spec fn view(&self) -> Seq<HabitView> {
        self.habits@.map_values(|h: Habit| h@)
    }
}

impl HabitTracker {
    /// An empty registry.
    pub fn new() -> (tracker: HabitTracker)
        ensures
            tracker@ == Seq::<HabitView>::empty(),
    {
        HabitTracker { habits: Vec::new() }
    }

    /// Index of the first habit called `name`, where there is one.
    pub fn position(&self, name: &str) -> (found: Option<usize>)
        ensures
            found matches Some(i) ==> first_match(self@, name@) == Some(i as int),
            found is None ==> first_match(self@, name@) is None,
    {
        let wanted = name.to_owned();
        let mut i: usize = 0;
        while i < self.habits.len()
            invariant
                i <= self.habits.len(),
                wanted@ == name@,
                forall|j: int| 0 <= j < i ==> self@[j].name != name@,
            decreases self.habits.len() - i,
        {
            if self.habits[i].name == wanted {
                proof {
                    lemma_first_match_is(self@, name@, i as int);
                }
                return Some(i);
            }
            i += 1;
        }
        proof {
            lemma_no_match(self@, name@);
        }
        None
    }

    /// Adds a fresh habit called `name` at the end. A habit of that name may
    /// be there already: the new one is added all the same.
    pub fn add_habit(&mut self, name: &str)
        ensures
            final(self)@ == added(old(self)@, name@),
            final(self)@.len() == old(self)@.len() + 1,
    {
        let habit = Habit::new(name);
        self.habits.push(habit);
    }

    /// Removes the first habit called `name` and says whether there was one.
    /// Later habits of the same name stay.
    pub fn remove_habit(&mut self, name: &str) -> (found: bool)
        ensures
            found == first_match(old(self)@, name@) is Some,
            final(self)@ == removed(old(self)@, name@),
            found ==> final(self)@.len() == old(self)@.len() - 1,
            !found ==> final(self)@ == old(self)@,
    {
        match self.position(name) {
            Some(i) => {
                self.habits.remove(i);
                true
            },
            None => false,
        }
    }

    /// Completes the first habit called `name` once more: it counts as
    /// completed and its streak grows by one. Every call counts, also on a
    /// habit that is completed already. Where no habit is called `name`,
    /// nothing changes and nothing is reported; `position` tells which of
    /// the two it will be.
    ///
    /// The streak of that habit must be below `u32::MAX`, so that it can
    /// grow.
    pub fn mark_complete(&mut self, name: &str)
        requires
            first_match(old(self)@, name@) matches Some(i) ==> old(self)@[i].streak < u32::MAX,
        ensures
            final(self)@ == marked_complete(old(self)@, name@),
            final(self)@.len() == old(self)@.len(),
            first_match(old(self)@, name@) matches Some(i) ==> final(self)@[i].streak
                == old(self)@[i].streak + 1,
            first_match(old(self)@, name@) matches Some(i) ==> final(self)@[i].completed_today,
    {
        match self.position(name) {
            Some(i) => {
                self.habits[i].completed_today = true;
                self.habits[i].streak += 1;
            },
            None => {},
        }
    }

    /// Resets the first habit called `name`, whatever state it is in: it
    /// counts as not completed and its streak is lost. Where no habit is
    /// called `name`, nothing changes and nothing is reported; `position`
    /// tells which of the two it will be.
    pub fn mark_incomplete(&mut self, name: &str)
        ensures
            final(self)@ == marked_incomplete(old(self)@, name@),
            final(self)@.len() == old(self)@.len(),
            first_match(old(self)@, name@) matches Some(i) ==> final(self)@[i].streak == 0,
            first_match(old(self)@, name@) matches Some(i) ==> !final(self)@[i].completed_today,
    {
        match self.position(name) {
            Some(i) => {
                self.habits[i].completed_today = false;
                self.habits[i].streak = 0;
            },
            None => {},
        }
    }

    /// Name and streak of every habit, in the order of the registry.
    pub fn display(&self) -> (rows: Vec<(String, u32)>)
        ensures
            rows@.map_values(|row: (String, u32)| (row.0@, row.1 as nat)) == listing(self@),
    {
        let mut rows: Vec<(String, u32)> = Vec::new();
        let mut i: usize = 0;
        while i < self.habits.len()
            invariant
                i <= self.habits.len(),
                rows@.map_values(|row: (String, u32)| (row.0@, row.1 as nat)) == listing(
                    self@.take(i as int),
                ),
            decreases self.habits.len() - i,
        {
            let ghost shown = rows@.map_values(|row: (String, u32)| (row.0@, row.1 as nat));
            rows.push((self.habits[i].name.clone(), self.habits[i].streak));
            proof {
                let habit = self@[i as int];
                assert(rows@.map_values(|row: (String, u32)| (row.0@, row.1 as nat)) == shown.push(
                    (habit.name, habit.streak),
                ));
                assert(listing(self@.take(i + 1)) == listing(self@.take(i as int)).push(
                    (habit.name, habit.streak),
                ));
            }
            i += 1;
        }
        assert(self@.take(i as int) == self@);
        rows
    }
}

} // verus!
