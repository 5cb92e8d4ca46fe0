use habit_tracker::{Habit, HabitTracker};

fn habit(name: &str, completed_today: bool, streak: u32) -> Habit {
    Habit { name: name.to_string(), completed_today, streak }
}

#[test]
fn new_habit_is_not_completed_and_has_no_streak() {
    let h = Habit::new("run");
    assert_eq!(h.name, "run");
    assert!(!h.completed_today);
    assert_eq!(h.streak, 0);
}

#[test]
fn new_registry_is_empty() {
    let tracker = HabitTracker::new();
    assert!(tracker.habits.is_empty());
    assert!(tracker.display().is_empty());
}

#[test]
fn added_habits_are_listed_in_order() {
    let mut tracker = HabitTracker::new();
    let names = ["run", "read", "sleep early", "", "read"];
    for name in names {
        tracker.add_habit(name);
    }
    assert_eq!(
        tracker.habits,
        vec![
            habit("run", false, 0),
            habit("read", false, 0),
            habit("sleep early", false, 0),
            habit("", false, 0),
            habit("read", false, 0),
        ]
    );
    assert_eq!(
        tracker.display(),
        vec![
            ("run".to_string(), 0),
            ("read".to_string(), 0),
            ("sleep early".to_string(), 0),
            ("".to_string(), 0),
            ("read".to_string(), 0),
        ]
    );
}

#[test]
fn add_does_not_check_for_duplicates() {
    let mut tracker = HabitTracker::new();
    tracker.add_habit("run");
    tracker.add_habit("run");
    assert_eq!(tracker.habits.len(), 2);
}

#[test]
fn position_finds_the_first_of_equal_names() {
    let mut tracker = HabitTracker::new();
    tracker.add_habit("a");
    tracker.add_habit("b");
    tracker.add_habit("b");
    assert_eq!(tracker.position("a"), Some(0));
    assert_eq!(tracker.position("b"), Some(1));
    assert_eq!(tracker.position("c"), None);
    assert_eq!(tracker.position("B"), None);
    assert_eq!(tracker.position(""), None);
}

#[test]
fn mark_complete_counts_every_call() {
    let mut tracker = HabitTracker::new();
    tracker.add_habit("run");
    for k in 1..=7u32 {
        tracker.mark_complete("run");
        assert_eq!(tracker.habits[0].streak, k);
        assert!(tracker.habits[0].completed_today);
    }
}

#[test]
fn mark_complete_adds_to_an_older_streak() {
    let mut tracker = HabitTracker { habits: vec![habit("run", false, 41)] };
    tracker.mark_complete("run");
    assert_eq!(tracker.habits, vec![habit("run", true, 42)]);
}

#[test]
fn mark_complete_reaches_the_largest_streak() {
    let mut tracker = HabitTracker { habits: vec![habit("run", true, u32::MAX - 1)] };
    tracker.mark_complete("run");
    assert_eq!(tracker.habits, vec![habit("run", true, u32::MAX)]);
}

#[test]
fn mark_complete_touches_the_first_match_only() {
    let mut tracker = HabitTracker {
        habits: vec![habit("a", false, 1), habit("b", false, 2), habit("b", false, 3)],
    };
    tracker.mark_complete("b");
    assert_eq!(
        tracker.habits,
        vec![habit("a", false, 1), habit("b", true, 3), habit("b", false, 3)]
    );
}

#[test]
fn mark_complete_of_an_unknown_name_changes_nothing() {
    let mut tracker = HabitTracker { habits: vec![habit("a", false, 1)] };
    tracker.mark_complete("b");
    assert_eq!(tracker.habits, vec![habit("a", false, 1)]);
}

#[test]
fn mark_incomplete_resets_whatever_was_there() {
    let mut tracker = HabitTracker {
        habits: vec![habit("a", true, 9), habit("b", false, 4), habit("c", false, 0)],
    };
    tracker.mark_incomplete("a");
    tracker.mark_incomplete("b");
    tracker.mark_incomplete("c");
    assert_eq!(
        tracker.habits,
        vec![habit("a", false, 0), habit("b", false, 0), habit("c", false, 0)]
    );
}

#[test]
fn mark_incomplete_touches_the_first_match_only() {
    let mut tracker = HabitTracker { habits: vec![habit("a", true, 9), habit("a", true, 4)] };
    tracker.mark_incomplete("a");
    assert_eq!(tracker.habits, vec![habit("a", false, 0), habit("a", true, 4)]);
}

#[test]
fn mark_incomplete_of_an_unknown_name_changes_nothing() {
    let mut tracker = HabitTracker { habits: vec![habit("a", true, 9)] };
    tracker.mark_incomplete("z");
    assert_eq!(tracker.habits, vec![habit("a", true, 9)]);
}

#[test]
fn completion_after_a_reset_starts_from_one() {
    let mut tracker = HabitTracker::new();
    tracker.add_habit("run");
    tracker.mark_complete("run");
    tracker.mark_complete("run");
    tracker.mark_incomplete("run");
    tracker.mark_complete("run");
    assert_eq!(tracker.habits, vec![habit("run", true, 1)]);
}

#[test]
fn remove_takes_out_the_first_match_only() {
    let mut tracker = HabitTracker {
        habits: vec![habit("a", false, 1), habit("b", true, 2), habit("a", true, 3)],
    };
    assert!(tracker.remove_habit("a"));
    assert_eq!(tracker.habits, vec![habit("b", true, 2), habit("a", true, 3)]);
    assert!(tracker.remove_habit("a"));
    assert_eq!(tracker.habits, vec![habit("b", true, 2)]);
    assert!(!tracker.remove_habit("a"));
    assert_eq!(tracker.habits, vec![habit("b", true, 2)]);
}

#[test]
fn remove_of_an_unknown_name_changes_nothing() {
    let mut tracker = HabitTracker { habits: vec![habit("a", false, 1), habit("b", true, 2)] };
    assert!(!tracker.remove_habit("c"));
    assert_eq!(tracker.habits, vec![habit("a", false, 1), habit("b", true, 2)]);
}

#[test]
fn remove_from_an_empty_registry_finds_nothing() {
    let mut tracker = HabitTracker::new();
    assert!(!tracker.remove_habit("a"));
    assert!(tracker.habits.is_empty());
}

#[test]
fn display_shows_name_and_streak() {
    let tracker = HabitTracker { habits: vec![habit("a", false, 1), habit("b", true, 20)] };
    assert_eq!(tracker.display(), vec![("a".to_string(), 1), ("b".to_string(), 20)]);
}
