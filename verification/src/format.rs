//! The text format in which a registry is stored: one line for each habit,
//! made of its name, its completion flag and its streak with a colon between
//! them, and a line feed after every line.

use vstd::prelude::*;
use crate::chars::{
    first_index, lemma_first_index, lemma_first_index_is, lemma_split_first, lemma_split_single,
    split,
};
use crate::decimal::{decimal, is_digit, lemma_decimal, lemma_parse_decimal, parse_unsigned};
use crate::habit::HabitView;

verus! {

/// Why a stored text cannot be loaded.
#[derive(Debug, Clone, Copy, PartialEq, Eq)]
pub enum LoadError {
    /// A line has three fields and its streak field is no number.
    InvalidStreakValue,
}

/// How a completion flag is written: `true` or `false`.
pub open spec fn flag_text(flag: bool) -> Seq<char> {
    if flag {
        seq!['t', 'r', 'u', 'e']
    } else {
        seq!['f', 'a', 'l', 's', 'e']
    }
}

/// The line of a habit, without the line feed that ends it.
pub open spec fn record_line(habit: HabitView) -> Seq<char> {
    habit.name + seq![':'] + flag_text(habit.completed_today) + seq![':'] + decimal(habit.streak)
}

/// The stored text of `habits`: the line of each habit in order, each
/// followed by a line feed. The text of no habits is empty.
pub open spec fn encode(habits: Seq<HabitView>) -> Seq<char>
    decreases habits.len(),
{
    if habits.len() == 0 {
        Seq::empty()
    } else {
        encode(habits.drop_last()) + record_line(habits.last()).push('\n')
    }
}

/// `line` without the carriage return at its end, where it has one.
pub open spec fn without_carriage_return(line: Seq<char>) -> Seq<char> {
    if line.len() > 0 && line.last() == '\r' {
        line.drop_last()
    } else {
        line
    }
}

/// The lines of `text`. A line ends at a line feed; the line feed, and a
/// carriage return right before it, do not belong to the line. What follows
/// the last line feed is no line.
pub open spec fn lines(text: Seq<char>) -> Seq<Seq<char>>
    decreases text.len(),
{
    let i = first_index(text, '\n');
    if 0 <= i < text.len() {
        seq![without_carriage_return(text.take(i))] + lines(text.skip(i + 1))
    } else {
        Seq::empty()
    }
}

/// What a line of the store holds.
///
/// A line that the colons do not split into exactly three fields holds
/// nothing: `None`. Of three fields the first is the name as it stands, the
/// second means completed where it is exactly `true` and not completed where
/// it is anything else, and the third is the streak. A third field that is
/// no number makes the line invalid.
pub open spec fn decode_line(line: Seq<char>) -> Option<Result<HabitView, LoadError>> {
    let fields = split(line, ':');
    if fields.len() != 3 {
        None
    } else {
        match parse_unsigned(fields[2]) {
            Some(streak) => Some(
                Ok(
                    HabitView {
                        name: fields[0],
                        completed_today: fields[1] == flag_text(true),
                        streak,
                    },
                ),
            ),
            None => Some(Err(LoadError::InvalidStreakValue)),
        }
    }
}

/// Whether `line` has three fields and a streak field that is no number.
pub open spec fn is_invalid(line: Seq<char>) -> bool {
    decode_line(line) matches Some(Err(_))
}

/// The habits that `lines` hold, in order. Lines that hold no habit are
/// passed over.
pub open spec fn records(lines: Seq<Seq<char>>) -> Seq<HabitView>
    decreases lines.len(),
{
    if lines.len() == 0 {
        Seq::empty()
    } else {
        match decode_line(lines.last()) {
            Some(Ok(habit)) => records(lines.drop_last()).push(habit),
            _ => records(lines.drop_last()),
        }
    }
}

/// The habits that a stored text holds. One invalid line anywhere makes the
/// whole text fail; lines without three fields are passed over.
pub open spec fn decode(text: Seq<char>) -> Result<Seq<HabitView>, LoadError> {
    let all = lines(text);
    if exists|i: int| 0 <= i < all.len() && is_invalid(#[trigger] all[i]) {
        Err(LoadError::InvalidStreakValue)
    } else {
        Ok(records(all))
    }
}

/// Whether the format can hold `habit` and give it back: its name has no
/// colon and no line feed in it, and its streak fits in 32 bits.
pub open spec fn storable(habit: HabitView) -> bool {
    &&& !habit.name.contains(':')
    &&& !habit.name.contains('\n')
    &&& habit.streak <= u32::MAX
}

/// The lines of the stored text of `habits`.
pub open spec fn record_lines(habits: Seq<HabitView>) -> Seq<Seq<char>> {
    habits.map_values(|habit: HabitView| record_line(habit))
}

/// Lines add up: where `head` is empty or ends in a line feed, the lines of
/// `head` followed by `tail` are the lines of the one, then those of the
/// other.
pub proof fn lemma_lines_concat(head: Seq<char>, tail: Seq<char>)
    requires
        head.len() == 0 || head.last() == '\n',
    ensures
        lines(head + tail) == lines(head) + lines(tail),
    decreases head.len(),
{
    if head.len() == 0 {
        assert(head + tail == tail);
        assert(lines(head) + lines(tail) == lines(tail));
    } else {
        lemma_first_index(head, '\n');
        let i = first_index(head, '\n');
        let whole = head + tail;
        assert(whole[i] == '\n');
        assert forall|j: int| 0 <= j < i implies whole[j] != '\n' by {
            assert(whole[j] == head[j]);
        }
        lemma_first_index_is(whole, '\n', i);
        assert(whole.take(i) == head.take(i));
        assert(whole.skip(i + 1) == head.skip(i + 1) + tail);
        lemma_lines_concat(head.skip(i + 1), tail);
        assert(seq![without_carriage_return(head.take(i))] + (lines(head.skip(i + 1)) + lines(tail))
            == (seq![without_carriage_return(head.take(i))] + lines(head.skip(i + 1))) + lines(
            tail,
        ));
    }
}

/// What stands before the first line feed is the first line, up to a
/// carriage return at its end; the other lines are those of what follows
/// that line feed.
pub proof fn lemma_lines_first(line: Seq<char>, rest: Seq<char>)
    requires
        !line.contains('\n'),
    ensures
        lines(line.push('\n') + rest) == seq![without_carriage_return(line)] + lines(rest),
{
    let text = line.push('\n') + rest;
    let n = line.len() as int;
    assert forall|j: int| 0 <= j < n implies text[j] != '\n' by {
        assert(line.contains(line[j]));
    }
    assert(text[n] == '\n');
    lemma_first_index_is(text, '\n', n);
    assert(text.take(n) == line);
    assert(text.skip(n + 1) == rest);
}

/// Neither the word for a flag nor the digits of a number hold a colon, a
/// line feed or a carriage return.
pub proof fn lemma_fields_are_plain(habit: HabitView)
    ensures
        !flag_text(habit.completed_today).contains(':'),
        !flag_text(habit.completed_today).contains('\n'),
        !decimal(habit.streak).contains(':'),
        !decimal(habit.streak).contains('\n'),
        decimal(habit.streak).len() > 0,
        decimal(habit.streak).last() != '\r',
{
    let digits = decimal(habit.streak);
    lemma_decimal(habit.streak);
    assert forall|j: int| 0 <= j < digits.len() implies is_digit(digits[j]) by {}
    assert(is_digit(digits[digits.len() - 1]));
}

/// The line of a habit, followed by a line feed, is one line: itself. This
/// holds where the name has no line feed in it.
pub proof fn lemma_lines_of_record(habit: HabitView)
    requires
        !habit.name.contains('\n'),
    ensures
        lines(record_line(habit).push('\n')) == seq![record_line(habit)],
{
    let line = record_line(habit);
    let flag = flag_text(habit.completed_today);
    let digits = decimal(habit.streak);
    lemma_fields_are_plain(habit);
    assert forall|j: int| 0 <= j < line.len() implies line[j] != '\n' by {
        let n = habit.name.len() as int;
        let f = flag.len() as int;
        if j < n {
            assert(habit.name.contains(habit.name[j]));
        } else if n < j < n + 1 + f {
            assert(flag.contains(flag[j - n - 1]));
        } else if j > n + 1 + f {
            assert(digits.contains(digits[j - n - f - 2]));
        }
    }
    lemma_lines_first(line, Seq::empty());
    assert(line.push('\n') + Seq::<char>::empty() == line.push('\n'));
    assert(line.last() == digits.last());
    assert(seq![line] + lines(Seq::<char>::empty()) == seq![line]);
}

/// The line of a habit holds that habit, where the name has no colon in it
/// and the streak fits in 32 bits.
pub proof fn lemma_decode_record_line(habit: HabitView)
    requires
        !habit.name.contains(':'),
        habit.streak <= u32::MAX,
    ensures
        decode_line(record_line(habit)) == Some(Ok::<HabitView, LoadError>(habit)),
{
    let flag = flag_text(habit.completed_today);
    let digits = decimal(habit.streak);
    lemma_fields_are_plain(habit);
    lemma_parse_decimal(habit.streak);
    lemma_split_single(digits, ':');
    lemma_split_first(flag, digits, ':');
    lemma_split_first(habit.name, flag.push(':') + digits, ':');
    assert(record_line(habit) == habit.name.push(':') + (flag.push(':') + digits));
    assert(flag_text(false).len() != flag_text(true).len());
}

/// The lines of a stored text are the lines of its habits, where no name
/// holds a line feed.
pub proof fn lemma_lines_of_encode(habits: Seq<HabitView>)
    requires
        forall|i: int| 0 <= i < habits.len() ==> !(#[trigger] habits[i]).name.contains('\n'),
    ensures
        lines(encode(habits)) == record_lines(habits),
    decreases habits.len(),
{
    if habits.len() == 0 {
        assert(lines(encode(habits)) == Seq::<Seq<char>>::empty());
    } else {
        let front = habits.drop_last();
        let last = habits.last();
        lemma_lines_of_encode(front);
        assert(encode(front).len() == 0 || encode(front).last() == '\n');
        lemma_lines_concat(encode(front), record_line(last).push('\n'));
        lemma_lines_of_record(last);
        assert(record_lines(front) + seq![record_line(last)] == record_lines(habits));
    }
}

/// The lines of habits whose names hold no colon, and whose streaks fit in
/// 32 bits, hold those habits.
pub proof fn lemma_records_of_record_lines(habits: Seq<HabitView>)
    requires
        forall|i: int|
            0 <= i < habits.len() ==> !(#[trigger] habits[i]).name.contains(':')
                && habits[i].streak <= u32::MAX,
    ensures
        records(record_lines(habits)) == habits,
    decreases habits.len(),
{
    if habits.len() > 0 {
        let front = habits.drop_last();
        lemma_records_of_record_lines(front);
        lemma_decode_record_line(habits.last());
        assert(record_lines(habits).drop_last() == record_lines(front));
        assert(record_lines(habits).last() == record_line(habits.last()));
        assert(front.push(habits.last()) == habits);
    }
}

/// Writing and reading give back what was written: the stored text of
/// habits that the format can hold decodes to those same habits, in the
/// same order, duplicates included.
pub proof fn lemma_round_trip(habits: Seq<HabitView>)
    requires
        forall|i: int| 0 <= i < habits.len() ==> storable(#[trigger] habits[i]),
    ensures
        decode(encode(habits)) == Ok::<Seq<HabitView>, LoadError>(habits),
{
    assert forall|i: int| 0 <= i < habits.len() implies !(#[trigger] habits[i]).name.contains('\n')
        && !habits[i].name.contains(':') && habits[i].streak <= u32::MAX by {
        assert(storable(habits[i]));
    }
    lemma_lines_of_encode(habits);
    lemma_records_of_record_lines(habits);
    let all = record_lines(habits);
    assert forall|i: int| 0 <= i < all.len() implies !is_invalid(#[trigger] all[i]) by {
        assert(storable(habits[i]));
        lemma_decode_record_line(habits[i]);
    }
}

} // verus!
