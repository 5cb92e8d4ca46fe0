//! Writing a registry as text and reading it back.

use vstd::prelude::*;
use vstd::string::StringExecFns;
use crate::chars::{find, lemma_first_index, split, string_of, to_chars};
use crate::decimal::{parse_chars, push_decimal};
use crate::format::{
    decode, decode_line, encode, flag_text, is_invalid, lines, record_line, records,
    without_carriage_return, LoadError,
};
use crate::habit::{Habit, HabitView};
use crate::tracker::HabitTracker;

verus! {

/// Whether `field` is exactly `true`.
fn is_true(field: &[char]) -> (r: bool)
    ensures
        r == (field@ == flag_text(true)),
{
    let r = field.len() == 4 && field[0] == 't' && field[1] == 'r' && field[2] == 'u' && field[3]
        == 'e';
    proof {
        if r {
            assert(field@ =~= flag_text(true));
        } else if field.len() == 4 {
            assert(flag_text(true)[0] == 't');
            assert(flag_text(true)[1] == 'r');
            assert(flag_text(true)[2] == 'u');
            assert(flag_text(true)[3] == 'e');
        } else {
            assert(flag_text(true).len() == 4);
        }
    }
    r
}

/// Appends `true` or `false` to `out`.
fn push_flag(out: &mut String, flag: bool)
    ensures
        final(out)@ == old(out)@ + flag_text(flag),
{
    if flag {
        out.push('t');
        out.push('r');
        out.push('u');
        out.push('e');
    } else {
        out.push('f');
        out.push('a');
        out.push('l');
        out.push('s');
        out.push('e');
    }
}

/// `line` without the carriage return at its end, where it has one.
fn strip_carriage_return(line: &[char]) -> (r: &[char])
    ensures
        r@ == without_carriage_return(line@),
{
    let n = line.len();
    if n > 0 && line[n - 1] == '\r' {
        &line[0..n - 1]
    } else {
        line
    }
}

impl Habit {
    /// Appends the line of this habit and the line feed that ends it.
    pub fn write_line(&self, out: &mut String)
        ensures
            final(out)@ == old(out)@ + record_line(self@).push('\n'),
    {
        out.append(self.name.as_str());
        out.push(':');
        push_flag(out, self.completed_today);
        out.push(':');
        push_decimal(out, self.streak);
        out.push('\n');
    }

    /// Reads the habit that `line` holds. `None` says that the line does not
    /// have three fields and holds no habit; an error, that it has three
    /// and its streak is no number.
    pub fn parse_line(line: &[char]) -> (r: Option<Result<Habit, LoadError>>)
        ensures
            r matches Some(Ok(habit)) ==> decode_line(line@) == Some(
                Ok::<HabitView, LoadError>(habit@),
            ),
            r matches Some(Err(e)) ==> decode_line(line@) == Some(Err::<HabitView, LoadError>(e)),
            r is None ==> decode_line(line@) is None,
    {
        let first = find(line, ':');
        proof {
            lemma_first_index(line@, ':');
        }
        if first == line.len() {
            return None;
        }
        let tail = &line[first + 1..line.len()];
        let second = find(tail, ':');
        proof {
            lemma_first_index(tail@, ':');
            reveal_with_fuel(split, 2);
            assert(tail@ == line@.skip(first + 1));
        }
        if second == tail.len() {
            return None;
        }
        let last = &tail[second + 1..tail.len()];
        let third = find(last, ':');
        proof {
            lemma_first_index(last@, ':');
            reveal_with_fuel(split, 4);
            assert(last@ == tail@.skip(second + 1));
        }
        if third != last.len() {
            return None;
        }
        let name = string_of(&line[0..first]);
        let completed_today = is_true(&tail[0..second]);
        match parse_chars(last) {
            Some(streak) => Some(Ok(Habit { name, completed_today, streak })),
            None => Some(Err(LoadError::InvalidStreakValue)),
        }
    }
}

impl HabitTracker {
    /// The stored text of this registry.
    pub fn serialize(&self) -> (text: String)
        ensures
            text@ == encode(self@),
    {
        let mut text = String::new();
        let mut i: usize = 0;
        while i < self.habits.len()
            invariant
                i <= self.habits.len(),
                text@ == encode(self@.take(i as int)),
            decreases self.habits.len() - i,
        {
            self.habits[i].write_line(&mut text);
            proof {
                let next = self@.take(i + 1);
                assert(next.drop_last() == self@.take(i as int));
                assert(next.last() == self.habits[i as int]@);
            }
            i += 1;
        }
        assert(self@.take(i as int) == self@);
        text
    }

    /// Reads a registry from its stored text.
    ///
    /// Lines that do not have three fields are passed over. A line with
    /// three fields and a streak that is no number fails the whole text: no
    /// registry comes back.
    pub fn deserialize(text: &str) -> (r: Result<HabitTracker, LoadError>)
        ensures
            r matches Ok(tracker) ==> decode(text@) == Ok::<Seq<HabitView>, LoadError>(tracker@),
            r matches Err(e) ==> decode(text@) == Err::<Seq<HabitView>, LoadError>(e),
    {
        let chars = to_chars(text);
        let all = chars.as_slice();
        let mut tracker = HabitTracker::new();
        let mut pos: usize = 0;
        let ghost mut done: Seq<Seq<char>> = Seq::empty();
        assert(text@.skip(0) == text@);
        loop
            invariant
                pos <= all.len(),
                all@ == text@,
                lines(text@) == done + lines(text@.skip(pos as int)),
                forall|i: int| 0 <= i < done.len() ==> !is_invalid(#[trigger] done[i]),
                tracker@ == records(done),
            ensures
                lines(text@) == done,
            decreases all.len() - pos,
        {
            let rest = &all[pos..all.len()];
            let n = find(rest, '\n');
            proof {
                lemma_first_index(rest@, '\n');
                assert(rest@ == text@.skip(pos as int));
            }
            if n == rest.len() {
                break;
            }
            let line = strip_carriage_return(&rest[0..n]);
            proof {
                assert(rest@.skip(n + 1) == text@.skip(pos + n + 1));
                assert(lines(rest@) == seq![line@] + lines(rest@.skip(n + 1)));
                assert(done + (seq![line@] + lines(rest@.skip(n + 1))) == done.push(line@) + lines(
                    rest@.skip(n + 1),
                ));
                assert(done.push(line@).drop_last() == done);
            }
            match Habit::parse_line(line) {
                Some(Ok(habit)) => {
                    tracker.habits.push(habit);
                    assert(tracker@ == records(done).push(habit@));
                },
                Some(Err(e)) => {
                    assert(lines(text@)[done.len() as int] == line@);
                    return Err(e);
                },
                None => {},
            }
            proof {
                done = done.push(line@);
            }
            pos = pos + n + 1;
        }
        Ok(tracker)
    }

    /// Adds to this registry the habits that a store holds, after those
    /// that are there. `None` stands for a store that does not exist yet:
    /// that is no error, and the registry stays as it is. A stored text that
    /// fails leaves the registry as it is too.
    pub fn load(&mut self, stored: Option<&str>) -> (r: Result<(), LoadError>)
        ensures
            stored is None ==> r is Ok && final(self)@ == old(self)@,
            stored matches Some(text) ==> (match decode(text@) {
                Ok(habits) => r is Ok && final(self)@ == old(self)@ + habits,
                Err(e) => r == Err::<(), LoadError>(e) && final(self)@ == old(self)@,
            }),
    {
        match stored {
            None => Ok(()),
            Some(text) => match HabitTracker::deserialize(text) {
                Ok(mut loaded) => {
                    let ghost before = self@;
                    let ghost habits = loaded@;
                    self.habits.append(&mut loaded.habits);
                    assert(self@ == before + habits);
                    Ok(())
                },
                Err(e) => Err(e),
            },
        }
    }
}

} // verus!
