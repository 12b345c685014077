//! The statuses the bot shows, and which one it shows next.
use crate::random::draw_in_range;
use vstd::prelude::*;

verus! {

/// How a status is shown: "Watching ...", "Playing ..." or "Listening to ...".
#[derive(Clone, Copy, Debug, PartialEq, Eq, Structural)]
pub enum ActivityKind {
    Watching,
    Playing,
    Listening,
}

/// The number of statuses the bot can show.
pub const ACTIVITY_COUNT: usize = 18;

/// The index taken as "the previous status" before any status was shown; it
/// names no status, so the first choice may be any of them.
pub const NO_PREVIOUS_ACTIVITY: usize = 50;

/// Status number `i` of the bot.
pub open spec fn activity_spec(i: int) -> (ActivityKind, Seq<char>) {
    if i == 0 {
        (ActivityKind::Watching, "you sleep"@)
    } else if i == 1 {
        (ActivityKind::Watching, "from the bushes"@)
    } else if i == 2 {
        (ActivityKind::Watching, "you poop"@)
    } else if i == 3 {
        (ActivityKind::Watching, "every move you make"@)
    } else if i == 4 {
        (ActivityKind::Watching, "Perfect Strangers"@)
    } else if i == 5 {
        (ActivityKind::Watching, "machine elves"@)
    } else if i == 6 {
        (ActivityKind::Watching, "the pretty lights"@)
    } else if i == 7 {
        (ActivityKind::Playing, "with your emotions"@)
    } else if i == 8 {
        (ActivityKind::Playing, "with your wife"@)
    } else if i == 9 {
        (ActivityKind::Playing, "doctor"@)
    } else if i == 10 {
        (ActivityKind::Playing, "HoboGarbageSimulator"@)
    } else if i == 11 {
        (ActivityKind::Listening, "In Your Eyes"@)
    } else if i == 12 {
        (ActivityKind::Listening, "the voices"@)
    } else if i == 13 {
        (ActivityKind::Listening, "silence"@)
    } else if i == 14 {
        (ActivityKind::Listening, "your phone calls"@)
    } else if i == 15 {
        (ActivityKind::Listening, "talk radio"@)
    } else if i == 16 {
        (ActivityKind::Listening, "the transmissions"@)
    } else {
        (ActivityKind::Listening, "the code"@)
    }
}

/// Different status numbers name different statuses: no two of the
/// statuses share both their kind and their text.
pub proof fn lemma_activities_distinct(i: int, j: int)
    requires
        0 <= i < ACTIVITY_COUNT,
        0 <= j < ACTIVITY_COUNT,
        i != j,
    ensures
        activity_spec(i) != activity_spec(j),
{
    reveal_strlit("you sleep");
    reveal_strlit("from the bushes");
    reveal_strlit("you poop");
    reveal_strlit("every move you make");
    reveal_strlit("Perfect Strangers");
    reveal_strlit("machine elves");
    reveal_strlit("the pretty lights");
    reveal_strlit("with your emotions");
    reveal_strlit("with your wife");
    reveal_strlit("doctor");
    reveal_strlit("HoboGarbageSimulator");
    reveal_strlit("In Your Eyes");
    reveal_strlit("the voices");
    reveal_strlit("silence");
    reveal_strlit("your phone calls");
    reveal_strlit("talk radio");
    reveal_strlit("the transmissions");
    reveal_strlit("the code");
    assert("you sleep"@.len() == 9);
    assert("from the bushes"@.len() == 15);
    assert("you poop"@.len() == 8);
    assert("every move you make"@.len() == 19);
    assert("Perfect Strangers"@.len() == 17);
    assert("machine elves"@.len() == 13);
    assert("the pretty lights"@.len() == 17);
    assert("with your emotions"@.len() == 18);
    assert("with your wife"@.len() == 14);
    assert("doctor"@.len() == 6);
    assert("HoboGarbageSimulator"@.len() == 20);
    assert("In Your Eyes"@.len() == 12);
    assert("the voices"@.len() == 10);
    assert("silence"@.len() == 7);
    assert("your phone calls"@.len() == 16);
    assert("talk radio"@.len() == 10);
    assert("the transmissions"@.len() == 17);
    assert("the code"@.len() == 8);
    assert("Perfect Strangers"@[0] != "the pretty lights"@[0]);
    assert("the voices"@[1] != "talk radio"@[1]);
}

/// Status number `index`: how it is shown and its text.
pub fn activity(index: usize) -> (r: (ActivityKind, &'static str))
    requires
        index < ACTIVITY_COUNT,
    ensures
        r.0 == activity_spec(index as int).0,
        r.1@ == activity_spec(index as int).1,
{
    match index {
        0 => (ActivityKind::Watching, "you sleep"),
        1 => (ActivityKind::Watching, "from the bushes"),
        2 => (ActivityKind::Watching, "you poop"),
        3 => (ActivityKind::Watching, "every move you make"),
        4 => (ActivityKind::Watching, "Perfect Strangers"),
        5 => (ActivityKind::Watching, "machine elves"),
        6 => (ActivityKind::Watching, "the pretty lights"),
        7 => (ActivityKind::Playing, "with your emotions"),
        8 => (ActivityKind::Playing, "with your wife"),
        9 => (ActivityKind::Playing, "doctor"),
        10 => (ActivityKind::Playing, "HoboGarbageSimulator"),
        11 => (ActivityKind::Listening, "In Your Eyes"),
        12 => (ActivityKind::Listening, "the voices"),
        13 => (ActivityKind::Listening, "silence"),
        14 => (ActivityKind::Listening, "your phone calls"),
        15 => (ActivityKind::Listening, "talk radio"),
        16 => (ActivityKind::Listening, "the transmissions"),
        _ => (ActivityKind::Listening, "the code"),
    }
}

/// The status that follows status `last` when the draw gave `d`. With a
/// previous status (`last < ACTIVITY_COUNT`) the draw is among the other
/// `ACTIVITY_COUNT - 1` statuses, counted with `last` left out: draws below
/// `last` keep their index and the others move up by one. With none, the draw
/// is the status.
pub fn activity_after(last: usize, d: usize) -> (r: usize)
    requires
        last < ACTIVITY_COUNT ==> d < ACTIVITY_COUNT - 1,
        last >= ACTIVITY_COUNT ==> d < ACTIVITY_COUNT,
    ensures
        r == (if last < ACTIVITY_COUNT && d >= last {
            d + 1
        } else {
            d as int
        }),
        r < ACTIVITY_COUNT,
        r != last,
{
    if last < ACTIVITY_COUNT && d >= last {
        d + 1
    } else {
        d
    }
}

/// The index of the next status, drawn at random among all statuses but the
/// one at `last`, so that a status is never shown twice in a row. Where `last`
/// names no status (as `NO_PREVIOUS_ACTIVITY` does) the draw is among all
/// of them. Skipping `last` in the draw leaves each of the other statuses
/// equally likely, as drawing again until the status differs would. Which
/// status comes out rests on the draw; `activity_after` states the step from
/// the drawn number to the status.
pub fn next_activity(last: usize) -> (next: usize)
    ensures
        next < ACTIVITY_COUNT,
        next != last,
        last < ACTIVITY_COUNT ==> activity_spec(next as int) != activity_spec(last as int),
{
    if last < ACTIVITY_COUNT {
        let count: i64 = (ACTIVITY_COUNT - 1) as i64;
        let d = draw_in_range(0, count) as usize;
        let next = activity_after(last, d);
        proof {
            lemma_activities_distinct(next as int, last as int);
        }
        next
    } else {
        let count: i64 = ACTIVITY_COUNT as i64;
        let d = draw_in_range(0, count) as usize;
        activity_after(last, d)
    }
}

} // verus!
