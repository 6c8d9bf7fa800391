use vstd::prelude::*;

verus! {

/// The value a key starts with when the producer creates it.
pub const INITIAL_VALUE: i32 = 0;

/// How the producer begins: whether it must create its key first, and the
/// counter value its first update writes.
#[derive(Clone, Copy, Debug, PartialEq, Eq, Structural)]
pub struct ProducerStart {
    pub insert_initial: bool,
    pub counter: i32,
}

/// Decides how the producer begins from the value its key holds, if any. A
/// present value is resumed as it is; an absent key is created with
/// `INITIAL_VALUE`, and counting goes on from the next value.
pub fn plan_start(existing: Option<i32>) -> (r: ProducerStart)
    ensures
        match existing {
            Some(v) => !r.insert_initial && r.counter == v,
            None => r.insert_initial && r.counter == INITIAL_VALUE + 1,
        },
{
    match existing {
        Some(v) => ProducerStart { insert_initial: false, counter: v },
        None => ProducerStart { insert_initial: true, counter: INITIAL_VALUE + 1 },
    }
}

/// The counter value after `c`, or `None` when `c` is the largest `i32`.
pub fn next_counter(c: i32) -> (r: Option<i32>)
    ensures
        c < i32::MAX ==> r == Some((c + 1) as i32),
        c == i32::MAX ==> r is None,
{
    if c < i32::MAX {
        Some(c + 1)
    } else {
        None
    }
}

} // verus!
