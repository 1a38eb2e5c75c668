//! How work is handed to the queues of the system, and how long it took.

use vstd::prelude::*;

verus! {

/// How soon work is to be done.
#[derive(Clone, Copy, Debug, PartialEq, Eq, Structural)]
pub enum Priority {
    RealtimeAudio,
    High,
    Medium,
    Low,
}

pub const DISPATCH_QUEUE_PRIORITY_HIGH: isize = 2;

pub const DISPATCH_QUEUE_PRIORITY_DEFAULT: isize = 0;

pub const DISPATCH_QUEUE_PRIORITY_LOW: isize = -2;

/// The dispatcher of the device.
#[derive(Clone, Copy, Debug, PartialEq, Eq, Structural)]
pub struct IosDispatcher;

/// A span of time in nanoseconds.
pub open spec fn nanoseconds(seconds: u64, nanoseconds: u32) -> int {
    seconds * 1_000_000_000 + nanoseconds
}

/// A number as one of 64 bits with a sign: what does not fit is cut off at the top.
pub open spec fn wrapped_to_i64(n: int) -> int {
    let low = n % 0x1_0000_0000_0000_0000;
    if low < 0x8000_0000_0000_0000 {
        low
    } else {
        low - 0x1_0000_0000_0000_0000
    }
}

/// The number of the queue for work.
pub open spec fn queue_for(priority: Priority) -> int {
    match priority {
        Priority::High => 2,
        Priority::Low => -2,
        _ => 0,
    }
}

impl IosDispatcher {
    /// The dispatcher of the device.
    pub fn new() -> (dispatcher: Self)
        ensures
            dispatcher == IosDispatcher,
    {
        IosDispatcher
    }

    /// The queue for work; what must be done at once has a thread of its own and no queue.
    pub fn queue_priority(&self, priority: Priority) -> (queue: isize)
        requires
            priority != Priority::RealtimeAudio,
        ensures
            queue == queue_for(priority),
    {
        match priority {
            Priority::High => DISPATCH_QUEUE_PRIORITY_HIGH,
            Priority::Low => DISPATCH_QUEUE_PRIORITY_LOW,
            _ => DISPATCH_QUEUE_PRIORITY_DEFAULT,
        }
    }

    /// How many nanoseconds work is put off by.
    pub fn delay(&self, seconds: u64, subsecond_nanoseconds: u32) -> (delay: i64)
        ensures
            delay == wrapped_to_i64(nanoseconds(seconds, subsecond_nanoseconds)),
    {
        let whole: u128 = seconds as u128 * 1_000_000_000 + subsecond_nanoseconds as u128;
        let low: u128 = whole % 0x1_0000_0000_0000_0000;
        if low < 0x8000_0000_0000_0000 {
            low as i64
        } else {
            (low as i128 - 0x1_0000_0000_0000_0000) as i64
        }
    }
}

/// How long a piece of work took, by the place in the program that it comes from.
#[derive(Clone, Copy, Debug, PartialEq, Eq, Structural)]
pub struct TaskTiming {
    pub location: u64,
    pub start: u64,
    /// None while it runs.
    pub end: Option<u64>,
}

/// How long the work on a thread took.
#[derive(Clone, Debug, PartialEq, Eq)]
pub struct TaskTimings {
    pub timings: Vec<TaskTiming>,
}

/// The timings once work has begun: work from the place where the last one came from is
/// counted with it.
pub open spec fn timings_begun(timings: Seq<TaskTiming>, location: u64, start: u64) -> Seq<
    TaskTiming,
> {
    if timings.len() > 0 && timings.last().location == location {
        timings
    } else {
        timings.push(TaskTiming { location, start, end: None })
    }
}

/// The timings once work is done.
pub open spec fn timings_ended(timings: Seq<TaskTiming>, end: u64) -> Seq<TaskTiming> {
    if timings.len() > 0 {
        timings.update(
            timings.len() - 1,
            TaskTiming { end: Some(end), ..timings.last() },
        )
    } else {
        timings
    }
}

impl TaskTimings {
    /// No work was done yet.
    pub fn new() -> (timings: Self)
        ensures
            timings.timings@.len() == 0,
    {
        TaskTimings { timings: Vec::new() }
    }

    /// Notes that work has begun.
    pub fn begin(&mut self, location: u64, start: u64)
        ensures
            final(self).timings@ == timings_begun(old(self).timings@, location, start),
    {
        let count: usize = self.timings.len();
        if count > 0 && self.timings[count - 1].location == location {
            return;
        }
        self.timings.push(TaskTiming { location, start, end: None });
    }

    /// Notes that work is done.
    pub fn end(&mut self, end: u64)
        ensures
            final(self).timings@ == timings_ended(old(self).timings@, end),
    {
        let count: usize = self.timings.len();
        if count == 0 {
            return;
        }
        let last = self.timings[count - 1];
        self.timings.set(count - 1, TaskTiming { location: last.location, start: last.start, end: Some(end) });
    }
}

/// Work that is done is timed under the place it came from: after it began and ended, the
/// last timing is that of its place, has ended at its end, and began no earlier work's
/// timing anew.
pub proof fn law_work_is_timed(timings: Seq<TaskTiming>, location: u64, start: u64, end: u64)
    ensures
        ({
            let after = timings_ended(timings_begun(timings, location, start), end);
            &&& after.len() > 0
            &&& after.last().location == location
            &&& after.last().end == Some(end)
            &&& after.len() <= timings.len() + 1
            &&& forall|i: int| 0 <= i < after.len() - 1 ==> after[i] == #[trigger] timings[i]
        }),
{
}

/// More urgent work has the queue with the higher number; work of no stated urgency has the middle
/// one.
pub proof fn law_urgent_work_comes_first(priority: Priority)
    ensures
        queue_for(Priority::Low) < queue_for(Priority::Medium) < queue_for(Priority::High),
        queue_for(Priority::Medium) == 0,
        queue_for(Priority::High) == -queue_for(Priority::Low),
        queue_for(Priority::High) == 2,
        !(priority is High) && !(priority is Low) ==> queue_for(priority) == 0,
{
}

/// Work is put off by the time that it was to be put off by, as far as 64 bits hold it; a second is a
/// thousand million nanoseconds.
pub proof fn law_delays_are_kept(seconds: u64, rest: u32)
    ensures
        nanoseconds(seconds, rest) <= i64::MAX ==> wrapped_to_i64(nanoseconds(seconds, rest))
            == nanoseconds(seconds, rest),
        i64::MIN <= wrapped_to_i64(nanoseconds(seconds, rest)) <= i64::MAX,
        (nanoseconds(seconds, rest) - wrapped_to_i64(nanoseconds(seconds, rest)))
            % 0x1_0000_0000_0000_0000 == 0,
        nanoseconds(0, rest) == rest,
        seconds < u64::MAX ==> nanoseconds((seconds + 1) as u64, rest) == nanoseconds(seconds, rest)
            + 1_000_000_000,
{
}

/// Work from another place gets a timing of its own; work from the same place as the last does not,
/// and keeps the time at which that began.
pub proof fn law_work_of_one_place_is_timed_together(
    timings: Seq<TaskTiming>,
    location: u64,
    start: u64,
    again: u64,
    end: u64,
)
    ensures
        ({
            let once = timings_begun(timings, location, start);
            &&& timings_begun(once, location, again) == once
            &&& timings.len() > 0 && timings.last().location != location ==> once.len()
                == timings.len() + 1 && once.last().start == start && once.last().end is None
            &&& timings.len() == 0 ==> once.len() == 1 && once.last().start == start
            &&& timings.len() > 0 && timings.last().location == location ==> once == timings
            &&& timings_ended(once, end).last().start == once.last().start
            &&& timings_ended(Seq::empty(), end) == Seq::<TaskTiming>::empty()
        }),
{
}

} // verus!
