//! Change ticks: a wrapping 32-bit frame counter with a wraparound-safe
//! "newer than" relation.
use vstd::prelude::*;

verus! {

/// The oldest age, in ticks, that change detection distinguishes; older
/// changes are clamped to this age.
pub const MAX_CHANGE_AGE: u32 = 3_258_167_296;

/// A point in time, counted in system runs. The counter wraps around.
#[derive(Clone, Copy, Debug, PartialEq, Eq, Structural)]
pub struct Tick {
    pub tick: u32,
}

/// How many ticks lie between `earlier` and `later`, modulo 2^32, clamped to
/// `MAX_CHANGE_AGE`.
pub open spec fn age(later: u32, earlier: u32) -> int {
    let d = if later >= earlier {
        later - earlier
    } else {
        later + 0x1_0000_0000 - earlier
    };
    if d > MAX_CHANGE_AGE as int {
        MAX_CHANGE_AGE as int
    } else {
        d
    }
}

/// `t` changed after `last_run`, both seen from `this_run`.
pub open spec fn newer_than(t: u32, last_run: u32, this_run: u32) -> bool {
    age(this_run, last_run) > age(this_run, t)
}

impl Tick {
    pub fn new(tick: u32) -> (r: Tick)
        ensures
            r.tick == tick,
    {
        Tick { tick }
    }

    pub fn get(&self) -> (r: u32)
        ensures
            r == self.tick,
    {
        self.tick
    }

    /// The distance from `other` to `self`, wrapping.
    pub fn relative_to(self, other: Tick) -> (r: Tick)
        ensures
            r.tick as int == (if self.tick >= other.tick {
                self.tick - other.tick
            } else {
                self.tick + 0x1_0000_0000 - other.tick
            }),
    {
        Tick { tick: self.tick.wrapping_sub(other.tick) }
    }

    /// Whether this tick records a change that happened after `last_run`,
    /// both being compared from the point of view of `this_run`.
    pub fn is_newer_than(self, last_run: Tick, this_run: Tick) -> (r: bool)
        ensures
            r == newer_than(self.tick, last_run.tick, this_run.tick),
    {
        let since_insert = this_run.relative_to(self).tick;
        let since_insert = if since_insert > MAX_CHANGE_AGE {
            MAX_CHANGE_AGE
        } else {
            since_insert
        };
        let since_system = this_run.relative_to(last_run).tick;
        let since_system = if since_system > MAX_CHANGE_AGE {
            MAX_CHANGE_AGE
        } else {
            since_system
        };
        since_system > since_insert
    }
}

/// A tick equal to the current run is newer than every other tick seen from
/// that run, and never newer than itself.
pub proof fn lemma_current_tick_newer(last_run: u32, this_run: u32)
    ensures
        newer_than(this_run, last_run, this_run) <==> last_run != this_run,
{
}

/// Nothing is newer than the current run itself.
pub proof fn lemma_nothing_newer_than_current(t: u32, this_run: u32)
    ensures
        !newer_than(t, this_run, this_run),
{
}

} // verus!
