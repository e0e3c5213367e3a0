use vstd::prelude::*;

verus! {

/// Doubling with a ceiling: the successor of each delay in the schedule.
pub open spec fn double_capped(d: u64, cap: u64) -> u64 {
    if d >= cap {
        cap
    } else if 2 * d >= cap {
        cap
    } else {
        (2 * d) as u64
    }
}

/// The delay, in seconds, yielded by draw number `i` of a schedule with
/// ceiling `cap`: draw 0 is immediate, and later draws wait
/// 1, 2, 4, ... seconds, never more than `cap`.
pub open spec fn delay_at(i: nat, cap: u64) -> u64
    decreases i,
{
    if i == 0 {
        0
    } else if i == 1 {
        if 1 <= cap {
            1
        } else {
            cap
        }
    } else {
        double_capped(delay_at((i - 1) as nat, cap), cap)
    }
}

/// Bounded exponential reconnect schedule. `next` hands out
/// `delay_at(0), delay_at(1), ...` until `max_iterations` draws have been
/// made, then reports exhaustion; `reset` rewinds to the first draw.
pub struct Backoff {
    iteration: u32,
    max_iterations: u32,
    cap_secs: u64,
    cur: u64,
}

impl Backoff {
    /// The stored delay always matches the schedule position.
    pub closed spec fn wf(&self) -> bool {
        self.cur == delay_at(self.iteration as nat, self.cap_secs)
    }

    pub closed spec fn spec_iteration(&self) -> u32 {
        self.iteration
    }

    pub closed spec fn spec_max_iterations(&self) -> u32 {
        self.max_iterations
    }

    pub closed spec fn spec_cap_secs(&self) -> u64 {
        self.cap_secs
    }

    pub fn new(max_iterations: u32, cap_secs: u64) -> (r: Backoff)
        ensures
            r.wf(),
            r.spec_iteration() == 0,
            r.spec_max_iterations() == max_iterations,
            r.spec_cap_secs() == cap_secs,
    {
        Backoff { iteration: 0, max_iterations, cap_secs, cur: 0 }
    }

    /// The next delay of the schedule, or `None` once it is exhausted.
    pub fn next(&mut self) -> (r: Option<u64>)
        requires
            old(self).wf(),
        ensures
            final(self).wf(),
            final(self).spec_max_iterations() == old(self).spec_max_iterations(),
            final(self).spec_cap_secs() == old(self).spec_cap_secs(),
            old(self).spec_iteration() >= old(self).spec_max_iterations() ==> {
                &&& r is None
                &&& final(self).spec_iteration() == old(self).spec_iteration()
            },
            old(self).spec_iteration() < old(self).spec_max_iterations() ==> {
                &&& r == Some(delay_at(old(self).spec_iteration() as nat, old(self).spec_cap_secs()))
                &&& final(self).spec_iteration() == old(self).spec_iteration() + 1
            },
    {
        if self.iteration >= self.max_iterations {
            return None;
        }
        let d = self.cur;
        self.cur = if self.iteration == 0 {
            if 1 <= self.cap_secs {
                1
            } else {
                self.cap_secs
            }
        } else if self.cur >= self.cap_secs {
            self.cap_secs
        } else if self.cur > self.cap_secs / 2 {
            self.cap_secs
        } else {
            self.cur * 2
        };
        self.iteration = self.iteration + 1;
        Some(d)
    }

    /// Rewind to the first draw; the first delay after a reset is 0.
    pub fn reset(&mut self)
        ensures
            final(self).wf(),
            final(self).spec_iteration() == 0,
            final(self).spec_max_iterations() == old(self).spec_max_iterations(),
            final(self).spec_cap_secs() == old(self).spec_cap_secs(),
    {
        self.iteration = 0;
        self.cur = 0;
    }

    /// How many draws have been made since the last reset.
    pub fn get_iteration_count(&self) -> (r: u32)
        ensures
            r == self.spec_iteration(),
    {
        self.iteration
    }
}

impl Default for Backoff {
    /// Ten attempts, delays capped at 32 seconds.
    fn default() -> (r: Backoff)
        ensures
            r.wf(),
            r.spec_iteration() == 0,
            r.spec_max_iterations() == 10,
            r.spec_cap_secs() == 32,
    {
        Backoff::new(10, 32)
    }
}

} // verus!
