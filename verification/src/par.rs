//! The Par (programmable argument relay): with each request it spawns a
//! message for a Fit, caps the number of concurrent spawns, and times how
//! long the Fit took to answer.  The spawning is done around this module;
//! here are its decisions: what to receive next, how the spawn count moves,
//! and what the timing of an answer is.
use vstd::prelude::*;
use crate::fit::FitComm;

verus! {

/// What the relay loop does next.
#[derive(PartialEq, Eq, Structural, Debug, Clone, Copy)]
pub enum ToDo {
    /// Take a new request.
    RecvInPort,
    /// Take the good-by of a finished spawn.
    RecvGoodByPort,
    /// Nothing is ready: give way.
    Yield,
}

/// The spawn cap used where none is given.
pub open spec fn default_spawn_cap() -> nat {
    20
}

/// A relay and its cap on concurrent spawns.
pub struct Par {
    spawn_cap: usize,
    current_spawns: usize,
}

/// The timing and outcome of one Fit call.
pub struct FitOutcome {
    /// Seconds and nanoseconds (UTC) when the call was sent.
    pub started: (i64, i32),
    pub span_sec: i32,
    pub span_nsec: i32,
    pub outcome: FitComm,
    /// The number of concurrent spawns, this one included, when it started.
    pub spawns: usize,
}

/// The list of things to do, given what is ready and how many spawns run.
pub open spec fn to_do_list_v(in_peek: bool, spawn_peek: bool, current: int, cap: int) -> Seq<ToDo> {
    if current == cap {
        seq![ToDo::RecvGoodByPort]
    } else if current == 0 {
        seq![ToDo::RecvInPort]
    } else {
        let a: Seq<ToDo> = if spawn_peek { seq![ToDo::RecvGoodByPort] } else { Seq::empty() };
        let b: Seq<ToDo> = if in_peek { a.push(ToDo::RecvInPort) } else { a };
        if b.len() == 0 { seq![ToDo::Yield] } else { b }
    }
}

/// A number as the `i32` it is stored in: out of range values saturate.
pub open spec fn clamp_i32(n: int) -> int {
    if n > i32::MAX {
        i32::MAX as int
    } else if n < i32::MIN {
        i32::MIN as int
    } else {
        n
    }
}

/// How long a call took: the difference of the two stamps, with the
/// nanoseconds borrowed from the seconds where the seconds differ.
pub open spec fn span_v(start_sec: int, start_nsec: int, end_sec: int, end_nsec: int) -> (int, int) {
    let sec_diff = end_sec - start_sec;
    let nsec_diff = end_nsec - start_nsec;
    if sec_diff > 0 && nsec_diff < 0 {
        (clamp_i32(sec_diff - 1), clamp_i32(1_000_000_000 + nsec_diff))
    } else {
        (clamp_i32(sec_diff), clamp_i32(nsec_diff))
    }
}

/// The cap never lets the count of spawns grow past it: a relay takes a
/// request only while it runs fewer spawns than its cap, and takes a
/// good-by only while a spawn runs.
pub proof fn lemma_spawns_within_cap(in_peek: bool, spawn_peek: bool, current: int, cap: int)
    requires
        0 <= current <= cap,
        cap > 0,
    ensures
        to_do_list_v(in_peek, spawn_peek, current, cap).contains(ToDo::RecvInPort) ==> current < cap,
        to_do_list_v(in_peek, spawn_peek, current, cap).contains(ToDo::RecvGoodByPort) ==> current > 0,
        to_do_list_v(in_peek, spawn_peek, current, cap).len() > 0,
{
    let l = to_do_list_v(in_peek, spawn_peek, current, cap);
    if l.contains(ToDo::RecvInPort) {
        let i = choose|i: int| 0 <= i < l.len() && l[i] == ToDo::RecvInPort;
        if current == cap {
            assert(l[i] == ToDo::RecvGoodByPort);
        }
    }
    if l.contains(ToDo::RecvGoodByPort) {
        let i = choose|i: int| 0 <= i < l.len() && l[i] == ToDo::RecvGoodByPort;
        if current == 0 {
            assert(l[i] == ToDo::RecvInPort);
        }
    }
}

/// What the relay takes next, over every state it can be in: it takes a
/// request exactly when it runs fewer spawns than its cap and either a
/// request is waiting or nothing runs (then it waits for one); it takes a
/// good-by exactly when a spawn runs and either a good-by is waiting or the
/// cap is reached (then it waits for one); it gives way exactly when spawns
/// run under the cap and nothing is waiting.  Nothing is listed twice, and
/// a waiting good-by is taken before a waiting request.
pub proof fn lemma_to_do_progress(in_peek: bool, spawn_peek: bool, current: int, cap: int)
    requires
        0 <= current <= cap,
        cap > 0,
    ensures
        to_do_list_v(in_peek, spawn_peek, current, cap).contains(ToDo::RecvInPort)
            <==> (current < cap && (in_peek || current == 0)),
        to_do_list_v(in_peek, spawn_peek, current, cap).contains(ToDo::RecvGoodByPort)
            <==> (current > 0 && (spawn_peek || current == cap)),
        to_do_list_v(in_peek, spawn_peek, current, cap).contains(ToDo::Yield)
            <==> (0 < current < cap && !in_peek && !spawn_peek),
        1 <= to_do_list_v(in_peek, spawn_peek, current, cap).len() <= 2,
        to_do_list_v(in_peek, spawn_peek, current, cap).len() == 2 ==> to_do_list_v(in_peek, spawn_peek, current, cap)
            =~= seq![ToDo::RecvGoodByPort, ToDo::RecvInPort],
{
    let l = to_do_list_v(in_peek, spawn_peek, current, cap);
    if current == cap {
        assert(l =~= seq![ToDo::RecvGoodByPort]);
        assert(l[0] == ToDo::RecvGoodByPort);
    } else if current == 0 {
        assert(l =~= seq![ToDo::RecvInPort]);
        assert(l[0] == ToDo::RecvInPort);
    } else if spawn_peek && in_peek {
        assert(l =~= seq![ToDo::RecvGoodByPort, ToDo::RecvInPort]);
        assert(l[0] == ToDo::RecvGoodByPort);
        assert(l[1] == ToDo::RecvInPort);
    } else if spawn_peek {
        assert(l =~= seq![ToDo::RecvGoodByPort]);
        assert(l[0] == ToDo::RecvGoodByPort);
    } else if in_peek {
        assert(l =~= seq![ToDo::RecvInPort]);
        assert(l[0] == ToDo::RecvInPort);
    } else {
        assert(l =~= seq![ToDo::Yield]);
        assert(l[0] == ToDo::Yield);
    }
}

/// The span of a call, over every pair of stamps with the end not before
/// the start and whose seconds differ by no more than an `i32` holds: the
/// nanoseconds lie in `0..1_000_000_000`, the seconds are not negative, and
/// together they make exactly the time from start to end.
pub proof fn lemma_span_is_elapsed_time(start_sec: int, start_nsec: int, end_sec: int, end_nsec: int)
    requires
        0 <= start_nsec < 1_000_000_000,
        0 <= end_nsec < 1_000_000_000,
        start_sec < end_sec || (start_sec == end_sec && start_nsec <= end_nsec),
        end_sec - start_sec <= i32::MAX,
    ensures
        0 <= span_v(start_sec, start_nsec, end_sec, end_nsec).0,
        0 <= span_v(start_sec, start_nsec, end_sec, end_nsec).1 < 1_000_000_000,
        span_v(start_sec, start_nsec, end_sec, end_nsec).0 * 1_000_000_000 + span_v(start_sec, start_nsec, end_sec, end_nsec).1
            == (end_sec - start_sec) * 1_000_000_000 + (end_nsec - start_nsec),
{
}

fn clamp(n: i128) -> (r: i32)
    ensures
        r as int == clamp_i32(n as int),
{
    if n > 2147483647 {
        2147483647
    } else if n < -2147483648 {
        -2147483648
    } else {
        n as i32
    }
}

impl Par {
    /// A relay with the given cap; a cap of zero means the default of 20.
    pub fn new(spawn_cap: usize) -> (r: Par)
        ensures
            r.spawn_cap() == (if spawn_cap > 0 { spawn_cap as nat } else { default_spawn_cap() }),
            r.current_spawns() == 0,
    {
        Par { spawn_cap: if spawn_cap > 0 { spawn_cap } else { 20 }, current_spawns: 0 }
    }

    pub closed spec fn spawn_cap(&self) -> nat {
        self.spawn_cap as nat
    }

    pub closed spec fn current_spawns(&self) -> nat {
        self.current_spawns as nat
    }

    /// The relay's invariant: at least one spawn is allowed, and no more
    /// than the cap run.
    pub open spec fn wf(&self) -> bool {
        0 < self.spawn_cap() && self.current_spawns() <= self.spawn_cap()
    }

    /// The number of spawns running.
    pub fn current(&self) -> (r: usize)
        ensures
            r == self.current_spawns(),
    {
        self.current_spawns
    }

    /// The cap on concurrent spawns.
    pub fn cap(&self) -> (r: usize)
        ensures
            r == self.spawn_cap(),
    {
        self.spawn_cap
    }

    /// What to do next, given whether a request and a good-by are waiting.
    pub fn to_do_list(in_peek: bool, spawn_peek: bool, current_spawns: usize, spawn_cap: usize) -> (r: Vec<ToDo>)
        ensures
            r@ == to_do_list_v(in_peek, spawn_peek, current_spawns as int, spawn_cap as int),
    {
        let mut to_do: Vec<ToDo> = Vec::new();
        if current_spawns == spawn_cap {
            to_do.push(ToDo::RecvGoodByPort);
        } else if current_spawns == 0 {
            to_do.push(ToDo::RecvInPort);
        } else {
            if spawn_peek {
                to_do.push(ToDo::RecvGoodByPort);
            }
            if in_peek {
                to_do.push(ToDo::RecvInPort);
            }
            if to_do.len() == 0 {
                to_do.push(ToDo::Yield);
            }
        }
        assert(to_do@ =~= to_do_list_v(in_peek, spawn_peek, current_spawns as int, spawn_cap as int));
        to_do
    }

    /// What this relay does next.
    pub fn next(&self, in_peek: bool, spawn_peek: bool) -> (r: Vec<ToDo>)
        ensures
            r@ == to_do_list_v(in_peek, spawn_peek, self.current_spawns() as int, self.spawn_cap() as int),
    {
        Self::to_do_list(in_peek, spawn_peek, self.current_spawns, self.spawn_cap)
    }

    /// A request was taken: one more spawn runs.  Returns the count, which
    /// the spawn carries.
    pub fn took_request(&mut self) -> (r: usize)
        requires
            old(self).wf(),
            old(self).current_spawns() < old(self).spawn_cap(),
        ensures
            final(self).wf(),
            final(self).current_spawns() == old(self).current_spawns() + 1,
            final(self).spawn_cap() == old(self).spawn_cap(),
            r == final(self).current_spawns(),
    {
        self.current_spawns = self.current_spawns + 1;
        self.current_spawns
    }

    /// A spawn said good-by: one fewer runs.
    pub fn took_good_by(&mut self)
        requires
            old(self).wf(),
            old(self).current_spawns() > 0,
        ensures
            final(self).wf(),
            final(self).current_spawns() == old(self).current_spawns() - 1,
            final(self).spawn_cap() == old(self).spawn_cap(),
    {
        self.current_spawns = self.current_spawns - 1;
    }

    /// The span of a Fit call from its start and end stamps.
    pub fn span(start_sec: i64, start_nsec: i32, end_sec: i64, end_nsec: i32) -> (r: (i32, i32))
        ensures
            (r.0 as int, r.1 as int) == span_v(start_sec as int, start_nsec as int, end_sec as int, end_nsec as int),
    {
        let sec_diff: i128 = end_sec as i128 - start_sec as i128;
        let nsec_diff: i128 = end_nsec as i128 - start_nsec as i128;
        if sec_diff > 0 && nsec_diff < 0 {
            (clamp(sec_diff - 1), clamp(1_000_000_000 + nsec_diff))
        } else {
            (clamp(sec_diff), clamp(nsec_diff))
        }
    }
}

} // verus!
