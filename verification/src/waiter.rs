//! The bounded lease wait: poll the lease record at a fixed interval until
//! it completes or the overall deadline elapses.

use vstd::prelude::*;
use crate::net::Ipv4Address;
use crate::responder::LeaseRecord;

verus! {

/// The overall wait ceiling, in milliseconds.
pub const LEASE_WAIT_DEADLINE_MS: u64 = 120000;

/// The fixed interval between two looks at the lease record.
pub const POLL_INTERVAL_MS: u64 = 100;

/// The number of looks the deadline allows.
pub const MAX_POLLS: usize = 1200;

/// The allowance of looks is exactly the deadline cut into poll intervals.
pub proof fn lemma_poll_budget_covers_deadline()
    ensures
        MAX_POLLS * POLL_INTERVAL_MS == LEASE_WAIT_DEADLINE_MS,
{
}

/// What one look at the lease record decides.
#[derive(Clone, Copy, PartialEq, Eq, Structural, Debug)]
pub enum WaitStep {
    /// The handshake completed: here is the leased address.
    Ready(Ipv4Address),
    /// The deadline elapsed without a completed lease.
    TimedOut,
    /// Neither yet: look again after the poll interval.
    Poll,
}

/// One look at the lease record under the deadline. Returns the leased
/// address exactly when the record is complete; reports timeout exactly
/// when it is not and the deadline has elapsed; otherwise asks for another
/// look.
pub fn waiter_step(record: &LeaseRecord, elapsed_ms: u64) -> (r: WaitStep)
    requires
        record.wf(),
    ensures
        record.completed ==> r == WaitStep::Ready(record.ip.unwrap()),
        !record.completed && elapsed_ms >= LEASE_WAIT_DEADLINE_MS ==> r == WaitStep::TimedOut,
        !record.completed && elapsed_ms < LEASE_WAIT_DEADLINE_MS ==> r == WaitStep::Poll,
        (r is Ready) <==> record.completed,
{
    if record.completed {
        match record.ip {
            Some(ip) => WaitStep::Ready(ip),
            None => vstd::pervasive::unreached(),
        }
    } else if elapsed_ms >= LEASE_WAIT_DEADLINE_MS {
        WaitStep::TimedOut
    } else {
        WaitStep::Poll
    }
}

/// The outcome of the wait over a run of successive looks at the record,
/// from look `i` on: the address of the first complete look inside the
/// deadline's allowance, or nothing.
pub open spec fn wait_outcome(polls: Seq<LeaseRecord>, i: int) -> Option<Ipv4Address>
    decreases polls.len() - i,
{
    if i < 0 || i >= polls.len() || i >= MAX_POLLS {
        None
    } else if polls[i].completed {
        polls[i].ip
    } else {
        wait_outcome(polls, i + 1)
    }
}

/// The wait over a recorded run of looks: scan them in order, return the
/// leased address of the first complete one inside the deadline's
/// allowance, report nothing when every look inside it is incomplete.
pub fn wait_for_lease(polls: &Vec<LeaseRecord>) -> (r: Option<Ipv4Address>)
    requires
        forall|i: int| 0 <= i < polls@.len() ==> (#[trigger] polls@[i]).wf(),
    ensures
        r == wait_outcome(polls@, 0),
        (r is Some) <==> exists|i: int|
            0 <= i < polls@.len() && i < MAX_POLLS && (#[trigger] polls@[i]).completed,
{
    let n: usize = polls.len();
    let mut i: usize = 0;
    let limit: usize = if n < MAX_POLLS {
        n
    } else {
        MAX_POLLS
    };
    loop
        invariant
            0 <= i <= limit,
            limit == if n < MAX_POLLS {
                n as int
            } else {
                MAX_POLLS as int
            },
            n == polls@.len(),
            forall|j: int| 0 <= j < polls@.len() ==> (#[trigger] polls@[j]).wf(),
            wait_outcome(polls@, 0) == wait_outcome(polls@, i as int),
            forall|j: int| 0 <= j < i ==> !(#[trigger] polls@[j]).completed,
        decreases limit - i,
    {
        if i >= limit {
            proof {
                lemma_wait_outcome_none(polls@, i as int);
            }
            return None;
        }
        let rec = polls[i];
        match waiter_step(&rec, 0) {
            WaitStep::Ready(ip) => {
                return Some(ip);
            },
            _ => {
                i = i + 1;
            },
        }
    }
}

/// Past the end of the run, or past the deadline's allowance, the wait
/// yields nothing.
proof fn lemma_wait_outcome_none(polls: Seq<LeaseRecord>, i: int)
    requires
        i >= polls.len() || i >= MAX_POLLS,
    ensures
        wait_outcome(polls, i) is None,
{
}

/// The wait returns an address exactly when some look inside the deadline's
/// allowance found the record complete — and then it is the address of the
/// first such look.
pub proof fn lemma_wait_iff_completed(polls: Seq<LeaseRecord>, i: int)
    requires
        0 <= i,
        forall|j: int| 0 <= j < polls.len() ==> (#[trigger] polls[j]).wf(),
    ensures
        (wait_outcome(polls, i) is Some) <==> exists|j: int|
            i <= j < polls.len() && j < MAX_POLLS && (#[trigger] polls[j]).completed,
        wait_outcome(polls, i) matches Some(ip) ==> exists|j: int|
            {
                &&& i <= j < polls.len() && j < MAX_POLLS
                &&& (#[trigger] polls[j]).completed
                &&& polls[j].ip == Some(ip)
                &&& forall|k: int| i <= k < j ==> !(#[trigger] polls[k]).completed
            },
    decreases polls.len() - i,
{
    if i >= polls.len() || i >= MAX_POLLS {
    } else if polls[i].completed {
        assert(polls[i].wf());
        assert(i <= i < polls.len() && i < MAX_POLLS && polls[i].completed);
    } else {
        lemma_wait_iff_completed(polls, i + 1);
        if wait_outcome(polls, i + 1) is Some {
            let ip = wait_outcome(polls, i + 1).unwrap();
            let j = choose|j: int|
                {
                    &&& i + 1 <= j < polls.len() && j < MAX_POLLS
                    &&& (#[trigger] polls[j]).completed
                    &&& polls[j].ip == Some(ip)
                    &&& forall|k: int| i + 1 <= k < j ==> !(#[trigger] polls[k]).completed
                };
            assert(forall|k: int| i <= k < j ==> !(#[trigger] polls[k]).completed);
        }
    }
}

} // verus!
