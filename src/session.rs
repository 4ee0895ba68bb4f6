use vstd::prelude::*;

use crate::time::Timestamp;

verus! {

/// A span of work: it starts at `started_at` and ends at `ended_at`, or is still
/// open when `ended_at` is `None`. A session is a plain value: a workday keeps
/// copies of its sessions, so no change to a session value reaches a workday.
/// Nothing requires `ended_at` to come after `started_at`; a session whose end
/// precedes its start covers no instant.
#[derive(Clone, Copy, Debug, PartialEq, Eq, Structural)]
pub struct Session {
    pub started_at: Timestamp,
    pub ended_at: Option<Timestamp>,
}

impl Session {
    pub fn new(started_at: Timestamp, ended_at: Option<Timestamp>) -> (r: Session)
        ensures
            r == (Session { started_at, ended_at }),
    {
        Session { started_at, ended_at }
    }

    pub fn started_at(&self) -> (r: Timestamp)
        ensures
            r == self.started_at,
    {
        self.started_at
    }

    pub fn ended_at(&self) -> (r: Option<Timestamp>)
        ensures
            r == self.ended_at,
    {
        self.ended_at
    }

    pub open spec fn start(&self) -> int {
        self.started_at.secs as int
    }

    pub open spec fn is_open(&self) -> bool {
        self.ended_at is None
    }

    /// The session covers instant `t`: it has started by `t` and has not ended before it.
    pub open spec fn covers(&self, t: int) -> bool {
        self.start() <= t && match self.ended_at {
            None => true,
            Some(e) => t <= e.secs,
        }
    }
}

/// The overlap rule between a session `s` and a candidate range from `start` to
/// `end` (no end: unbounded): the range starts within `s`, or `s` starts within
/// the range.
pub open spec fn overlaps_range(s: Session, start: Timestamp, end: Option<Timestamp>) -> bool {
    (start.secs >= s.started_at.secs && match s.ended_at {
        None => true,
        Some(e) => start.secs <= e.secs,
    }) || (start.secs <= s.started_at.secs && match end {
        None => true,
        Some(e) => e.secs >= s.started_at.secs,
    })
}

/// Two sessions overlap under the overlap rule; the relation is symmetric.
pub open spec fn sessions_overlap(a: Session, b: Session) -> bool {
    overlaps_range(a, b.started_at, b.ended_at)
}

/// Whether `s` overlaps the range from `start` to `end`.
pub fn overlaps(s: &Session, start: Timestamp, end: Option<Timestamp>) -> (r: bool)
    ensures
        r == overlaps_range(*s, start, end),
{
    if start.secs >= s.started_at.secs {
        match s.ended_at {
            None => {
                return true;
            },
            Some(e) => {
                if start.secs <= e.secs {
                    return true;
                }
            },
        }
    }
    if start.secs <= s.started_at.secs {
        match end {
            None => {
                return true;
            },
            Some(e) => {
                if e.secs >= s.started_at.secs {
                    return true;
                }
            },
        }
    }
    false
}

} // verus!
