use vstd::prelude::*;

use crate::session::{overlaps, overlaps_range, sessions_overlap, Session};
use crate::time::{Day, Timestamp};

verus! {

/// Why a workday refused a change.
#[derive(Clone, Copy, Debug, PartialEq, Eq, Structural)]
pub enum WorkdayError {
    OpenSessionAlreadyExists,
    OverlappingSessions,
    EmptySessions,
    CurrentSessionAlreadyEnded,
}

/// The sessions of one calendar day, kept sorted by start, with no two
/// overlapping and at most one open.
pub struct Workday {
    date: Day,
    sessions: Vec<Session>,
}

/// What a workday holds: its day and its sessions in order.
pub struct WorkdayView {
    pub date: Day,
    pub sessions: Seq<Session>,
}

impl View for Workday {
    type V = WorkdayView;

    closed spec fn view(&self) -> WorkdayView {
        WorkdayView { date: self.date, sessions: self.sessions@ }
    }
}

pub open spec fn sorted_by_start(s: Seq<Session>) -> bool {
    forall|i: int, j: int| 0 <= i < j < s.len() ==> s[i].start() <= s[j].start()
}

pub open spec fn pairwise_apart(s: Seq<Session>) -> bool {
    forall|i: int, j: int|
        0 <= i < s.len() && 0 <= j < s.len() && i != j ==> !sessions_overlap(s[i], s[j])
}

/// Only the last session may be open.
pub open spec fn open_only_last(s: Seq<Session>) -> bool {
    forall|i: int| 0 <= i < s.len() - 1 ==> !(#[trigger] s[i]).is_open()
}

pub open spec fn valid_sessions(s: Seq<Session>) -> bool {
    sorted_by_start(s) && pairwise_apart(s) && open_only_last(s)
}

/// The sessions of `s`, in order, that overlap the range from `start` to `end`.
pub open spec fn overlapping(s: Seq<Session>, start: Timestamp, end: Option<Timestamp>) -> Seq<
    Session,
>
    decreases s.len(),
{
    if s.len() == 0 {
        Seq::empty()
    } else {
        let rest = overlapping(s.drop_last(), start, end);
        if overlaps_range(s.last(), start, end) {
            rest.push(s.last())
        } else {
            rest
        }
    }
}

/// Where a session starting at `t` goes: after every session that starts at
/// or before `t`.
pub open spec fn insertion_point(s: Seq<Session>, t: int) -> int
    decreases s.len(),
{
    if s.len() == 0 {
        0
    } else if s.last().start() <= t {
        s.len() as int
    } else {
        insertion_point(s.drop_last(), t)
    }
}

/// The sessions after adding `n` to `s`, or the error that refuses it.
pub open spec fn add_outcome(s: Seq<Session>, n: Session) -> Result<Seq<Session>, WorkdayError> {
    if s.len() > 0 && s.last().is_open() && n.is_open() {
        Err(WorkdayError::OpenSessionAlreadyExists)
    } else if exists|i: int| 0 <= i < s.len() && overlaps_range(#[trigger] s[i], n.started_at, n.ended_at) {
        Err(WorkdayError::OverlappingSessions)
    } else {
        Ok(s.insert(insertion_point(s, n.start()), n))
    }
}

/// The sessions after closing the last one at `t`, or the error that refuses it.
pub open spec fn end_outcome(s: Seq<Session>, t: Timestamp) -> Result<Seq<Session>, WorkdayError> {
    if s.len() == 0 {
        Err(WorkdayError::EmptySessions)
    } else if !s.last().is_open() {
        Err(WorkdayError::CurrentSessionAlreadyEnded)
    } else {
        add_outcome(s.drop_last(), Session { started_at: s.last().started_at, ended_at: Some(t) })
    }
}

proof fn lemma_overlapping_empty(s: Seq<Session>, start: Timestamp, end: Option<Timestamp>)
    ensures
        overlapping(s, start, end).len() == 0 <==> forall|i: int|
            0 <= i < s.len() ==> !overlaps_range(#[trigger] s[i], start, end),
    decreases s.len(),
{
    if s.len() > 0 {
        lemma_overlapping_empty(s.drop_last(), start, end);
        assert forall|i: int| 0 <= i < s.len() - 1 implies s.drop_last()[i] == s[i] by {}
        if overlapping(s, start, end).len() == 0 {
            assert forall|i: int| 0 <= i < s.len() implies !overlaps_range(#[trigger] s[i], start, end) by {
                if i < s.len() - 1 {
                    assert(s.drop_last()[i] == s[i]);
                }
            }
        }
    }
}

proof fn lemma_insertion_point(s: Seq<Session>, t: int)
    requires
        sorted_by_start(s),
    ensures
        0 <= insertion_point(s, t) <= s.len(),
        forall|i: int| 0 <= i < insertion_point(s, t) ==> (#[trigger] s[i]).start() <= t,
        forall|i: int| insertion_point(s, t) <= i < s.len() ==> (#[trigger] s[i]).start() > t,
    decreases s.len(),
{
    if s.len() > 0 {
        lemma_insertion_point(s.drop_last(), t);
        assert forall|i: int| 0 <= i < s.len() - 1 implies s.drop_last()[i] == s[i] by {}
    }
}

/// The overlap rule is symmetric.
pub proof fn lemma_overlap_symmetric(a: Session, b: Session)
    ensures
        sessions_overlap(a, b) == sessions_overlap(b, a),
{
}

/// Adding a session to valid sessions keeps them valid: sorted by start, no two
/// overlapping, and only the last one open.
pub proof fn lemma_add_keeps_valid(s: Seq<Session>, n: Session)
    requires
        valid_sessions(s),
        add_outcome(s, n) is Ok,
    ensures
        valid_sessions(add_outcome(s, n)->Ok_0),
{
    let k = insertion_point(s, n.start());
    lemma_insertion_point(s, n.start());
    let r = s.insert(k, n);
    assert(forall|i: int| 0 <= i < s.len() ==> !overlaps_range(#[trigger] s[i], n.started_at, n.ended_at));
    assert forall|i: int| 0 <= i < s.len() implies !sessions_overlap(n, #[trigger] s[i]) by {
        lemma_overlap_symmetric(n, s[i]);
    }
    assert(r.len() == s.len() + 1);
    assert forall|i: int| 0 <= i < r.len() implies #[trigger] r[i] == (if i < k {
        s[i]
    } else if i == k {
        n
    } else {
        s[i - 1]
    }) by {}
    assert(sorted_by_start(r));
    assert(pairwise_apart(r));
    if n.is_open() {
        assert forall|i: int| 0 <= i < s.len() implies (#[trigger] s[i]).start() < n.start() by {
            assert(!overlaps_range(s[i], n.started_at, n.ended_at));
        }
        assert(k == s.len());
        if s.len() > 0 {
            assert(!s.last().is_open());
        }
    } else if s.len() > 0 && s.last().is_open() {
        assert(!overlaps_range(s[s.len() - 1], n.started_at, n.ended_at));
        assert(k < s.len());
    }
    assert(open_only_last(r));
}

/// Closing the open last session of valid sessions never fails: it becomes the
/// same session with the given end, and stays last.
proof fn lemma_end_succeeds(s: Seq<Session>, t: Timestamp)
    requires
        valid_sessions(s),
        s.len() > 0,
        s.last().is_open(),
    ensures
        end_outcome(s, t) == Ok::<Seq<Session>, WorkdayError>(
            s.drop_last().push(Session { started_at: s.last().started_at, ended_at: Some(t) }),
        ),
{
    let p = s.drop_last();
    let last = s.last();
    let n = Session { started_at: last.started_at, ended_at: Some(t) };
    assert forall|i: int| 0 <= i < p.len() implies !overlaps_range(#[trigger] p[i], n.started_at, n.ended_at) by {
        assert(p[i] == s[i]);
        assert(!sessions_overlap(s[i], s[s.len() - 1]));
        assert(!s[i].is_open());
    }
    assert forall|i: int| 0 <= i < p.len() - 1 implies #[trigger] p[i] == s[i] by {}
    assert forall|i: int, j: int| 0 <= i < j < p.len() implies p[i].start() <= p[j].start() by {
        assert(p[i] == s[i] && p[j] == s[j]);
    }
    lemma_insertion_point(p, n.start());
    if p.len() > 0 {
        assert(p[p.len() - 1] == s[p.len() - 1]);
        assert(!sessions_overlap(s[p.len() - 1], s[s.len() - 1]));
    }
    assert(insertion_point(p, n.start()) == p.len());
    assert(p.insert(p.len() as int, n) =~= p.push(n));
}

/// Closing the current session twice in a row: the second close is refused
/// because the current session has already ended.
pub proof fn lemma_close_then_reject(s: Seq<Session>, t1: Timestamp, t2: Timestamp)
    requires
        valid_sessions(s),
        end_outcome(s, t1) is Ok,
    ensures
        end_outcome(end_outcome(s, t1)->Ok_0, t2) == Err::<Seq<Session>, WorkdayError>(
            WorkdayError::CurrentSessionAlreadyEnded,
        ),
{
    lemma_end_succeeds(s, t1);
}

/// Valid sessions are strictly ascending by start, save where two sessions both
/// end before they start.
pub proof fn lemma_strictly_ascending(s: Seq<Session>, i: int, j: int)
    requires
        valid_sessions(s),
        0 <= i < j < s.len(),
        s[i].ended_at matches Some(e) ==> e.secs >= s[i].started_at.secs,
    ensures
        s[i].start() < s[j].start(),
{
    assert(!sessions_overlap(s[i], s[j]));
}

/// No instant is covered by two sessions of valid sessions, an open session
/// reaching without end.
pub proof fn lemma_no_shared_instant(s: Seq<Session>, i: int, j: int, t: int)
    requires
        valid_sessions(s),
        0 <= i < s.len(),
        0 <= j < s.len(),
        i != j,
    ensures
        !(s[i].covers(t) && s[j].covers(t)),
{
    assert(!sessions_overlap(s[i], s[j]));
}

/// At most one session of valid sessions is open.
pub proof fn lemma_at_most_one_open(s: Seq<Session>, i: int, j: int)
    requires
        valid_sessions(s),
        0 <= i < s.len(),
        0 <= j < s.len(),
        s[i].is_open(),
        s[j].is_open(),
    ensures
        i == j,
{
}

/// Dropping the last of valid sessions leaves them valid.
proof fn lemma_drop_last_valid(s: Seq<Session>)
    requires
        valid_sessions(s),
        s.len() > 0,
    ensures
        valid_sessions(s.drop_last()),
{
    let p = s.drop_last();
    assert forall|i: int, j: int| 0 <= i < j < p.len() implies p[i].start() <= p[j].start() by {
        assert(p[i] == s[i] && p[j] == s[j]);
    }
    assert forall|i: int, j: int| 0 <= i < p.len() && 0 <= j < p.len() && i != j implies !sessions_overlap(p[i], p[j]) by {
        assert(p[i] == s[i] && p[j] == s[j]);
    }
    assert forall|i: int| 0 <= i < p.len() - 1 implies !(#[trigger] p[i]).is_open() by {
        assert(p[i] == s[i]);
    }
}

impl Workday {
    /// Every workday has an existing day and valid sessions.
    #[verifier::type_invariant]
    spec fn inv(self) -> bool {
        self.date.wf() && valid_sessions(self.sessions@)
    }

    /// The workday's day exists and its sessions keep their order and rules;
    /// every workday value satisfies this.
    pub open spec fn wf(&self) -> bool {
        self@.date.wf() && valid_sessions(self@.sessions)
    }

    pub fn new(date: Day) -> (r: Workday)
        requires
            date.wf(),
        ensures
            r.wf(),
            r@.date == date,
            r@.sessions == Seq::<Session>::empty(),
    {
        Workday { date, sessions: Vec::new() }
    }

    pub fn date(&self) -> (r: Day)
        ensures
            r == self@.date,
            r.wf(),
    {
        proof {
            use_type_invariant(self);
        }
        self.date
    }

    pub fn sessions(&self) -> (r: Vec<Session>)
        ensures
            r@ == self@.sessions,
    {
        let mut r: Vec<Session> = Vec::new();
        let mut i: usize = 0;
        while i < self.sessions.len()
            invariant
                0 <= i <= self.sessions.len(),
                r@ == self.sessions@.take(i as int),
            decreases self.sessions.len() - i,
        {
            r.push(self.sessions[i]);
            assert(self.sessions@.take(i + 1) =~= self.sessions@.take(i as int).push(self.sessions@[i as int]));
            i += 1;
        }
        assert(self.sessions@.take(i as int) =~= self.sessions@);
        r
    }

    /// The sessions, in order, that overlap the range from `start` to `end`
    /// (no end: unbounded).
    pub fn sessions_in_range(&self, start: Timestamp, end: Option<Timestamp>) -> (r: Vec<Session>)
        ensures
            r@ == overlapping(self@.sessions, start, end),
    {
        let mut r: Vec<Session> = Vec::new();
        let mut i: usize = 0;
        while i < self.sessions.len()
            invariant
                0 <= i <= self.sessions.len(),
                r@ == overlapping(self.sessions@.take(i as int), start, end),
            decreases self.sessions.len() - i,
        {
            let s = self.sessions[i];
            assert(self.sessions@.take(i + 1).drop_last() =~= self.sessions@.take(i as int));
            assert(self.sessions@.take(i + 1).last() == s);
            if overlaps(&s, start, end) {
                r.push(s);
            }
            i += 1;
        }
        assert(self.sessions@.take(i as int) =~= self.sessions@);
        r
    }

    fn insertion_index(&self, t: Timestamp) -> (r: usize)
        ensures
            r == insertion_point(self.sessions@, t.secs as int),
    {
        let mut i: usize = self.sessions.len();
        assert(self.sessions@.take(i as int) =~= self.sessions@);
        while i > 0 && self.sessions[i - 1].started_at.secs > t.secs
            invariant
                0 <= i <= self.sessions.len(),
                insertion_point(self.sessions@, t.secs as int) == insertion_point(
                    self.sessions@.take(i as int),
                    t.secs as int,
                ),
            decreases i,
        {
            assert(self.sessions@.take(i as int).drop_last() =~= self.sessions@.take(i - 1));
            i -= 1;
        }
        i
    }

    /// Adds a session, unless the last session and the new one are both open,
    /// or the new one overlaps a session already there. On failure nothing
    /// changes.
    pub fn add_session(&mut self, session: Session) -> (r: Result<(), WorkdayError>)
        ensures
            old(self).wf(),
            final(self).wf(),
            final(self)@.date == old(self)@.date,
            match add_outcome(old(self)@.sessions, session) {
                Ok(s) => r is Ok && final(self)@.sessions == s,
                Err(e) => r == Err::<(), WorkdayError>(e) && final(self)@ == old(self)@,
            },
    {
        // Only the last session can be open: an open session reaches without
        // end, so any session starting after it would overlap it, and sorting
        // keeps it last. Looking at the last session alone therefore suffices.
        proof {
            use_type_invariant(&*self);
        }
        let n = self.sessions.len();
        if n > 0 {
            let last = self.sessions[n - 1];
            if last.ended_at.is_none() && session.ended_at.is_none() {
                return Err(WorkdayError::OpenSessionAlreadyExists);
            }
        }
        let in_range = self.sessions_in_range(session.started_at, session.ended_at);
        proof {
            lemma_overlapping_empty(self.sessions@, session.started_at, session.ended_at);
        }
        if in_range.len() > 0 {
            return Err(WorkdayError::OverlappingSessions);
        }
        let k = self.insertion_index(session.started_at);
        proof {
            lemma_insertion_point(self.sessions@, session.start());
            lemma_add_keeps_valid(self.sessions@, session);
        }
        let mut sessions: Vec<Session> = Vec::new();
        std::mem::swap(&mut sessions, &mut self.sessions);
        sessions.insert(k, session);
        self.sessions = sessions;
        Ok(())
    }

    /// Closes the current (last) session at `ended_at`. Refused when there is no
    /// session, or when the last one has already ended.
    pub fn end_current_session(&mut self, ended_at: Timestamp) -> (r: Result<(), WorkdayError>)
        ensures
            old(self).wf(),
            final(self).wf(),
            final(self)@.date == old(self)@.date,
            match end_outcome(old(self)@.sessions, ended_at) {
                Ok(s) => r is Ok && final(self)@.sessions == s,
                Err(e) => r == Err::<(), WorkdayError>(e) && final(self)@ == old(self)@,
            },
            r is Ok <==> old(self)@.sessions.len() > 0 && old(self)@.sessions.last().is_open(),
            r is Ok ==> final(self)@.sessions == old(self)@.sessions.drop_last().push(
                Session { started_at: old(self)@.sessions.last().started_at, ended_at: Some(ended_at) },
            ),
    {
        proof {
            use_type_invariant(&*self);
        }
        let n = self.sessions.len();
        if n == 0 {
            return Err(WorkdayError::EmptySessions);
        }
        let last = self.sessions[n - 1];
        if last.ended_at.is_some() {
            return Err(WorkdayError::CurrentSessionAlreadyEnded);
        }
        proof {
            lemma_end_succeeds(self.sessions@, ended_at);
            lemma_drop_last_valid(self.sessions@);
        }
        let started_at = last.started_at;
        let mut rest: Vec<Session> = Vec::new();
        std::mem::swap(&mut rest, &mut self.sessions);
        rest.pop();
        self.sessions = rest;
        self.add_session(Session::new(started_at, Some(ended_at)))
    }
}

impl Clone for Workday {
    fn clone(&self) -> (r: Self)
        ensures
            r@ == self@,
    {
        proof {
            use_type_invariant(self);
        }
        Workday { date: self.date, sessions: self.sessions() }
    }
}

} // verus!
