use vstd::prelude::*;

use crate::time::Day;
use crate::workday::{Workday, WorkdayView};

verus! {

/// Why the repository or its store refused a request.
#[derive(Debug, PartialEq, Eq)]
pub enum WorkdayRepositoryError {
    /// The store failed; the cause, where it gave one.
    Persistence(Option<String>),
    EntityAlreadyExists,
    EntityNotFound,
}

/// What each workday of `ws` holds.
pub open spec fn views(ws: Seq<Workday>) -> Seq<WorkdayView> {
    ws.map_values(|w: Workday| w@)
}

/// Some workday of `ws` is for day `d`.
pub open spec fn holds_day(ws: Seq<WorkdayView>, d: Day) -> bool {
    exists|i: int| 0 <= i < ws.len() && (#[trigger] ws[i]).date == d
}

/// A store of workdays. Each call either succeeds or fails as a whole.
pub trait WorkdayPersistence {
    /// The workdays held, in the order the store yields them.
    spec fn contents(&self) -> Seq<WorkdayView>;

    /// The store never reports a failure.
    spec fn reliable(&self) -> bool;

    fn insert(&mut self, workday: &Workday) -> (r: Result<(), WorkdayRepositoryError>)
        ensures
            r is Ok ==> final(self).contents() == old(self).contents().push(workday@),
            r is Err ==> final(self).contents() == old(self).contents(),
            r is Err ==> r matches Err(WorkdayRepositoryError::Persistence(_)),
            old(self).reliable() ==> r is Ok,
            final(self).reliable() == old(self).reliable(),
    ;

    fn find_by_day(&self, date: Day) -> (r: Result<Option<Workday>, WorkdayRepositoryError>)
        ensures
            r matches Ok(Some(w)) ==> w@.date == date && exists|i: int|
                0 <= i < self.contents().len() && #[trigger] self.contents()[i] == w@ && forall|k: int|
                    0 <= k < i ==> (#[trigger] self.contents()[k]).date != date,
            r matches Ok(None) ==> !holds_day(self.contents(), date),
            r is Err ==> r matches Err(WorkdayRepositoryError::Persistence(_)),
            self.reliable() ==> r is Ok,
    ;

    fn find_all(&self) -> (r: Result<Vec<Workday>, WorkdayRepositoryError>)
        ensures
            r matches Ok(v) ==> views(v@) == self.contents(),
            r is Err ==> r matches Err(WorkdayRepositoryError::Persistence(_)),
            self.reliable() ==> r is Ok,
    ;
}

/// What `create` does once the store's lookup of the workday's day has
/// answered `found`: `Some` holds the error that `create` returns, and `None`
/// means that `create` goes on to insert. A failed lookup is handed on as it is.
pub fn refusal_after_lookup(found: Result<Option<Workday>, WorkdayRepositoryError>) -> (r: Option<
    WorkdayRepositoryError,
>)
    ensures
        found matches Err(e) ==> r == Some(e),
        found matches Ok(Some(_)) ==> r == Some(WorkdayRepositoryError::EntityAlreadyExists),
        found matches Ok(None) ==> r is None,
{
    match found {
        Err(e) => Some(e),
        Ok(Some(_)) => Some(WorkdayRepositoryError::EntityAlreadyExists),
        Ok(None) => None,
    }
}

/// Keeps at most one workday per day in its store.
pub struct WorkdayRepository<P: WorkdayPersistence> {
    pub persistence: P,
}

impl<P: WorkdayPersistence> WorkdayRepository<P> {
    /// Stores a copy of `workday`, unless the store already holds a workday for
    /// its day. The store changes only by gaining that copy, on success. What
    /// follows the store's lookup is `refusal_after_lookup`: a failed lookup is
    /// returned as it is, and the store's answer to the insert is returned too.
    pub fn create(&mut self, workday: &Workday) -> (r: Result<(), WorkdayRepositoryError>)
        ensures
            r is Ok ==> !holds_day(old(self).persistence.contents(), workday@.date)
                && final(self).persistence.contents() == old(self).persistence.contents().push(workday@),
            r is Err ==> final(self).persistence.contents() == old(self).persistence.contents(),
            r is Ok <==> final(self).persistence.contents() == old(
                self,
            ).persistence.contents().push(workday@),
            r matches Err(WorkdayRepositoryError::EntityAlreadyExists) ==> holds_day(
                old(self).persistence.contents(),
                workday@.date,
            ),
            r is Err ==> !(r matches Err(WorkdayRepositoryError::EntityNotFound)),
            old(self).persistence.reliable() && holds_day(
                old(self).persistence.contents(),
                workday@.date,
            ) ==> r matches Err(WorkdayRepositoryError::EntityAlreadyExists),
            old(self).persistence.reliable() ==> (r is Ok <==> !holds_day(
                old(self).persistence.contents(),
                workday@.date,
            )),
            final(self).persistence.reliable() == old(self).persistence.reliable(),
    {
        let found = self.persistence.find_by_day(workday.date());
        proof {
            if found matches Ok(Some(_)) {
                let w = found->Ok_0->Some_0;
                let i = choose|i: int|
                    0 <= i < self.persistence.contents().len() && #[trigger] self.persistence.contents()[i]
                        == w@ && forall|k: int|
                        0 <= k < i ==> (#[trigger] self.persistence.contents()[k]).date
                            != workday@.date;
                assert(self.persistence.contents()[i].date == workday@.date);
            }
        }
        assert(self.persistence.contents().push(workday@).len() != self.persistence.contents().len());
        match refusal_after_lookup(found) {
            Some(e) => Err(e),
            None => self.persistence.insert(workday),
        }
    }

    /// Every workday in the store.
    pub fn find_all(&self) -> (r: Result<Vec<Workday>, WorkdayRepositoryError>)
        ensures
            r matches Ok(v) ==> views(v@) == self.persistence.contents(),
            r is Err ==> r matches Err(WorkdayRepositoryError::Persistence(_)),
            self.persistence.reliable() ==> r is Ok,
    {
        self.persistence.find_all()
    }
}

} // verus!
