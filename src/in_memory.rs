use vstd::prelude::*;

use crate::repository::{views, holds_day, WorkdayPersistence, WorkdayRepositoryError};
use crate::time::Day;
use crate::workday::Workday;

verus! {

/// A store that keeps its workdays in memory, in the order they came. It never fails.
pub struct InMemoryWorkdayPersistence {
    workdays: Vec<Workday>,
}

impl InMemoryWorkdayPersistence {
    pub fn new() -> (r: InMemoryWorkdayPersistence)
        ensures
            r.contents() == Seq::<crate::workday::WorkdayView>::empty(),
            r.reliable(),
    {
        InMemoryWorkdayPersistence { workdays: Vec::new() }
    }
}

impl WorkdayPersistence for InMemoryWorkdayPersistence {
    closed spec fn contents(&self) -> Seq<crate::workday::WorkdayView> {
        views(self.workdays@)
    }

    open spec fn reliable(&self) -> bool {
        true
    }

    fn insert(&mut self, workday: &Workday) -> (r: Result<(), WorkdayRepositoryError>) {
        self.workdays.push(workday.clone());
        assert(views(self.workdays@) =~= views(old(self).workdays@).push(workday@));
        Ok(())
    }

    fn find_by_day(&self, date: Day) -> (r: Result<Option<Workday>, WorkdayRepositoryError>) {
        let mut i: usize = 0;
        while i < self.workdays.len()
            invariant
                0 <= i <= self.workdays.len(),
                forall|k: int| 0 <= k < i ==> (#[trigger] self.workdays@[k])@.date != date,
            decreases self.workdays.len() - i,
        {
            if self.workdays[i].date() == date {
                let found = self.workdays[i].clone();
                assert(self.contents()[i as int] == found@);
                return Ok(Some(found));
            }
            i += 1;
        }
        assert forall|k: int| 0 <= k < self.contents().len() implies (#[trigger] self.contents()[k]).date != date by {
            assert(self.contents()[k] == self.workdays@[k]@);
        }
        Ok(None)
    }

    fn find_all(&self) -> (r: Result<Vec<Workday>, WorkdayRepositoryError>) {
        let mut r: Vec<Workday> = Vec::new();
        let mut i: usize = 0;
        while i < self.workdays.len()
            invariant
                0 <= i <= self.workdays.len(),
                r@.len() == i,
                forall|k: int| 0 <= k < i ==> (#[trigger] r@[k])@ == self.workdays@[k]@,
            decreases self.workdays.len() - i,
        {
            r.push(self.workdays[i].clone());
            i += 1;
        }
        assert(views(r@) =~= views(self.workdays@));
        Ok(r)
    }
}

} // verus!
