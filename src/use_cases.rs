use vstd::prelude::*;

use crate::repository::{holds_day, WorkdayPersistence, WorkdayRepository, WorkdayRepositoryError};
use crate::session::Session;
use crate::time::{Day, Timestamp};
use crate::workday::{add_outcome, insertion_point, Workday, WorkdayError, WorkdayView};

verus! {

/// Start of the session that a newly created workday begins with: 2022-07-01T13:30:00Z.
pub const FIRST_SESSION_START: i64 = 1656682200;

/// End of the session that a newly created workday begins with: 2022-07-01T18:00:00Z.
pub const FIRST_SESSION_END: i64 = 1656698400;

/// The session that a newly created workday begins with.
pub open spec fn first_session() -> Session {
    Session {
        started_at: Timestamp { secs: FIRST_SESSION_START },
        ended_at: Some(Timestamp { secs: FIRST_SESSION_END }),
    }
}

/// A request to create the workday of a day.
#[derive(Clone, Copy, Debug, PartialEq, Eq, Structural)]
pub struct CreateDto {
    pub date: Day,
}

/// A workday as the use cases report it.
#[derive(Clone, Copy, Debug, PartialEq, Eq, Structural)]
pub struct WorkdayDto {
    pub date: Day,
}

/// A failure of a use case, of the kind that the workday or the repository reported.
#[derive(Debug, PartialEq, Eq)]
pub enum UseCaseError {
    Workday(WorkdayError),
    Repository(WorkdayRepositoryError),
}

/// Creates a workday, with its first session, in a repository.
pub struct CreateUseCase;

impl CreateUseCase {
    pub fn new() -> CreateUseCase {
        CreateUseCase
    }

    /// Builds the workday of `dto.date` with its first session and stores it.
    pub fn execute<P: WorkdayPersistence>(
        &mut self,
        repository: &mut WorkdayRepository<P>,
        dto: CreateDto,
    ) -> (r: Result<WorkdayDto, UseCaseError>)
        requires
            dto.date.wf(),
        ensures
            r matches Ok(d) ==> d.date == dto.date && !holds_day(
                old(repository).persistence.contents(),
                dto.date,
            ) && final(repository).persistence.contents() == old(
                repository,
            ).persistence.contents().push(
                WorkdayView { date: dto.date, sessions: seq![first_session()] },
            ),
            r is Err ==> final(repository).persistence.contents() == old(
                repository,
            ).persistence.contents(),
            r is Err ==> r matches Err(UseCaseError::Repository(_)),
            r matches Err(UseCaseError::Repository(WorkdayRepositoryError::EntityAlreadyExists))
                ==> holds_day(old(repository).persistence.contents(), dto.date),
            old(repository).persistence.reliable() ==> (r is Ok <==> !holds_day(
                old(repository).persistence.contents(),
                dto.date,
            )),
            old(repository).persistence.reliable() && holds_day(
                old(repository).persistence.contents(),
                dto.date,
            ) ==> r matches Err(UseCaseError::Repository(WorkdayRepositoryError::EntityAlreadyExists)),
            final(repository).persistence.reliable() == old(repository).persistence.reliable(),
    {
        let mut workday = Workday::new(dto.date);
        let first = Session::new(
            Timestamp::from_secs(FIRST_SESSION_START),
            Some(Timestamp::from_secs(FIRST_SESSION_END)),
        );
        assert(Seq::<Session>::empty().insert(0, first) =~= seq![first]);
        assert(insertion_point(Seq::<Session>::empty(), first.start()) == 0);
        assert(add_outcome(Seq::<Session>::empty(), first) is Ok);
        if let Err(e) = workday.add_session(first) {
            return Err(UseCaseError::Workday(e));
        }
        let created = WorkdayDto { date: workday.date() };
        match repository.create(&workday) {
            Ok(()) => Ok(created),
            Err(e) => Err(UseCaseError::Repository(e)),
        }
    }
}

/// Lists the days of all stored workdays.
pub struct ListAllUseCase;

impl ListAllUseCase {
    pub fn new() -> ListAllUseCase {
        ListAllUseCase
    }

    /// The day of each workday in the store, in the store's order.
    pub fn execute<P: WorkdayPersistence>(&mut self, repository: &WorkdayRepository<P>) -> (r:
        Result<Vec<WorkdayDto>, UseCaseError>)
        ensures
            r matches Ok(v) ==> v@.len() == repository.persistence.contents().len() && forall|i: int|
                0 <= i < v@.len() ==> (#[trigger] v@[i]).date
                    == repository.persistence.contents()[i].date,
            r is Err ==> r matches Err(UseCaseError::Repository(WorkdayRepositoryError::Persistence(_))),
            repository.persistence.reliable() ==> r is Ok,
    {
        let found = repository.find_all();
        proof {
            if found is Ok {
                let all = found->Ok_0;
                assert forall|k: int| 0 <= k < all@.len() implies all@[k]@.date
                    == repository.persistence.contents()[k].date by {
                    assert(crate::repository::views(all@)[k] == all@[k]@);
                }
            }
        }
        ListAllUseCase::report(found)
    }

    /// The listing for the store's answer `found`: the day of each workday in
    /// order, or the store's error as it is.
    pub fn report(found: Result<Vec<Workday>, WorkdayRepositoryError>) -> (r: Result<
        Vec<WorkdayDto>,
        UseCaseError,
    >)
        ensures
            found matches Ok(all) ==> r matches Ok(v) && v@.len() == all@.len() && forall|i: int|
                0 <= i < v@.len() ==> (#[trigger] v@[i]).date == all@[i]@.date,
            found matches Err(e) ==> r == Err::<Vec<WorkdayDto>, UseCaseError>(
                UseCaseError::Repository(e),
            ),
    {
        match found {
            Err(e) => Err(UseCaseError::Repository(e)),
            Ok(all) => {
                let mut r: Vec<WorkdayDto> = Vec::new();
                let mut i: usize = 0;
                while i < all.len()
                    invariant
                        0 <= i <= all.len(),
                        r@.len() == i,
                        forall|k: int| 0 <= k < i ==> (#[trigger] r@[k]).date == all@[k]@.date,
                    decreases all.len() - i,
                {
                    r.push(WorkdayDto { date: all[i].date() });
                    i += 1;
                }
                Ok(r)
            },
        }
    }
}

} // verus!
