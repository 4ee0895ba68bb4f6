use workday::{
    CreateDto, CreateUseCase, Day, InMemoryWorkdayPersistence, ListAllUseCase, Session, Timestamp,
    UseCaseError, Workday, WorkdayDto, WorkdayPersistence, WorkdayRepository,
    WorkdayRepositoryError,
};
use workday::repository::refusal_after_lookup;

fn day(y: i32, m: u32, d: u32) -> Day {
    Day::from_ymd(y, m, d).unwrap()
}

fn repository_with(dates: &[Day]) -> WorkdayRepository<InMemoryWorkdayPersistence> {
    let mut repository = WorkdayRepository { persistence: InMemoryWorkdayPersistence::new() };
    for d in dates {
        repository.create(&Workday::new(*d)).unwrap();
    }
    repository
}

fn dates(repository: &WorkdayRepository<InMemoryWorkdayPersistence>) -> Vec<Day> {
    repository.find_all().unwrap().iter().map(|w| w.date()).collect()
}

#[test]
fn create_refuses_a_second_workday_for_a_day() {
    let mut repository = repository_with(&[day(2014, 7, 1)]);
    assert_eq!(
        repository.create(&Workday::new(day(2014, 7, 1))),
        Err(WorkdayRepositoryError::EntityAlreadyExists)
    );
    assert_eq!(dates(&repository), vec![day(2014, 7, 1)]);

    assert_eq!(repository.create(&Workday::new(day(2014, 7, 2))), Ok(()));
    assert_eq!(dates(&repository), vec![day(2014, 7, 1), day(2014, 7, 2)]);
}

#[test]
fn a_refused_create_keeps_the_stored_workday() {
    let mut stored = Workday::new(day(2014, 7, 1));
    stored
        .add_session(Session::new(Timestamp::from_secs(100), Some(Timestamp::from_secs(200))))
        .unwrap();
    let mut repository = WorkdayRepository { persistence: InMemoryWorkdayPersistence::new() };
    repository.create(&stored).unwrap();

    assert!(repository.create(&Workday::new(day(2014, 7, 1))).is_err());
    let all = repository.find_all().unwrap();
    assert_eq!(all.len(), 1);
    assert_eq!(all[0].sessions(), stored.sessions());
}

#[test]
fn store_lookup_finds_by_day() {
    let repository = repository_with(&[day(2014, 7, 1), day(2014, 7, 3)]);
    let found = repository.persistence.find_by_day(day(2014, 7, 3)).unwrap().unwrap();
    assert_eq!(found.date(), day(2014, 7, 3));
    assert!(repository.persistence.find_by_day(day(2014, 7, 2)).unwrap().is_none());
}

#[test]
fn an_empty_store_lists_nothing() {
    let repository = repository_with(&[]);
    assert!(repository.find_all().unwrap().is_empty());
}

#[test]
fn create_use_case_stores_the_workday_with_its_first_session() {
    let mut repository = repository_with(&[]);
    let mut create = CreateUseCase::new();
    let made = create.execute(&mut repository, CreateDto { date: day(2014, 7, 1) });
    assert_eq!(made, Ok(WorkdayDto { date: day(2014, 7, 1) }));

    let all = repository.find_all().unwrap();
    assert_eq!(all.len(), 1);
    let sessions = all[0].sessions();
    assert_eq!(sessions.len(), 1);
    assert_eq!(sessions[0].started_at().secs(), 1656682200);
    assert_eq!(sessions[0].ended_at().unwrap().secs(), 1656698400);

    assert_eq!(
        create.execute(&mut repository, CreateDto { date: day(2014, 7, 1) }),
        Err(UseCaseError::Repository(WorkdayRepositoryError::EntityAlreadyExists))
    );
}

#[test]
fn list_all_use_case_reports_each_day() {
    let mut repository = repository_with(&[]);
    let mut create = CreateUseCase::new();
    create.execute(&mut repository, CreateDto { date: day(2014, 7, 1) }).unwrap();
    create.execute(&mut repository, CreateDto { date: day(2014, 7, 2) }).unwrap();

    let mut list = ListAllUseCase::new();
    assert_eq!(
        list.execute(&repository),
        Ok(vec![WorkdayDto { date: day(2014, 7, 1) }, WorkdayDto { date: day(2014, 7, 2) }])
    );
}

#[test]
fn store_lookup_returns_the_first_workday_of_the_day() {
    let mut first = Workday::new(day(2014, 7, 1));
    first
        .add_session(Session::new(Timestamp::from_secs(100), Some(Timestamp::from_secs(200))))
        .unwrap();
    let second = Workday::new(day(2014, 7, 1));
    let mut store = InMemoryWorkdayPersistence::new();
    store.insert(&first).unwrap();
    store.insert(&second).unwrap();

    let found = store.find_by_day(day(2014, 7, 1)).unwrap().unwrap();
    assert_eq!(found.sessions(), first.sessions());
    assert_eq!(store.find_all().unwrap().len(), 2);
}

#[test]
fn a_failed_lookup_is_handed_on_unchanged() {
    let cause = WorkdayRepositoryError::Persistence(Some("disk unavailable".to_string()));
    assert_eq!(refusal_after_lookup(Err(WorkdayRepositoryError::Persistence(Some("disk unavailable".to_string())))), Some(cause));
    assert_eq!(refusal_after_lookup(Err(WorkdayRepositoryError::Persistence(None))),
        Some(WorkdayRepositoryError::Persistence(None)));
}

#[test]
fn a_found_workday_refuses_and_none_goes_on() {
    assert_eq!(
        refusal_after_lookup(Ok(Some(Workday::new(day(2014, 7, 1))))),
        Some(WorkdayRepositoryError::EntityAlreadyExists)
    );
    assert_eq!(refusal_after_lookup(Ok(None)), None);
}

#[test]
fn listing_reports_each_day_or_the_store_error() {
    let all = vec![Workday::new(day(2014, 7, 2)), Workday::new(day(2014, 7, 1))];
    assert_eq!(
        ListAllUseCase::report(Ok(all)),
        Ok(vec![WorkdayDto { date: day(2014, 7, 2) }, WorkdayDto { date: day(2014, 7, 1) }])
    );
    assert_eq!(ListAllUseCase::report(Ok(vec![])), Ok(vec![]));
    assert_eq!(
        ListAllUseCase::report(Err(WorkdayRepositoryError::Persistence(None))),
        Err(UseCaseError::Repository(WorkdayRepositoryError::Persistence(None)))
    );
}
