pub mod time;
pub mod session;
pub mod workday;
pub mod repository;
pub mod in_memory;
pub mod use_cases;
pub mod http_app;
pub use repository::{WorkdayPersistence, WorkdayRepository, WorkdayRepositoryError};
pub use session::Session;
pub use time::{Day, Timestamp};
pub use workday::{Workday, WorkdayError};
pub use http_app::HttpApp;
pub use in_memory::InMemoryWorkdayPersistence;
pub use use_cases::{CreateDto, CreateUseCase, ListAllUseCase, UseCaseError, WorkdayDto};
