//! Core of a minimal task-tracking service: task records, request validation,
//! a persistence gateway over a single task collection, and the translation of
//! gateway outcomes into response statuses.

pub mod handlers;
pub mod laws;
pub mod store;
pub mod task;

pub use handlers::Status;
pub use handlers::create_response;
pub use handlers::create_task;
pub use handlers::delete_response;
pub use handlers::delete_task;
pub use store::StoreError;
pub use store::StoredTask;
pub use store::TaskStore;
pub use task::CreateError;
pub use task::Priority;
pub use task::Task;
pub use task::priority_from_tag;
pub use task::spec_priority_from_tag;
pub use task::spec_validate;
pub use task::validate_create;
