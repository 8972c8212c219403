use task_api::CreateError;
use task_api::Priority;
use task_api::Status;
use task_api::Task;
use task_api::TaskStore;
use task_api::create_response;
use task_api::create_task;
use task_api::delete_response;
use task_api::delete_task;
use task_api::priority_from_tag;
use task_api::validate_create;

fn new_task(name: &str, priority: Priority) -> Task {
    Task { id: None, name: name.to_string(), priority }
}

#[test]
fn priority_tags_known() {
    assert_eq!(priority_from_tag("Low"), Some(Priority::Low));
    assert_eq!(priority_from_tag("Medium"), Some(Priority::Medium));
    assert_eq!(priority_from_tag("High"), Some(Priority::High));
    assert_eq!(priority_from_tag("Critical"), Some(Priority::Critical));
}

#[test]
fn priority_tags_unknown_rejected() {
    assert_eq!(priority_from_tag("urgent"), None);
    assert_eq!(priority_from_tag("low"), None);
    assert_eq!(priority_from_tag(""), None);
    assert_eq!(priority_from_tag("Medium "), None);
}

#[test]
fn validate_accepts_full_body() {
    let r = validate_create(Some("Buy milk".to_string()), Some("Medium".to_string()));
    let t = r.expect("a full body is accepted");
    assert!(t.id.is_none());
    assert_eq!(t.name, "Buy milk");
    assert_eq!(t.priority, Priority::Medium);
}

#[test]
fn validate_rejects_missing_name() {
    let r = validate_create(None, Some("Medium".to_string()));
    assert_eq!(r.unwrap_err(), CreateError::MissingName);
}

#[test]
fn validate_rejects_empty_name() {
    let r = validate_create(Some(String::new()), Some("Medium".to_string()));
    assert_eq!(r.unwrap_err(), CreateError::EmptyName);
}

#[test]
fn validate_rejects_missing_priority() {
    let r = validate_create(Some("Buy milk".to_string()), None);
    assert_eq!(r.unwrap_err(), CreateError::MissingPriority);
}

#[test]
fn validate_rejects_unknown_priority() {
    let r = validate_create(Some("Buy milk".to_string()), Some("urgent".to_string()));
    assert_eq!(r.unwrap_err(), CreateError::UnknownPriority);
}

#[test]
fn status_codes() {
    assert_eq!(Status::NoContent.code(), 204);
    assert_eq!(Status::Okay.code(), 200);
    assert_eq!(Status::NotFound.code(), 404);
    assert_eq!(Status::BadRequest.code(), 400);
    assert_eq!(Status::ServerError.code(), 500);
}

#[test]
fn delete_response_counts() {
    assert_eq!(delete_response(1), Status::Okay);
    assert_eq!(delete_response(0), Status::NotFound);
}

#[test]
fn create_response_outcomes() {
    assert_eq!(create_response(true), Status::NoContent);
    assert_eq!(create_response(false), Status::ServerError);
}

#[test]
fn store_starts_empty() {
    let st = TaskStore::new();
    assert_eq!(st.len(), 0);
    assert_eq!(st.ids(), Vec::<u64>::new());
}

#[test]
fn insert_adds_one_record() {
    let mut st = TaskStore::new();
    let id = st.insert(new_task("Buy milk", Priority::Medium)).expect("insert succeeds");
    assert_eq!(st.len(), 1);
    assert!(st.contains_id(id));
    assert_eq!(st.get(id), Some(("Buy milk".to_string(), Priority::Medium)));
    assert_eq!(st.ids(), vec![id]);
}

#[test]
fn insert_assigns_fresh_ids() {
    let mut st = TaskStore::new();
    let a = st.insert(new_task("one", Priority::Low)).expect("insert succeeds");
    let b = st.insert(new_task("two", Priority::Low)).expect("insert succeeds");
    let c = st.insert(new_task("three", Priority::Critical)).expect("insert succeeds");
    assert_ne!(a, b);
    assert_ne!(a, c);
    assert_ne!(b, c);
    assert_eq!(st.len(), 3);
}

#[test]
fn delete_absent_id_leaves_collection_unchanged() {
    let mut st = TaskStore::new();
    let id = st.insert(new_task("keep me", Priority::High)).expect("insert succeeds");
    let absent = id + 1;
    assert!(!st.contains_id(absent));
    assert_eq!(st.delete_by_id(absent), 0);
    assert_eq!(st.len(), 1);
    assert_eq!(st.get(id), Some(("keep me".to_string(), Priority::High)));
}

#[test]
fn delete_present_id_removes_exactly_once() {
    let mut st = TaskStore::new();
    let keep = st.insert(new_task("keep", Priority::Low)).expect("insert succeeds");
    let id = st.insert(new_task("remove", Priority::High)).expect("insert succeeds");
    assert_eq!(st.delete_by_id(id), 1);
    assert!(!st.contains_id(id));
    assert_eq!(st.len(), 1);
    assert_eq!(st.delete_by_id(id), 0);
    assert_eq!(st.len(), 1);
    assert!(st.contains_id(keep));
}

#[test]
fn create_handler_rejects_missing_name_before_store() {
    let mut st = TaskStore::new();
    let r = create_task(&mut st, None, Some("Medium".to_string()));
    assert_eq!(r, Status::BadRequest);
    assert_eq!(r.code(), 400);
    assert_eq!(st.len(), 0);
}

#[test]
fn create_handler_rejects_empty_name_before_store() {
    let mut st = TaskStore::new();
    let r = create_task(&mut st, Some(String::new()), Some("Medium".to_string()));
    assert_eq!(r, Status::BadRequest);
    assert_eq!(st.len(), 0);
}

#[test]
fn create_handler_rejects_unknown_priority_before_store() {
    let mut st = TaskStore::new();
    let r = create_task(&mut st, Some("Buy milk".to_string()), Some("urgent".to_string()));
    assert_eq!(r, Status::BadRequest);
    assert_eq!(st.len(), 0);
}

#[test]
fn create_then_delete_then_delete_again() {
    let mut st = TaskStore::new();

    let r = create_task(&mut st, Some("Buy milk".to_string()), Some("Medium".to_string()));
    assert_eq!(r.code(), 204);
    assert_eq!(st.len(), 1);
    let ids = st.ids();
    assert_eq!(ids.len(), 1);
    let x = ids[0];
    assert_eq!(st.get(x), Some(("Buy milk".to_string(), Priority::Medium)));

    let r = delete_task(&mut st, x);
    assert_eq!(r.code(), 200);
    assert_eq!(st.len(), 0);

    let r = delete_task(&mut st, x);
    assert_eq!(r.code(), 404);
    assert_eq!(st.len(), 0);
}

#[test]
fn delete_handler_not_found_on_empty_store() {
    let mut st = TaskStore::new();
    let r = delete_task(&mut st, 7);
    assert_eq!(r, Status::NotFound);
    assert_eq!(r.code(), 404);
}
