use loco_mcp::ddd::{DddError, DddResult, EntityValidator, Identifier, QueryResult, SortOrder, Version};

#[test]
fn test_library_initialization() {
    assert!(true);
}

#[test]
fn test_library_imports() {
    let _result: DddResult<()> = Ok(());
    assert!(true);
}

#[test]
fn query_test_query_result() {
    let items = vec![1, 2, 3];
    let result = QueryResult::new(items).with_pagination(1, 10, 3);

    assert_eq!(result.len(), 3);
    assert_eq!(result.page, Some(1));
    assert_eq!(result.page_size, Some(10));
    assert_eq!(result.total_count, Some(3));
    assert!(!result.is_empty());
}

#[test]
fn integration_test_test_query_result() {
    let items = vec!["item1", "item2", "item3"];
    let result = QueryResult::new(items).with_pagination(1, 10, 3);

    assert_eq!(result.len(), 3);
    assert_eq!(result.page, Some(1));
    assert_eq!(result.page_size, Some(10));
    assert_eq!(result.total_count, Some(3));
    assert!(!result.is_empty());
}

#[test]
fn test_version() {
    let mut version = Version::new();
    assert_eq!(version.value(), 0);

    version.increment();
    assert_eq!(version.value(), 1);
}

#[test]
fn test_identifier_string() {
    let id = "test-id".to_string();
    let id_str = id.as_string();
    let parsed_id = <String as Identifier>::from_text(&id_str).unwrap();
    assert_eq!(id, parsed_id);
}

#[test]
fn empty_query_result_and_sort_order() {
    let r: QueryResult<u8> = QueryResult::new(Vec::new());
    assert!(r.is_empty());
    assert_eq!(r.len(), 0);
    assert_eq!(r.page, None);
    assert_ne!(SortOrder::Asc, SortOrder::Desc);
}

#[test]
fn version_default_and_order() {
    let a = Version::default();
    let mut b = Version::new();
    b.increment();
    b.increment();
    assert_eq!(a.value(), 0);
    assert_eq!(b.value(), 2);
    assert!(a < b);
}

fn validation_text(r: DddResult<()>) -> String {
    match r {
        Err(DddError::Validation(m)) => m,
        other => panic!("expected a validation error, got {:?}", other),
    }
}

#[test]
fn required_values() {
    assert!(EntityValidator::validate_required("name", Some("x")).is_ok());
    assert!(EntityValidator::validate_required("name", Some("  x  ")).is_ok());
    assert_eq!(validation_text(EntityValidator::validate_required("name", Some(" \t "))), "name is required");
    assert_eq!(validation_text(EntityValidator::validate_required("name", None)), "name is required");
    assert_eq!(validation_text(EntityValidator::check_required("title", Some(""))), "title is required");
    assert!(EntityValidator::check_required("title", Some("t")).is_ok());
}

#[test]
fn length_bounds() {
    assert!(EntityValidator::validate_length("name", "ab", 2, 100).is_ok());
    assert_eq!(
        validation_text(EntityValidator::validate_length("name", "a", 2, 100)),
        "name must be at least 2 characters"
    );
    assert_eq!(
        validation_text(EntityValidator::validate_length("name", "abcdef", 2, 5)),
        "name must be at most 5 characters"
    );
    // Lengths are counted in bytes.
    assert!(EntityValidator::validate_length("name", "日本", 6, 6).is_ok());
}

#[test]
fn email_validator() {
    assert!(EntityValidator::validate_email("john.doe@example.com").is_ok());
    assert_eq!(validation_text(EntityValidator::validate_email("john@localhost")), "Invalid email format");
}

#[test]
fn error_constructors_and_text() {
    assert!(matches!(DddError::validation("Test error"), DddError::Validation(_)));
    assert!(matches!(DddError::entity_not_found("test-id"), DddError::EntityNotFound(_)));
    assert!(matches!(DddError::aggregate_not_found("a-1"), DddError::AggregateNotFound(_)));
    assert!(matches!(DddError::repository("Test error"), DddError::Repository(_)));
    assert_eq!(DddError::validation("bad").to_text(), "Validation error: bad");
    assert_eq!(DddError::entity_not_found("7").to_text(), "Entity not found: 7");
}

use loco_mcp::ddd::BaseDomainService;

#[test]
fn domain_service_operations() {
    let mut svc = BaseDomainService::new("orders", vec!["create".to_string(), "cancel".to_string()]);
    assert_eq!(svc.name(), "orders");
    assert!(svc.can_handle("create"));
    assert!(!svc.can_handle("refund"));
    svc.add_handled_operation("refund");
    svc.add_handled_operation("create");
    assert!(svc.can_handle("refund"));
    svc.remove_handled_operation("create");
    assert!(!svc.can_handle("create"));
    assert!(svc.can_handle("cancel"));
    assert!(svc.can_handle("refund"));
}
