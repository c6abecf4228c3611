use sample_api::classify::check_violation;
use sample_api::classify::database_error;
use sample_api::classify::foreign_key_violation;
use sample_api::classify::not_null_violation;
use sample_api::classify::other_violation;
use sample_api::classify::parse_detail;
use sample_api::classify::pointer_to;
use sample_api::classify::resource_error;
use sample_api::classify::unique_field_of;
use sample_api::classify::unique_violation;
use sample_api::classify::DatabaseFailure;
use sample_api::classify::StorageError;
use sample_api::classify::ViolationKind;
use sample_api::error::id_not_found;
use sample_api::error::internal_server;
use sample_api::error::version_conflict;

fn failure(kind: ViolationKind, table: Option<&str>, detail: Option<&str>) -> DatabaseFailure {
    DatabaseFailure {
        kind,
        table: table.map(|t| t.to_string()),
        column: None,
        constraint: None,
        detail: detail.map(|d| d.to_string()),
    }
}

fn outcome(status: u16, code: &str, pointer: &str) -> (u16, String, String) {
    (status, code.to_string(), pointer.to_string())
}

#[test]
fn unique_violation_points_at_the_violated_field() {
    let err = failure(
        ViolationKind::Unique,
        Some("sample"),
        Some("Key (name)=(Widget) already exists."),
    );

    assert_eq!(unique_violation(&err), outcome(409, "duplicate", "/data/sample/name"));
}

#[test]
fn unique_violation_takes_the_last_column_of_a_compound_key() {
    let err = failure(
        ViolationKind::Unique,
        Some("sample_translation"),
        Some("Key (id, language)=(1, en) already exists."),
    );

    assert_eq!(
        unique_violation(&err),
        outcome(409, "duplicate", "/data/sample_translation/language")
    );
}

#[test]
fn unique_violation_reads_an_index_on_the_lower_case_form() {
    let err = failure(
        ViolationKind::Unique,
        Some("sample"),
        Some("Key (lower(name::text))=(widget) already exists."),
    );

    assert_eq!(unique_violation(&err), outcome(409, "duplicate", "/data/sample/name"));
}

#[test]
fn unique_violation_writes_the_field_in_camel_case() {
    let err = failure(
        ViolationKind::Unique,
        Some("sample"),
        Some("Key (name, Language Code)=(a, b) already exists."),
    );

    assert_eq!(unique_violation(&err), outcome(409, "duplicate", "/data/sample/languageCode"));
}

#[test]
fn unique_violation_without_table_is_a_general_duplicate() {
    let err = failure(ViolationKind::Unique, None, Some("Key (name)=(Widget) already exists."));

    assert_eq!(unique_violation(&err), outcome(409, "duplicate", "/data"));
}

#[test]
fn unique_violation_without_detail_is_a_general_duplicate() {
    let err = failure(ViolationKind::Unique, Some("sample"), None);

    assert_eq!(unique_violation(&err), outcome(409, "duplicate", "/data"));
}

#[test]
fn unique_violation_with_unreadable_detail_is_a_general_duplicate() {
    let err = failure(ViolationKind::Unique, Some("sample"), Some("something else went wrong"));

    assert_eq!(unique_violation(&err), outcome(409, "duplicate", "/data"));
}

#[test]
fn unique_violation_reads_a_column_with_underscores_in_camel_case() {
    let err = failure(
        ViolationKind::Unique,
        Some("sample"),
        Some("Key (created_by)=(someone) already exists."),
    );

    assert_eq!(unique_violation(&err), outcome(409, "duplicate", "/data/sample/createdBy"));

    let err = failure(
        ViolationKind::Unique,
        Some("sample"),
        Some("Key (last_modified_by)=(u1) already exists."),
    );

    assert_eq!(unique_violation(&err), outcome(409, "duplicate", "/data/sample/lastModifiedBy"));
}

#[test]
fn unique_violation_reads_the_last_of_several_columns_with_underscores() {
    let err = failure(
        ViolationKind::Unique,
        Some("sample_translation"),
        Some("Key (sample_id, language_code)=(1, en) already exists."),
    );

    assert_eq!(
        unique_violation(&err),
        outcome(409, "duplicate", "/data/sample_translation/languageCode")
    );

    let err = failure(
        ViolationKind::Unique,
        Some("sample"),
        Some("Key (lower(display_name::text))=(widget) already exists."),
    );

    assert_eq!(unique_violation(&err), outcome(409, "duplicate", "/data/sample/displayName"));
}

#[test]
fn unique_violation_with_text_of_another_shape_is_a_general_duplicate() {
    for detail in ["", "Key ()=() already exists.", "Key (a-b)=(1) already exists.", "(name)=(x)"] {
        let err = failure(ViolationKind::Unique, Some("sample"), Some(detail));

        assert_eq!(unique_violation(&err), outcome(409, "duplicate", "/data"), "for {detail:?}");
    }
}

#[test]
fn unique_field_of_reads_the_detail_text() {
    assert_eq!(unique_field_of("Key (Name)=(x) already exists."), Some("name".to_string()));
    assert_eq!(unique_field_of("Key (a, b, Last One)=(x)"), Some("lastOne".to_string()));
    assert_eq!(unique_field_of("Key (last_modified_by)=(u1)"), Some("lastModifiedBy".to_string()));
    assert_eq!(unique_field_of("no key here"), None);
    assert_eq!(unique_field_of(""), None);
}

#[test]
fn pointer_to_needs_table_and_field() {
    let table = Some("sample".to_string());
    let field = Some("name".to_string());

    assert_eq!(pointer_to(&table, &field), "/data/sample/name");
    assert_eq!(pointer_to(&None, &field), "/data");
    assert_eq!(pointer_to(&table, &None), "/data");
    assert_eq!(pointer_to(&None, &None), "/data");
}

#[test]
fn foreign_key_violation_is_not_found_at_the_table() {
    let err = failure(ViolationKind::ForeignKey, Some("sample_translation"), None);

    assert_eq!(
        foreign_key_violation(&err),
        outcome(404, "not_found", "/data/sample_translation")
    );
    assert_eq!(
        foreign_key_violation(&failure(ViolationKind::ForeignKey, None, None)),
        outcome(404, "not_found", "/data")
    );
}

#[test]
fn not_null_violation_is_required_at_the_column() {
    let mut err = failure(ViolationKind::NotNull, Some("sample"), None);
    err.column = Some("created_by".to_string());

    assert_eq!(not_null_violation(&err), outcome(400, "required", "/data/sample/createdBy"));

    err.column = None;
    assert_eq!(not_null_violation(&err), outcome(400, "required", "/data"));
}

#[test]
fn check_violation_is_invalid_at_the_check() {
    let mut err = failure(ViolationKind::Check, Some("sample"), None);
    err.constraint = Some("amount_positive".to_string());

    assert_eq!(check_violation(&err), outcome(400, "invalid", "/data/sample/amountPositive"));

    err.table = None;
    assert_eq!(check_violation(&err), outcome(400, "invalid", "/data"));
}

#[test]
fn other_violation_is_an_internal_error() {
    let err = failure(ViolationKind::Other, Some("sample"), Some("deadlock detected"));

    assert_eq!(other_violation(&err), outcome(500, "server_internal", "/server"));
}

#[test]
fn parse_detail_goes_by_the_kind_of_violation() {
    let unique = failure(
        ViolationKind::Unique,
        Some("sample"),
        Some("Key (name)=(Widget) already exists."),
    );
    let (status, detail) = parse_detail(&unique);

    assert_eq!(status, 409);
    assert_eq!(detail.id, None);
    assert_eq!(detail.code, "duplicate");
    assert_eq!(detail.source.pointer, Some("/data/sample/name".to_string()));
    assert_eq!(detail.source.parameter, None);
    assert_eq!(detail.source.header, None);
    assert_eq!(detail.source.meta, None);

    let (status, detail) = parse_detail(&failure(ViolationKind::ForeignKey, Some("t"), None));
    assert_eq!((status, detail.code.as_str()), (404, "not_found"));

    let (status, detail) = parse_detail(&failure(ViolationKind::NotNull, None, None));
    assert_eq!((status, detail.code.as_str()), (400, "required"));

    let (status, detail) = parse_detail(&failure(ViolationKind::Check, None, None));
    assert_eq!((status, detail.code.as_str()), (400, "invalid"));

    let (status, detail) = parse_detail(&failure(ViolationKind::Other, None, None));
    assert_eq!((status, detail.code.as_str()), (500, "server_internal"));
    assert_eq!(detail.source.pointer, Some("/server".to_string()));
}

#[test]
fn database_error_classifies_a_refused_statement() {
    let err = StorageError::Database(failure(
        ViolationKind::Unique,
        Some("sample"),
        Some("Key (name)=(Widget) already exists."),
    ));
    let result = database_error(err);

    assert_eq!(result.status, 409);
    assert_eq!(result.errors.len(), 1);
    assert_eq!(result.errors[0].code, "duplicate");
    assert_eq!(result.errors[0].source.pointer, Some("/data/sample/name".to_string()));
}

#[test]
fn database_error_hides_every_other_failure() {
    assert_eq!(database_error(StorageError::Other), internal_server());
    assert_eq!(database_error(StorageError::RowNotFound), internal_server());
}

#[test]
fn resource_error_of_a_missing_row_on_a_read_is_not_found() {
    assert_eq!(
        resource_error("sample", 7, None, StorageError::RowNotFound),
        id_not_found("sample", 7)
    );
}

#[test]
fn resource_error_of_a_missing_row_on_a_conditioned_write_is_a_conflict() {
    assert_eq!(
        resource_error("sample", 7, Some(3), StorageError::RowNotFound),
        version_conflict("sample", 7, 3)
    );
}

#[test]
fn resource_error_of_any_other_failure_is_classified() {
    assert_eq!(resource_error("sample", 7, Some(3), StorageError::Other), internal_server());

    let refused = StorageError::Database(failure(ViolationKind::ForeignKey, Some("sample"), None));
    let result = resource_error("sample", 7, None, refused);

    assert_eq!(result.status, 404);
    assert_eq!(result.errors[0].id, None);
    assert_eq!(result.errors[0].source.pointer, Some("/data/sample".to_string()));
}
