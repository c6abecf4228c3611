use sample_api::error::id_not_found;
use sample_api::error::internal_server;
use sample_api::error::invalid_body;
use sample_api::error::invalid_parameter;
use sample_api::error::path_not_found;
use sample_api::error::required_body;
use sample_api::error::required_parameter;
use sample_api::error::single;
use sample_api::error::unauthorized;
use sample_api::error::version_conflict;
use sample_api::error::ErrorDetail;
use sample_api::error::ErrorResult;
use sample_api::error::ErrorSource;
use sample_api::error::MetaEntry;
use sample_api::error::MetaValue;

fn error_with(status: u16, id: Option<i64>, code: &str, source: ErrorSource) -> ErrorResult {
    ErrorResult { status, errors: vec![ErrorDetail { id, code: code.to_string(), source }] }
}

fn source_pointer(pointer: &str) -> ErrorSource {
    ErrorSource { pointer: Some(pointer.to_string()), parameter: None, header: None, meta: None }
}

fn source_parameter(parameter: &str) -> ErrorSource {
    ErrorSource { pointer: None, parameter: Some(parameter.to_string()), header: None, meta: None }
}

#[test]
fn internal_server_is_500_with_server_pointer() {
    assert_eq!(internal_server(), error_with(500, None, "server_internal", source_pointer("/server")));
}

#[test]
fn unauthorized_names_the_authorization_header() {
    let expected = error_with(
        500,
        None,
        "unauthorized",
        ErrorSource {
            pointer: None,
            parameter: None,
            header: Some("authorization".to_string()),
            meta: None,
        },
    );

    assert_eq!(unauthorized(), expected);
}

#[test]
fn required_body_points_at_the_body() {
    assert_eq!(required_body(), error_with(400, None, "required", source_pointer("/body")));
}

#[test]
fn invalid_body_points_at_the_body() {
    assert_eq!(invalid_body(), error_with(400, None, "invalid", source_pointer("/body")));
}

#[test]
fn required_parameter_names_the_parameter() {
    assert_eq!(required_parameter("id"), error_with(400, None, "required", source_parameter("id")));
}

#[test]
fn invalid_parameter_names_the_parameter() {
    assert_eq!(
        invalid_parameter("size".to_string()),
        error_with(400, None, "invalid", source_parameter("size"))
    );
}

#[test]
fn path_not_found_points_at_the_path() {
    assert_eq!(path_not_found(), error_with(404, None, "not_found", source_pointer("/path")));
}

#[test]
fn id_not_found_points_at_the_id_of_the_entity() {
    assert_eq!(
        id_not_found("sample", 42),
        error_with(404, Some(42), "not_found", source_pointer("/data/sample/id"))
    );
}

#[test]
fn version_conflict_carries_the_submitted_version() {
    let expected = error_with(
        409,
        Some(42),
        "version_conflict",
        ErrorSource {
            pointer: Some("/data/sample/version".to_string()),
            parameter: None,
            header: None,
            meta: Some(vec![MetaEntry {
                key: "version".to_string(),
                value: MetaValue::Integer(3),
            }]),
        },
    );

    assert_eq!(version_conflict("sample", 42, 3), expected);
}

#[test]
fn version_conflict_keeps_a_negative_version() {
    let result = version_conflict("order", -1, -7);

    assert_eq!(result.status, 409);
    assert_eq!(result.errors[0].id, Some(-1));
    assert_eq!(result.errors[0].source.pointer, Some("/data/order/version".to_string()));
    assert_eq!(
        result.errors[0].source.meta,
        Some(vec![MetaEntry { key: "version".to_string(), value: MetaValue::Integer(-7) }])
    );
}

#[test]
fn single_wraps_one_detail() {
    let detail = ErrorDetail { id: Some(1), code: "x".to_string(), source: source_pointer("/p") };
    let result = single(418, detail.clone());

    assert_eq!(result.status, 418);
    assert_eq!(result.errors, vec![detail]);
}
