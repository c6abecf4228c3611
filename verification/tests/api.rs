use sample_api::api::create;
use sample_api::api::delete;
use sample_api::api::get;
use sample_api::api::page;
use sample_api::api::seek;
use sample_api::api::update;
use sample_api::error::id_not_found;
use sample_api::error::invalid_body;
use sample_api::error::required_body;
use sample_api::error::required_parameter;
use sample_api::error::unauthorized;
use sample_api::error::version_conflict;
use sample_api::error::ErrorDetail;
use sample_api::error::ErrorResult;
use sample_api::error::ErrorSource;
use sample_api::error::MetaEntry;
use sample_api::error::MetaValue;
use sample_api::model::Amount;
use sample_api::model::SampleRequest;
use sample_api::model::SampleTranslation;
use sample_api::request::get_user_id;
use sample_api::request::path_param;
use sample_api::request::query_version;
use sample_api::request::validate_payload;
use sample_api::request::Payload;
use sample_api::service::SampleService;
use sample_api::validation::FieldEntry;
use sample_api::validation::ValidationError;
use sample_api::validation::ValidationErrors;
use sample_api::validation::ValidationErrorsKind;

fn label(language: &str, name: &str, ordinal: i16) -> SampleTranslation {
    SampleTranslation {
        name: name.to_string(),
        description: None,
        language: language.to_string(),
        ordinal,
    }
}

fn widget(translations: Vec<SampleTranslation>) -> SampleRequest {
    SampleRequest {
        name: "Widget".to_string(),
        description: None,
        amount: Amount { mantissa: 1234, scale: 2 },
        translations,
    }
}

fn caller() -> Option<String> {
    Some("user-1".to_string())
}

fn duplicate_at(index: i128, key: &str) -> ErrorResult {
    ErrorResult {
        status: 400,
        errors: vec![ErrorDetail {
            id: None,
            code: "duplicate".to_string(),
            source: ErrorSource {
                pointer: Some("/body/translations".to_string()),
                parameter: None,
                header: None,
                meta: Some(vec![
                    MetaEntry { key: "index".to_string(), value: MetaValue::Integer(index) },
                    MetaEntry { key: "key".to_string(), value: MetaValue::Text(key.to_string()) },
                ]),
            },
        }],
    }
}

#[test]
fn create_then_update_with_a_duplicate_ordinal_is_rejected_before_storage() {
    let mut service = SampleService::new();
    let created = create(
        &mut service,
        caller(),
        Payload::Given(widget(vec![label("en", "Widget", 1)])),
        1000,
    );
    let (status, detail) = created.unwrap();

    assert_eq!(status, 201);
    assert_eq!(detail.id, 1);
    assert_eq!(detail.name, "Widget");
    assert_eq!(detail.amount, Amount { mantissa: 1234, scale: 2 });
    assert_eq!(detail.version, 1);
    assert_eq!(detail.translations, Some(vec![label("en", "Widget", 1)]));

    let before = service.clone();
    let rejected = update(
        &mut service,
        caller(),
        Some(detail.id),
        Payload::Given(widget(vec![label("en", "Widget", 1), label("fr", "Bidule", 1)])),
        Some(detail.version),
        2000,
    );

    assert_eq!(rejected, Err(duplicate_at(1, "ordinal")));
    assert_eq!(service, before);
    assert_eq!(service.get(1, false, &None).unwrap().version, 1);
}

#[test]
fn create_with_a_duplicate_language_is_rejected_before_storage() {
    let mut service = SampleService::new();
    let rejected = create(
        &mut service,
        caller(),
        Payload::Given(widget(vec![label("en", "a", 1), label("fr", "b", 2), label("en", "c", 3)])),
        1000,
    );

    assert_eq!(rejected, Err(duplicate_at(2, "language")));
    assert_eq!(service, SampleService::new());
}

#[test]
fn create_checks_the_caller_before_the_body() {
    let mut service = SampleService::new();

    assert_eq!(create(&mut service, None, Payload::Missing, 1), Err(unauthorized()));
    assert_eq!(create(&mut service, caller(), Payload::Missing, 1), Err(required_body()));
    assert_eq!(create(&mut service, caller(), Payload::Invalid, 1), Err(invalid_body()));
    assert_eq!(service, SampleService::new());
}

#[test]
fn update_checks_caller_id_body_and_version_in_that_order() {
    let mut service = SampleService::new();
    create(&mut service, caller(), Payload::Given(widget(vec![])), 1).unwrap();
    let before = service.clone();
    let invalid = || Payload::Given(widget(vec![label("en", "a", 1), label("en", "b", 2)]));
    let valid = || Payload::Given(widget(vec![label("en", "a", 1)]));

    assert_eq!(update(&mut service, None, None, invalid(), None, 2), Err(unauthorized()));
    assert_eq!(
        update(&mut service, caller(), None, invalid(), None, 2),
        Err(required_parameter("id"))
    );
    assert_eq!(
        update(&mut service, caller(), Some(1), Payload::Missing, None, 2),
        Err(required_body())
    );
    assert_eq!(
        update(&mut service, caller(), Some(1), invalid(), None, 2),
        Err(duplicate_at(1, "language"))
    );
    assert_eq!(
        update(&mut service, caller(), Some(1), valid(), None, 2),
        Err(required_parameter("version"))
    );
    assert_eq!(service, before);

    let (status, detail) = update(&mut service, caller(), Some(1), valid(), Some(1), 2).unwrap();
    assert_eq!(status, 201);
    assert_eq!(detail.version, 2);
    assert_eq!(service.repository.rows[0].last_modified_by, "user-1");
}

#[test]
fn update_reports_conflict_and_unknown_id() {
    let mut service = SampleService::new();
    create(&mut service, caller(), Payload::Given(widget(vec![])), 1).unwrap();

    assert_eq!(
        update(&mut service, caller(), Some(1), Payload::Given(widget(vec![])), Some(5), 2),
        Err(version_conflict("sample", 1, 5))
    );
    assert_eq!(
        update(&mut service, caller(), Some(8), Payload::Given(widget(vec![])), Some(1), 2),
        Err(id_not_found("sample", 8))
    );
}

#[test]
fn delete_checks_caller_id_and_version_then_deletes() {
    let mut service = SampleService::new();
    create(&mut service, caller(), Payload::Given(widget(vec![])), 1).unwrap();

    assert_eq!(delete(&mut service, None, Some(1), Some(1), 2), Err(unauthorized()));
    assert_eq!(delete(&mut service, caller(), None, Some(1), 2), Err(required_parameter("id")));
    assert_eq!(
        delete(&mut service, caller(), Some(1), None, 2),
        Err(required_parameter("version"))
    );
    assert_eq!(delete(&mut service, caller(), Some(1), Some(1), 2), Ok((204, ())));
    assert_eq!(service.repository.rows[0].deleted_by, Some("user-1".to_string()));
    assert_eq!(
        delete(&mut service, caller(), Some(1), Some(1), 3),
        Err(version_conflict("sample", 1, 1))
    );
    assert_eq!(
        delete(&mut service, caller(), Some(2), Some(1), 3),
        Err(id_not_found("sample", 2))
    );
}

#[test]
fn get_answers_with_the_sample_and_all_translations() {
    let mut service = SampleService::new();
    let translations = vec![label("en", "Widget", 1), label("fr", "Bidule", 2)];
    create(&mut service, caller(), Payload::Given(widget(translations.clone())), 1).unwrap();

    let (status, detail) = get(&service, Some(1), Some("fr".to_string())).unwrap();

    assert_eq!(status, 200);
    assert_eq!(detail.name, "Widget");
    assert_eq!(detail.translations, Some(translations));
    assert_eq!(get(&service, None, None), Err(required_parameter("id")));
    assert_eq!(get(&service, Some(4), None), Err(id_not_found("sample", 4)));
}

#[test]
fn page_and_seek_answer_with_status_200() {
    let mut service = SampleService::new();
    for instant in 1..=4 {
        create(&mut service, caller(), Payload::Given(widget(vec![])), instant).unwrap();
    }

    let (status, listing) = page(&service, None, Some(2), Some(3)).unwrap();
    assert_eq!(status, 200);
    assert_eq!((listing.page, listing.size, listing.total), (2, 3, 4));
    assert_eq!(listing.data.len(), 1);

    let (status, found) =
        seek(&service, None, Some("widg".to_string()), Some(2), None, None).unwrap();
    assert_eq!(status, 200);
    assert_eq!(found.data.len(), 2);
    assert_eq!((found.created_at, found.id), (Some(3), Some(3)));

    let (_, rest) = seek(
        &service,
        None,
        None,
        Some(2),
        Some("1970-01-01T00:00:00.000000003Z"),
        Some(3),
    )
    .unwrap();
    let ids: Vec<i64> = rest.data.iter().map(|row| row.id).collect();
    assert_eq!(ids, vec![2, 1]);
    assert_eq!((rest.created_at, rest.id), (None, None));
}

#[test]
fn request_parts_are_passed_on_or_reported() {
    assert_eq!(get_user_id(Some("u".to_string())), Ok("u".to_string()));
    assert_eq!(get_user_id(None), Err(unauthorized()));
    assert_eq!(path_param("id", Some(5i64)), Ok(5));
    assert_eq!(path_param::<i64>("id", None), Err(required_parameter("id")));
    assert_eq!(query_version(Some(3)), Ok(3));
    assert_eq!(query_version(None), Err(required_parameter("version")));
}

#[test]
fn validate_payload_reports_what_is_wrong_with_the_body() {
    let errors = ValidationErrors {
        entries: vec![FieldEntry {
            field: "name".to_string(),
            kind: ValidationErrorsKind::Field(vec![ValidationError {
                code: "length".to_string(),
                message: None,
                params: vec![],
            }]),
        }],
    };

    assert_eq!(validate_payload(Payload::Given(1), Ok(())), Ok(1));
    assert_eq!(validate_payload(Payload::<i32>::Missing, Ok(())), Err(required_body()));
    assert_eq!(validate_payload(Payload::<i32>::Invalid, Ok(())), Err(invalid_body()));

    let empty = ValidationErrors { entries: vec![] };
    assert_eq!(validate_payload(Payload::Given(1), Err(empty)), Err(invalid_body()));

    let rejected = validate_payload(Payload::Given(1), Err(errors)).unwrap_err();
    assert_eq!(rejected.status, 400);
    assert_eq!(rejected.errors.len(), 1);
    assert_eq!(rejected.errors[0].code, "length");
    assert_eq!(rejected.errors[0].source.pointer, Some("/body/name".to_string()));
}
