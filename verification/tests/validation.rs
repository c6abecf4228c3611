use sample_api::error::invalid_body;
use sample_api::error::ErrorDetail;
use sample_api::error::ErrorResult;
use sample_api::error::ErrorSource;
use sample_api::error::MetaEntry;
use sample_api::error::MetaValue;
use sample_api::validation::item_field_name;
use sample_api::validation::map_error_detail;
use sample_api::validation::map_field_errors;
use sample_api::validation::map_list_errors;
use sample_api::validation::map_struct_errors;
use sample_api::validation::map_validation_error;
use sample_api::validation::validate;
use sample_api::validation::FieldEntry;
use sample_api::validation::ListEntry;
use sample_api::validation::ValidationError;
use sample_api::validation::ValidationErrors;
use sample_api::validation::ValidationErrorsKind;

fn entry(key: &str, value: MetaValue) -> MetaEntry {
    MetaEntry { key: key.to_string(), value }
}

fn failed(code: &str, params: Vec<MetaEntry>) -> ValidationError {
    ValidationError { code: code.to_string(), message: None, params }
}

fn reported(code: &str, pointer: &str, meta: Option<Vec<MetaEntry>>) -> ErrorDetail {
    ErrorDetail {
        id: None,
        code: code.to_string(),
        source: ErrorSource {
            pointer: Some(pointer.to_string()),
            parameter: None,
            header: None,
            meta,
        },
    }
}

fn field(name: &str, errors: Vec<ValidationError>) -> FieldEntry {
    FieldEntry { field: name.to_string(), kind: ValidationErrorsKind::Field(errors) }
}

fn length_error() -> ValidationError {
    failed(
        "length",
        vec![
            entry("min", MetaValue::Integer(1)),
            entry("value", MetaValue::Text(String::new())),
            entry("max", MetaValue::Integer(100)),
        ],
    )
}

fn length_meta() -> Option<Vec<MetaEntry>> {
    Some(vec![entry("min", MetaValue::Integer(1)), entry("max", MetaValue::Integer(100))])
}

#[test]
fn error_detail_leaves_out_the_rejected_value() {
    let detail = map_error_detail("/body/name", &length_error());

    assert_eq!(detail, reported("length", "/body/name", length_meta()));
}

#[test]
fn error_detail_without_parameters_has_no_meta() {
    let detail = map_error_detail("/body/name", &failed("required", vec![]));

    assert_eq!(detail, reported("required", "/body/name", None));
}

#[test]
fn error_detail_with_only_the_value_has_no_meta() {
    let error = failed("required", vec![entry("value", MetaValue::Json("null".to_string()))]);

    assert_eq!(map_error_detail("/p", &error), reported("required", "/p", None));
}

#[test]
fn field_errors_point_into_the_body() {
    let errors = vec![length_error(), failed("required", vec![])];

    assert_eq!(
        map_field_errors("name", &errors),
        vec![
            reported("length", "/body/name", length_meta()),
            reported("required", "/body/name", None),
        ]
    );
    assert_eq!(map_field_errors("name", &vec![]), vec![]);
}

#[test]
fn struct_errors_report_the_fields_of_the_structure() {
    let nested = ValidationErrors {
        entries: vec![
            field("street", vec![failed("required", vec![])]),
            FieldEntry {
                field: "deeper".to_string(),
                kind: ValidationErrorsKind::Struct(Box::new(ValidationErrors {
                    entries: vec![field("hidden", vec![failed("required", vec![])])],
                })),
            },
            field("city", vec![length_error()]),
        ],
    };

    assert_eq!(
        map_struct_errors(&nested),
        vec![
            reported("required", "/body/street", None),
            reported("length", "/body/city", length_meta()),
        ]
    );
}

#[test]
fn item_field_name_joins_field_index_and_key() {
    assert_eq!(item_field_name("translations", 0, "name"), "translations/0/name");
    assert_eq!(item_field_name("translations", 12, "language"), "translations/12/language");
}

#[test]
fn list_errors_point_at_the_item_and_its_field() {
    let items = vec![
        ListEntry {
            index: 0,
            errors: Box::new(ValidationErrors {
                entries: vec![field("name", vec![length_error()])],
            }),
        },
        ListEntry {
            index: 10,
            errors: Box::new(ValidationErrors {
                entries: vec![
                    field("language", vec![failed("length", vec![])]),
                    field("ordinal", vec![failed("range", vec![entry("min", MetaValue::Integer(1))])]),
                ],
            }),
        },
    ];

    assert_eq!(
        map_list_errors("translations", &items),
        vec![
            reported("length", "/body/translations/0/name", length_meta()),
            reported("length", "/body/translations/10/language", None),
            reported(
                "range",
                "/body/translations/10/ordinal",
                Some(vec![entry("min", MetaValue::Integer(1))])
            ),
        ]
    );
}

fn mixed_errors() -> ValidationErrors {
    ValidationErrors {
        entries: vec![
            field("name", vec![length_error()]),
            FieldEntry {
                field: "translations".to_string(),
                kind: ValidationErrorsKind::List(vec![ListEntry {
                    index: 1,
                    errors: Box::new(ValidationErrors {
                        entries: vec![field("language", vec![failed("length", vec![])])],
                    }),
                }]),
            },
            FieldEntry {
                field: "owner".to_string(),
                kind: ValidationErrorsKind::Struct(Box::new(ValidationErrors {
                    entries: vec![field("email", vec![failed("email", vec![])])],
                })),
            },
        ],
    }
}

fn mixed_details() -> Vec<ErrorDetail> {
    vec![
        reported("length", "/body/name", length_meta()),
        reported("length", "/body/translations/1/language", None),
        reported("email", "/body/email", None),
    ]
}

#[test]
fn validation_errors_are_reported_field_by_field() {
    assert_eq!(map_validation_error(&mixed_errors()), mixed_details());
    assert_eq!(map_validation_error(&ValidationErrors { entries: vec![] }), vec![]);
}

#[test]
fn validate_passes_a_value_that_met_the_rules() {
    assert_eq!(validate(17, Ok(())), Ok(17));
}

#[test]
fn validate_rejects_a_value_that_failed_a_rule() {
    assert_eq!(
        validate("value", Err(mixed_errors())),
        Err(ErrorResult { status: 400, errors: mixed_details() })
    );
}

#[test]
fn validate_rejects_with_a_general_detail_where_nothing_can_be_reported() {
    let nothing = ValidationErrors { entries: vec![] };
    let only_nested = ValidationErrors {
        entries: vec![
            FieldEntry {
                field: "owner".to_string(),
                kind: ValidationErrorsKind::Struct(Box::new(ValidationErrors {
                    entries: vec![FieldEntry {
                        field: "address".to_string(),
                        kind: ValidationErrorsKind::Struct(Box::new(ValidationErrors {
                            entries: vec![field("street", vec![failed("required", vec![])])],
                        })),
                    }],
                })),
            },
            field("name", vec![]),
            FieldEntry { field: "items".to_string(), kind: ValidationErrorsKind::List(vec![]) },
        ],
    };

    assert_eq!(validate(1, Err(nothing)), Err(invalid_body()));
    assert_eq!(validate(1, Err(only_nested)), Err(invalid_body()));
    assert_eq!(invalid_body().errors.len(), 1);
}
