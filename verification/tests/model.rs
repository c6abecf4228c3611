use sample_api::error::ErrorDetail;
use sample_api::error::ErrorResult;
use sample_api::error::ErrorSource;
use sample_api::error::MetaEntry;
use sample_api::error::MetaValue;
use sample_api::model::copy_text;
use sample_api::model::copy_translations;
use sample_api::model::translations_binds;
use sample_api::model::Amount;
use sample_api::model::SampleList;
use sample_api::model::SampleRequest;
use sample_api::model::SampleTranslation;
use sample_api::model::SampleTranslationsBinds;
use sample_api::seek::Seekable;
use sample_api::validation::validate;

fn translation(name: &str, description: Option<&str>, language: &str, ordinal: i16) -> SampleTranslation {
    SampleTranslation {
        name: name.to_string(),
        description: description.map(|d| d.to_string()),
        language: language.to_string(),
        ordinal,
    }
}

fn three_translations() -> Vec<SampleTranslation> {
    vec![
        translation("Widget", Some("a thing"), "en", 1),
        translation("Bidule", None, "fr", 2),
        translation("Dings", Some("ein Ding"), "de", 3),
    ]
}

fn three_binds() -> SampleTranslationsBinds {
    SampleTranslationsBinds {
        names: vec!["Widget".to_string(), "Bidule".to_string(), "Dings".to_string()],
        descriptions: vec![Some("a thing".to_string()), None, Some("ein Ding".to_string())],
        languages: vec!["en".to_string(), "fr".to_string(), "de".to_string()],
        ordinals: vec![1, 2, 3],
    }
}

#[test]
fn translations_binds_splits_into_columns() {
    assert_eq!(translations_binds(three_translations()), three_binds());
}

#[test]
fn translations_binds_of_nothing_has_empty_columns() {
    let binds = translations_binds(vec![]);

    assert_eq!(
        binds,
        SampleTranslationsBinds {
            names: vec![],
            descriptions: vec![],
            languages: vec![],
            ordinals: vec![],
        }
    );
}

#[test]
fn binds_from_translations_splits_into_columns() {
    assert_eq!(SampleTranslationsBinds::from(three_translations()), three_binds());
}

#[test]
fn copies_are_equal_to_what_they_copy() {
    let translations = three_translations();

    assert_eq!(translations[0].copy(), translations[0]);
    assert_eq!(copy_translations(&translations), translations);
    assert_eq!(copy_text(&Some("x".to_string())), Some("x".to_string()));
    assert_eq!(copy_text(&None), None);
}

#[test]
fn a_listed_sample_is_sought_by_creation_instant_and_id() {
    let row = SampleList {
        id: 12,
        name: "Widget".to_string(),
        description: None,
        amount: Amount { mantissa: 1234, scale: 2 },
        created_at: 99,
    };

    assert_eq!(row.created_at(), 99);
    assert_eq!(row.id(), 12);
}

fn request_with(translations: Vec<SampleTranslation>) -> SampleRequest {
    SampleRequest {
        name: "Widget".to_string(),
        description: None,
        amount: Amount { mantissa: 1234, scale: 2 },
        translations,
    }
}

#[test]
fn a_request_with_unique_translations_is_valid() {
    assert_eq!(request_with(three_translations()).validate(), Ok(()));
    assert_eq!(request_with(vec![]).validate(), Ok(()));
}

#[test]
fn a_request_with_a_repeated_ordinal_is_rejected_at_the_translations() {
    let mut translations = three_translations();
    translations.push(translation("Cosa", None, "it", 2));
    let request = request_with(translations);
    let outcome = request.validate();

    let expected = ErrorResult {
        status: 400,
        errors: vec![ErrorDetail {
            id: None,
            code: "duplicate".to_string(),
            source: ErrorSource {
                pointer: Some("/body/translations".to_string()),
                parameter: None,
                header: None,
                meta: Some(vec![
                    MetaEntry { key: "index".to_string(), value: MetaValue::Integer(3) },
                    MetaEntry { key: "key".to_string(), value: MetaValue::Text("ordinal".to_string()) },
                ]),
            },
        }],
    };

    assert_eq!(validate(request, outcome), Err(expected));
}

#[test]
fn a_request_with_a_repeated_language_is_rejected_at_the_translations() {
    let mut translations = three_translations();
    translations.insert(1, translation("Gadget", None, "en", 9));
    let result = validate(0, request_with(translations).validate());
    let error = result.unwrap_err();

    assert_eq!(error.status, 400);
    assert_eq!(error.errors.len(), 1);
    assert_eq!(
        error.errors[0].source.meta,
        Some(vec![
            MetaEntry { key: "index".to_string(), value: MetaValue::Integer(1) },
            MetaEntry { key: "key".to_string(), value: MetaValue::Text("language".to_string()) },
        ])
    );
}

#[test]
fn amounts_from_one_hundredth_to_the_largest_are_in_range() {
    let in_range = [(1234, 2), (1, 2), (1, 0), (99_999_999_999, 2), (999_999_999, 0), (10, 3), (5, 1)];
    let out_of_range = [(0, 0), (0, 2), (9, 3), (-1234, 2), (100_000_000_000, 2), (1_000_000_000, 0), (999_999_999_991, 3)];

    for (mantissa, scale) in in_range {
        assert!(Amount { mantissa, scale }.in_range(), "{mantissa}e-{scale}");
    }
    for (mantissa, scale) in out_of_range {
        assert!(!Amount { mantissa, scale }.in_range(), "{mantissa}e-{scale}");
    }
}

#[test]
fn amounts_at_the_largest_scale_are_compared_exactly() {
    let hundredth = 10i128.pow(26);

    assert!(Amount { mantissa: hundredth, scale: 28 }.in_range());
    assert!(!Amount { mantissa: hundredth - 1, scale: 28 }.in_range());
    assert!(Amount { mantissa: (1i128 << 96) - 1, scale: 28 }.in_range());
    assert!(Amount { mantissa: 99_999_999_999 * 10i128.pow(17), scale: 19 }.in_range());
    assert!(!Amount { mantissa: 99_999_999_999 * 10i128.pow(17) + 1, scale: 19 }.in_range());
}

#[test]
fn amounts_that_are_not_well_formed_are_out_of_range() {
    assert!(!Amount { mantissa: 1, scale: 29 }.in_range());
    assert!(!Amount { mantissa: 1i128 << 96, scale: 28 }.in_range());
    assert!(!Amount { mantissa: i128::MAX, scale: 0 }.in_range());
    assert!(!Amount { mantissa: i128::MIN, scale: 0 }.in_range());
}
