use sample_api::error::MetaEntry;
use sample_api::error::MetaValue;
use sample_api::model::SampleTranslation;
use sample_api::translation::duplicate;
use sample_api::translation::validate_unique_translation;
use sample_api::translation::Translation;
use sample_api::validation::ValidationError;

fn translated(language: &str, ordinal: i16) -> SampleTranslation {
    SampleTranslation {
        name: format!("name in {language}"),
        description: None,
        language: language.to_string(),
        ordinal,
    }
}

fn collision(index: i128, key: &str) -> ValidationError {
    ValidationError {
        code: "duplicate".to_string(),
        message: None,
        params: vec![
            MetaEntry { key: "index".to_string(), value: MetaValue::Integer(index) },
            MetaEntry { key: "key".to_string(), value: MetaValue::Text(key.to_string()) },
        ],
    }
}

#[test]
fn translation_gives_language_and_ordinal() {
    let translation = translated("en", 4);

    assert_eq!(translation.language(), "en");
    assert_eq!(translation.ordinal(), 4);
}

#[test]
fn no_translations_are_unique() {
    let none: Vec<SampleTranslation> = vec![];

    assert_eq!(validate_unique_translation(&none), Ok(()));
}

#[test]
fn translations_with_distinct_keys_are_unique() {
    let set = vec![translated("en", 1), translated("fr", 2), translated("de", 3)];

    assert_eq!(validate_unique_translation(&set), Ok(()));
}

#[test]
fn a_repeated_language_is_reported_with_its_index() {
    let set = vec![translated("en", 1), translated("fr", 2), translated("en", 3)];

    assert_eq!(validate_unique_translation(&set), Err(collision(2, "language")));
}

#[test]
fn a_repeated_ordinal_is_reported_with_its_index() {
    let set = vec![translated("en", 1), translated("fr", 1), translated("de", 3)];

    assert_eq!(validate_unique_translation(&set), Err(collision(1, "ordinal")));
}

#[test]
fn the_language_is_looked_at_before_the_ordinal() {
    let set = vec![translated("en", 1), translated("en", 1)];

    assert_eq!(validate_unique_translation(&set), Err(collision(1, "language")));
}

#[test]
fn only_the_first_collision_is_reported() {
    let set = vec![
        translated("en", 1),
        translated("fr", 2),
        translated("de", 2),
        translated("en", 4),
    ];

    assert_eq!(validate_unique_translation(&set), Err(collision(2, "ordinal")));
}

#[test]
fn a_collision_with_any_earlier_item_counts() {
    let set = vec![translated("en", 1), translated("fr", 2), translated("de", 3), translated("it", 1)];

    assert_eq!(validate_unique_translation(&set), Err(collision(3, "ordinal")));
}

#[test]
fn language_codes_are_compared_as_they_are_written() {
    let set = vec![translated("en", 1), translated("EN", 2)];

    assert_eq!(validate_unique_translation(&set), Ok(()));
}

#[test]
fn duplicate_builds_the_report_of_a_collision() {
    assert_eq!(duplicate(5, "ordinal"), collision(5, "ordinal"));
}
