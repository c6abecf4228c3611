use sample_api::error::id_not_found;
use sample_api::error::internal_server;
use sample_api::error::version_conflict;
use sample_api::model::Amount;
use sample_api::model::SampleRequest;
use sample_api::model::SampleSeekFilter;
use sample_api::model::SampleTranslation;
use sample_api::page::PageRequest;
use sample_api::seek::SeekRequest;
use sample_api::service::SampleService;

fn phrase(language: &str, name: &str, ordinal: i16) -> SampleTranslation {
    SampleTranslation {
        name: name.to_string(),
        description: None,
        language: language.to_string(),
        ordinal,
    }
}

fn asked(name: &str, translations: Vec<SampleTranslation>) -> SampleRequest {
    SampleRequest {
        name: name.to_string(),
        description: None,
        amount: Amount { mantissa: 500, scale: 2 },
        translations,
    }
}

fn service_with(count: i64) -> SampleService {
    let mut service = SampleService::new();
    for i in 1..=count {
        let name = format!("sample {i}");
        service
            .create(asked(&name, vec![phrase("en", &name, 1)]), "maker".to_string(), 10 * i as i128)
            .unwrap();
    }
    service
}

fn everything() -> SampleSeekFilter {
    SampleSeekFilter { language: None, query: None }
}

#[test]
fn create_stores_the_sample_with_its_translations() {
    let mut service = SampleService::new();
    let translations = vec![phrase("en", "Widget", 1), phrase("fr", "Bidule", 2)];
    let detail = service
        .create(asked("Widget", translations.clone()), "maker".to_string(), 1000)
        .unwrap();

    assert_eq!(detail.id, 1);
    assert_eq!(detail.version, 1);
    assert_eq!(detail.name, "Widget");
    assert_eq!(detail.created_at, 1000);
    assert_eq!(detail.translations, Some(translations.clone()));
    assert_eq!(service.repository.list_translations(1), Ok(translations));
}

#[test]
fn create_with_a_repeated_language_stores_nothing() {
    let mut service = service_with(1);
    let before = service.clone();
    let result = service.create(
        asked("Widget", vec![phrase("en", "a", 1), phrase("en", "b", 2)]),
        "maker".to_string(),
        1000,
    );
    let error = result.unwrap_err();

    assert_eq!(error.status, 409);
    assert_eq!(error.errors[0].code, "duplicate");
    assert_eq!(service, before);
}

#[test]
fn get_lists_the_translations_unless_translated() {
    let mut service = SampleService::new();
    let translations = vec![phrase("en", "Widget", 2), phrase("fr", "Bidule", 1)];
    service.create(asked("Thing", translations.clone()), "maker".to_string(), 1000).unwrap();

    let full = service.get(1, false, &Some("fr".to_string())).unwrap();
    assert_eq!(full.name, "Thing");
    assert_eq!(full.translations, Some(translations));

    let translated = service.get(1, true, &Some("en".to_string())).unwrap();
    assert_eq!(translated.name, "Widget");
    assert_eq!(translated.translations, None);

    let by_ordinal = service.get(1, true, &Some("de".to_string())).unwrap();
    assert_eq!(by_ordinal.name, "Bidule");

    assert_eq!(service.get(2, false, &None), Err(id_not_found("sample", 2)));
    assert_eq!(service.get(2, true, &None), Err(id_not_found("sample", 2)));
}

#[test]
fn update_with_the_stored_version_raises_it_by_one_and_then_conflicts() {
    let mut service = service_with(2);

    let updated = service
        .update(2, asked("renamed", vec![phrase("en", "renamed", 1)]), 1, "editor".to_string(), 500)
        .unwrap();
    assert_eq!(updated.version, 2);
    assert_eq!(updated.name, "renamed");
    assert_eq!(service.get(2, false, &None).unwrap().version, 2);

    let before = service.clone();
    let stale = service.update(2, asked("again", vec![]), 1, "editor".to_string(), 600);
    assert_eq!(stale, Err(version_conflict("sample", 2, 1)));
    assert_eq!(service, before);

    let next = service.update(2, asked("again", vec![]), 2, "editor".to_string(), 700).unwrap();
    assert_eq!(next.version, 3);
}

#[test]
fn delete_with_the_stored_version_raises_it_by_one_and_then_conflicts() {
    let mut service = service_with(1);

    assert_eq!(service.delete(1, 1, "remover".to_string(), 500), Ok(()));
    assert_eq!(service.repository.rows[0].version, 2);
    assert_eq!(service.get(1, false, &None), Err(id_not_found("sample", 1)));
    assert_eq!(
        service.delete(1, 1, "remover".to_string(), 600),
        Err(version_conflict("sample", 1, 1))
    );
}

#[test]
fn update_and_delete_of_an_unknown_id_are_not_found() {
    let mut service = service_with(1);

    assert_eq!(
        service.update(9, asked("x", vec![]), 1, "editor".to_string(), 500),
        Err(id_not_found("sample", 9))
    );
    assert_eq!(service.delete(9, 1, "remover".to_string(), 500), Err(id_not_found("sample", 9)));
    assert_eq!(
        service.update(9, asked("x", vec![]), 0, "editor".to_string(), 500).unwrap_err().errors[0]
            .code,
        "not_found"
    );
}

#[test]
fn update_reconciles_the_translations_to_the_desired_set() {
    let mut service = SampleService::new();
    service
        .create(
            asked("Widget", vec![phrase("en", "Widget", 1), phrase("fr", "Bidule", 2), phrase("de", "Dings", 3)]),
            "maker".to_string(),
            100,
        )
        .unwrap();

    let desired = vec![phrase("de", "Teil", 1), phrase("es", "Cosa", 2)];
    let updated = service
        .update(1, asked("Widget", desired.clone()), 1, "editor".to_string(), 200)
        .unwrap();

    assert_eq!(updated.translations, Some(desired));
    assert_eq!(
        service.repository.list_translations(1),
        Ok(vec![phrase("de", "Teil", 1), phrase("es", "Cosa", 2)])
    );
}

#[test]
fn update_with_a_repeated_language_writes_nothing() {
    let mut service = service_with(1);
    let before = service.clone();
    let result = service.update(
        1,
        asked("renamed", vec![phrase("fr", "a", 1), phrase("fr", "b", 2)]),
        1,
        "editor".to_string(),
        500,
    );

    assert_eq!(result, Err(internal_server()));
    assert_eq!(service, before);
    assert_eq!(service.get(1, false, &None).unwrap().name, "sample 1");
}

#[test]
fn seek_pages_have_at_most_size_rows_and_a_cursor_while_more_follow() {
    let service = service_with(7);
    let filter = everything();

    let first = service.seek(&filter, &SeekRequest::new(Some(3), None, None)).unwrap();
    let ids: Vec<i64> = first.data.iter().map(|row| row.id).collect();
    assert_eq!(ids, vec![7, 6, 5]);
    assert_eq!(first.size, 3);
    assert_eq!((first.created_at, first.id), (Some(50), Some(5)));

    let second = service.seek(&filter, &SeekRequest::new(Some(3), first.created_at, first.id)).unwrap();
    let ids: Vec<i64> = second.data.iter().map(|row| row.id).collect();
    assert_eq!(ids, vec![4, 3, 2]);
    assert_eq!((second.created_at, second.id), (Some(20), Some(2)));

    let third = service.seek(&filter, &SeekRequest::new(Some(3), second.created_at, second.id)).unwrap();
    let ids: Vec<i64> = third.data.iter().map(|row| row.id).collect();
    assert_eq!(ids, vec![1]);
    assert_eq!((third.created_at, third.id), (None, None));
}

#[test]
fn seek_has_no_cursor_when_exactly_size_rows_are_left() {
    let service = service_with(6);
    let filter = everything();

    let first = service.seek(&filter, &SeekRequest::new(Some(3), None, None)).unwrap();
    assert_eq!((first.created_at, first.id), (Some(40), Some(4)));

    let second = service.seek(&filter, &SeekRequest::new(Some(3), first.created_at, first.id)).unwrap();
    assert_eq!(second.data.len(), 3);
    assert_eq!((second.created_at, second.id), (None, None));
}

#[test]
fn seek_pages_visit_every_sample_exactly_once() {
    let mut service = SampleService::new();
    let instants = [50, 10, 30, 30, 20, 50, 50, 40, 10, 30, 60];
    for (i, instant) in instants.iter().enumerate() {
        service.create(asked(&format!("s{i}"), vec![]), "maker".to_string(), *instant).unwrap();
    }
    let expected: Vec<i64> = service.repository.rows.iter().map(|row| row.id).collect();
    assert_eq!(expected, vec![11, 7, 6, 1, 8, 10, 4, 3, 5, 9, 2]);

    for size in 1..=12i16 {
        let mut seen: Vec<i64> = vec![];
        let mut cursor: (Option<i128>, Option<i64>) = (None, None);
        let mut pages = 0;
        loop {
            let request = SeekRequest::new(Some(size), cursor.0, cursor.1);
            let page = service.seek(&everything(), &request).unwrap();
            assert!(page.data.len() <= size as usize);
            seen.extend(page.data.iter().map(|row| row.id));
            pages += 1;
            assert!(pages <= 12);
            if page.created_at.is_none() {
                assert_eq!(page.id, None);
                break;
            }
            assert_eq!(page.data.len(), size as usize);
            let last = page.data.last().unwrap();
            assert_eq!((page.created_at, page.id), (Some(last.created_at), Some(last.id)));
            cursor = (page.created_at, page.id);
        }
        assert_eq!(seen, expected, "for size {size}");
    }
}

#[test]
fn seek_of_an_empty_listing_is_empty_without_cursor() {
    let service = SampleService::new();
    let page = service.seek(&everything(), &SeekRequest::read(None, None, None)).unwrap();

    assert_eq!(page.data, vec![]);
    assert_eq!(page.size, 20);
    assert_eq!((page.created_at, page.id), (None, None));
}

#[test]
fn page_reports_the_total_of_the_filtered_listing_on_every_page() {
    let mut service = service_with(5);
    service.create(asked("other", vec![]), "maker".to_string(), 5).unwrap();
    service.delete(2, 1, "remover".to_string(), 900).unwrap();
    let query = Some("SAMPLE".to_string());

    let first = service.page(&query, &PageRequest::read(Some(1), Some(3))).unwrap();
    let ids: Vec<i64> = first.data.iter().map(|row| row.id).collect();
    assert_eq!(ids, vec![5, 4, 3]);
    assert_eq!((first.page, first.size, first.total), (1, 3, 4));

    let second = service.page(&query, &PageRequest::read(Some(2), Some(3))).unwrap();
    let ids: Vec<i64> = second.data.iter().map(|row| row.id).collect();
    assert_eq!(ids, vec![1]);
    assert_eq!((second.page, second.size, second.total), (2, 3, 4));

    let beyond = service.page(&query, &PageRequest::read(Some(9), Some(3))).unwrap();
    assert_eq!(beyond.data, vec![]);
    assert_eq!(beyond.total, 4);

    let unfiltered = service.page(&None, &PageRequest::read(None, None)).unwrap();
    assert_eq!(unfiltered.total, 5);
    assert_eq!(unfiltered.data.len(), 5);
}

#[test]
fn page_with_a_negative_size_is_refused() {
    let service = service_with(1);
    let result = service.page(&None, &PageRequest { page: 1, size: -1, offset: 0 });

    assert_eq!(result, Err(internal_server()));
}
