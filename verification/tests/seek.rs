use sample_api::model::Amount;
use sample_api::model::SampleList;
use sample_api::seek::Seek;
use sample_api::seek::SeekRequest;

fn listed(id: i64, created_at: i128) -> SampleList {
    SampleList {
        id,
        name: format!("sample {id}"),
        description: None,
        amount: Amount { mantissa: 100, scale: 2 },
        created_at,
    }
}

#[test]
fn seek_request_defaults_to_twenty_rows() {
    let request = SeekRequest::read(None, None, None);

    assert_eq!(request.size, 20);
    assert_eq!(request.limit, 21);
    assert_eq!(request.created_at, None);
    assert_eq!(request.id, None);
}

#[test]
fn seek_request_raises_a_small_size_to_one() {
    let request = SeekRequest::read(Some(-5), None, Some(9));

    assert_eq!(request.size, 1);
    assert_eq!(request.limit, 2);
    assert_eq!(request.id, Some(9));
}

#[test]
fn seek_request_reads_an_rfc3339_timestamp() {
    let request = SeekRequest::read(Some(10), Some("2024-01-02T03:04:05Z"), Some(7));

    assert_eq!(request.size, 10);
    assert_eq!(request.limit, 11);
    assert_eq!(request.created_at, Some(1_704_164_645_000_000_000));
    assert_eq!(request.id, Some(7));
}

#[test]
fn seek_request_reads_offset_and_fraction_of_a_timestamp() {
    let request = SeekRequest::read(None, Some("2024-01-02T03:04:05.5+01:00"), None);

    assert_eq!(request.created_at, Some(1_704_161_045_500_000_000));
}

#[test]
fn seek_request_treats_a_malformed_timestamp_as_absent() {
    for text in ["", "yesterday", "2024-01-02", "2024-01-02 03:04:05", "1704164645"] {
        let request = SeekRequest::read(Some(5), Some(text), Some(7));

        assert_eq!(request.created_at, None, "for {text:?}");
        assert_eq!(request.id, Some(7));
        assert_eq!(request.size, 5);
    }
}

#[test]
fn seek_request_new_takes_the_instant_as_it_is() {
    let request = SeekRequest::new(Some(3), Some(-12), None);

    assert_eq!(request, SeekRequest { size: 3, limit: 4, created_at: Some(-12), id: None });
}

#[test]
fn seek_request_limit_is_one_more_than_the_size() {
    let request = SeekRequest { size: 41, limit: 0, created_at: None, id: None };

    assert_eq!(request.limit(), 42);
}

#[test]
fn seek_request_admits_the_largest_size() {
    let request = SeekRequest::read(Some(i16::MAX), None, None);

    assert_eq!(request.size, 32767);
    assert_eq!(request.limit, 32768);
    assert_eq!(request.limit(), 32768);

    let smallest = SeekRequest::read(Some(i16::MIN), None, None);

    assert_eq!((smallest.size, smallest.limit), (1, 2));
}

#[test]
fn seek_of_the_largest_size_keeps_what_was_fetched() {
    let request = SeekRequest::new(Some(i16::MAX), None, None);
    let page = Seek::new(vec![listed(9, 90), listed(8, 80)], &request);

    assert_eq!(page.data.len(), 2);
    assert_eq!(page.size, i16::MAX);
    assert_eq!((page.created_at, page.id), (None, None));
}

#[test]
fn seek_of_nothing_is_empty_without_cursor() {
    let request = SeekRequest::read(Some(2), None, None);
    let page = Seek::new(Vec::<SampleList>::new(), &request);

    assert_eq!(page.data, vec![]);
    assert_eq!(page.size, 2);
    assert_eq!(page.created_at, None);
    assert_eq!(page.id, None);
}

#[test]
fn seek_of_fewer_rows_than_the_size_has_no_cursor() {
    let request = SeekRequest::read(Some(3), None, None);
    let page = Seek::new(vec![listed(9, 90), listed(8, 80)], &request);

    assert_eq!(page.data, vec![listed(9, 90), listed(8, 80)]);
    assert_eq!((page.created_at, page.id), (None, None));
}

#[test]
fn seek_of_exactly_the_size_has_no_cursor() {
    let request = SeekRequest::read(Some(2), None, None);
    let page = Seek::new(vec![listed(9, 90), listed(8, 80)], &request);

    assert_eq!(page.data.len(), 2);
    assert_eq!((page.created_at, page.id), (None, None));
}

#[test]
fn seek_of_one_row_more_drops_it_and_points_at_the_last_row_kept() {
    let request = SeekRequest::read(Some(2), None, None);
    let page = Seek::new(vec![listed(9, 90), listed(8, 80), listed(7, 70)], &request);

    assert_eq!(page.data, vec![listed(9, 90), listed(8, 80)]);
    assert_eq!(page.size, 2);
    assert_eq!(page.created_at, Some(80));
    assert_eq!(page.id, Some(8));
}

#[test]
fn seek_never_returns_more_rows_than_the_size() {
    let request = SeekRequest::read(Some(2), None, None);
    let rows = vec![listed(9, 90), listed(8, 80), listed(7, 70), listed(6, 60), listed(5, 50)];
    let page = Seek::new(rows, &request);

    assert_eq!(page.data, vec![listed(9, 90), listed(8, 80)]);
    assert_eq!((page.created_at, page.id), (Some(80), Some(8)));
}

#[test]
fn seek_with_size_zero_returns_nothing_and_no_cursor() {
    let request = SeekRequest { size: 0, limit: 1, created_at: None, id: None };
    let page = Seek::new(vec![listed(9, 90)], &request);

    assert_eq!(page.data, vec![]);
    assert_eq!((page.created_at, page.id), (None, None));
}

#[test]
fn seek_with_a_negative_size_keeps_what_was_fetched() {
    let request = SeekRequest { size: -1, limit: 0, created_at: None, id: None };
    let page = Seek::new(vec![listed(9, 90), listed(8, 80)], &request);

    assert_eq!(page.data.len(), 2);
    assert_eq!((page.created_at, page.id), (None, None));
    assert_eq!(page.size, -1);
}
