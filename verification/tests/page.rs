use sample_api::page::Page;
use sample_api::page::PageRequest;
use sample_api::page::PAGE_MIN;
use sample_api::page::SIZE_MIN;

#[test]
fn read_should_return_correct_values() {
    let result = PageRequest::read(Some(1), Some(10));

    assert_eq!(result.page, 1);
    assert_eq!(result.size, 10);
    assert_eq!(result.offset, 0);
}

#[test]
fn read_negative_page_should_return_min() {
    let result = PageRequest::read(Some(-1), Some(10));

    assert_eq!(result.page, PAGE_MIN);
    assert_eq!(result.size, 10);
    assert_eq!(result.offset, 0);
}

#[test]
fn read_negative_size_should_return_min() {
    let result = PageRequest::read(Some(1), Some(-1));

    assert_eq!(result.page, 1);
    assert_eq!(result.size, SIZE_MIN);
    assert_eq!(result.offset, 0);
}

#[test]
fn read_next_page_should_return_offset() {
    let result = PageRequest::read(Some(2), Some(10));

    assert_eq!(result.page, 2);
    assert_eq!(result.size, 10);
    assert_eq!(result.offset, 10);
}

#[test]
fn read_without_parameters_uses_defaults() {
    let result = PageRequest::read(None, None);

    assert_eq!(result.page, 1);
    assert_eq!(result.size, 20);
    assert_eq!(result.offset, 0);
}

#[test]
fn offset_is_computed_from_page_and_size() {
    let request = PageRequest { page: 7, size: 25, offset: 0 };

    assert_eq!(request.offset(), 150);
    assert_eq!(request.limit(), 25);
}

#[test]
fn offset_of_a_page_below_one_is_zero() {
    let request = PageRequest { page: -3, size: 25, offset: 0 };

    assert_eq!(request.offset(), 0);
}

#[test]
fn readable_tells_whether_the_offset_fits() {
    assert!(PageRequest::readable(Some(i64::MAX), Some(1)));
    assert!(!PageRequest::readable(Some(i64::MAX), Some(2)));
    assert!(PageRequest::readable(None, Some(i16::MAX)));
}

#[test]
fn page_new_keeps_rows_request_and_count() {
    let request = PageRequest::read(Some(3), Some(2));
    let page = Page::new(vec![5, 6], 11, &request);

    assert_eq!(page.data, vec![5, 6]);
    assert_eq!(page.page, 3);
    assert_eq!(page.size, 2);
    assert_eq!(page.total, 11);
}
