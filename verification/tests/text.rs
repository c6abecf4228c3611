use sample_api::text::chars_of;
use sample_api::text::last_column;
use sample_api::text::push_decimal;
use sample_api::text::text_contains;

#[test]
fn last_column_of_a_single_column_is_the_column() {
    assert_eq!(last_column("name"), "name");
}

#[test]
fn last_column_of_a_list_is_its_last_entry() {
    assert_eq!(last_column("id, language"), "language");
    assert_eq!(last_column("a, b, c"), "c");
}

#[test]
fn last_column_agrees_with_split_and_last() {
    let cases = ["", ",", ", ", "a,b", "a, ", ", a", "a,, b", "a, b,c", "é, ü", ",  x", "a , b"];

    for case in cases {
        assert_eq!(last_column(case), case.split(", ").last().unwrap(), "for {case:?}");
    }
}

#[test]
fn push_decimal_writes_numerals_without_leading_zeros() {
    let mut out = String::from("x/");
    push_decimal(&mut out, 0);
    out.push('/');
    push_decimal(&mut out, 7);
    out.push('/');
    push_decimal(&mut out, 10);
    out.push('/');
    push_decimal(&mut out, 4096);

    assert_eq!(out, "x/0/7/10/4096");
}

#[test]
fn push_decimal_agrees_with_to_string() {
    for n in [0usize, 9, 10, 99, 100, 101, 12345, usize::MAX] {
        let mut out = String::new();
        push_decimal(&mut out, n);

        assert_eq!(out, n.to_string());
    }
}

#[test]
fn chars_of_lists_the_characters() {
    assert_eq!(chars_of("añb"), vec!['a', 'ñ', 'b']);
    assert_eq!(chars_of(""), Vec::<char>::new());
}

#[test]
fn text_contains_finds_runs_of_characters() {
    assert!(text_contains("widget", "idg"));
    assert!(text_contains("widget", "widget"));
    assert!(text_contains("widget", "t"));
    assert!(text_contains("widget", ""));
    assert!(text_contains("", ""));
    assert!(!text_contains("widget", "widgets"));
    assert!(!text_contains("widget", "dig"));
    assert!(!text_contains("", "a"));
    assert!(text_contains("grüße", "üß"));
}
