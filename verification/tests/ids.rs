use dlog::error::DlogError;
use dlog::ids::parse_id_range;

fn invalid(spec: &str) -> String {
    match parse_id_range(spec) {
        Err(DlogError::InvalidInput(msg)) => msg,
        other => panic!("expected InvalidInput for {:?}, got {:?}", spec, other),
    }
}

#[test]
fn mixed_spec_is_sorted_and_deduplicated() {
    assert_eq!(parse_id_range("3,5-7,6").unwrap(), vec![3, 5, 6, 7]);
}

#[test]
fn mixed_spec_with_single_ids_and_range() {
    assert_eq!(parse_id_range("3,5-7,10").unwrap(), vec![3, 5, 6, 7, 10]);
}

#[test]
fn output_is_ascending_whatever_the_input_order() {
    assert_eq!(parse_id_range("10,1,7-9,2").unwrap(), vec![1, 2, 7, 8, 9, 10]);
}

#[test]
fn overlapping_ranges_collapse() {
    assert_eq!(parse_id_range("5-7,6").unwrap(), vec![5, 6, 7]);
    assert_eq!(parse_id_range("1-4,3-6,2").unwrap(), vec![1, 2, 3, 4, 5, 6]);
}

#[test]
fn empty_spec_selects_nothing() {
    assert_eq!(parse_id_range("").unwrap(), Vec::<i32>::new());
}

#[test]
fn stray_commas_and_spaces_are_skipped() {
    assert_eq!(parse_id_range(" , 4 ,, 2 - 3 ,").unwrap(), vec![2, 3, 4]);
}

#[test]
fn range_without_end_is_rejected() {
    assert_eq!(invalid("7-"), "Invalid range: 7-");
}

#[test]
fn range_without_start_is_rejected() {
    assert_eq!(invalid("-5"), "Invalid range: -5");
}

#[test]
fn range_with_letter_is_rejected() {
    assert_eq!(invalid("b-3"), "Invalid range: b-3");
    assert_eq!(invalid("3-b"), "Invalid range: 3-b");
    assert_eq!(invalid(" 3 - 4 - 5 "), "Invalid range: 3 - 4 - 5");
}

#[test]
fn inverted_range_is_rejected() {
    assert_eq!(invalid("5-3"), "Start of range 5 cannot be greater than end 3");
}

#[test]
fn non_numeric_id_is_rejected() {
    assert_eq!(invalid("1,x,3"), "Invalid ID: x");
}

#[test]
fn first_malformed_segment_is_cited() {
    assert_eq!(invalid("1,a,b-2"), "Invalid ID: a");
    assert_eq!(invalid("1,b-2,a"), "Invalid range: b-2");
}

#[test]
fn id_too_large_for_32_bits_is_rejected() {
    assert_eq!(invalid("2147483648"), "Invalid ID: 2147483648");
    assert_eq!(parse_id_range("2147483647").unwrap(), vec![2147483647]);
}

#[test]
fn negative_range_end_is_below_start() {
    assert_eq!(invalid("5--3"), "Start of range 5 cannot be greater than end -3");
}

#[test]
fn plus_sign_is_accepted() {
    assert_eq!(parse_id_range("+4").unwrap(), vec![4]);
}

#[test]
fn range_up_to_the_largest_id() {
    assert_eq!(parse_id_range("2147483646-2147483647").unwrap(), vec![2147483646, 2147483647]);
}
