use axum_cors::cors::lists::{
    contains, contains_ignoring_case, copy_list, lowercase, lowercase_all, unique_list,
};
use axum_cors::cors::text::{
    bytes_eq, decimal_digits, eq_ignoring_case, join_list, literal, split_list, to_lower, to_vec,
    trimmed,
};

fn list(items: &[&str]) -> Vec<Vec<u8>> {
    items.iter().map(|s| s.as_bytes().to_vec()).collect()
}

#[test]
fn lower_case_changes_only_ascii_capitals() {
    assert_eq!(to_lower(b'A'), b'a');
    assert_eq!(to_lower(b'Z'), b'z');
    assert_eq!(to_lower(b'a'), b'a');
    assert_eq!(to_lower(b'@'), b'@');
    assert_eq!(to_lower(b'['), b'[');
    assert_eq!(to_lower(b'-'), b'-');
    assert_eq!(to_lower(0xC4), 0xC4);
    for b in 0..=255u8 {
        assert_eq!(to_lower(b), b.to_ascii_lowercase());
    }
}

#[test]
fn comparison_without_case() {
    assert!(eq_ignoring_case(b"X-Custom", b"x-cUSTOM"));
    assert!(eq_ignoring_case(b"", b""));
    assert!(!eq_ignoring_case(b"x-custom", b"x-custo"));
    assert!(!eq_ignoring_case(b"x-custom", b"x_custom"));
    assert!(!eq_ignoring_case(b"@", b"`"));
}

#[test]
fn comparison_byte_for_byte() {
    assert!(bytes_eq(b"POST", b"POST"));
    assert!(!bytes_eq(b"POST", b"post"));
    assert!(!bytes_eq(b"POST", b"POS"));
    assert!(bytes_eq(b"", b""));
}

#[test]
fn literal_gives_the_bytes_of_the_text() {
    assert_eq!(literal("vary"), b"vary".to_vec());
    assert_eq!(literal(""), Vec::<u8>::new());
    assert_eq!(to_vec(&[1, 2, 3]), vec![1, 2, 3]);
}

#[test]
fn trimming_takes_white_space_from_both_ends_only() {
    assert_eq!(trimmed(b"  x-custom \t"), b"x-custom".to_vec());
    assert_eq!(trimmed(b"a b"), b"a b".to_vec());
    assert_eq!(trimmed(b" \t\r\n"), Vec::<u8>::new());
    assert_eq!(trimmed(b""), Vec::<u8>::new());
    assert_eq!(trimmed(b"\x0b\x0cx\x0b"), b"x".to_vec());
    assert_eq!(trimmed(b"\x08x"), b"\x08x".to_vec());
}

#[test]
fn splitting_keeps_empty_pieces() {
    assert_eq!(split_list(b"server,warning,x-custom", b','), list(&["server", "warning", "x-custom"]));
    assert_eq!(split_list(b"", b','), list(&[""]));
    assert_eq!(split_list(b",", b','), list(&["", ""]));
    assert_eq!(split_list(b"a,", b','), list(&["a", ""]));
    assert_eq!(split_list(b",a", b','), list(&["", "a"]));
    assert_eq!(split_list(b"a,,b", b','), list(&["a", "", "b"]));
    assert_eq!(split_list(b"abc", b','), list(&["abc"]));
}

#[test]
fn splitting_agrees_with_std() {
    for text in ["", "a", ",", "a, b ,c", ",,", "x,y,", "no comma"] {
        let expected: Vec<Vec<u8>> = text.split(',').map(|p| p.as_bytes().to_vec()).collect();
        assert_eq!(split_list(text.as_bytes(), b','), expected);
    }
}

#[test]
fn joining_puts_the_separator_between_items() {
    assert_eq!(join_list(&list(&["POST", "PATCH", "LIST"]), b','), b"POST,PATCH,LIST".to_vec());
    assert_eq!(join_list(&list(&["POST"]), b','), b"POST".to_vec());
    assert_eq!(join_list(&list(&[]), b','), Vec::<u8>::new());
    assert_eq!(join_list(&list(&["", ""]), b','), b",".to_vec());
}

#[test]
fn joining_undoes_splitting() {
    for text in ["", "a", ",", "a, b ,c", ",,", "x,y,"] {
        assert_eq!(join_list(&split_list(text.as_bytes(), b','), b','), text.as_bytes().to_vec());
    }
}

#[test]
fn decimal_digits_of_numbers() {
    assert_eq!(decimal_digits(0), b"0".to_vec());
    assert_eq!(decimal_digits(7), b"7".to_vec());
    assert_eq!(decimal_digits(10), b"10".to_vec());
    assert_eq!(decimal_digits(42), b"42".to_vec());
    assert_eq!(decimal_digits(86400), b"86400".to_vec());
    assert_eq!(decimal_digits(u64::MAX), b"18446744073709551615".to_vec());
}

#[test]
fn unique_keeps_the_first_of_equal_items() {
    assert_eq!(unique_list(&list(&["a", "b", "a", "c", "b"])), list(&["a", "b", "c"]));
    assert_eq!(unique_list(&list(&[])), list(&[]));
    assert_eq!(unique_list(&list(&["A", "a"])), list(&["A", "a"]));
}

#[test]
fn lower_casing_names() {
    assert_eq!(lowercase(b"X-Custom"), b"x-custom".to_vec());
    assert_eq!(lowercase_all(&list(&["Warning", "X-Custom"])), list(&["warning", "x-custom"]));
    assert_eq!(copy_list(&list(&["Warning", "x"])), list(&["Warning", "x"]));
}

#[test]
fn membership_in_lists() {
    let items = list(&["POST", "PATCH"]);
    assert!(contains(&items, b"POST"));
    assert!(contains(&items, b"PATCH"));
    assert!(!contains(&items, b"post"));
    assert!(!contains(&items, b"PUT"));
    assert!(contains_ignoring_case(&items, b"post"));
    assert!(!contains_ignoring_case(&items, b"put"));
    assert!(!contains(&list(&[]), b""));
}
