use walk_transform::delimiter::{find_delimiter, Delimiter};
use walk_transform::split::split_first;

#[test]
fn delimiters_accept_their_bytes() {
    assert!(Delimiter::Tab.test(b'\t'));
    assert!(!Delimiter::Tab.test(b' '));
    assert!(Delimiter::Newline.test(b'\n'));
    assert!(!Delimiter::Newline.test(b'\r'));
    assert!(Delimiter::Marker.test(b'>'));
    assert!(Delimiter::Marker.test(b'<'));
    assert!(!Delimiter::Marker.test(b'+'));
    assert!(!Delimiter::Marker.test(b'='));
    assert!(Delimiter::Comma.test(b','));
    assert!(!Delimiter::Comma.test(b'.'));
}

#[test]
fn find_delimiter_stops_at_first_or_end() {
    let s: &[u8] = b"ab\tcd\t\tef";
    assert_eq!(find_delimiter(s, 0, Delimiter::Tab), 2);
    assert_eq!(find_delimiter(s, 2, Delimiter::Tab), 2);
    assert_eq!(find_delimiter(s, 3, Delimiter::Tab), 5);
    assert_eq!(find_delimiter(s, 6, Delimiter::Tab), 6);
    assert_eq!(find_delimiter(s, 7, Delimiter::Tab), 9);
    assert_eq!(find_delimiter(s, 9, Delimiter::Tab), 9);
    assert_eq!(find_delimiter(s, 0, Delimiter::Newline), 9);
    assert_eq!(find_delimiter(b">a<b", 1, Delimiter::Marker), 2);
    assert_eq!(find_delimiter(b"", 0, Delimiter::Comma), 0);
}

#[test]
fn split_first_yields_pieces_in_order() {
    let pieces = split_first(b"a\tbc\t\td", Delimiter::Tab, 10);
    let expected: Vec<&[u8]> = vec![b"a", b"bc", b"", b"d"];
    assert_eq!(pieces, expected);
}

#[test]
fn split_first_stops_at_the_limit() {
    let pieces = split_first(b"a\tbc\t\td", Delimiter::Tab, 2);
    let expected: Vec<&[u8]> = vec![b"a", b"bc"];
    assert_eq!(pieces, expected);
    assert!(split_first(b"a\tb", Delimiter::Tab, 0).is_empty());
}

#[test]
fn split_first_of_nothing_is_one_empty_piece() {
    let pieces = split_first(b"", Delimiter::Tab, 3);
    let expected: Vec<&[u8]> = vec![b""];
    assert_eq!(pieces, expected);
    let pieces = split_first(b"\t", Delimiter::Tab, 3);
    let expected: Vec<&[u8]> = vec![b"", b""];
    assert_eq!(pieces, expected);
}

#[test]
fn find_delimiter_hands_back_a_start_beyond_the_end() {
    assert_eq!(find_delimiter(b"ab", 5, Delimiter::Tab), 5);
    assert_eq!(find_delimiter(b"", 1, Delimiter::Newline), 1);
}
