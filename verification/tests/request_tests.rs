use treasure_chest::request::origin_from_header;

#[test]
fn first_forwarded_entry_is_taken() {
    let header = b"1.2.3.4, 5.6.7.8".to_vec();
    assert_eq!(origin_from_header(&header), Some(b"1.2.3.4".to_vec()));
}

#[test]
fn surrounding_padding_is_trimmed() {
    let header = b"  10.0.0.1\t".to_vec();
    assert_eq!(origin_from_header(&header), Some(b"10.0.0.1".to_vec()));
}

#[test]
fn inner_bytes_are_kept_verbatim() {
    let header = b" a b ,c".to_vec();
    assert_eq!(origin_from_header(&header), Some(b"a b".to_vec()));
}

#[test]
fn empty_header_resolves_nothing() {
    assert_eq!(origin_from_header(&Vec::new()), None);
    assert_eq!(origin_from_header(&b"   ".to_vec()), None);
}

#[test]
fn empty_first_entry_resolves_nothing() {
    assert_eq!(origin_from_header(&b", 9.9.9.9".to_vec()), None);
    assert_eq!(origin_from_header(&b" \t, 9.9.9.9".to_vec()), None);
}
