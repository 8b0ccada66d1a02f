use zero2prod::form::{bytes_eq, form_value, parse_form, percent_decode};

#[test]
fn percent_decode_plain_bytes_pass_through() {
    let r = percent_decode(&b"hello".to_vec()).expect("plain bytes decode");
    assert_eq!(r, b"hello".to_vec());
}

#[test]
fn percent_decode_plus_becomes_space() {
    let r = percent_decode(&b"a+b+c".to_vec()).expect("plus decodes");
    assert_eq!(r, b"a b c".to_vec());
}

#[test]
fn percent_decode_hex_escape() {
    let r = percent_decode(&b"le%20guin".to_vec()).expect("escape decodes");
    assert_eq!(r, b"le guin".to_vec());
    let r = percent_decode(&b"%41%62%43".to_vec()).expect("escape decodes");
    assert_eq!(r, b"AbC".to_vec());
    let r = percent_decode(&b"ursula_le_guin%40gmail.com".to_vec()).expect("escape decodes");
    assert_eq!(r, b"ursula_le_guin@gmail.com".to_vec());
}

#[test]
fn percent_decode_empty_is_empty() {
    let r = percent_decode(&Vec::new()).expect("empty decodes");
    assert_eq!(r, Vec::<u8>::new());
}

#[test]
fn percent_decode_rejects_bad_escape() {
    assert!(percent_decode(&b"a%zzb".to_vec()).is_none());
    assert!(percent_decode(&b"a%4".to_vec()).is_none());
    assert!(percent_decode(&b"%".to_vec()).is_none());
}

#[test]
fn parse_form_splits_pairs_in_order() {
    let pairs = parse_form(&b"a=1&b=2&c=3".to_vec()).expect("form parses");
    assert_eq!(pairs.len(), 3);
    assert_eq!(pairs[0].key, b"a".to_vec());
    assert_eq!(pairs[0].value, b"1".to_vec());
    assert_eq!(pairs[1].key, b"b".to_vec());
    assert_eq!(pairs[1].value, b"2".to_vec());
    assert_eq!(pairs[2].key, b"c".to_vec());
    assert_eq!(pairs[2].value, b"3".to_vec());
}

#[test]
fn parse_form_segment_without_equals_has_empty_value() {
    let pairs = parse_form(&b"name".to_vec()).expect("form parses");
    assert_eq!(pairs.len(), 1);
    assert_eq!(pairs[0].key, b"name".to_vec());
    assert_eq!(pairs[0].value, Vec::<u8>::new());
}

#[test]
fn parse_form_empty_body_is_one_empty_pair() {
    let pairs = parse_form(&Vec::new()).expect("form parses");
    assert_eq!(pairs.len(), 1);
    assert_eq!(pairs[0].key, Vec::<u8>::new());
    assert_eq!(pairs[0].value, Vec::<u8>::new());
}

#[test]
fn parse_form_value_after_first_equals_keeps_later_equals() {
    let pairs = parse_form(&b"k=a=b".to_vec()).expect("form parses");
    assert_eq!(pairs.len(), 1);
    assert_eq!(pairs[0].key, b"k".to_vec());
    assert_eq!(pairs[0].value, b"a=b".to_vec());
}

#[test]
fn parse_form_rejects_malformed_segment() {
    assert!(parse_form(&b"a=1&b=%zz".to_vec()).is_none());
    assert!(parse_form(&b"a%G=1".to_vec()).is_none());
}

#[test]
fn form_value_finds_first_occurrence() {
    let body = b"name=first&name=second&email=x".to_vec();
    let v = form_value(&body, &b"name".to_vec()).expect("key is present");
    assert_eq!(v, b"first".to_vec());
}

#[test]
fn form_value_decodes_key_and_value() {
    let body = b"na%6De=le%20guin".to_vec();
    let v = form_value(&body, &b"name".to_vec()).expect("key is present");
    assert_eq!(v, b"le guin".to_vec());
}

#[test]
fn form_value_absent_key_is_none() {
    let body = b"name=le%20guin".to_vec();
    assert!(form_value(&body, &b"email".to_vec()).is_none());
}

#[test]
fn form_value_malformed_body_is_none() {
    assert!(form_value(&b"name=%".to_vec(), &b"name".to_vec()).is_none());
}

#[test]
fn bytes_eq_compares_contents() {
    assert!(bytes_eq(&b"abc".to_vec(), &b"abc".to_vec()));
    assert!(!bytes_eq(&b"abc".to_vec(), &b"abd".to_vec()));
    assert!(!bytes_eq(&b"abc".to_vec(), &b"ab".to_vec()));
}
