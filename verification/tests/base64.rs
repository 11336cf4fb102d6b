use kino_relay::base64::decode;

#[test]
fn text_is_decoded() {
    let read = |text: &str| decode(text.as_bytes());
    assert_eq!(read(""), Some(vec![]));
    assert_eq!(read("Zg"), Some(b"f".to_vec()));
    assert_eq!(read("Zm8"), Some(b"fo".to_vec()));
    assert_eq!(read("Zm9v"), Some(b"foo".to_vec()));
    assert_eq!(read("Zm9vYmFy"), Some(b"foobar".to_vec()));
    assert_eq!(read("-_-_"), Some(vec![251, 255, 191]));
    assert_eq!(read("AAECAw"), Some(vec![0, 1, 2, 3]));
}

#[test]
fn text_that_encodes_nothing_is_refused() {
    let read = |text: &str| decode(text.as_bytes());
    assert_eq!(read("Z"), None);
    assert_eq!(read("Zm9vY"), None);
    assert_eq!(read("Zg=="), None);
    assert_eq!(read("Zh"), None);
    assert_eq!(read("Zm9"), None);
    assert_eq!(read("+/+/"), None);
    assert_eq!(read("Zm 9"), None);
}
