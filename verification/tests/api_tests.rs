use qr_link::{create_response, meta_response, Error, UrlStore};

#[test]
fn example_create_then_read_back() {
    let mut store = UrlStore::new();
    let body = create_response(&mut store, String::from("https://openai.com"), 0).unwrap();
    assert_eq!(
        body,
        "{\"stored_id\":\"1\",\"stored_url\":\"https://openai.com\"}"
    );
    assert_eq!(store.resolve(1).unwrap(), "https://openai.com");
    let meta = meta_response(&store, 1).unwrap();
    assert_eq!(
        meta,
        "{\"stored_id\":\"1\",\"stored_url\":\"https://openai.com\"}"
    );
}

#[test]
fn meta_of_unknown_identifier_is_not_found() {
    let store = UrlStore::new();
    let err = meta_response(&store, 999999).unwrap_err();
    assert!(matches!(err, Error::NotFound));
    assert_eq!(err.http_status(), 404);
}

#[test]
fn create_response_rejects_empty_url() {
    let mut store = UrlStore::new();
    let err = create_response(&mut store, String::new(), 0).unwrap_err();
    assert!(matches!(err, Error::BadRequest(_)));
    assert_eq!(store.len(), 0);
}

#[test]
fn error_statuses_follow_the_taxonomy() {
    assert_eq!(Error::NotFound.http_status(), 404);
    assert_eq!(Error::BadRequest(String::from("x")).http_status(), 400);
    assert_eq!(Error::StorageFailure(String::from("x")).http_status(), 500);
    assert_eq!(Error::LockFailure(String::from("x")).http_status(), 500);
    assert_eq!(Error::RenderFailure(String::from("x")).http_status(), 500);
}

#[test]
fn error_messages_carry_the_detail() {
    assert_eq!(Error::NotFound.message(), "not found");
    assert_eq!(Error::StorageFailure(String::from("disk gone")).message(), "disk gone");
    assert_eq!(Error::LockFailure(String::from("poisoned")).message(), "poisoned");
    assert_eq!(Error::RenderFailure(String::from("too long")).message(), "too long");
    assert_eq!(Error::BadRequest(String::from("empty url")).message(), "empty url");
}
