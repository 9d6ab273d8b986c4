use qr_link::{Error, UrlStore};

#[test]
fn round_trip_create_resolve() {
    let mut store = UrlStore::new();
    let id = store.create(String::from("https://openai.com"), 0).unwrap();
    assert_eq!(id, 1);
    let url = store.resolve(id).unwrap();
    assert_eq!(url, "https://openai.com");
}

#[test]
fn round_trip_many_records() {
    let mut store = UrlStore::new();
    let a = store.create(String::from("https://a.example"), 1).unwrap();
    let b = store.create(String::from("https://b.example"), 2).unwrap();
    let c = store.create(String::from("https://c.example"), 3).unwrap();
    assert_eq!(store.resolve(a).unwrap(), "https://a.example");
    assert_eq!(store.resolve(b).unwrap(), "https://b.example");
    assert_eq!(store.resolve(c).unwrap(), "https://c.example");
}

#[test]
fn repeated_reads_identical() {
    let mut store = UrlStore::new();
    let id = store.create(String::from("https://openai.com"), 0).unwrap();
    let first = store.resolve(id).unwrap();
    let second = store.resolve(id).unwrap();
    assert_eq!(first, second);
    let meta_first = store.meta(id).unwrap();
    let meta_second = store.meta(id).unwrap();
    assert_eq!(meta_first, meta_second);
    assert_eq!(meta_first.0, id);
    assert_eq!(meta_first.1, first);
}

#[test]
fn soft_delete_excludes_record() {
    let mut store = UrlStore::new();
    let id = store.create(String::from("https://openai.com"), 0).unwrap();
    assert!(store.resolve(id).is_ok());
    store.soft_delete(id, 99).unwrap();
    let err = store.resolve(id).unwrap_err();
    assert!(matches!(err, Error::NotFound));
    assert_eq!(err.http_status(), 404);
    let err = store.meta(id).unwrap_err();
    assert!(matches!(err, Error::NotFound));
}

#[test]
fn soft_delete_unknown_id_not_found() {
    let mut store = UrlStore::new();
    let err = store.soft_delete(7, 0).unwrap_err();
    assert!(matches!(err, Error::NotFound));
}

#[test]
fn unknown_identifier_not_found() {
    let store = UrlStore::new();
    let err = store.resolve(999999).unwrap_err();
    assert!(matches!(err, Error::NotFound));
    assert_eq!(err.http_status(), 404);
    let err = store.meta(999999).unwrap_err();
    assert!(matches!(err, Error::NotFound));
    assert_eq!(err.http_status(), 404);
}

#[test]
fn sequential_creates_distinct_ids() {
    let mut store = UrlStore::new();
    let mut ids: Vec<u64> = Vec::new();
    for k in 0..50u64 {
        let url = format!("https://example.com/page/{}", k);
        let id = store.create(url, k as i64).unwrap();
        ids.push(id);
    }
    for i in 0..ids.len() {
        for j in 0..ids.len() {
            if i != j {
                assert_ne!(ids[i], ids[j]);
            }
        }
    }
    assert_eq!(store.len(), 50);
}

#[test]
fn create_empty_url_rejected() {
    let mut store = UrlStore::new();
    let err = store.create(String::new(), 0).unwrap_err();
    assert!(matches!(err, Error::BadRequest(_)));
    assert_eq!(err.http_status(), 400);
    assert_eq!(store.len(), 0);
}

#[test]
fn duplicate_urls_get_distinct_ids() {
    let mut store = UrlStore::new();
    let a = store.create(String::from("https://openai.com"), 0).unwrap();
    let b = store.create(String::from("https://openai.com"), 0).unwrap();
    assert_ne!(a, b);
    assert_eq!(store.resolve(a).unwrap(), store.resolve(b).unwrap());
}
