use qr_link::{qr_response, qr_response_for_url, render_qr, Error, QrFormat, QrOutput, UrlStore};

#[test]
fn ascii_grid_one_row_per_module_row_two_chars_per_module() {
    let out = qr_response_for_url("https://openai.com", None, Some("ascii")).unwrap();
    let grid = match out {
        QrOutput::Ascii(s) => s,
        QrOutput::Png(_) => panic!("expected the text form"),
    };
    let lines: Vec<&str> = grid.split('\n').collect();
    let rows = lines.len();
    assert!(rows >= 21);
    for line in &lines {
        assert_eq!(line.chars().count(), 2 * rows);
        for c in line.chars() {
            assert!(c == '\u{2588}' || c == ' ');
        }
    }
}

#[test]
fn ascii_grid_matches_symbol_encoder_rendering() {
    let out = qr_response_for_url("https://openai.com", None, Some("ascii")).unwrap();
    let grid = match out {
        QrOutput::Ascii(s) => s,
        QrOutput::Png(_) => panic!("expected the text form"),
    };
    let code = qrcode::QrCode::new("https://openai.com").unwrap();
    let expected = code
        .render::<char>()
        .quiet_zone(false)
        .module_dimensions(2, 1)
        .build();
    assert_eq!(grid, expected);
}

#[test]
fn qr_encodes_the_resolved_url() {
    let mut store = UrlStore::new();
    let id = store.create(String::from("https://openai.com"), 0).unwrap();
    let out = qr_response(&store, id, None, Some("ascii")).unwrap();
    let grid = match out {
        QrOutput::Ascii(s) => s,
        QrOutput::Png(_) => panic!("expected the text form"),
    };
    let direct = match qr_response_for_url("https://openai.com", None, Some("ascii")).unwrap() {
        QrOutput::Ascii(s) => s,
        QrOutput::Png(_) => panic!("expected the text form"),
    };
    assert_eq!(grid, direct);
}

#[test]
fn qr_for_unknown_identifier_is_not_found() {
    let store = UrlStore::new();
    let err = qr_response(&store, 999999, None, None).unwrap_err();
    assert!(matches!(err, Error::NotFound));
    assert_eq!(err.http_status(), 404);
}

#[test]
fn qr_for_soft_deleted_record_is_not_found() {
    let mut store = UrlStore::new();
    let id = store.create(String::from("https://openai.com"), 0).unwrap();
    store.soft_delete(id, 1).unwrap();
    let err = qr_response(&store, id, None, None).unwrap_err();
    assert!(matches!(err, Error::NotFound));
}

#[test]
fn identical_requests_render_identical_bytes() {
    let mut store = UrlStore::new();
    let id = store.create(String::from("https://openai.com"), 0).unwrap();
    let first = qr_response(&store, id, Some(300), None).unwrap();
    let second = qr_response(&store, id, Some(300), None).unwrap();
    match (first, second) {
        (QrOutput::Png(a), QrOutput::Png(b)) => assert_eq!(a, b),
        _ => panic!("expected the raster form twice"),
    }
}

#[test]
fn raster_reaches_requested_size() {
    let mut store = UrlStore::new();
    let id = store.create(String::from("https://openai.com"), 0).unwrap();
    let out = qr_response(&store, id, Some(300), None).unwrap();
    let bytes = match out {
        QrOutput::Png(b) => b,
        QrOutput::Ascii(_) => panic!("expected the raster form"),
    };
    let img = image::load_from_memory(&bytes).unwrap();
    assert!(img.width() >= 300);
    assert!(img.height() >= 300);
    assert_eq!(img.width(), img.height());
}

#[test]
fn raster_small_size_still_covered() {
    let out = qr_response_for_url("https://openai.com", Some(75), None).unwrap();
    let bytes = match out {
        QrOutput::Png(b) => b,
        QrOutput::Ascii(_) => panic!("expected the raster form"),
    };
    let img = image::load_from_memory(&bytes).unwrap();
    assert!(img.width() >= 75);
    assert!(img.height() >= 75);
}

#[test]
fn raster_default_size_is_300() {
    let out = qr_response_for_url("https://openai.com", None, None).unwrap();
    let bytes = match out {
        QrOutput::Png(b) => b,
        QrOutput::Ascii(_) => panic!("expected the raster form"),
    };
    let img = image::load_from_memory(&bytes).unwrap();
    assert!(img.width() >= 300);
    assert!(img.height() >= 300);
}

#[test]
fn size_zero_rejected_as_bad_request() {
    let err = qr_response_for_url("https://openai.com", Some(0), None).unwrap_err();
    assert!(matches!(err, Error::BadRequest(_)));
    assert_eq!(err.http_status(), 400);
}

#[test]
fn size_zero_rejected_before_resolution() {
    let store = UrlStore::new();
    let err = qr_response(&store, 999999, Some(0), None).unwrap_err();
    assert!(matches!(err, Error::BadRequest(_)));
}

#[test]
fn size_above_maximum_rejected_as_bad_request() {
    let err = qr_response_for_url("https://openai.com", Some(100_000), None).unwrap_err();
    assert!(matches!(err, Error::BadRequest(_)));
}

#[test]
fn unknown_format_defaults_to_raster() {
    let out = qr_response_for_url("https://openai.com", Some(40), Some("svg")).unwrap();
    assert!(matches!(out, QrOutput::Png(_)));
    assert_eq!(out.content_type(), "image/png");
}

#[test]
fn ascii_output_content_type_is_text() {
    let out = qr_response_for_url("https://openai.com", None, Some("ascii")).unwrap();
    assert!(matches!(out, QrOutput::Ascii(_)));
    assert_eq!(out.content_type(), "text/plain");
}

#[test]
fn oversized_input_fails_to_render() {
    let long_url = "a".repeat(5000);
    let err = render_qr(&long_url, 300, QrFormat::Raster).unwrap_err();
    assert!(matches!(err, Error::RenderFailure(_)));
    assert_eq!(err.http_status(), 500);
    let err = qr_response_for_url(&long_url, Some(300), None).unwrap_err();
    assert!(matches!(err, Error::RenderFailure(_)));
}
