use smes::error::{ConversionError, NopechaError, NopechaErrorBody};
use smes::response::ParsedResponse;
use smes::SmesError;

fn headers() -> Vec<(String, Vec<u8>)> {
    vec![("content-type".to_string(), b"application/json".to_vec())]
}

#[test]
fn a_successful_response_passes() {
    let r = ParsedResponse::check(200, headers(), Some("application/json".to_string()), b"{}".to_vec(), None)
        .unwrap();
    assert_eq!(r.status, 200);
    assert_eq!(r.bytes, b"{}".to_vec());
    assert_eq!(r.headers, headers());
}

#[test]
fn an_unsuccessful_status_is_an_error_with_the_body() {
    let res = ParsedResponse::check(500, headers(), None, b"oops".to_vec(), None);
    match res {
        Err(SmesError::Response(e)) => {
            assert_eq!(e.message, "Request returned an unsuccessful status code");
            assert_eq!(e.status, 500);
            assert_eq!(e.body, "oops");
            assert_eq!(e.headers, headers());
        }
        other => panic!("unexpected {:?}", other),
    }
}

#[test]
fn an_unsuccessful_image_response_reports_image_data() {
    let res = ParsedResponse::check(404, vec![], Some("image/png".to_string()), vec![0xff, 0xfe], None);
    match res {
        Err(SmesError::Response(e)) => assert_eq!(e.body, "image data"),
        other => panic!("unexpected {:?}", other),
    }
}

#[test]
fn a_body_that_is_not_utf8_is_refused() {
    let res = ParsedResponse::check(200, vec![], Some("text/html".to_string()), vec![0xff, 0xfe], None);
    assert!(matches!(res, Err(SmesError::Conversion(ConversionError::Utf8(_)))));
}

#[test]
fn nopecha_errors_are_told_apart() {
    let body = br#"{"error":14,"message":"Incomplete job"}"#.to_vec();
    let res = ParsedResponse::check(
        409,
        vec![],
        None,
        body.clone(),
        Some(NopechaErrorBody::new(14, "Incomplete job".to_string())),
    );
    assert!(matches!(res, Err(SmesError::Nopecha(NopechaError::IncompleteJob(_)))));
    let res = ParsedResponse::check(
        409,
        vec![],
        None,
        body.clone(),
        Some(NopechaErrorBody::new(16, "Out of credit".to_string())),
    );
    assert!(matches!(res, Err(SmesError::Nopecha(NopechaError::OutOfCredit(_)))));
    let res = ParsedResponse::check(
        400,
        vec![],
        None,
        body,
        Some(NopechaErrorBody::new(10, "Invalid".to_string())),
    );
    assert!(matches!(res, Err(SmesError::Response(_))));
}
