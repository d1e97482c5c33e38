use smes::error::{NopechaError, NopechaErrorBody};
use smes::nopecha::{
    answer_from_response, is_incomplete_job, is_out_of_credit, nopecha_id_from_response, Answer,
    GetAnswerResponse, Key, SubmitCaptchaResponse,
};
use smes::SmesError;

#[test]
fn error_codes_are_classified() {
    let e = NopechaError::from(NopechaErrorBody::new(14, "Incomplete job".to_string()));
    assert!(matches!(e, NopechaError::IncompleteJob(_)));
    let e = NopechaError::from(NopechaErrorBody::new(16, "Out of credit".to_string()));
    assert!(matches!(e, NopechaError::OutOfCredit(_)));
    let e = NopechaError::from(NopechaErrorBody::new(10, "Invalid key".to_string()));
    assert!(matches!(e, NopechaError::Other(_)));
}

#[test]
fn an_error_body_keeps_its_code_and_message() {
    let body = NopechaErrorBody::new(14, "Incomplete job".to_string());
    assert_eq!(body.error_code(), 14);
    assert_eq!(body.message_text(), "Incomplete job");
}

#[test]
fn a_submission_gives_the_job_id() {
    let id = nopecha_id_from_response(SubmitCaptchaResponse::Answer(Key { data: "abc".to_string() }));
    assert_eq!(id.unwrap(), "abc");
    let err = nopecha_id_from_response(SubmitCaptchaResponse::Error(NopechaErrorBody::new(
        16,
        "Out of credit".to_string(),
    )));
    assert!(matches!(err, Err(SmesError::Nopecha(NopechaError::OutOfCredit(_)))));
}

#[test]
fn an_answer_is_its_text() {
    let a = Answer { data: ["160665".to_string()] };
    assert_eq!(a.data(), "160665");
    let res = answer_from_response(GetAnswerResponse::Answer(a));
    assert_eq!(res.unwrap(), "160665");
}

#[test]
fn an_empty_answer_is_an_error() {
    let res = answer_from_response(GetAnswerResponse::Answer(Answer { data: [String::new()] }));
    match res {
        Err(SmesError::ExternalApi(e)) => assert_eq!(e.message, "Nopecha API returned an empty answer"),
        other => panic!("unexpected {:?}", other),
    }
}

#[test]
fn an_incomplete_job_is_worth_asking_again() {
    let res = answer_from_response(GetAnswerResponse::Error(NopechaErrorBody::new(
        14,
        "Incomplete job".to_string(),
    )));
    let e = res.unwrap_err();
    assert!(is_incomplete_job(&e));
    assert!(!is_out_of_credit(&e));
}

#[test]
fn no_credit_stops_asking() {
    let res = answer_from_response(GetAnswerResponse::Error(NopechaErrorBody::new(
        16,
        "Out of credit".to_string(),
    )));
    let e = res.unwrap_err();
    assert!(is_out_of_credit(&e));
    assert!(!is_incomplete_job(&e));
    let other = answer_from_response(GetAnswerResponse::Error(NopechaErrorBody::new(
        9,
        "x".to_string(),
    )))
    .unwrap_err();
    assert!(!is_incomplete_job(&other) && !is_out_of_credit(&other));
}
