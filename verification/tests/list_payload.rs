use smes::list::{Company, Html, NewCompany, NewHtml};
use smes::{ListPayloadBuilder, ListResponse, SmesError};

#[test]
fn model_list_payload_default_page_size_should_be_as_expected() {
    let payload = ListPayloadBuilder::default()
        .build()
        .expect("Failed to build payload");
    assert_eq!(payload.page_size, 30);
}

#[test]
fn types_list_payload_default_page_size_should_be_as_expected() {
    let payload = ListPayloadBuilder::default()
        .build()
        .expect("Failed to build payload");
    assert_eq!(payload.page_size, 30);
}

#[test]
fn builder_defaults_to_the_first_page_and_keeps_what_is_set() {
    let payload = ListPayloadBuilder::default().build().unwrap();
    assert_eq!(payload.pg, 1);
    assert_eq!(payload.cmp_nm, "");
    let payload = ListPayloadBuilder::default().pg(4).page_size(10).build().unwrap();
    assert_eq!(payload.pg, 4);
    assert_eq!(payload.page_size, 10);
}

fn company(vnia_sn: usize, bizrno: &str, indsty_cd: &str) -> Company {
    Company {
        vnia_sn,
        rprsv_nm: "홍길동".to_string(),
        hdofc_addr: "서울".to_string(),
        bizrno: bizrno.to_string(),
        cmp_nm: "주식회사".to_string(),
        indsty_cd: indsty_cd.to_string(),
        indsty_nm: "제조업".to_string(),
    }
}

#[test]
fn a_valid_company_converts_with_its_fields() {
    let c = NewCompany::try_from(company(1071180, "1234567890", "12345")).unwrap();
    assert_eq!(c.smes_id.as_str(), "1071180");
    assert_eq!(c.business_registration_number.as_str(), "1234567890");
    assert_eq!(c.industry_code.as_str(), "12345");
    assert_eq!(c.representative_name, "홍길동");
    assert_eq!(c.company_name, "주식회사");
}

#[test]
fn an_empty_business_registration_number_is_accepted() {
    assert!(NewCompany::try_from(company(1071180, "", "12345")).is_ok());
}

#[test]
fn a_short_unique_number_is_refused() {
    let res = NewCompany::try_from(company(123456, "1234567890", "12345"));
    assert!(matches!(res, Err(SmesError::Type(_))));
    let res = NewCompany::try_from(company(10_000_000, "1234567890", "12345"));
    assert!(matches!(res, Err(SmesError::Type(_))));
}

#[test]
fn a_bad_industry_code_is_refused() {
    assert!(NewCompany::try_from(company(1071180, "1234567890", "1234")).is_err());
}

#[test]
fn a_page_converts_with_a_seven_digit_id() {
    let page = Html { vnia_sn: "1071180".to_string(), html: "<div></div>".to_string() };
    let new = NewHtml::try_from(page).unwrap();
    assert_eq!(new.smes_id.as_str(), "1071180");
    assert_eq!(new.html_content, "<div></div>");
    let page = Html { vnia_sn: "107118".to_string(), html: String::new() };
    assert!(matches!(NewHtml::try_from(page), Err(SmesError::Type(_))));
}

fn response(result: &str, total_count: Option<usize>, list: Option<Vec<Company>>) -> ListResponse {
    ListResponse { total_count, now_page: Some(1), result: result.to_string(), data_list: list }
}

#[test]
fn success_is_read_from_the_result() {
    assert!(response("SUCCESS", None, None).is_success());
    assert!(!response("FAIL", None, None).is_success());
    assert!(!response("success", None, None).is_success());
}

#[test]
fn the_companies_of_a_response_are_validated_in_order() {
    let r = response(
        "SUCCESS",
        Some(2),
        Some(vec![company(1071180, "", "12345"), company(1104102, "1234567890", "54321")]),
    );
    let companies = r.companies().unwrap();
    assert_eq!(companies.len(), 2);
    assert_eq!(companies[0].smes_id.as_str(), "1071180");
    assert_eq!(companies[1].smes_id.as_str(), "1104102");
    assert_eq!(response("SUCCESS", None, None).companies().unwrap().len(), 0);
    let bad = response("SUCCESS", None, Some(vec![company(1071180, "", "12345"), company(1, "", "12345")]));
    assert!(bad.companies().is_err());
}

#[test]
fn the_total_count_is_required_where_asked_for() {
    assert_eq!(response("SUCCESS", Some(10), None).total_count_or_missing().unwrap(), 10);
    match response("SUCCESS", None, None).total_count_or_missing() {
        Err(SmesError::MissingExpectedField(f)) => assert_eq!(f, "total_count"),
        other => panic!("unexpected {:?}", other),
    }
}

#[test]
fn an_unsuccessful_list_response_is_refused_with_its_status() {
    let ok = smes::list::accept_list_response(200, vec![], "{}".to_string(), Some(response("SUCCESS", None, None)));
    assert!(ok.is_ok());
    let headers = vec![("content-type".to_string(), b"application/json".to_vec())];
    let err = smes::list::accept_list_response(200, headers.clone(), "{}".to_string(), Some(response("FAIL", None, None)));
    match err {
        Err(SmesError::Response(e)) => {
            assert_eq!(e.message, "Response returned an unsuccessful result");
            assert_eq!(e.status, 200);
            assert_eq!(e.headers, headers);
            assert_eq!(e.body, "{}");
        }
        other => panic!("unexpected {:?}", other),
    }
}

#[test]
fn a_list_status_other_than_200_is_an_error() {
    let err = smes::list::accept_list_response(201, vec![], "{}".to_string(), Some(response("SUCCESS", None, None)));
    match err {
        Err(SmesError::Response(e)) => {
            assert_eq!(e.message, "Request returned an unsuccessful status code");
            assert_eq!(e.status, 201);
        }
        other => panic!("unexpected {:?}", other),
    }
}

#[test]
fn a_list_body_that_is_no_response_is_a_deserialization_error() {
    match smes::list::accept_list_response(200, vec![], "<html>".to_string(), None) {
        Err(SmesError::Deserialization(e)) => {
            assert_eq!(e.message, "Failed to deserialize response");
            assert_eq!(e.serialized, "<html>");
        }
        other => panic!("unexpected {:?}", other),
    }
}

#[test]
fn a_raw_list_reply_is_checked_by_status_first() {
    let err = smes::list::accept_list_reply(500, vec![], &[0xff], None);
    match err {
        Err(SmesError::UnsuccessfulResponse(e)) => {
            assert_eq!(e.message, "Request returned an unsuccessful status code");
            assert_eq!(e.status, 500);
            assert!(e.body.is_none());
        }
        other => panic!("unexpected {:?}", other),
    }
    let failed = smes::list::accept_list_reply(200, vec![], b"{}", Some(response("FAIL", Some(2), None)));
    match failed {
        Err(SmesError::UnsuccessfulResponse(e)) => {
            assert_eq!(e.message, "Response returned an unsuccessful result");
            let body = e.body.expect("the parsed response");
            assert_eq!(body.result, "FAIL");
            assert_eq!(body.total_count, Some(2));
        }
        other => panic!("unexpected {:?}", other),
    }
    assert!(matches!(
        smes::list::accept_list_reply(200, vec![], &[0xff], None),
        Err(SmesError::Conversion(_))
    ));
    let ok = smes::list::accept_list_reply(200, vec![], b"{}", Some(response("SUCCESS", Some(3), None)));
    assert_eq!(ok.unwrap().total_count, Some(3));
}

fn validation_message(e: SmesError) -> (String, String) {
    match e {
        SmesError::Type(smes::TypeError::Validation(v)) => (v.value, v.message),
        other => panic!("unexpected {:?}", other),
    }
}

#[test]
fn the_first_invalid_identifier_gives_the_error() {
    let e = NewCompany::try_from(company(123, "12", "1")).unwrap_err();
    assert_eq!(validation_message(e), ("123".to_string(), "SmesId must be 7 digits".to_string()));
    let e = NewCompany::try_from(company(1071180, "12", "1")).unwrap_err();
    assert_eq!(
        validation_message(e),
        ("12".to_string(), "BusinessRegistrationNumber must be 10 digits".to_string())
    );
    let e = NewCompany::try_from(company(1071180, "", "")).unwrap_err();
    assert_eq!(
        validation_message(e),
        ("".to_string(), "Empty value is not allowed for IndustryCode".to_string())
    );
    let e = NewCompany::try_from(company(1071180, "", "1234a")).unwrap_err();
    assert_eq!(
        validation_message(e),
        ("1234a".to_string(), "IndustryCode must be 5 digits".to_string())
    );
}

#[test]
fn a_page_with_an_empty_id_is_refused_with_its_message() {
    let page = Html { vnia_sn: String::new(), html: String::new() };
    let e = NewHtml::try_from(page).unwrap_err();
    assert_eq!(
        validation_message(e),
        ("".to_string(), "Empty value is not allowed for SmesId".to_string())
    );
}

#[test]
fn the_companies_stop_at_the_first_invalid_one() {
    let r = response(
        "SUCCESS",
        None,
        Some(vec![company(1071180, "", "12345"), company(1, "", "12345"), company(2, "", "1")]),
    );
    let e = r.companies().unwrap_err();
    assert_eq!(validation_message(e), ("1".to_string(), "SmesId must be 7 digits".to_string()));
}
