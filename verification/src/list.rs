//! The company list: the request payload, the response and its companies.
use vstd::prelude::*;
use vstd::utf8::{decode_utf8, valid_utf8};
use crate::error::{ConversionError, DeserializationError, ParseIntError, ResponseError, SmesError, TypeError, UnsuccessfulResponseError};
use crate::scrape::str_from_utf8;
use crate::parser::str_eq;
use crate::text::{chars_of, parse_usize, parse_usize_spec, decimal_text, lemma_decimal_text, lemma_decimal_width_seven, usize_to_decimal};
use crate::types::{validation_error, valid_digits, BusinessRegistrationNumber, IndustryCode, SmesId};

verus! {

// region: payload

/// The payload of a request to the list API. Build it with `ListPayloadBuilder`.
#[derive(Debug)]
pub struct ListPayload {
    /// Company name
    pub cmp_nm: String,
    /// Representative name
    pub rprsv_nm: String,
    /// Business registration number
    pub biz_r_no: String,
    /// The page number, out of the total number of pages
    pub pg: usize,
    /// The number of items per page.
    ///
    /// The website allows at most 30, but the API does not enforce this limit.
    pub page_size: usize,
    /// Area code
    pub area_cd: String,
    /// Sigungu area code
    pub sigungu_area_cd: String,
    /// Industry code
    pub indsty_cd: String,
}

impl Default for ListPayload {
    /// Every field empty or zero.
    fn default() -> (res: Self)
        ensures
            res.pg == 0 && res.page_size == 0,
            res.cmp_nm@ == Seq::<char>::empty(),
            res.rprsv_nm@ == Seq::<char>::empty(),
            res.biz_r_no@ == Seq::<char>::empty(),
            res.area_cd@ == Seq::<char>::empty(),
            res.sigungu_area_cd@ == Seq::<char>::empty(),
            res.indsty_cd@ == Seq::<char>::empty(),
    {
        ListPayload {
            cmp_nm: String::new(),
            rprsv_nm: String::new(),
            biz_r_no: String::new(),
            pg: 0,
            page_size: 0,
            area_cd: String::new(),
            sigungu_area_cd: String::new(),
            indsty_cd: String::new(),
        }
    }
}

/// Builds a `ListPayload`; only the page and the page size can be set.
#[derive(Debug, Clone, Copy, Default)]
pub struct ListPayloadBuilder {
    pub pg: Option<usize>,
    pub page_size: Option<usize>,
}

/// The error of building a `ListPayload`, which every field's default prevents.
#[derive(Debug)]
pub struct ListPayloadBuilderError {
    pub field: &'static str,
}

impl ListPayloadBuilder {
    /// Sets the page number.
    pub fn pg(self, value: usize) -> (res: Self)
        ensures
            res.pg == Some(value),
            res.page_size == self.page_size,
    {
        ListPayloadBuilder { pg: Some(value), ..self }
    }

    /// Sets the number of items per page.
    pub fn page_size(self, value: usize) -> (res: Self)
        ensures
            res.pg == self.pg,
            res.page_size == Some(value),
    {
        ListPayloadBuilder { page_size: Some(value), ..self }
    }

    /// The payload: page 1 and 30 items per page unless set, every other field empty.
    pub fn build(&self) -> (res: Result<ListPayload, ListPayloadBuilderError>)
        ensures
            res matches Ok(p) && p.pg == (match self.pg {
                Some(v) => v,
                None => 1,
            }) && p.page_size == (match self.page_size {
                Some(v) => v,
                None => 30,
            }) && p.cmp_nm@ == Seq::<char>::empty() && p.rprsv_nm@ == Seq::<char>::empty()
                && p.biz_r_no@ == Seq::<char>::empty() && p.area_cd@ == Seq::<char>::empty()
                && p.sigungu_area_cd@ == Seq::<char>::empty() && p.indsty_cd@ == Seq::<
                char,
            >::empty(),
    {
        Ok(
            ListPayload {
                cmp_nm: String::new(),
                rprsv_nm: String::new(),
                biz_r_no: String::new(),
                pg: match self.pg {
                    Some(v) => v,
                    None => 1,
                },
                page_size: match self.page_size {
                    Some(v) => v,
                    None => 30,
                },
                area_cd: String::new(),
                sigungu_area_cd: String::new(),
                indsty_cd: String::new(),
            },
        )
    }
}

// endregion

// region: companies

/// A company as the list API gives it.
#[derive(Debug)]
pub struct Company {
    /// 고유번호 (Unique Number)
    pub vnia_sn: usize,
    /// 대표자명 (Representative Name)
    pub rprsv_nm: String,
    /// 본사주소 (Headquarters Address)
    pub hdofc_addr: String,
    /// 사업자번호 (Business Registration Number)
    pub bizrno: String,
    /// 기업명 (Company Name)
    pub cmp_nm: String,
    /// 업종코드 (Industry Code)
    pub indsty_cd: String,
    /// 업종 (Industry Name)
    pub indsty_nm: String,
}

impl Clone for Company {
    fn clone(&self) -> (res: Self)
        ensures
            res == *self,
    {
        Company {
            vnia_sn: self.vnia_sn,
            rprsv_nm: self.rprsv_nm.clone(),
            hdofc_addr: self.hdofc_addr.clone(),
            bizrno: self.bizrno.clone(),
            cmp_nm: self.cmp_nm.clone(),
            indsty_cd: self.indsty_cd.clone(),
            indsty_nm: self.indsty_nm.clone(),
        }
    }
}

/// A company with validated identifiers, ready to be stored.
#[derive(Debug)]
pub struct NewCompany {
    pub smes_id: SmesId,
    pub representative_name: String,
    pub headquarters_address: String,
    pub business_registration_number: BusinessRegistrationNumber,
    pub company_name: String,
    pub industry_code: IndustryCode,
    pub industry_name: String,
}

/// The text of a company's unique number, as `usize::to_string` writes it.
pub open spec fn smes_id_text(n: usize) -> Seq<char> {
    decimal_text(n as nat)
}

/// The text of a unique number is a valid `SmesId` exactly when the number has
/// seven digits.
pub proof fn lemma_smes_id_text(n: usize)
    ensures
        valid_digits(smes_id_text(n), 7, false) <==> 1_000_000 <= n <= 9_999_999,
{
    lemma_decimal_text(n as nat);
    lemma_decimal_width_seven(n as nat);
}

/// Whether a company's identifiers are valid: a 7-digit unique number, a 10-digit
/// (or empty) business registration number and a 5-digit industry code.
pub open spec fn company_valid(c: Company) -> bool {
    &&& 1_000_000 <= c.vnia_sn <= 9_999_999
    &&& valid_digits(c.bizrno@, 10, true)
    &&& valid_digits(c.indsty_cd@, 5, false)
}

/// Whether `n` is the stored form of `c`.
pub open spec fn stored_as(c: Company, n: NewCompany) -> bool {
    &&& n.smes_id@ == smes_id_text(c.vnia_sn)
    &&& n.representative_name@ == c.rprsv_nm@
    &&& n.headquarters_address@ == c.hdofc_addr@
    &&& n.business_registration_number@ == c.bizrno@
    &&& n.company_name@ == c.cmp_nm@
    &&& n.industry_code@ == c.indsty_cd@
    &&& n.industry_name@ == c.indsty_nm@
}

/// A stored company keeps every field of the listed company under its own
/// meaning: the unique number's decimal text as its id, and each text as it was.
pub proof fn lemma_stored_fields(c: Company, n: NewCompany)
    requires
        stored_as(c, n),
    ensures
        n.smes_id@ == smes_id_text(c.vnia_sn),
        n.representative_name@ == c.rprsv_nm@,
        n.headquarters_address@ == c.hdofc_addr@,
        n.business_registration_number@ == c.bizrno@,
        n.company_name@ == c.cmp_nm@,
        n.industry_code@ == c.indsty_cd@,
        n.industry_name@ == c.indsty_nm@,
{
}

/// The value and message of the validation error of `c`: its first invalid
/// identifier, in the order unique number, business registration number,
/// industry code.
pub open spec fn company_error(c: Company) -> (Seq<char>, Seq<char>) {
    if !(1_000_000 <= c.vnia_sn <= 9_999_999) {
        (smes_id_text(c.vnia_sn), "SmesId must be 7 digits"@)
    } else if !valid_digits(c.bizrno@, 10, true) {
        (c.bizrno@, "BusinessRegistrationNumber must be 10 digits"@)
    } else if c.indsty_cd@.len() == 0 {
        (c.indsty_cd@, "Empty value is not allowed for IndustryCode"@)
    } else {
        (c.indsty_cd@, "IndustryCode must be 5 digits"@)
    }
}

impl TryFrom<Company> for NewCompany {
    type Error = SmesError;

    /// Validates the identifiers of `value`: the unique number, then the business
    /// registration number, then the industry code; the first invalid one is the error.
    fn try_from(value: Company) -> (res: Result<NewCompany, SmesError>)
        ensures
            match res {
                Ok(n) => company_valid(value) && stored_as(value, n) && n.smes_id@ == smes_id_text(value.vnia_sn) && n.representative_name@ == value.rprsv_nm@ && n.headquarters_address@
                    == value.hdofc_addr@ && n.business_registration_number@ == value.bizrno@
                    && n.company_name@ == value.cmp_nm@ && n.industry_code@ == value.indsty_cd@
                    && n.industry_name@ == value.indsty_nm@,
                Err(e) => !company_valid(value) && (e matches SmesError::Type(t) && validation_error(
                    t,
                    company_error(value).0,
                    company_error(value).1,
                )),
            },
    {
        let id_text = usize_to_decimal(value.vnia_sn);
        proof {
            lemma_smes_id_text(value.vnia_sn);
        }
        let smes_id = match SmesId::try_new(id_text.as_str()) {
            Ok(v) => v,
            Err(e) => return Err(SmesError::Type(e)),
        };
        let business_registration_number = match BusinessRegistrationNumber::try_new(
            value.bizrno.as_str(),
        ) {
            Ok(v) => v,
            Err(e) => return Err(SmesError::Type(e)),
        };
        let industry_code = match IndustryCode::try_new(value.indsty_cd.as_str()) {
            Ok(v) => v,
            Err(e) => return Err(SmesError::Type(e)),
        };
        Ok(
            NewCompany {
                smes_id,
                representative_name: value.rprsv_nm,
                headquarters_address: value.hdofc_addr,
                business_registration_number,
                company_name: value.cmp_nm,
                industry_code,
                industry_name: value.indsty_nm,
            },
        )
    }
}

impl vstd::std_specs::convert::TryFromSpecImpl<Company> for NewCompany {
    open spec fn obeys_try_from_spec() -> bool {
        false
    }

    open spec fn try_from_spec(v: Company) -> Result<Self, SmesError> {
        arbitrary()
    }
}

/// The HTML of a company's page, with the company's unique number.
#[derive(Debug, Clone)]
pub struct Html {
    pub vnia_sn: String,
    pub html: String,
}

/// A company page, ready to be stored.
#[derive(Debug)]
pub struct NewHtml {
    pub smes_id: SmesId,
    pub html_content: String,
}

impl TryFrom<Html> for NewHtml {
    type Error = SmesError;

    /// Validates the unique number of the page: 7 digits.
    fn try_from(value: Html) -> (res: Result<NewHtml, SmesError>)
        ensures
            match res {
                Ok(n) => valid_digits(value.vnia_sn@, 7, false) && n.smes_id@ == value.vnia_sn@
                    && n.html_content == value.html,
                Err(e) => !valid_digits(value.vnia_sn@, 7, false) && (e matches SmesError::Type(t)
                    && validation_error(
                    t,
                    value.vnia_sn@,
                    if value.vnia_sn@.len() == 0 {
                        "Empty value is not allowed for SmesId"@
                    } else {
                        "SmesId must be 7 digits"@
                    },
                )),
            },
    {
        match SmesId::try_new(value.vnia_sn.as_str()) {
            Ok(smes_id) => Ok(NewHtml { smes_id, html_content: value.html }),
            Err(e) => Err(SmesError::Type(e)),
        }
    }
}

impl vstd::std_specs::convert::TryFromSpecImpl<Html> for NewHtml {
    open spec fn obeys_try_from_spec() -> bool {
        false
    }

    open spec fn try_from_spec(v: Html) -> Result<Self, SmesError> {
        arbitrary()
    }
}

// endregion

// region: response

/// A number that the list API sends as text, as its numeric fields are read:
/// empty text is no number, any other text must be what `str::parse::<usize>`
/// accepts.
pub fn optional_number_from_text(s: &str) -> (res: Result<Option<usize>, ParseIntError>)
    ensures
        s@.len() == 0 ==> res == Ok::<Option<usize>, ParseIntError>(None),
        s@.len() > 0 ==> match parse_usize_spec(s@) {
            Some(v) => res == Ok::<Option<usize>, ParseIntError>(Some(v)),
            None => res matches Err(e) && e.value@ == s@,
        },
{
    if s.unicode_len() == 0 {
        return Ok(None);
    }
    let chars = chars_of(s);
    match parse_usize(chars.as_slice()) {
        Some(v) => Ok(Some(v)),
        None => Err(ParseIntError { value: s.to_owned() }),
    }
}

/// The response of the list API.
#[derive(Debug)]
pub struct ListResponse {
    pub total_count: Option<usize>,
    pub now_page: Option<usize>,
    pub result: String,
    pub data_list: Option<Vec<Company>>,
}

/// "SUCCESS", the result of a successful list request.
pub open spec fn success_result() -> Seq<char> {
    seq!['S', 'U', 'C', 'C', 'E', 'S', 'S']
}

impl ListResponse {
    /// Whether the response reports success.
    pub fn is_success(&self) -> (res: bool)
        ensures
            res == (self.result@ == success_result()),
    {
        proof {
            reveal_strlit("SUCCESS");
            assert("SUCCESS"@ =~= success_result());
        }
        str_eq(self.result.as_str(), "SUCCESS")
    }

    /// The companies of the response, validated; none where the response has no
    /// list. The first company that fails validation gives the error.
    pub fn companies(self) -> (res: Result<Vec<NewCompany>, SmesError>)
        ensures
            self.data_list is None ==> (res matches Ok(v) && v@.len() == 0),
            self.data_list is Some ==> match res {
                Ok(v) => v@.len() == self.data_list->Some_0@.len() && forall|i: int|
                    0 <= i < v@.len() ==> company_valid(#[trigger] self.data_list->Some_0@[i])
                        && stored_as(self.data_list->Some_0@[i], v@[i]),
                Err(e) => exists|i: int|
                    0 <= i < self.data_list->Some_0@.len() && !company_valid(
                        #[trigger] self.data_list->Some_0@[i],
                    ) && (forall|k: int| 0 <= k < i ==> company_valid(self.data_list->Some_0@[k]))
                        && (e matches SmesError::Type(t) && validation_error(
                        t,
                        company_error(self.data_list->Some_0@[i]).0,
                        company_error(self.data_list->Some_0@[i]).1,
                    )),
            },
    {
        let ghost orig = self.data_list;
        match self.data_list {
            None => Ok(Vec::new()),
            Some(list) => {
                let mut out: Vec<NewCompany> = Vec::new();
                let mut i: usize = 0;
                while i < list.len()
                    invariant
                        orig == Some(list),
                        orig == self.data_list,
                        i <= list@.len(),
                        out@.len() == i,
                        forall|k: int|
                            0 <= k < i ==> company_valid(#[trigger] list@[k]) && stored_as(
                                list@[k],
                                out@[k],
                            ),
                    decreases list@.len() - i,
                {
                    let c = list[i].clone();
                    match NewCompany::try_from(c) {
                        Ok(n) => out.push(n),
                        Err(e) => {
                            assert(!company_valid(list@[i as int]));
                            assert(!company_valid(self.data_list->Some_0@[i as int]));
                            assert(forall|k: int| 0 <= k < i ==> company_valid(list@[k]));
                            return Err(e);
                        },
                    }
                    i = i + 1;
                }
                Ok(out)
            },
        }
    }

    /// The total count of companies, which a response to a count request must have.
    pub fn total_count_or_missing(&self) -> (res: Result<usize, SmesError>)
        ensures
            match self.total_count {
                Some(n) => res == Ok::<usize, SmesError>(n),
                None => res matches Err(SmesError::MissingExpectedField(f)) && f@
                    == "total_count"@,
            },
    {
        match self.total_count {
            Some(n) => Ok(n),
            None => Err(SmesError::MissingExpectedField("total_count".to_owned())),
        }
    }
}

/// Accepts a checked reply of the list API, given its status, headers, body text
/// and the body read as a `ListResponse` (`None` where it does not read as one).
///
/// A status other than 200 is an unsuccessful-status error; a body that is no
/// list response is a deserialization error holding the body; a response whose
/// result is not "SUCCESS" is an unsuccessful-result error; otherwise the response
/// is accepted.
pub fn accept_list_response(
    status: u16,
    headers: Vec<(String, Vec<u8>)>,
    body: String,
    parsed: Option<ListResponse>,
) -> (res: Result<ListResponse, SmesError>)
    ensures
        status != 200 ==> (res matches Err(SmesError::Response(e)) && e.message@
            == "Request returned an unsuccessful status code"@ && e.status == status && e.headers
            == headers && e.body == body),
        status == 200 && parsed is None ==> (res matches Err(SmesError::Deserialization(e))
            && e.message@ == "Failed to deserialize response"@ && e.serialized == body),
        status == 200 && parsed is Some && parsed->Some_0.result@ == success_result() ==> res
            == Ok::<ListResponse, SmesError>(parsed->Some_0),
        status == 200 && parsed is Some && parsed->Some_0.result@ != success_result() ==> (res matches Err(
            SmesError::Response(e),
        ) && e.message@ == "Response returned an unsuccessful result"@ && e.status == status
            && e.headers == headers && e.body == body),
{
    if status != 200 {
        return Err(
            SmesError::Response(
                ResponseError {
                    message: "Request returned an unsuccessful status code",
                    status,
                    headers,
                    body,
                },
            ),
        );
    }
    let response = match parsed {
        Some(r) => r,
        None => {
            return Err(
                SmesError::Deserialization(
                    DeserializationError { message: "Failed to deserialize response", serialized: body },
                ),
            );
        },
    };
    if response.is_success() {
        Ok(response)
    } else {
        Err(
            SmesError::Response(
                ResponseError {
                    message: "Response returned an unsuccessful result",
                    status,
                    headers,
                    body,
                },
            ),
        )
    }
}

/// Accepts a raw reply of the list API, its status checked first: a status other
/// than 200 is an unsuccessful-response error without a body; a body that is not
/// UTF-8 is a conversion error; a body that is no list response is a
/// deserialization error holding the body's text; a response whose result is not
/// "SUCCESS" is an unsuccessful-response error holding the response; otherwise
/// the response is accepted.
pub fn accept_list_reply(
    status: u16,
    headers: Vec<(String, Vec<u8>)>,
    bytes: &[u8],
    parsed: Option<ListResponse>,
) -> (res: Result<ListResponse, SmesError>)
    ensures
        status != 200 ==> (res matches Err(SmesError::UnsuccessfulResponse(e)) && e.message@
            == "Request returned an unsuccessful status code"@ && e.status == status && e.headers
            == headers && e.body is None),
        status == 200 && !valid_utf8(bytes@) ==> (res matches Err(
            SmesError::Conversion(ConversionError::Utf8(_)),
        )),
        status == 200 && valid_utf8(bytes@) && parsed is None ==> (res matches Err(
            SmesError::Deserialization(e),
        ) && e.message@ == "Failed to deserialize response"@ && e.serialized@ == decode_utf8(
            bytes@,
        )),
        status == 200 && valid_utf8(bytes@) && parsed is Some && parsed->Some_0.result@
            == success_result() ==> res == Ok::<ListResponse, SmesError>(parsed->Some_0),
        status == 200 && valid_utf8(bytes@) && parsed is Some && parsed->Some_0.result@
            != success_result() ==> (res matches Err(SmesError::UnsuccessfulResponse(e))
            && e.message@ == "Response returned an unsuccessful result"@ && e.status == status
            && e.headers == headers && e.body == parsed),
{
    if status != 200 {
        return Err(
            SmesError::UnsuccessfulResponse(
                UnsuccessfulResponseError {
                    message: "Request returned an unsuccessful status code",
                    status,
                    headers,
                    body: None,
                },
            ),
        );
    }
    let text = match str_from_utf8(bytes) {
        Ok(t) => t.to_owned(),
        Err(e) => return Err(SmesError::Conversion(ConversionError::Utf8(e))),
    };
    let response = match parsed {
        Some(r) => r,
        None => {
            return Err(
                SmesError::Deserialization(
                    DeserializationError { message: "Failed to deserialize response", serialized: text },
                ),
            );
        },
    };
    if response.is_success() {
        Ok(response)
    } else {
        Err(
            SmesError::UnsuccessfulResponse(
                UnsuccessfulResponseError {
                    message: "Response returned an unsuccessful result",
                    status,
                    headers,
                    body: Some(response),
                },
            ),
        )
    }
}

// endregion

} // verus!
