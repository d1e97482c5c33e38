//! The answers of the Nopecha captcha-solving API and the decisions taken on them.
use vstd::prelude::*;
use crate::error::{nopecha_error_of, ExternalApiError, NopechaError, NopechaErrorBody, SmesError};

verus! {

/// The answer to a captcha submission: the id under which the job runs.
#[derive(Debug)]
pub struct Key {
    pub data: String,
}

/// What the submission endpoint answers.
#[derive(Debug)]
pub enum SubmitCaptchaResponse {
    Answer(Key),
    Error(NopechaErrorBody),
}

/// A solved captcha: its one answer.
#[derive(Debug)]
pub struct Answer {
    pub data: [String; 1],
}

impl Answer {
    /// The answer text.
    pub fn data(&self) -> (res: &str)
        ensures
            res@ == self.data@[0]@,
    {
        self.data[0].as_str()
    }
}

/// What the answer endpoint answers.
#[derive(Debug)]
pub enum GetAnswerResponse {
    Answer(Answer),
    Error(NopechaErrorBody),
}

/// The job id of a submission, or the API's error, classified.
pub fn nopecha_id_from_response(response: SubmitCaptchaResponse) -> (res: Result<String, SmesError>)
    ensures
        match response {
            SubmitCaptchaResponse::Answer(key) => res == Ok::<String, SmesError>(key.data),
            SubmitCaptchaResponse::Error(body) => res == Err::<String, SmesError>(
                SmesError::Nopecha(nopecha_error_of(body)),
            ),
        },
{
    match response {
        SubmitCaptchaResponse::Answer(key) => Ok(key.data),
        SubmitCaptchaResponse::Error(body) => Err(SmesError::Nopecha(NopechaError::from(body))),
    }
}

/// The captcha answer of a response: the answer text where it is not empty, an
/// external-API error where it is, and the API's error, classified, otherwise.
pub fn answer_from_response(response: GetAnswerResponse) -> (res: Result<String, SmesError>)
    ensures
        match response {
            GetAnswerResponse::Answer(a) => if a.data@[0]@.len() > 0 {
                res matches Ok(s) && s@ == a.data@[0]@
            } else {
                res matches Err(SmesError::ExternalApi(e)) && e.message@
                    == "Nopecha API returned an empty answer"@
            },
            GetAnswerResponse::Error(body) => res == Err::<String, SmesError>(
                SmesError::Nopecha(nopecha_error_of(body)),
            ),
        },
{
    match response {
        GetAnswerResponse::Answer(a) => {
            let answer = a.data().to_owned();
            if answer.as_str().unicode_len() == 0 {
                Err(
                    SmesError::ExternalApi(
                        ExternalApiError { message: "Nopecha API returned an empty answer" },
                    ),
                )
            } else {
                Ok(answer)
            }
        },
        GetAnswerResponse::Error(body) => Err(SmesError::Nopecha(NopechaError::from(body))),
    }
}

/// Whether asking for the answer again may help: the job was not finished.
pub fn is_incomplete_job(e: &SmesError) -> (res: bool)
    ensures
        res == (e matches SmesError::Nopecha(NopechaError::IncompleteJob(_))),
{
    match e {
        SmesError::Nopecha(NopechaError::IncompleteJob(_)) => true,
        _ => false,
    }
}

/// Whether asking for answers must stop altogether: the account is out of credit.
pub fn is_out_of_credit(e: &SmesError) -> (res: bool)
    ensures
        res == (e matches SmesError::Nopecha(NopechaError::OutOfCredit(_))),
{
    match e {
        SmesError::Nopecha(NopechaError::OutOfCredit(_)) => true,
        _ => false,
    }
}

} // verus!
