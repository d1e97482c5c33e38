//! The checks every HTTP response goes through.
use vstd::prelude::*;
use vstd::utf8::{decode_utf8, valid_utf8};
use crate::captcha::{all_cookies_parse, cookies_error, cookies_set, parse_cookies};
use crate::checks::{contains_seq, contains_str};
use crate::error::{nopecha_error_of, ConversionError, NopechaError, NopechaErrorBody, ResponseError, SmesError};
use crate::parser::str_eq;
use crate::scrape::str_from_utf8;

verus! {

/// A response that passed the checks: its status, headers and body.
#[derive(Debug)]
pub struct ParsedResponse {
    pub status: u16,
    /// The headers, as (lower-case name, value bytes).
    pub headers: Vec<(String, Vec<u8>)>,
    pub bytes: Vec<u8>,
}

/// "image/", which the content type of an image response holds.
pub open spec fn image_marker() -> Seq<char> {
    seq!['i', 'm', 'a', 'g', 'e', '/']
}

/// "set-cookie", the name of the headers that set cookies.
pub open spec fn set_cookie_name() -> Seq<char> {
    seq!['s', 'e', 't', '-', 'c', 'o', 'o', 'k', 'i', 'e']
}

/// "image data", the body text reported for an image response.
pub open spec fn image_body_text() -> Seq<char> {
    seq!['i', 'm', 'a', 'g', 'e', ' ', 'd', 'a', 't', 'a']
}

/// Whether a content type is that of an image.
pub open spec fn is_image_type(content_type: Option<String>) -> bool {
    content_type matches Some(ct) && contains_seq(ct@, image_marker())
}

/// Whether a status code reports success (200 to 299).
pub open spec fn is_success_status(status: u16) -> bool {
    200 <= status <= 299
}

/// The values of the headers named `name`, in order.
pub open spec fn header_values(headers: Seq<(String, Vec<u8>)>, name: Seq<char>) -> Seq<Seq<u8>>
    decreases headers.len(),
{
    if headers.len() == 0 {
        Seq::empty()
    } else if headers.last().0@ == name {
        header_values(headers.drop_last(), name).push(headers.last().1@)
    } else {
        header_values(headers.drop_last(), name)
    }
}

/// Every content type that mentions `image/`, whatever the subtype, is that of
/// an image, and no other is.
pub proof fn lemma_image_types(content_type: Option<String>)
    ensures
        is_image_type(content_type) <==> (content_type matches Some(ct) && contains_seq(
            ct@,
            seq!['i', 'm', 'a', 'g', 'e', '/'],
        )),
{
}

impl ParsedResponse {
    /// Checks a received response.
    ///
    /// The body must be UTF-8 unless the content type is that of an image. A status
    /// other than 2XX is an error: the Nopecha API's error where the body is one
    /// that reports an incomplete job or no credit (`nopecha_body` is the body read
    /// as a Nopecha error, where it reads as one), else an unsuccessful-response
    /// error with the status, headers and body text.
    pub fn check(
        status: u16,
        headers: Vec<(String, Vec<u8>)>,
        content_type: Option<String>,
        bytes: Vec<u8>,
        nopecha_body: Option<NopechaErrorBody>,
    ) -> (res: Result<ParsedResponse, SmesError>)
        ensures
            (content_type matches Some(ct) && contains_seq(ct@, "image/"@)) && 200 <= status <= 299
                ==> res == Ok::<ParsedResponse, SmesError>(
                (ParsedResponse { status, headers, bytes }),
            ),
            !is_image_type(content_type) && !valid_utf8(bytes@) ==> (res matches Err(
                SmesError::Conversion(ConversionError::Utf8(_)),
            )),
            is_image_type(content_type) || valid_utf8(bytes@) ==> {
                if is_success_status(status) {
                    res == Ok::<ParsedResponse, SmesError>(
                        ParsedResponse { status, headers, bytes },
                    )
                } else if nopecha_body matches Some(b) && (b.error() == 14 || b.error() == 16) {
                    res == Err::<ParsedResponse, SmesError>(
                        SmesError::Nopecha(nopecha_error_of(nopecha_body->Some_0)),
                    )
                } else {
                    res matches Err(SmesError::Response(e)) && e.message@
                        == "Request returned an unsuccessful status code"@ && e.status == status
                        && e.headers == headers && e.body@ == (if is_image_type(content_type) {
                        image_body_text()
                    } else {
                        decode_utf8(bytes@)
                    })
                }
            },
    {
        proof {
            reveal_strlit("image/");
            reveal_strlit("image data");
            assert("image/"@ =~= image_marker());
            assert("image data"@ =~= image_body_text());
        }
        let is_image = match &content_type {
            Some(ct) => contains_str(ct.as_str(), "image/"),
            None => false,
        };
        let body: String = if is_image {
            "image data".to_owned()
        } else {
            match str_from_utf8(bytes.as_slice()) {
                Ok(t) => t.to_owned(),
                Err(e) => return Err(SmesError::Conversion(ConversionError::Utf8(e))),
            }
        };
        if 200 <= status && status <= 299 {
            return Ok(ParsedResponse { status, headers, bytes });
        }
        if let Some(b) = nopecha_body {
            match NopechaError::from(b) {
                NopechaError::Other(_) => {},
                e => return Err(SmesError::Nopecha(e)),
            }
        }
        Err(
            SmesError::Response(
                ResponseError {
                    message: "Request returned an unsuccessful status code",
                    status,
                    headers,
                    body,
                },
            ),
        )
    }

    /// The values of the `set-cookie` headers, in order.
    pub fn set_cookie_values(&self) -> (res: Vec<Vec<u8>>)
        ensures
            res@.map_values(|v: Vec<u8>| v@) == header_values(self.headers@, set_cookie_name()),
    {
        proof {
            reveal_strlit("set-cookie");
            assert("set-cookie"@ =~= set_cookie_name());
        }
        let mut out: Vec<Vec<u8>> = Vec::new();
        let mut i: usize = 0;
        while i < self.headers.len()
            invariant
                i <= self.headers@.len(),
                out@.map_values(|v: Vec<u8>| v@) == header_values(
                    self.headers@.take(i as int),
                    set_cookie_name(),
                ),
            decreases self.headers@.len() - i,
        {
            let (name, value) = &self.headers[i];
            let ghost old_out = out@;
            proof {
                reveal_strlit("set-cookie");
                assert("set-cookie"@ =~= set_cookie_name());
                assert(self.headers@.take(i + 1).drop_last() =~= self.headers@.take(i as int));
                assert(self.headers@.take(i + 1).last() == self.headers@[i as int]);
            }
            if str_eq(name.as_str(), "set-cookie") {
                let copy = value.clone();
                assert(copy@ =~= value@);
                out.push(copy);
                proof {
                    assert(out@.map_values(|v: Vec<u8>| v@) =~= old_out.map_values(
                        |v: Vec<u8>| v@,
                    ).push(value@));
                }
            }
            proof {
                let t = self.headers@.take(i + 1);
                assert(t.last().0@ == name@);
                assert(t.last().1@ == value@);
                assert(header_values(t, set_cookie_name()) == if t.last().0@ == set_cookie_name() {
                    header_values(t.drop_last(), set_cookie_name()).push(t.last().1@)
                } else {
                    header_values(t.drop_last(), set_cookie_name())
                });
                assert(out@.map_values(|v: Vec<u8>| v@) == header_values(t, set_cookie_name()));
            }
            i = i + 1;
        }
        proof {
            assert(self.headers@.take(self.headers@.len() as int) =~= self.headers@);
        }
        out
    }

    /// The cookies that the response's `set-cookie` headers set.
    pub fn cookies(&self) -> (res: Result<cookie::CookieJar, SmesError>)
        ensures
            match res {
                Ok(jar) => all_cookies_parse(header_values(self.headers@, set_cookie_name()))
                    && crate::captcha::jar_cookies(jar) == cookies_set(
                    header_values(self.headers@, set_cookie_name()),
                ),
                Err(e) => !all_cookies_parse(header_values(self.headers@, set_cookie_name()))
                    && cookies_error(e, header_values(self.headers@, set_cookie_name())),
            },
    {
        let values = self.set_cookie_values();
        parse_cookies(&values)
    }
}

} // verus!
