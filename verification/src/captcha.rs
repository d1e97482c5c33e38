//! Captchas on their way from the registry to the solver and back, and the
//! cookies that tie an answer to its captcha.
use vstd::prelude::*;
use base64::Engine;
use crate::error::{ConversionError, InvariantError, SmesError};
use crate::text::trim;
use crate::picture::{encode_png, image_decoding, is_well_formed, load_image, png_encoding, well_formed_image, CaptchaImage};
use crate::response::{header_values, set_cookie_name, ParsedResponse};

verus! {

// region: cookies

/// `cookie::CookieJar`.
#[verifier::external_type_specification]
#[verifier::external_body]
pub struct ExCookieJar(cookie::CookieJar);

/// `cookie::Cookie`.
#[verifier::external_type_specification]
#[verifier::external_body]
pub struct ExCookie<'c>(cookie::Cookie<'c>);

/// `cookie::ParseError`.
#[verifier::external_type_specification]
#[verifier::external_body]
pub struct ExCookieParseError(cookie::ParseError);

/// The cookies of a jar: each cookie's value by its name.
pub uninterp spec fn jar_cookies(jar: cookie::CookieJar) -> Map<Seq<char>, Seq<char>>;

/// The index of the first `c` in `s`, if `s` holds one.
pub open spec fn first_index(s: Seq<char>, c: char) -> Option<nat>
    decreases s.len(),
{
    if s.len() == 0 {
        None
    } else if s[0] == c {
        Some(0)
    } else {
        match first_index(s.drop_first(), c) {
            Some(i) => Some(i + 1),
            None => None,
        }
    }
}

/// The name and value that `cookie::Cookie::parse` reads from a `Set-Cookie`
/// header value: the text before the first `;` is split at its first `=`, and
/// both sides are trimmed of whitespace. A missing `=` or an empty name is an
/// error (`None`); the attributes after the first `;` never are.
pub open spec fn cookie_parse(header: Seq<char>) -> Option<(Seq<char>, Seq<char>)> {
    let pair = match first_index(header, ';') {
        Some(i) => header.take(i as int),
        None => header,
    };
    match first_index(pair, '=') {
        None => None,
        Some(i) => {
            let name = trim(pair.take(i as int));
            if name.len() == 0 {
                None
            } else {
                Some((name, trim(pair.skip(i + 1int))))
            }
        },
    }
}

/// A cookie read from a `Set-Cookie` header, with its name and value.
pub struct ParsedCookie {
    cookie: cookie::Cookie<'static>,
    name: String,
    value: String,
}

impl ParsedCookie {
    pub closed spec fn name(&self) -> Seq<char> {
        self.name@
    }

    pub closed spec fn value(&self) -> Seq<char> {
        self.value@
    }
}

/// `CookieJar::clone` (derived): the copy holds the same cookies.
#[verifier::external_body]
fn clone_jar(jar: &cookie::CookieJar) -> (res: cookie::CookieJar)
    ensures
        jar_cookies(res) == jar_cookies(*jar),
{
    jar.clone()
}

/// No cookies at all.
pub open spec fn no_cookies() -> Map<Seq<char>, Seq<char>> {
    Map::empty()
}

/// `cookie::CookieJar::new()`: an empty jar.
#[verifier::external_body]
fn new_jar() -> (res: cookie::CookieJar)
    ensures
        jar_cookies(res) == no_cookies(),
{
    cookie::CookieJar::new()
}

/// `cookie::Cookie::parse(header)`, with the cookie's name and value.
///
/// Trusted: it succeeds exactly where `cookie_parse` gives a name and value, and
/// the cookie has those.
#[verifier::external_body]
fn parse_cookie(header: String) -> (res: Result<ParsedCookie, cookie::ParseError>)
    ensures
        res is Ok <==> cookie_parse(header@) is Some,
        res matches Ok(c) ==> (c.name(), c.value()) == cookie_parse(header@)->Some_0,
{
    let cookie = cookie::Cookie::parse(header)?;
    let name = cookie.name().to_owned();
    let value = cookie.value().to_owned();
    Ok(ParsedCookie { cookie, name, value })
}

/// `cookie::CookieJar::add`: the cookie replaces any cookie of the same name.
#[verifier::external_body]
fn add_cookie(jar: &mut cookie::CookieJar, cookie: ParsedCookie)
    ensures
        jar_cookies(*final(jar)) == jar_cookies(*old(jar)).insert(cookie.name(), cookie.value()),
{
    jar.add(cookie.cookie)
}

/// `cookie::CookieJar::get(name)`, giving the cookie's value.
#[verifier::external_body]
fn jar_value(jar: &cookie::CookieJar, name: &str) -> (res: Option<String>)
    ensures
        res is Some <==> jar_cookies(*jar).contains_key(name@),
        res matches Some(v) ==> v@ == jar_cookies(*jar)[name@],
{
    match jar.get(name) {
        Some(c) => Some(c.value().to_owned()),
        None => None,
    }
}

/// Whether `b` may stand in a header value (`http` refuses control bytes other
/// than tab, and DEL).
pub open spec fn header_byte(b: u8) -> bool {
    (b >= 32 && b != 127) || b == 9
}

/// Whether `b` is visible ASCII or tab, as `HeaderValue::to_str` asks.
pub open spec fn visible_ascii(b: u8) -> bool {
    (b >= 32 && b < 127) || b == 9
}

/// The text of ASCII bytes, one character per byte.
pub open spec fn ascii_text(raw: Seq<u8>) -> Seq<char> {
    raw.map_values(|b: u8| b as char)
}

/// The text of a header value, where every byte is visible ASCII.
pub open spec fn header_text(raw: Seq<u8>) -> Option<Seq<char>> {
    if forall|j: int| 0 <= j < raw.len() ==> #[trigger] visible_ascii(raw[j]) {
        Some(ascii_text(raw))
    } else {
        None
    }
}

/// The name and value of the cookie that a `Set-Cookie` value sets, where its
/// text is visible ASCII and parses as a cookie.
pub open spec fn cookie_of(raw: Seq<u8>) -> Option<(Seq<char>, Seq<char>)> {
    match header_text(raw) {
        Some(t) => cookie_parse(t),
        None => None,
    }
}

/// Whether `e` is the error for a `Set-Cookie` value `raw` that sets no cookie:
/// a byte that no header value may hold, else a byte that is not visible ASCII,
/// else text that is no cookie.
pub open spec fn cookie_error(e: SmesError, raw: Seq<u8>) -> bool {
    if !(forall|j: int| 0 <= j < raw.len() ==> #[trigger] header_byte(raw[j])) {
        e is InvalidHeaderValue
    } else if !(forall|j: int| 0 <= j < raw.len() ==> #[trigger] visible_ascii(raw[j])) {
        e matches SmesError::Conversion(ConversionError::ToStr(_))
    } else {
        e is CookieParse
    }
}

/// The cookies that the values of the `Set-Cookie` headers set, later ones
/// replacing earlier ones of the same name.
pub open spec fn cookies_set(headers: Seq<Seq<u8>>) -> Map<Seq<char>, Seq<char>>
    decreases headers.len(),
{
    if headers.len() == 0 {
        no_cookies()
    } else {
        let (name, value) = cookie_of(headers.last())->Some_0;
        cookies_set(headers.drop_last()).insert(name, value)
    }
}

/// Whether every header value sets a cookie.
pub open spec fn all_cookies_parse(headers: Seq<Seq<u8>>) -> bool {
    forall|i: int| 0 <= i < headers.len() ==> #[trigger] cookie_of(headers[i]) is Some
}

/// Whether `e` is the error of the first header value that sets no cookie.
pub open spec fn cookies_error(e: SmesError, headers: Seq<Seq<u8>>) -> bool {
    exists|i: int|
        0 <= i < headers.len() && !(#[trigger] cookie_of(headers[i]) is Some) && (forall|k: int|
            0 <= k < i ==> cookie_of(headers[k]) is Some) && cookie_error(e, headers[i])
}

/// `HeaderValue::from_bytes(raw)` and then `HeaderValue::to_str`: the text of a
/// header value.
///
/// Trusted: `from_bytes` fails exactly where a byte is not a header byte, and
/// `to_str` exactly where a byte is not visible ASCII; the text has one
/// character per byte.
#[verifier::external_body]
fn header_value_text(raw: &[u8]) -> (res: Result<
    Result<String, reqwest::header::ToStrError>,
    reqwest::header::InvalidHeaderValue,
>)
    ensures
        res is Err <==> !(forall|j: int| 0 <= j < raw@.len() ==> #[trigger] header_byte(raw@[j])),
        res matches Ok(r) ==> (r is Err <==> !(forall|j: int|
            0 <= j < raw@.len() ==> #[trigger] visible_ascii(raw@[j]))),
        res matches Ok(r) ==> (r matches Ok(t) ==> t@ == ascii_text(raw@)),
{
    reqwest::header::HeaderValue::from_bytes(raw).map(|v| v.to_str().map(str::to_owned))
}

/// Reads the cookies that the `Set-Cookie` header values set into a jar; the
/// first value that sets no cookie gives the error.
pub fn parse_cookies(set_cookie_values: &Vec<Vec<u8>>) -> (res: Result<cookie::CookieJar, SmesError>)
    ensures
        match res {
            Ok(jar) => all_cookies_parse(set_cookie_values@.map_values(|v: Vec<u8>| v@))
                && jar_cookies(jar) == cookies_set(set_cookie_values@.map_values(|v: Vec<u8>| v@)),
            Err(e) => !all_cookies_parse(set_cookie_values@.map_values(|v: Vec<u8>| v@))
                && cookies_error(e, set_cookie_values@.map_values(|v: Vec<u8>| v@)),
        },
{
    let ghost hv = set_cookie_values@.map_values(|v: Vec<u8>| v@);
    let mut jar = new_jar();
    let mut i: usize = 0;
    while i < set_cookie_values.len()
        invariant
            i <= set_cookie_values@.len(),
            hv == set_cookie_values@.map_values(|v: Vec<u8>| v@),
            all_cookies_parse(hv.take(i as int)),
            forall|k: int| 0 <= k < i ==> cookie_of(hv[k]) is Some,
            jar_cookies(jar) == cookies_set(hv.take(i as int)),
        decreases set_cookie_values@.len() - i,
    {
        proof {
            assert(hv.take(i + 1).drop_last() =~= hv.take(i as int));
            assert(hv.take(i + 1).last() == hv[i as int]);
            assert(hv[i as int] == set_cookie_values@[i as int]@);
        }
        let text = match header_value_text(set_cookie_values[i].as_slice()) {
            Err(e) => {
                proof {
                    assert(cookie_error(SmesError::InvalidHeaderValue(e), hv[i as int]));
                    assert(!(header_text(hv[i as int]) is Some)) by {
                        let j = choose|j: int|
                            0 <= j < hv[i as int].len() && !header_byte(hv[i as int][j]);
                        assert(!visible_ascii(hv[i as int][j]));
                    }
                }
                return Err(SmesError::InvalidHeaderValue(e));
            },
            Ok(Err(e)) => {
                proof {
                    assert(cookie_error(SmesError::Conversion(ConversionError::ToStr(e)), hv[i as int]));
                }
                return Err(SmesError::Conversion(ConversionError::ToStr(e)));
            },
            Ok(Ok(t)) => t,
        };
        proof {
            assert(header_text(hv[i as int]) == Some(text@));
        }
        match parse_cookie(text) {
            Ok(c) => {
                add_cookie(&mut jar, c);
                proof {
                    assert forall|k: int| 0 <= k < i + 1 implies #[trigger] cookie_of(
                        hv.take(i + 1)[k],
                    ) is Some by {
                        if k < i {
                            assert(hv.take(i + 1)[k] == hv.take(i as int)[k]);
                        }
                    }
                }
            },
            Err(e) => {
                proof {
                    assert(!(cookie_of(hv[i as int]) is Some));
                    assert(cookie_error(SmesError::CookieParse(e), hv[i as int]));
                }
                return Err(SmesError::CookieParse(e));
            },
        }
        i = i + 1;
    }
    proof {
        assert(hv.take(hv.len() as int) =~= hv);
    }
    Ok(jar)
}

/// The value of the cookie named `name` in `jar`.
pub fn cookie_value(jar: &cookie::CookieJar, name: &str) -> (res: Option<String>)
    ensures
        res is Some <==> jar_cookies(*jar).contains_key(name@),
        res matches Some(v) ==> v@ == jar_cookies(*jar)[name@],
{
    jar_value(jar, name)
}

// endregion

// region: base64

/// The character of a 6-bit value in the standard base64 alphabet (RFC 4648).
pub open spec fn base64_char(v: int) -> char {
    if v < 26 {
        (v + 'A' as int) as char
    } else if v < 52 {
        (v - 26 + 'a' as int) as char
    } else if v < 62 {
        (v - 52 + '0' as int) as char
    } else if v == 62 {
        '+'
    } else {
        '/'
    }
}

/// The standard base64 encoding (RFC 4648, section 4) of `b`, with `=` padding.
pub open spec fn base64_encode(b: Seq<u8>) -> Seq<char>
    decreases b.len(),
{
    if b.len() == 0 {
        Seq::empty()
    } else if b.len() == 1 {
        seq![base64_char((b[0] as int) / 4), base64_char(((b[0] as int) % 4) * 16), '=', '=']
    } else if b.len() == 2 {
        seq![
            base64_char((b[0] as int) / 4),
            base64_char(((b[0] as int) % 4) * 16 + (b[1] as int) / 16),
            base64_char(((b[1] as int) % 16) * 4),
            '=',
        ]
    } else {
        seq![
            base64_char((b[0] as int) / 4),
            base64_char(((b[0] as int) % 4) * 16 + (b[1] as int) / 16),
            base64_char(((b[1] as int) % 16) * 4 + (b[2] as int) / 64),
            base64_char((b[2] as int) % 64),
        ] + base64_encode(b.skip(3))
    }
}

/// `base64::engine::general_purpose::STANDARD.encode(bytes)`.
///
/// Trusted: the result is the standard base64 encoding with padding.
#[verifier::external_body]
fn base64_standard(bytes: &[u8]) -> (res: String)
    ensures
        res@ == base64_encode(bytes@),
{
    base64::engine::general_purpose::STANDARD.encode(bytes)
}

// endregion

// region: captchas

/// The image as PNG, encoded in standard base64. An image that is not whole
/// (`well_formed_image`) is an invariant error.
pub fn image_to_base64(image: &CaptchaImage) -> (res: Result<String, SmesError>)
    ensures
        !well_formed_image(image@) ==> (res matches Err(SmesError::Invariant(e)) && e.message@
            == "Image samples do not match its size and color type"@),
        well_formed_image(image@) ==> match png_encoding(image@) {
            Some(png) => res matches Ok(s) && s@ == base64_encode(png),
            None => res matches Err(SmesError::Image(_)),
        },
{
    if !is_well_formed(image) {
        return Err(
            SmesError::Invariant(
                InvariantError { message: "Image samples do not match its size and color type".to_owned() },
            ),
        );
    }
    match encode_png(image) {
        Ok(bytes) => Ok(base64_standard(bytes.as_slice())),
        Err(e) => Err(SmesError::Image(e)),
    }
}

/// A captcha fetched from the registry, not yet sent to the solver.
#[derive(Clone)]
pub struct Unsubmitted;

/// A captcha sent to the solver, with the solver's job id.
#[derive(Clone)]
pub struct Submitted {
    nopecha_id: String,
}

/// A captcha with the solver's job id and its answer.
#[derive(Clone)]
pub struct Solved {
    nopecha_id: String,
    answer: String,
}

/// A captcha image with the cookies of the session it belongs to, in one of the
/// states `Unsubmitted`, `Submitted` and `Solved`.
pub struct Captcha<State> {
    image: CaptchaImage,
    cookies: cookie::CookieJar,
    state: State,
}

impl<State> Captcha<State> {
    pub closed spec fn spec_image(&self) -> CaptchaImage {
        self.image
    }

    pub closed spec fn spec_cookies(&self) -> cookie::CookieJar {
        self.cookies
    }

    /// The captcha image.
    pub fn image(&self) -> (res: &CaptchaImage)
        ensures
            *res == self.spec_image(),
    {
        &self.image
    }

    /// The cookies of the captcha's session.
    pub fn cookies(&self) -> (res: &cookie::CookieJar)
        ensures
            *res == self.spec_cookies(),
    {
        &self.cookies
    }
}

impl<State: Clone> Clone for Captcha<State> {
    /// A copy of the captcha: the same image, cookies and state.
    fn clone(&self) -> (res: Self)
        ensures
            res.spec_image()@ == self.spec_image()@,
            jar_cookies(res.spec_cookies()) == jar_cookies(self.spec_cookies()),
    {
        Captcha {
            image: self.image.clone(),
            cookies: clone_jar(&self.cookies),
            state: self.state.clone(),
        }
    }
}

impl Captcha<Unsubmitted> {
    /// A fresh captcha.
    pub fn new(image: CaptchaImage, cookies: cookie::CookieJar) -> (res: Self)
        ensures
            res.spec_image() == image,
            res.spec_cookies() == cookies,
    {
        Captcha { image, cookies, state: Unsubmitted }
    }

    /// The captcha of a response to a captcha request: the image is decoded from
    /// the body, and the session's cookies are read from its `set-cookie` headers.
    pub fn from_response(response: &ParsedResponse) -> (res: Result<Self, SmesError>)
        ensures
            match image_decoding(response.bytes@) {
                None => res matches Err(SmesError::Image(_)),
                Some(v) => if all_cookies_parse(header_values(response.headers@, set_cookie_name())) {
                    res matches Ok(c) && c.spec_image()@ == v && jar_cookies(c.spec_cookies())
                        == cookies_set(header_values(response.headers@, set_cookie_name()))
                } else {
                    res matches Err(e) && cookies_error(
                        e,
                        header_values(response.headers@, set_cookie_name()),
                    )
                },
            },
    {
        let image = match load_image(response.bytes.as_slice()) {
            Ok(image) => image,
            Err(e) => return Err(SmesError::Image(e)),
        };
        let values = response.set_cookie_values();
        proof {
            assert(values@.map_values(|v: Vec<u8>| v@) == header_values(
                response.headers@,
                set_cookie_name(),
            ));
        }
        let cookies = parse_cookies(&values)?;
        Ok(Captcha::new(image, cookies))
    }

    /// The captcha, sent to the solver under the job id `nopecha_id`.
    pub fn submit(self, nopecha_id: &str) -> (res: Captcha<Submitted>)
        ensures
            res.spec_image() == self.spec_image(),
            res.spec_cookies() == self.spec_cookies(),
            res.spec_nopecha_id() == nopecha_id@,
    {
        Captcha {
            image: self.image,
            cookies: self.cookies,
            state: Submitted { nopecha_id: nopecha_id.to_owned() },
        }
    }
}

impl Captcha<Submitted> {
    /// The solver's job id.
    pub closed spec fn spec_nopecha_id(&self) -> Seq<char> {
        self.state.nopecha_id@
    }

    /// The solver's job id.
    pub fn nopecha_id(&self) -> (res: &str)
        ensures
            res@ == self.spec_nopecha_id(),
    {
        self.state.nopecha_id.as_str()
    }

    /// The captcha with its answer.
    pub fn solve(self, answer: String) -> (res: Captcha<Solved>)
        ensures
            res.spec_image() == self.spec_image(),
            res.spec_cookies() == self.spec_cookies(),
            res.spec_nopecha_id() == self.spec_nopecha_id(),
            res.spec_answer() == answer@,
    {
        Captcha {
            image: self.image,
            cookies: self.cookies,
            state: Solved { nopecha_id: self.state.nopecha_id, answer },
        }
    }
}

impl Captcha<Solved> {
    /// The solver's job id.
    pub closed spec fn spec_nopecha_id(&self) -> Seq<char> {
        self.state.nopecha_id@
    }

    /// The answer.
    pub closed spec fn spec_answer(&self) -> Seq<char> {
        self.state.answer@
    }

    /// The answer.
    pub fn answer(&self) -> (res: &str)
        ensures
            res@ == self.spec_answer(),
    {
        self.state.answer.as_str()
    }
}

// endregion

} // verus!
