//! Validated domain values: fixed-width digit strings and plain texts.
use vstd::prelude::*;
use crate::error::{TypeError, ValidationError};
use crate::text::{all_ascii_digits, is_ascii_digit, is_ascii_digit_char};

verus! {

/// Whether `value` is a valid digit string of `width` digits; the empty string
/// is valid too where `allow_empty` holds.
pub open spec fn valid_digits(value: Seq<char>, width: nat, allow_empty: bool) -> bool {
    if value.len() == 0 {
        allow_empty
    } else {
        value.len() == width && all_ascii_digits(value)
    }
}

/// Whether a validation result is the error for `value` with `message`.
pub open spec fn validation_error(res_err: TypeError, value: Seq<char>, message: Seq<char>) -> bool {
    res_err matches TypeError::Validation(e) && e.value@ == value && e.message@ == message
}

/// The validation shared by the digit-string types: `Ok` with the text where it
/// is valid, the error with `empty_message` where it is empty and must not be,
/// and the error with `width_message` otherwise.
fn validate_digits(
    value: &str,
    width: usize,
    allow_empty: bool,
    empty_message: &str,
    width_message: &str,
) -> (res: Result<String, TypeError>)
    ensures
        match res {
            Ok(s) => valid_digits(value@, width as nat, allow_empty) && s@ == value@,
            Err(e) => !valid_digits(value@, width as nat, allow_empty) && validation_error(
                e,
                value@,
                if value@.len() == 0 {
                    empty_message@
                } else {
                    width_message@
                },
            ),
        },
{
    let n = value.unicode_len();
    if n == 0 {
        if allow_empty {
            return Ok(value.to_owned());
        } else {
            return Err(
                TypeError::Validation(
                    ValidationError { value: value.to_owned(), message: empty_message.to_owned() },
                ),
            );
        }
    }
    let mut ok = n == width;
    let mut i: usize = 0;
    while ok && i < n
        invariant
            n == value@.len(),
            i <= n,
            ok ==> n == width,
            ok ==> forall|j: int| 0 <= j < i ==> #[trigger] is_ascii_digit(value@[j]),
            !ok ==> !valid_digits(value@, width as nat, allow_empty),
        decreases n - i,
    {
        if !is_ascii_digit_char(value.get_char(i)) {
            ok = false;
        }
        i = i + 1;
    }
    if ok {
        Ok(value.to_owned())
    } else {
        Err(
            TypeError::Validation(
                ValidationError { value: value.to_owned(), message: width_message.to_owned() },
            ),
        )
    }
}

/// ## 사업자번호
///
/// A 10-digit number, or the empty string, which the registry gives for some companies.
#[derive(Debug, Clone, PartialEq, Eq, PartialOrd, Ord, Hash)]
pub struct BusinessRegistrationNumber(String);

impl View for BusinessRegistrationNumber {
    type V = Seq<char>;

    closed spec fn view(&self) -> Seq<char> {
        self.0@
    }
}

impl BusinessRegistrationNumber {
    /// The number of digits.
    pub open spec fn width() -> nat {
        10
    }

    /// Whether the empty string is a valid value.
    pub open spec fn allows_empty() -> bool {
        true
    }

    /// Validates `value`: empty, or exactly 10 ASCII digits.
    pub fn try_new(value: &str) -> (res: Result<Self, TypeError>)
        ensures
            match res {
                Ok(v) => valid_digits(value@, Self::width(), Self::allows_empty()) && v@ == value@,
                Err(e) => !valid_digits(value@, Self::width(), Self::allows_empty())
                    && validation_error(
                    e,
                    value@,
                    if value@.len() == 0 {
                        "Empty value is not allowed for BusinessRegistrationNumber"@
                    } else {
                        "BusinessRegistrationNumber must be 10 digits"@
                    },
                ),
            },
    {
        match validate_digits(
            value,
            10,
            true,
            "Empty value is not allowed for BusinessRegistrationNumber",
            "BusinessRegistrationNumber must be 10 digits",
        ) {
            Ok(s) => Ok(BusinessRegistrationNumber(s)),
            Err(e) => Err(e),
        }
    }

    /// The digits as a `String`.
    pub fn into_inner(self) -> (res: String)
        ensures
            res@ == self@,
    {
        self.0
    }

    /// The digits as a `&str`.
    pub fn as_str(&self) -> (res: &str)
        ensures
            res@ == self@,
    {
        self.0.as_str()
    }
}

impl TryFrom<&str> for BusinessRegistrationNumber {
    type Error = TypeError;

    fn try_from(value: &str) -> (res: Result<Self, TypeError>)
        ensures
            valid_digits(value@, Self::width(), Self::allows_empty()) <==> res is Ok,
            res matches Ok(v) ==> v@ == value@,
    {
        BusinessRegistrationNumber::try_new(value)
    }
}

impl vstd::std_specs::convert::TryFromSpecImpl<&str> for BusinessRegistrationNumber {
    open spec fn obeys_try_from_spec() -> bool {
        false
    }

    open spec fn try_from_spec(v: &str) -> Result<Self, TypeError> {
        arbitrary()
    }
}

/// ## 법인등록번호
///
/// A 13-digit number.
#[derive(Debug, Clone, PartialEq, Eq, PartialOrd, Ord, Hash)]
pub struct CorporationRegistrationNumber(String);

impl View for CorporationRegistrationNumber {
    type V = Seq<char>;

    closed spec fn view(&self) -> Seq<char> {
        self.0@
    }
}

impl CorporationRegistrationNumber {
    /// The number of digits.
    pub open spec fn width() -> nat {
        13
    }

    /// Whether the empty string is a valid value.
    pub open spec fn allows_empty() -> bool {
        false
    }

    /// Validates `value`: exactly 13 ASCII digits.
    pub fn try_new(value: &str) -> (res: Result<Self, TypeError>)
        ensures
            match res {
                Ok(v) => valid_digits(value@, Self::width(), Self::allows_empty()) && v@ == value@,
                Err(e) => !valid_digits(value@, Self::width(), Self::allows_empty())
                    && validation_error(
                    e,
                    value@,
                    if value@.len() == 0 {
                        "Empty value is not allowed for CorporationRegistrationNumber"@
                    } else {
                        "CorporationRegistrationNumber must be 13 digits"@
                    },
                ),
            },
    {
        match validate_digits(
            value,
            13,
            false,
            "Empty value is not allowed for CorporationRegistrationNumber",
            "CorporationRegistrationNumber must be 13 digits",
        ) {
            Ok(s) => Ok(CorporationRegistrationNumber(s)),
            Err(e) => Err(e),
        }
    }

    /// The digits as a `String`.
    pub fn into_inner(self) -> (res: String)
        ensures
            res@ == self@,
    {
        self.0
    }

    /// The digits as a `&str`.
    pub fn as_str(&self) -> (res: &str)
        ensures
            res@ == self@,
    {
        self.0.as_str()
    }
}

impl TryFrom<&str> for CorporationRegistrationNumber {
    type Error = TypeError;

    fn try_from(value: &str) -> (res: Result<Self, TypeError>)
        ensures
            valid_digits(value@, Self::width(), Self::allows_empty()) <==> res is Ok,
            res matches Ok(v) ==> v@ == value@,
    {
        CorporationRegistrationNumber::try_new(value)
    }
}

impl vstd::std_specs::convert::TryFromSpecImpl<&str> for CorporationRegistrationNumber {
    open spec fn obeys_try_from_spec() -> bool {
        false
    }

    open spec fn try_from_spec(v: &str) -> Result<Self, TypeError> {
        arbitrary()
    }
}

/// An 8-digit DART identifier.
#[derive(Debug, Clone, PartialEq, Eq, PartialOrd, Ord, Hash)]
pub struct DartId(String);

impl View for DartId {
    type V = Seq<char>;

    closed spec fn view(&self) -> Seq<char> {
        self.0@
    }
}

impl DartId {
    /// The number of digits.
    pub open spec fn width() -> nat {
        8
    }

    /// Whether the empty string is a valid value.
    pub open spec fn allows_empty() -> bool {
        false
    }

    /// Validates `value`: exactly 8 ASCII digits.
    pub fn try_new(value: &str) -> (res: Result<Self, TypeError>)
        ensures
            match res {
                Ok(v) => valid_digits(value@, Self::width(), Self::allows_empty()) && v@ == value@,
                Err(e) => !valid_digits(value@, Self::width(), Self::allows_empty())
                    && validation_error(
                    e,
                    value@,
                    if value@.len() == 0 {
                        "Empty value is not allowed for DartId"@
                    } else {
                        "DartId must be 8 digits"@
                    },
                ),
            },
    {
        match validate_digits(
            value,
            8,
            false,
            "Empty value is not allowed for DartId",
            "DartId must be 8 digits",
        ) {
            Ok(s) => Ok(DartId(s)),
            Err(e) => Err(e),
        }
    }

    /// The digits as a `String`.
    pub fn into_inner(self) -> (res: String)
        ensures
            res@ == self@,
    {
        self.0
    }

    /// The digits as a `&str`.
    pub fn as_str(&self) -> (res: &str)
        ensures
            res@ == self@,
    {
        self.0.as_str()
    }
}

impl TryFrom<&str> for DartId {
    type Error = TypeError;

    fn try_from(value: &str) -> (res: Result<Self, TypeError>)
        ensures
            valid_digits(value@, Self::width(), Self::allows_empty()) <==> res is Ok,
            res matches Ok(v) ==> v@ == value@,
    {
        DartId::try_new(value)
    }
}

impl vstd::std_specs::convert::TryFromSpecImpl<&str> for DartId {
    open spec fn obeys_try_from_spec() -> bool {
        false
    }

    open spec fn try_from_spec(v: &str) -> Result<Self, TypeError> {
        arbitrary()
    }
}

/// ## 업종코드
///
/// A 5-digit number.
#[derive(Debug, Clone, PartialEq, Eq, PartialOrd, Ord, Hash)]
pub struct IndustryCode(String);

impl View for IndustryCode {
    type V = Seq<char>;

    closed spec fn view(&self) -> Seq<char> {
        self.0@
    }
}

impl IndustryCode {
    /// The number of digits.
    pub open spec fn width() -> nat {
        5
    }

    /// Whether the empty string is a valid value.
    pub open spec fn allows_empty() -> bool {
        false
    }

    /// Validates `value`: exactly 5 ASCII digits.
    pub fn try_new(value: &str) -> (res: Result<Self, TypeError>)
        ensures
            match res {
                Ok(v) => valid_digits(value@, Self::width(), Self::allows_empty()) && v@ == value@,
                Err(e) => !valid_digits(value@, Self::width(), Self::allows_empty())
                    && validation_error(
                    e,
                    value@,
                    if value@.len() == 0 {
                        "Empty value is not allowed for IndustryCode"@
                    } else {
                        "IndustryCode must be 5 digits"@
                    },
                ),
            },
    {
        match validate_digits(
            value,
            5,
            false,
            "Empty value is not allowed for IndustryCode",
            "IndustryCode must be 5 digits",
        ) {
            Ok(s) => Ok(IndustryCode(s)),
            Err(e) => Err(e),
        }
    }

    /// The digits as a `String`.
    pub fn into_inner(self) -> (res: String)
        ensures
            res@ == self@,
    {
        self.0
    }

    /// The digits as a `&str`.
    pub fn as_str(&self) -> (res: &str)
        ensures
            res@ == self@,
    {
        self.0.as_str()
    }
}

impl TryFrom<&str> for IndustryCode {
    type Error = TypeError;

    fn try_from(value: &str) -> (res: Result<Self, TypeError>)
        ensures
            valid_digits(value@, Self::width(), Self::allows_empty()) <==> res is Ok,
            res matches Ok(v) ==> v@ == value@,
    {
        IndustryCode::try_new(value)
    }
}

impl vstd::std_specs::convert::TryFromSpecImpl<&str> for IndustryCode {
    open spec fn obeys_try_from_spec() -> bool {
        false
    }

    open spec fn try_from_spec(v: &str) -> Result<Self, TypeError> {
        arbitrary()
    }
}

/// A 7-digit SMES company identifier.
#[derive(Debug, Clone, PartialEq, Eq, PartialOrd, Ord, Hash)]
pub struct SmesId(String);

impl View for SmesId {
    type V = Seq<char>;

    closed spec fn view(&self) -> Seq<char> {
        self.0@
    }
}

impl SmesId {
    /// The number of digits.
    pub open spec fn width() -> nat {
        7
    }

    /// Whether the empty string is a valid value.
    pub open spec fn allows_empty() -> bool {
        false
    }

    /// Validates `value`: exactly 7 ASCII digits.
    pub fn try_new(value: &str) -> (res: Result<Self, TypeError>)
        ensures
            match res {
                Ok(v) => valid_digits(value@, Self::width(), Self::allows_empty()) && v@ == value@,
                Err(e) => !valid_digits(value@, Self::width(), Self::allows_empty())
                    && validation_error(
                    e,
                    value@,
                    if value@.len() == 0 {
                        "Empty value is not allowed for SmesId"@
                    } else {
                        "SmesId must be 7 digits"@
                    },
                ),
            },
    {
        match validate_digits(
            value,
            7,
            false,
            "Empty value is not allowed for SmesId",
            "SmesId must be 7 digits",
        ) {
            Ok(s) => Ok(SmesId(s)),
            Err(e) => Err(e),
        }
    }

    /// The digits as a `String`.
    pub fn into_inner(self) -> (res: String)
        ensures
            res@ == self@,
    {
        self.0
    }

    /// The digits as a `&str`.
    pub fn as_str(&self) -> (res: &str)
        ensures
            res@ == self@,
    {
        self.0.as_str()
    }
}

impl TryFrom<&str> for SmesId {
    type Error = TypeError;

    fn try_from(value: &str) -> (res: Result<Self, TypeError>)
        ensures
            valid_digits(value@, Self::width(), Self::allows_empty()) <==> res is Ok,
            res matches Ok(v) ==> v@ == value@,
    {
        SmesId::try_new(value)
    }
}

impl vstd::std_specs::convert::TryFromSpecImpl<&str> for SmesId {
    open spec fn obeys_try_from_spec() -> bool {
        false
    }

    open spec fn try_from_spec(v: &str) -> Result<Self, TypeError> {
        arbitrary()
    }
}

/// ## 종목코드
///
/// A 6-digit number.
#[derive(Debug, Clone, PartialEq, Eq, PartialOrd, Ord, Hash)]
pub struct StockCode(String);

impl View for StockCode {
    type V = Seq<char>;

    closed spec fn view(&self) -> Seq<char> {
        self.0@
    }
}

impl StockCode {
    /// The number of digits.
    pub open spec fn width() -> nat {
        6
    }

    /// Whether the empty string is a valid value.
    pub open spec fn allows_empty() -> bool {
        false
    }

    /// Validates `value`: exactly 6 ASCII digits.
    pub fn try_new(value: &str) -> (res: Result<Self, TypeError>)
        ensures
            match res {
                Ok(v) => valid_digits(value@, Self::width(), Self::allows_empty()) && v@ == value@,
                Err(e) => !valid_digits(value@, Self::width(), Self::allows_empty())
                    && validation_error(
                    e,
                    value@,
                    if value@.len() == 0 {
                        "Empty value is not allowed for StockCode"@
                    } else {
                        "StockCode must be 6 digits"@
                    },
                ),
            },
    {
        match validate_digits(
            value,
            6,
            false,
            "Empty value is not allowed for StockCode",
            "StockCode must be 6 digits",
        ) {
            Ok(s) => Ok(StockCode(s)),
            Err(e) => Err(e),
        }
    }

    /// The digits as a `String`.
    pub fn into_inner(self) -> (res: String)
        ensures
            res@ == self@,
    {
        self.0
    }

    /// The digits as a `&str`.
    pub fn as_str(&self) -> (res: &str)
        ensures
            res@ == self@,
    {
        self.0.as_str()
    }
}

impl TryFrom<&str> for StockCode {
    type Error = TypeError;

    fn try_from(value: &str) -> (res: Result<Self, TypeError>)
        ensures
            valid_digits(value@, Self::width(), Self::allows_empty()) <==> res is Ok,
            res matches Ok(v) ==> v@ == value@,
    {
        StockCode::try_new(value)
    }
}

impl vstd::std_specs::convert::TryFromSpecImpl<&str> for StockCode {
    open spec fn obeys_try_from_spec() -> bool {
        false
    }

    open spec fn try_from_spec(v: &str) -> Result<Self, TypeError> {
        arbitrary()
    }
}

/// ## 접수번호
///
/// A 14-digit filing receipt number.
#[derive(Debug, Clone, PartialEq, Eq, PartialOrd, Ord, Hash)]
pub struct ReceiptNumber(String);

impl View for ReceiptNumber {
    type V = Seq<char>;

    closed spec fn view(&self) -> Seq<char> {
        self.0@
    }
}

impl ReceiptNumber {
    /// The number of digits.
    pub open spec fn width() -> nat {
        14
    }

    /// Whether the empty string is a valid value.
    pub open spec fn allows_empty() -> bool {
        false
    }

    /// Validates `value`: exactly 14 ASCII digits.
    pub fn try_new(value: &str) -> (res: Result<Self, TypeError>)
        ensures
            match res {
                Ok(v) => valid_digits(value@, Self::width(), Self::allows_empty()) && v@ == value@,
                Err(e) => !valid_digits(value@, Self::width(), Self::allows_empty())
                    && validation_error(
                    e,
                    value@,
                    if value@.len() == 0 {
                        "Empty value is not allowed for ReceiptNumber"@
                    } else {
                        "ReceiptNumber must be 14 digits"@
                    },
                ),
            },
    {
        match validate_digits(
            value,
            14,
            false,
            "Empty value is not allowed for ReceiptNumber",
            "ReceiptNumber must be 14 digits",
        ) {
            Ok(s) => Ok(ReceiptNumber(s)),
            Err(e) => Err(e),
        }
    }

    /// The digits as a `String`.
    pub fn into_inner(self) -> (res: String)
        ensures
            res@ == self@,
    {
        self.0
    }

    /// The digits as a `&str`.
    pub fn as_str(&self) -> (res: &str)
        ensures
            res@ == self@,
    {
        self.0.as_str()
    }
}

impl TryFrom<&str> for ReceiptNumber {
    type Error = TypeError;

    fn try_from(value: &str) -> (res: Result<Self, TypeError>)
        ensures
            valid_digits(value@, Self::width(), Self::allows_empty()) <==> res is Ok,
            res matches Ok(v) ==> v@ == value@,
    {
        ReceiptNumber::try_new(value)
    }
}

impl vstd::std_specs::convert::TryFromSpecImpl<&str> for ReceiptNumber {
    open spec fn obeys_try_from_spec() -> bool {
        false
    }

    open spec fn try_from_spec(v: &str) -> Result<Self, TypeError> {
        arbitrary()
    }
}

/// ## 비고
///
/// A remark on a filing.
#[derive(Debug, Clone, PartialEq, Eq, PartialOrd, Ord, Hash)]
pub struct Remark(String);

impl View for Remark {
    type V = Seq<char>;

    closed spec fn view(&self) -> Seq<char> {
        self.0@
    }
}

impl Remark {
    /// The remark with this text.
    pub fn new(value: &str) -> (res: Self)
        ensures
            res@ == value@,
    {
        Remark(value.to_owned())
    }

    /// The text of the remark.
    pub fn into_inner(self) -> (res: String)
        ensures
            res@ == self@,
    {
        self.0
    }
}

} // verus!
