//! Decoding the service's reply: classify the HTTP status, decode the JSON
//! body through `serde_json`, and fold failures into the outcome taxonomy.

use vstd::prelude::*;
use vstd::string::*;
use crate::lotto::{lotto_numbers, lotto_spec};
use crate::numerals::{dec_rep, push_decimal};
use crate::params::DataType;
use crate::text::{contains_seq, str_contains};

verus! {

/// An HTTP status in the success range.
pub open spec fn is_success_status(status: u16) -> bool {
    200 <= status < 300
}

/// An HTTP status in the server-error range.
pub open spec fn is_server_error_status(status: u16) -> bool {
    500 <= status < 600
}

/// What `serde_json` decodes from a body expected to hold
/// `{"data": [...]}` with an array of unsigned numbers that fit in sixteen
/// bits; nothing when the body is not such JSON.
pub uninterp spec fn json_numeric_data(s: Seq<char>) -> Option<Seq<u16>>;

/// What `serde_json` decodes from a body expected to hold
/// `{"data": [...]}` with an array of strings; nothing when the body is
/// not such JSON.
pub uninterp spec fn json_hex_data(s: Seq<char>) -> Option<Seq<Seq<char>>>;

/// Relies on `serde_json::from_str` and the `serde_json::Value` accessors
/// `get`, `as_array` and `as_u64`: decodes the `data` field of the body as
/// an array of numbers that fit in sixteen bits. The result is a function
/// of the body text alone.
#[verifier::external_body]
fn decode_numeric_body(body: &str) -> (r: Option<Vec<u16>>)
    ensures
        match r {
            Some(v) => json_numeric_data(body@) == Some(v@),
            None => json_numeric_data(body@) is None,
        },
{
    let value: serde_json::Value = serde_json::from_str(body).ok()?;
    let items = value.get("data")?.as_array()?;
    let mut data: Vec<u16> = Vec::with_capacity(items.len());
    for item in items {
        data.push(u16::try_from(item.as_u64()?).ok()?);
    }
    Some(data)
}

/// Relies on `serde_json::from_str` and the `serde_json::Value` accessors
/// `get`, `as_array` and `as_str`: decodes the `data` field of the body as
/// an array of strings. The result is a function of the body text alone.
#[verifier::external_body]
fn decode_hex_body(body: &str) -> (r: Option<Vec<String>>)
    ensures
        match r {
            Some(v) => json_hex_data(body@) == Some(v.deep_view()),
            None => json_hex_data(body@) is None,
        },
{
    let value: serde_json::Value = serde_json::from_str(body).ok()?;
    let items = value.get("data")?.as_array()?;
    let mut data: Vec<String> = Vec::with_capacity(items.len());
    for item in items {
        data.push(item.as_str()?.to_owned());
    }
    Some(data)
}

/// Every decoded number fits in a byte.
pub open spec fn fits_bytes(s: Seq<u16>) -> bool {
    forall|i: int| 0 <= i < s.len() ==> #[trigger] s[i] <= u8::MAX
}

/// The decoded numbers as bytes.
pub open spec fn to_bytes(s: Seq<u16>) -> Seq<u8> {
    s.map_values(|v: u16| v as u8)
}

/// The lottery body decodes to a byte array: the numbers are there and
/// each fits in a byte.
pub open spec fn lotto_decode_ok(body: Seq<char>) -> bool {
    json_numeric_data(body) matches Some(data) && fits_bytes(data)
}

/// The bytes the lottery body decodes to, when `lotto_decode_ok` holds.
pub open spec fn lotto_decoded_bytes(body: Seq<char>) -> Seq<u8> {
    to_bytes(json_numeric_data(body)->0)
}

/// The marker the service puts in a body that reports an API-level
/// rejection, such as a rate limit.
pub open spec fn has_rejection_marker(body: Seq<char>) -> bool {
    contains_seq(body, "\"success\":false"@)
}

/// Convert decoded numbers to bytes, exactly when each fits in a byte.
fn numbers_to_bytes(v: &Vec<u16>) -> (r: Option<Vec<u8>>)
    ensures
        r is Some <==> fits_bytes(v@),
        r matches Some(b) ==> b@ == to_bytes(v@),
{
    let mut out: Vec<u8> = Vec::new();
    let mut i: usize = 0;
    while i < v.len()
        invariant
            i <= v@.len(),
            forall|k: int| 0 <= k < i ==> #[trigger] v@[k] <= u8::MAX,
            out@ == to_bytes(v@.subrange(0, i as int)),
        decreases v@.len() - i,
    {
        let n = v[i];
        if n > 255 {
            return None;
        }
        out.push(n as u8);
        proof {
            assert(to_bytes(v@.subrange(0, i + 1)) =~= to_bytes(v@.subrange(0, i as int)).push(
                n as u8,
            ));
        }
        i = i + 1;
    }
    proof {
        assert(v@.subrange(0, v@.len() as int) =~= v@);
    }
    Some(out)
}

/// How the lottery path ends: the drawn numbers, or one of the reported,
/// non-fatal failures.
#[derive(Debug, PartialEq, Eq)]
pub enum LottoOutcome {
    /// The draw succeeded; the numbers are sorted, unique, and in range.
    Numbers(Vec<u8>),
    /// The service answered with a server-error status.
    ServerError,
    /// The service answered with some other non-success status.
    HttpFailure(u16),
    /// The body did not decode and carries the rejection marker.
    RateLimited,
    /// The body did not decode and carries no rejection marker.
    MalformedResponse,
}

/// Classify the lottery reply. Every failure is reported, never fatal: a
/// non-success status is classified by its range, a body that decodes to
/// bytes becomes the draw, and a body that does not decode is told apart
/// by the rejection marker.
pub fn lotto_outcome(status: u16, body: &str) -> (r: LottoOutcome)
    ensures
        !is_success_status(status) && is_server_error_status(status) ==> r is ServerError,
        !is_success_status(status) && !is_server_error_status(status) ==> r
            == LottoOutcome::HttpFailure(status),
        is_success_status(status) && lotto_decode_ok(body@) ==> (r matches LottoOutcome::Numbers(
            v,
        ) && v@ == lotto_spec(lotto_decoded_bytes(body@))),
        is_success_status(status) && !lotto_decode_ok(body@) && has_rejection_marker(body@) ==> r
            is RateLimited,
        is_success_status(status) && !lotto_decode_ok(body@) && !has_rejection_marker(body@) ==> r
            is MalformedResponse,
{
    if !(200 <= status && status < 300) {
        if 500 <= status && status < 600 {
            return LottoOutcome::ServerError;
        }
        return LottoOutcome::HttpFailure(status);
    }
    let decoded = decode_numeric_body(body);
    let bytes = match decoded {
        Some(numbers) => numbers_to_bytes(&numbers),
        None => None,
    };
    match bytes {
        Some(data) => LottoOutcome::Numbers(lotto_numbers(&data)),
        None => {
            if str_contains(body, "\"success\":false") {
                LottoOutcome::RateLimited
            } else {
                LottoOutcome::MalformedResponse
            }
        },
    }
}

/// The decoded payload of the generic array path: numbers for the numeric
/// data types, strings for the hex one.
#[derive(Debug, PartialEq, Eq)]
pub enum RandomArrayData {
    Numbers(Vec<u16>),
    HexStrings(Vec<String>),
}

/// How the generic array path ends when the status was a success: the
/// payload, or a reported decode failure.
#[derive(Debug, PartialEq, Eq)]
pub enum ArrayOutcome {
    Data(RandomArrayData),
    RateLimited,
    MalformedResponse,
}

/// The fatal error of the generic array path: a non-success HTTP status.
#[derive(Debug, PartialEq, Eq)]
pub struct FetchError {
    pub status: u16,
}

impl FetchError {
    /// The error message, carrying the status code.
    pub fn message(&self) -> (r: String)
        ensures
            r@ == "Failed to fetch data. Status: "@ + dec_rep(self.status as nat),
    {
        let mut out = String::from_str("Failed to fetch data. Status: ");
        push_decimal(&mut out, self.status);
        out
    }
}

/// Classify the generic array reply. A non-success status is fatal and
/// carries the status code; a success status yields the payload decoded by
/// the requested data type, or a reported decode failure told apart by the
/// rejection marker.
pub fn array_outcome(data_type: DataType, status: u16, body: &str) -> (r: Result<
    ArrayOutcome,
    FetchError,
>)
    ensures
        !is_success_status(status) ==> (r matches Err(e) && e.status == status),
        is_success_status(status) ==> r is Ok,
        is_success_status(status) && !(data_type is Hex16) ==> match json_numeric_data(body@) {
            Some(data) => (r matches Ok(ArrayOutcome::Data(RandomArrayData::Numbers(v)))
                && v@ == data),
            None => {
                &&& has_rejection_marker(body@) ==> r == Ok::<ArrayOutcome, FetchError>(
                    ArrayOutcome::RateLimited,
                )
                &&& !has_rejection_marker(body@) ==> r == Ok::<ArrayOutcome, FetchError>(
                    ArrayOutcome::MalformedResponse,
                )
            },
        },
        is_success_status(status) && data_type is Hex16 ==> match json_hex_data(body@) {
            Some(data) => (r matches Ok(ArrayOutcome::Data(RandomArrayData::HexStrings(v)))
                && v.deep_view() == data),
            None => {
                &&& has_rejection_marker(body@) ==> r == Ok::<ArrayOutcome, FetchError>(
                    ArrayOutcome::RateLimited,
                )
                &&& !has_rejection_marker(body@) ==> r == Ok::<ArrayOutcome, FetchError>(
                    ArrayOutcome::MalformedResponse,
                )
            },
        },
{
    if !(200 <= status && status < 300) {
        return Err(FetchError { status });
    }
    if matches!(data_type, DataType::Hex16) {
        match decode_hex_body(body) {
            Some(strings) => Ok(ArrayOutcome::Data(RandomArrayData::HexStrings(strings))),
            None => {
                if str_contains(body, "\"success\":false") {
                    Ok(ArrayOutcome::RateLimited)
                } else {
                    Ok(ArrayOutcome::MalformedResponse)
                }
            },
        }
    } else {
        match decode_numeric_body(body) {
            Some(numbers) => Ok(ArrayOutcome::Data(RandomArrayData::Numbers(numbers))),
            None => {
                if str_contains(body, "\"success\":false") {
                    Ok(ArrayOutcome::RateLimited)
                } else {
                    Ok(ArrayOutcome::MalformedResponse)
                }
            },
        }
    }
}

} // verus!
