use qrng_cli::params::DataType;
use qrng_cli::response::{
    array_outcome, lotto_outcome, ArrayOutcome, FetchError, LottoOutcome, RandomArrayData,
};
use qrng_cli::text::{str_contains, str_eq};

#[test]
fn lotto_success_yields_the_draw() {
    let body = "{\"data\":[0,1,2,3,4,5,6,7,8,9]}";
    let outcome = lotto_outcome(200, body);
    assert_eq!(outcome, LottoOutcome::Numbers(vec![1, 2, 3, 4, 5, 6]));
}

#[test]
fn lotto_api_rejection_is_rate_limited() {
    let outcome = lotto_outcome(200, "{\"success\":false}");
    assert_eq!(outcome, LottoOutcome::RateLimited);
}

#[test]
fn lotto_server_error_status() {
    assert_eq!(lotto_outcome(503, ""), LottoOutcome::ServerError);
    assert_eq!(lotto_outcome(500, ""), LottoOutcome::ServerError);
}

#[test]
fn lotto_other_http_failure_carries_the_status() {
    assert_eq!(lotto_outcome(404, ""), LottoOutcome::HttpFailure(404));
    assert_eq!(lotto_outcome(301, ""), LottoOutcome::HttpFailure(301));
}

#[test]
fn lotto_bad_body_is_malformed() {
    assert_eq!(lotto_outcome(200, "not json"), LottoOutcome::MalformedResponse);
    assert_eq!(lotto_outcome(200, "{\"other\":1}"), LottoOutcome::MalformedResponse);
    // An element too large for a byte fails the lottery decode.
    assert_eq!(lotto_outcome(200, "{\"data\":[300]}"), LottoOutcome::MalformedResponse);
}

#[test]
fn array_http_failure_is_fatal_and_names_the_status() {
    let err = array_outcome(DataType::Uint8, 503, "").unwrap_err();
    assert_eq!(err, FetchError { status: 503 });
    let message = err.message();
    assert_eq!(message, "Failed to fetch data. Status: 503");
    assert!(message.contains("503"));
}

#[test]
fn array_numeric_success_passes_data_through() {
    let body = "{\"data\":[1,2,65535]}";
    let outcome = array_outcome(DataType::Uint8, 200, body).unwrap();
    assert_eq!(outcome, ArrayOutcome::Data(RandomArrayData::Numbers(vec![1, 2, 65535])));
    let outcome16 = array_outcome(DataType::Uint16, 200, body).unwrap();
    assert_eq!(outcome16, ArrayOutcome::Data(RandomArrayData::Numbers(vec![1, 2, 65535])));
}

#[test]
fn array_hex_success_passes_strings_through() {
    let body = "{\"data\":[\"aabb\",\"ccdd\"]}";
    let outcome = array_outcome(DataType::Hex16, 200, body).unwrap();
    assert_eq!(
        outcome,
        ArrayOutcome::Data(RandomArrayData::HexStrings(vec![
            "aabb".to_string(),
            "ccdd".to_string()
        ]))
    );
}

#[test]
fn array_wrong_shape_is_malformed() {
    // Numbers where strings were requested, and the other way round.
    assert_eq!(
        array_outcome(DataType::Hex16, 200, "{\"data\":[1,2]}").unwrap(),
        ArrayOutcome::MalformedResponse
    );
    assert_eq!(
        array_outcome(DataType::Uint8, 200, "{\"data\":[\"aa\"]}").unwrap(),
        ArrayOutcome::MalformedResponse
    );
}

#[test]
fn array_api_rejection_is_rate_limited() {
    assert_eq!(
        array_outcome(DataType::Uint8, 200, "{\"success\":false}").unwrap(),
        ArrayOutcome::RateLimited
    );
    assert_eq!(
        array_outcome(DataType::Hex16, 200, "{\"success\":false}").unwrap(),
        ArrayOutcome::RateLimited
    );
}

#[test]
fn substring_search_finds_the_marker() {
    assert!(str_contains("{\"success\":false}", "\"success\":false"));
    assert!(!str_contains("{\"success\":true}", "\"success\":false"));
    assert!(str_contains("abc", ""));
    assert!(!str_contains("ab", "abc"));
    assert!(str_contains("aaab", "aab"));
}

#[test]
fn string_equality_compares_characters() {
    assert!(str_eq("uint8", "uint8"));
    assert!(!str_eq("uint8", "uint16"));
    assert!(!str_eq("", "a"));
    assert!(str_eq("", ""));
}
