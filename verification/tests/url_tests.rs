use qrng_cli::params::{make_params, DataType, ParamError};
use qrng_cli::url::{build_url, lotto_parameters, API_URL};

#[test]
fn builds_uint8_url() {
    let p = make_params(DataType::Uint8, 5, None).unwrap();
    let url = build_url(&p);
    assert_eq!(url, "https://qrng.anu.edu.au/API/jsonI.php?length=5&type=uint8");
}

#[test]
fn builds_uint16_url() {
    let p = make_params(DataType::Uint16, 1024, None).unwrap();
    let url = build_url(&p);
    assert_eq!(url, "https://qrng.anu.edu.au/API/jsonI.php?length=1024&type=uint16");
}

#[test]
fn builds_hex16_url_with_size() {
    let p = make_params(DataType::Hex16, 100, Some(8)).unwrap();
    let url = build_url(&p);
    assert_eq!(url, "https://qrng.anu.edu.au/API/jsonI.php?length=100&type=hex16&size=8");
    assert!(url.contains("length=100"));
    assert!(url.contains("type=hex16"));
    assert!(url.contains("size=8"));
}

#[test]
fn non_hex_url_never_carries_size() {
    let p = make_params(DataType::Uint8, 7, Some(16)).unwrap();
    let url = build_url(&p);
    assert!(url.contains("length=7"));
    assert!(url.contains("type=uint8"));
    assert!(!url.contains("size="));

    let q = make_params(DataType::Uint16, 3, Some(64)).unwrap();
    let url2 = build_url(&q);
    assert!(!url2.contains("size="));
}

#[test]
fn lotto_url_is_fixed() {
    let p = lotto_parameters();
    let url = build_url(&p);
    assert_eq!(url, "https://qrng.anu.edu.au/API/jsonI.php?length=10&type=uint8");
}

#[test]
fn base_url_is_the_endpoint() {
    assert_eq!(API_URL, "https://qrng.anu.edu.au/API/jsonI.php");
}

#[test]
fn rejects_out_of_range_length() {
    assert_eq!(make_params(DataType::Uint8, 0, None), Err(ParamError::LengthOutOfRange));
    assert_eq!(make_params(DataType::Uint8, 1025, None), Err(ParamError::LengthOutOfRange));
    assert!(make_params(DataType::Uint8, 1, None).is_ok());
    assert!(make_params(DataType::Uint8, 1024, None).is_ok());
}

#[test]
fn rejects_bad_block_size() {
    assert_eq!(make_params(DataType::Hex16, 10, None), Err(ParamError::BlockSizeMissing));
    assert_eq!(make_params(DataType::Hex16, 10, Some(0)), Err(ParamError::BlockSizeOutOfRange));
    assert_eq!(
        make_params(DataType::Hex16, 10, Some(1025)),
        Err(ParamError::BlockSizeOutOfRange)
    );
    assert!(make_params(DataType::Hex16, 10, Some(1)).is_ok());
}

#[test]
fn block_size_dropped_for_numeric_types() {
    let p = make_params(DataType::Uint16, 10, Some(12)).unwrap();
    assert_eq!(p.block_size, None);
    let q = make_params(DataType::Hex16, 10, Some(12)).unwrap();
    assert_eq!(q.block_size, Some(12));
}
