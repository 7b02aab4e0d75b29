use qrng_cli::check_bounds;
use qrng_cli::params::DataType;

#[test]
fn type_tokens_are_lower_case() {
    assert_eq!(DataType::Uint8.to_lowercase(), "uint8");
    assert_eq!(DataType::Uint16.to_lowercase(), "uint16");
    assert_eq!(DataType::Hex16.to_lowercase(), "hex16");
}

#[test]
fn choices_map_back_to_types() {
    assert_eq!(DataType::from_choice("uint8"), Some(DataType::Uint8));
    assert_eq!(DataType::from_choice("uint16"), Some(DataType::Uint16));
    assert_eq!(DataType::from_choice("hex16"), Some(DataType::Hex16));
    assert_eq!(DataType::from_choice("Uint8"), None);
    assert_eq!(DataType::from_choice(""), None);
}

#[test]
fn bounds_are_one_to_1024() {
    assert!(!check_bounds(0));
    assert!(check_bounds(1));
    assert!(check_bounds(1024));
    assert!(!check_bounds(1025));
}
