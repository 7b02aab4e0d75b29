use qrng_cli::lotto::{dedup_first_seen, lotto_numbers, remap, sort_u8};

#[test]
fn draw_from_consecutive_bytes() {
    let data: Vec<u8> = vec![0, 1, 2, 3, 4, 5, 6, 7, 8, 9];
    assert_eq!(remap(&data), vec![1, 2, 3, 4, 5, 6, 7, 8, 9, 10]);
    assert_eq!(lotto_numbers(&data), vec![1, 2, 3, 4, 5, 6]);
}

#[test]
fn draw_from_identical_bytes() {
    let data: Vec<u8> = vec![7; 10];
    assert_eq!(lotto_numbers(&data), vec![8]);
}

#[test]
fn remap_wraps_at_the_modulus() {
    let data: Vec<u8> = vec![48, 97, 49, 0];
    assert_eq!(remap(&data), vec![49, 49, 1, 1]);
    assert_eq!(lotto_numbers(&data), vec![1, 49]);
}

#[test]
fn draw_is_sorted_unique_and_in_range() {
    let data: Vec<u8> = vec![200, 13, 13, 255, 0, 49, 98, 147, 196, 245];
    let draw = lotto_numbers(&data);
    assert!(draw.len() <= 6);
    for w in draw.windows(2) {
        assert!(w[0] < w[1]);
    }
    for &n in &draw {
        assert!((1..=49).contains(&n));
    }
}

#[test]
fn draw_length_is_min_of_six_and_distinct_values() {
    // Ten bytes, all distinct after the remap: six numbers come out.
    let many: Vec<u8> = vec![10, 11, 12, 13, 14, 15, 16, 17, 18, 19];
    assert_eq!(lotto_numbers(&many).len(), 6);
    // Three distinct remapped values: all three come out.
    let few: Vec<u8> = vec![1, 1, 2, 2, 3, 3, 50, 50, 51, 51];
    assert_eq!(lotto_numbers(&few), vec![2, 3, 4]);
}

#[test]
fn draw_is_deterministic() {
    let data: Vec<u8> = vec![5, 77, 201, 5, 77, 201, 33, 33, 9, 9];
    assert_eq!(lotto_numbers(&data), lotto_numbers(&data));
}

#[test]
fn dedup_keeps_first_seen_order() {
    let v: Vec<u8> = vec![3, 1, 3, 2, 1, 4];
    assert_eq!(dedup_first_seen(&v), vec![3, 1, 2, 4]);
}

#[test]
fn sort_orders_ascending() {
    let v: Vec<u8> = vec![9, 1, 8, 1, 0];
    assert_eq!(sort_u8(v), vec![0, 1, 1, 8, 9]);
}
