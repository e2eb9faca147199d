use nft_mint::decimal::decimal_to_ascii;
use nft_mint::metadata::{attributes_for, name_for, uris_for};
use nft_mint::percent::percent_of_amount;

#[test]
fn decimal_to_ascii_writes_digits() {
    assert_eq!(decimal_to_ascii(0), b"0".to_vec());
    assert_eq!(decimal_to_ascii(7), b"7".to_vec());
    assert_eq!(decimal_to_ascii(42), b"42".to_vec());
    assert_eq!(decimal_to_ascii(1000), b"1000".to_vec());
    assert_eq!(decimal_to_ascii(9_999_999_999), b"9999999999".to_vec());
}

#[test]
fn decimal_round_trips() {
    for n in [0u64, 1, 9, 10, 99, 100, 12345, 4_294_967_296, 9_999_999_999] {
        let text = String::from_utf8(decimal_to_ascii(n)).unwrap();
        assert_eq!(text.parse::<u64>().unwrap(), n);
        assert!(!text.starts_with('0') || n == 0);
    }
}

#[test]
fn attributes_follow_the_pattern() {
    let cid = b"QmCid".to_vec();
    assert_eq!(attributes_for(&cid, 5), b"metadata:QmCid/5.json;".to_vec());
    assert_eq!(attributes_for(&Vec::new(), 0), b"metadata:/0.json;".to_vec());
}

#[test]
fn uris_follow_the_pattern() {
    let cid = b"QmCid".to_vec();
    let uris = uris_for(&cid, 17);
    assert_eq!(uris.len(), 2);
    assert_eq!(uris[0], b"https://ipfs.io/ipfs/QmCid/17.jpg".to_vec());
    assert_eq!(uris[1], b"https://ipfs.io/ipfs/QmCid/17.json".to_vec());
}

#[test]
fn names_follow_the_pattern() {
    assert_eq!(name_for(&b"Apes".to_vec(), 12), b"Apes #12".to_vec());
    assert_eq!(name_for(&Vec::new(), 3), b" #3".to_vec());
}

#[test]
fn distinct_indexes_get_distinct_metadata() {
    let cid = b"Qm".to_vec();
    assert_ne!(attributes_for(&cid, 1), attributes_for(&cid, 11));
    assert_ne!(uris_for(&cid, 2), uris_for(&cid, 20));
    assert_ne!(name_for(&b"A".to_vec(), 1), name_for(&b"A".to_vec(), 10));
}

#[test]
fn percentages_round_down_and_stay_exact() {
    assert_eq!(percent_of_amount(1000, 10), Some(100));
    assert_eq!(percent_of_amount(199, 50), Some(99));
    assert_eq!(percent_of_amount(1, 101), Some(1));
    assert_eq!(percent_of_amount(0, 55), Some(0));
    assert_eq!(percent_of_amount(u128::MAX, 100), Some(u128::MAX));
    assert_eq!(percent_of_amount(u128::MAX, 1), Some(u128::MAX / 100));
    assert_eq!(percent_of_amount(u128::MAX, 200), None);
    assert_eq!(percent_of_amount(10u128.pow(30), 7), Some(7 * 10u128.pow(28)));
}
