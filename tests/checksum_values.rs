use tunnet::checksum::checksum;

fn checksum_of_hex(text: &str) -> u16 {
    let data = hex::decode(text).unwrap();
    checksum(&data)
}

#[test]
fn checksum_of_empty_buffer() {
    assert_eq!(checksum(&[]), 0xffff);
}

#[test]
fn checksum_of_single_odd_byte() {
    assert_eq!(checksum_of_hex("01"), 0xfeff);
}

#[test]
fn checksum_of_one_word() {
    assert_eq!(checksum_of_hex("0001"), 0xfffe);
}

#[test]
fn checksum_of_two_words() {
    assert_eq!(checksum_of_hex("00010001"), 0xfffd);
}

#[test]
fn checksum_with_carries() {
    assert_eq!(checksum_of_hex("11aabbccddee123412341234"), 7678);
}

#[test]
fn checksum_with_stored_complement_is_zero() {
    assert_eq!(checksum_of_hex("11aabbccddee1234123412341dfe"), 0);
}

#[test]
fn checksum_of_all_ones_words() {
    // 0xffff + 0xffff folds back to 0xffff, whose complement is zero.
    assert_eq!(checksum(&[0xff, 0xff, 0xff, 0xff]), 0);
}

#[test]
fn checksum_of_zero_words() {
    assert_eq!(checksum(&[0, 0, 0, 0, 0]), 0xffff);
}
