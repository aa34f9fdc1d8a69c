use messoria::noise::noise_bits;

#[test]
fn noise_is_fixed_for_each_index() {
    assert_eq!(noise_bits(0), 0);
    assert_eq!(noise_bits(1), 9_660_751);
    assert_eq!(noise_bits(2), 6_058_571);
    assert_eq!(noise_bits(12_345), 13_546_194);
    for index in 0..1000 {
        assert_eq!(noise_bits(index), noise_bits(index));
        assert!(noise_bits(index) < 1 << 24);
    }
}
