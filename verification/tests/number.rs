use r_uwp::number::parse_i32;

#[test]
fn parse_i32_matches_std() {
    let samples = [
        "0", "-0", "+0", "42", "-42", "+42", "007", "2147483647", "2147483648", "-2147483648",
        "-2147483649", "", "-", "+", " 1", "1 ", "1_000", "0x10", "١", "99999999999999999999", "+-1",
        "-+1", "00000000000000000000000000012",
    ];
    for s in samples {
        assert_eq!(parse_i32(s), s.parse::<i32>().ok(), "{s}");
    }
}
