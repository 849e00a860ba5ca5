use nft_key::token_id::{format_token_id, make_path_string, parse_token_id, token_title};
use nft_key::utils::assert_gt_one_yocto_near;
use nft_key::Error;

#[test]
fn parses_plain_decimal() {
    assert_eq!(parse_token_id("0"), Some(0));
    assert_eq!(parse_token_id("7"), Some(7));
    assert_eq!(parse_token_id("42"), Some(42));
    assert_eq!(parse_token_id("1234567890"), Some(1234567890));
}

#[test]
fn parses_leading_plus_and_zeros() {
    assert_eq!(parse_token_id("+5"), Some(5));
    assert_eq!(parse_token_id("007"), Some(7));
    assert_eq!(parse_token_id("+000"), Some(0));
    assert_eq!(parse_token_id("00000000000000000000000012"), Some(12));
}

#[test]
fn parses_up_to_the_largest_value() {
    assert_eq!(parse_token_id("4294967295"), Some(u32::MAX));
    assert_eq!(parse_token_id("4294967296"), None);
    assert_eq!(parse_token_id("4294967300"), None);
    assert_eq!(parse_token_id("99999999999"), None);
}

#[test]
fn rejects_malformed_text() {
    assert_eq!(parse_token_id(""), None);
    assert_eq!(parse_token_id("+"), None);
    assert_eq!(parse_token_id("-"), None);
    assert_eq!(parse_token_id("-1"), None);
    assert_eq!(parse_token_id("++1"), None);
    assert_eq!(parse_token_id("1+"), None);
    assert_eq!(parse_token_id("1a"), None);
    assert_eq!(parse_token_id("a1"), None);
    assert_eq!(parse_token_id(" 1"), None);
    assert_eq!(parse_token_id("1 "), None);
    assert_eq!(parse_token_id("1_000"), None);
    assert_eq!(parse_token_id("0x10"), None);
    assert_eq!(parse_token_id("1,2"), None);
    assert_eq!(parse_token_id("\u{0663}"), None);
    assert_eq!(parse_token_id("1\u{00e9}"), None);
}

#[test]
fn parse_agrees_with_std() {
    let samples = [
        "", "+", "-", "0", "+0", "-0", "00", "9", "10", "+10", "4294967295", "4294967296",
        "42949672950", "000004294967295", "12x", "x12", "1.5", "٣", "１２",
    ];
    for s in samples {
        assert_eq!(parse_token_id(s), s.parse::<u32>().ok(), "{:?}", s);
    }
}

#[test]
fn formats_decimal() {
    assert_eq!(format_token_id(0), "0");
    assert_eq!(format_token_id(7), "7");
    assert_eq!(format_token_id(10), "10");
    assert_eq!(format_token_id(109), "109");
    assert_eq!(format_token_id(u32::MAX), "4294967295");
}

#[test]
fn format_agrees_with_std_and_reads_back() {
    let samples = [0u32, 1, 9, 10, 11, 99, 100, 101, 65535, 65536, 4294967294, u32::MAX];
    for n in samples {
        let text = format_token_id(n);
        assert_eq!(text, n.to_string());
        assert_eq!(parse_token_id(&text), Some(n));
    }
}

#[test]
fn path_is_token_comma_subpath() {
    assert_eq!(make_path_string("0", ""), "0,");
    assert_eq!(make_path_string("12", "a/b"), "12,a/b");
    assert_eq!(make_path_string("+5", ","), "+5,,");
    assert_eq!(make_path_string("", ""), ",");
}

#[test]
fn title_names_the_token() {
    assert_eq!(token_title(0), "Chain Key Token #0");
    assert_eq!(token_title(31), "Chain Key Token #31");
    assert_eq!(token_title(u32::MAX), "Chain Key Token #4294967295");
}

#[test]
fn escrow_needs_one_unit() {
    assert_eq!(assert_gt_one_yocto_near(0), Err(Error::InsufficientDeposit));
    assert_eq!(assert_gt_one_yocto_near(1), Ok(()));
    assert_eq!(assert_gt_one_yocto_near(2), Ok(()));
    assert_eq!(assert_gt_one_yocto_near(u128::MAX), Ok(()));
}
