use guild_onboarding::decimal::encode_u64;
use guild_onboarding::decimal::parse_u64;
use guild_onboarding::member_db::MemberJoinMessageStage;

#[test]
fn encode_small_values() {
    assert_eq!(encode_u64(0), "0");
    assert_eq!(encode_u64(7), "7");
    assert_eq!(encode_u64(10), "10");
    assert_eq!(encode_u64(1001), "1001");
}

#[test]
fn identifier_round_trip_at_u64_boundary() {
    let text = encode_u64(18446744073709551615);
    assert_eq!(text, "18446744073709551615");
    assert_eq!(parse_u64(&text), Some(18446744073709551615));
}

#[test]
fn round_trip_various_values() {
    for v in [0u64, 1, 9, 10, 99, 100, 65535, 1 << 32, u64::MAX - 1, u64::MAX] {
        assert_eq!(parse_u64(&encode_u64(v)), Some(v));
    }
}

#[test]
fn parse_rejects_empty_text() {
    assert_eq!(parse_u64(""), None);
}

#[test]
fn parse_rejects_non_numeric_text() {
    assert_eq!(parse_u64("abc"), None);
    assert_eq!(parse_u64("12a"), None);
    assert_eq!(parse_u64("-1"), None);
    assert_eq!(parse_u64("+5"), None);
    assert_eq!(parse_u64(" 5"), None);
}

#[test]
fn parse_rejects_values_over_u64() {
    assert_eq!(parse_u64("18446744073709551616"), None);
    assert_eq!(parse_u64("99999999999999999999999"), None);
}

#[test]
fn parse_accepts_leading_zeros() {
    assert_eq!(parse_u64("007"), Some(7));
    assert_eq!(parse_u64("018446744073709551615"), Some(u64::MAX));
}

#[test]
fn stage_codes() {
    assert_eq!(MemberJoinMessageStage::NewMember.code(), 0);
    assert_eq!(MemberJoinMessageStage::Onboarding.code(), 1);
    assert_eq!(MemberJoinMessageStage::Completed.code(), 2);
}

#[test]
fn stage_to_string_is_the_code_text() {
    assert_eq!(MemberJoinMessageStage::NewMember.to_string(), "0");
    assert_eq!(MemberJoinMessageStage::Onboarding.to_string(), "1");
    assert_eq!(MemberJoinMessageStage::Completed.to_string(), "2");
}

#[test]
fn stage_from_known_codes() {
    assert_eq!(MemberJoinMessageStage::from(0i64), MemberJoinMessageStage::NewMember);
    assert_eq!(MemberJoinMessageStage::from(1i64), MemberJoinMessageStage::Onboarding);
    assert_eq!(MemberJoinMessageStage::from(2i64), MemberJoinMessageStage::Completed);
}

#[test]
fn stage_from_unknown_code_defaults_to_new_member() {
    assert_eq!(MemberJoinMessageStage::from(3i64), MemberJoinMessageStage::NewMember);
    assert_eq!(MemberJoinMessageStage::from(-1i64), MemberJoinMessageStage::NewMember);
    assert_eq!(MemberJoinMessageStage::from(i64::MAX), MemberJoinMessageStage::NewMember);
}
