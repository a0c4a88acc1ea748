use sentinel::alerts::AlertLevel;
use sentinel::config::{get_env_default, parse_recipients};
use sentinel::text::{parse_u64, split_bytes, to_decimal_string, trim_spaces};

#[test]
fn env_default_takes_the_parsed_value() {
    assert_eq!(get_env_default(Some("42".to_string()), 300), 42);
    assert_eq!(get_env_default(Some("0".to_string()), 300), 0);
}

#[test]
fn env_default_falls_back_when_absent_or_malformed() {
    assert_eq!(get_env_default(None, 300), 300);
    assert_eq!(get_env_default(Some("".to_string()), 300), 300);
    assert_eq!(get_env_default(Some("4x2".to_string()), 300), 300);
    assert_eq!(get_env_default(Some("-1".to_string()), 300), 300);
    assert_eq!(get_env_default(Some("99999999999999999999".to_string()), 300), 300);
}

#[test]
fn parse_u64_reads_exactly_plain_decimals() {
    assert_eq!(parse_u64("0"), Some(0));
    assert_eq!(parse_u64("007"), Some(7));
    assert_eq!(parse_u64("18446744073709551615"), Some(u64::MAX));
    assert_eq!(parse_u64("18446744073709551616"), None);
    assert_eq!(parse_u64(""), None);
    assert_eq!(parse_u64("+1"), None);
    assert_eq!(parse_u64("1 "), None);
}

#[test]
fn recipients_parse_with_per_recipient_levels() {
    let rs = parse_recipients("alice=3, bob ,carol=0", AlertLevel::Warning);
    assert_eq!(rs.len(), 3);
    assert_eq!(rs[0].target, "alice");
    assert_eq!(rs[0].min_level, AlertLevel::Alarm);
    assert_eq!(rs[1].target, "bob");
    assert_eq!(rs[1].min_level, AlertLevel::Warning);
    assert_eq!(rs[2].target, "carol");
    assert_eq!(rs[2].min_level, AlertLevel::Info);
}

#[test]
fn recipients_without_a_rank_keep_the_default() {
    let rs = parse_recipients("447000000001,447000000002", AlertLevel::Info);
    assert_eq!(rs.len(), 2);
    assert_eq!(rs[0].target, "447000000001");
    assert_eq!(rs[0].min_level, AlertLevel::Info);
    assert_eq!(rs[1].target, "447000000002");
}

#[test]
fn recipient_entry_with_a_bad_rank_is_a_plain_target() {
    let rs = parse_recipients("dave=9", AlertLevel::Critical);
    assert_eq!(rs[0].target, "dave=9");
    assert_eq!(rs[0].min_level, AlertLevel::Critical);
}

#[test]
fn trim_strips_only_edges() {
    assert_eq!(trim_spaces("  a b  "), "a b");
    assert_eq!(trim_spaces(""), "");
    assert_eq!(trim_spaces("   "), "");
    assert_eq!(trim_spaces("x"), "x");
}

#[test]
fn byte_split_keeps_empty_pieces() {
    let parts = split_bytes(&b"a,b,,c".to_vec(), b',');
    assert_eq!(parts.len(), 4);
    assert_eq!(parts[0], b"a".to_vec());
    assert_eq!(parts[2], Vec::<u8>::new());
    assert_eq!(parts[3], b"c".to_vec());
    let single = split_bytes(&b"".to_vec(), b',');
    assert_eq!(single, vec![Vec::<u8>::new()]);
}

#[test]
fn decimal_rendering_is_exact() {
    assert_eq!(to_decimal_string(0), "0");
    assert_eq!(to_decimal_string(7), "7");
    assert_eq!(to_decimal_string(120), "120");
    assert_eq!(to_decimal_string(u64::MAX), "18446744073709551615");
}
