use discord_fend::utils::ansi_color;
use discord_fend::utils::ansi_color::{escape_sequence, Style};
use discord_fend::utils::parse_mention;

#[test]
fn style_codes() {
    assert_eq!(Style::Reset.code(), "0");
    assert_eq!(Style::Bold.code(), "1");
    assert_eq!(Style::Underline.code(), "4");
    assert_eq!(Style::GreyForeground.code(), "30");
    assert_eq!(Style::RedForeground.code(), "31");
    assert_eq!(Style::WhiteForeground.code(), "37");
    assert_eq!(Style::FireflyDarkBlueBackground.code(), "40");
    assert_eq!(Style::WhiteBackground.code(), "47");
}

#[test]
fn escape_sequence_joins_codes() {
    assert_eq!(escape_sequence(vec![Style::RedForeground]), "\x1b[31m");
    assert_eq!(escape_sequence(vec![Style::WhiteForeground, Style::Bold]), "\x1b[37;1m");
    assert_eq!(escape_sequence(vec![]), "\x1b[m");
}

#[test]
fn format_wraps_text_and_resets() {
    assert_eq!(ansi_color::format("hi", vec![Style::GreenForeground, Style::Bold]), "\x1b[32;1mhi\x1b[0m");
    assert_eq!(ansi_color::format("", vec![Style::Reset]), "\x1b[0m\x1b[0m");
}

#[test]
fn parse_mention_reads_user_ids() {
    assert_eq!(parse_mention("<@1234>".to_string()), Some(1234));
    assert_eq!(parse_mention("<@18446744073709551615>".to_string()), Some(u64::MAX));
    assert_eq!(parse_mention("<@+5>".to_string()), Some(5));
}

#[test]
fn parse_mention_rejects_other_text() {
    assert_eq!(parse_mention("<@0>".to_string()), None);
    assert_eq!(parse_mention("<@18446744073709551616>".to_string()), None);
    assert_eq!(parse_mention("<@!12>".to_string()), None);
    assert_eq!(parse_mention("<@>".to_string()), None);
    assert_eq!(parse_mention("<@+>".to_string()), None);
    assert_eq!(parse_mention("<@-1>".to_string()), None);
    assert_eq!(parse_mention("ab".to_string()), None);
    assert_eq!(parse_mention("".to_string()), None);
}

#[test]
fn parse_mention_respects_character_boundaries() {
    assert_eq!(parse_mention("<\u{e9}12>".to_string()), None);
    assert_eq!(parse_mention("<@12\u{e9}".to_string()), None);
}

#[test]
fn timestamps_are_zero_padded() {
    assert_eq!(discord_fend::utils::format_timestamp(9, 5, 7, 42), "[09:05:07:042]");
    assert_eq!(discord_fend::utils::format_timestamp(23, 59, 59, 999), "[23:59:59:999]");
    assert_eq!(discord_fend::utils::format_timestamp(0, 0, 0, 0), "[00:00:00:000]");
}
