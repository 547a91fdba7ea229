use magician_bot::colours::{EmbedColours, Rgb};
use magician_bot::log::{create_log_message, format_log_message, LogLevel};
use magician_bot::text::{
    custom_id_prefix, parse_id_after_colon, parse_u16, parse_u64, str_contains, str_starts_with,
};

#[test]
fn starts_with_matches_prefixes_only() {
    assert!(str_starts_with("zahir", "za"));
    assert!(str_starts_with("zahir", ""));
    assert!(str_starts_with("zahir", "zahir"));
    assert!(!str_starts_with("azael", "za"));
    assert!(!str_starts_with("z", "za"));
}

#[test]
fn contains_finds_substrings_anywhere() {
    assert!(str_contains("azael", "za"));
    assert!(str_contains("azael", "azael"));
    assert!(str_contains("azael", ""));
    assert!(str_contains("azael", "el"));
    assert!(!str_contains("azael", "zz"));
    assert!(!str_contains("", "a"));
}

#[test]
fn parse_u64_accepts_digit_numerals_only() {
    assert_eq!(parse_u64("0"), Some(0));
    assert_eq!(parse_u64("787"), Some(787));
    assert_eq!(parse_u64("18446744073709551615"), Some(u64::MAX));
    assert_eq!(parse_u64("18446744073709551616"), None);
    assert_eq!(parse_u64(""), None);
    assert_eq!(parse_u64("7a"), None);
    assert_eq!(parse_u64("-7"), None);
    assert_eq!(parse_u64("+7"), None);
}

#[test]
fn parse_u16_bounds_the_value() {
    assert_eq!(parse_u16("65535"), Some(u16::MAX));
    assert_eq!(parse_u16("65536"), None);
    assert_eq!(parse_u16("7"), Some(7));
}

#[test]
fn modal_id_prefix_is_the_part_before_the_colon() {
    assert_eq!(custom_id_prefix("build_character:3"), "build_character");
    assert_eq!(custom_id_prefix("delete_character:7:x"), "delete_character");
    assert_eq!(custom_id_prefix("no_colon"), "no_colon");
    assert_eq!(custom_id_prefix(":7"), "");
    assert_eq!(custom_id_prefix(""), "");
}

#[test]
fn modal_id_numeric_tail_parses_after_the_first_colon() {
    assert_eq!(parse_id_after_colon("delete_character:7"), Some(7));
    assert_eq!(parse_id_after_colon(":65535"), Some(65535));
    assert_eq!(parse_id_after_colon("delete_character:65536"), None);
    assert_eq!(parse_id_after_colon("delete_character:"), None);
    assert_eq!(parse_id_after_colon("delete_character:abc"), None);
    assert_eq!(parse_id_after_colon("delete_character"), None);
}

#[test]
fn log_levels_print_fixed_width_labels() {
    assert_eq!(LogLevel::Fatal.label(), "FATAL");
    assert_eq!(LogLevel::Error.label(), "ERROR");
    assert_eq!(LogLevel::Warning.label(), " WARN");
    assert_eq!(LogLevel::Info.label(), " INFO");
}

#[test]
fn log_lines_have_the_exact_composed_shape() {
    let line = format_log_message("2024-01-02 | 03:04:05", LogLevel::Info, "Bot Online");
    assert_eq!(line, "[ 2024-01-02 | 03:04:05 ]  =>  INFO:  Bot Online");
    let warn = format_log_message("t", LogLevel::Warning, "m");
    assert_eq!(warn, "[ t ]  =>  WARN:  m");
}

#[test]
fn live_log_lines_carry_the_message_and_label() {
    let line = create_log_message("Connected to Gateway; Bot Online", LogLevel::Info);
    assert!(line.starts_with("[ "));
    assert!(line.contains(" ]  =>  INFO:  Connected to Gateway; Bot Online"));
}

#[test]
fn embed_palette() {
    assert_eq!(
        EmbedColours::info(),
        Rgb {
            red: 0,
            green: 127,
            blue: 255
        }
    );
    assert_eq!(
        EmbedColours::good(),
        Rgb {
            red: 0,
            green: 255,
            blue: 127
        }
    );
    assert_eq!(
        EmbedColours::error(),
        Rgb {
            red: 255,
            green: 127,
            blue: 0
        }
    );
}
