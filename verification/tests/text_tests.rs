use tuxedo_control::text::{
    chars_of, decimal_string, find_char, line_ranges, parse_i64, parse_u32, parse_u64, parse_u8, split_words,
    starts_with, contains, trimmed,
};
use tuxedo_control::types::{AppConfig, FontSize, Profile, StatisticsSections, Theme};

fn parse_all_u64(s: &str) -> Option<u64> {
    let v = chars_of(s);
    parse_u64(&v, 0, v.len())
}

#[test]
fn decimal_text_parses_back() {
    for n in [0u64, 7, 10, 99, 100, 4_294_967_295, u64::MAX] {
        let s = decimal_string(n);
        assert_eq!(s, n.to_string());
        assert_eq!(parse_all_u64(&s), Some(n));
        assert_eq!(parse_all_u64(&format!("  {}\n", s).trim()), Some(n));
    }
}

#[test]
fn numbers_parse_as_std_does() {
    assert_eq!(parse_all_u64("+12"), Some(12));
    assert_eq!(parse_all_u64(""), None);
    assert_eq!(parse_all_u64("+"), None);
    assert_eq!(parse_all_u64("18446744073709551616"), None);
    assert_eq!(parse_all_u64("1 2"), None);
    let v = chars_of("256 255 -9223372036854775808 4294967296");
    assert_eq!(parse_u8(&v, 0, 3), None);
    assert_eq!(parse_u8(&v, 4, 7), Some(255));
    assert_eq!(parse_i64(&v, 8, 28), Some(i64::MIN));
    assert_eq!(parse_u32(&v, 29, v.len()), None);
}

#[test]
fn lines_words_and_trimming() {
    let v = chars_of("a\r\nbb\n\nc");
    let r = line_ranges(&v, 0, v.len());
    let got: Vec<String> = r.iter().map(|&(a, b)| v[a..b].iter().collect()).collect();
    assert_eq!(got, "a\r\nbb\n\nc".lines().collect::<Vec<_>>());
    assert_eq!(split_words(" x\ty  z\n"), vec!["x", "y", "z"]);
    assert_eq!(trimmed("\u{a0} hi \u{2003}"), "hi");
    let v = chars_of("hello world");
    assert!(starts_with(&v, 6, 11, &chars_of("wor")));
    assert!(contains(&v, 0, 11, &chars_of("o w")));
    assert!(!contains(&v, 0, 5, &chars_of("world")));
    assert_eq!(find_char(&v, 0, 11, 'o'), 4);
    assert_eq!(find_char(&v, 0, 11, 'z'), 11);
}

#[test]
fn defaults_match_the_documented_configuration() {
    let c = AppConfig::default();
    assert_eq!(c.theme, Theme::Auto);
    assert_eq!(c.font_size, FontSize::Medium);
    assert_eq!(c.cpu_scheduler, "CFS");
    assert_eq!(c.current_profile, "Standard");
    assert_eq!(c.profiles.len(), 1);
    assert_eq!(c.battery_settings.charge_start_threshold, 40);
    assert_eq!(c.battery_settings.charge_end_threshold, 80);
    assert_eq!(c.tuning_section_order, vec!["Keyboard", "CPU", "GPU", "Screen", "Fans"]);
    let p = Profile::default();
    assert!(p.is_default);
    assert_eq!(p.screen_settings.brightness, 50);
    let s = StatisticsSections::default();
    assert_eq!(s.section_order.len(), 7);
    assert_eq!(s.cpu_poll_rate, 1000);
}
