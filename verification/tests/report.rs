use lifelog::report::{
    fmt_hms, screentime_heading, screentime_line, since_ms, span_line, spans_heading,
};
use lifelog::text::{align_left, align_right, decimal_text, integer_text, same_text};

#[test]
fn hours_and_minutes() {
    assert_eq!(fmt_hms(0), "0h00m");
    assert_eq!(fmt_hms(59), "0h00m");
    assert_eq!(fmt_hms(60), "0h01m");
    assert_eq!(fmt_hms(3_599), "0h59m");
    assert_eq!(fmt_hms(3_600), "1h00m");
    assert_eq!(fmt_hms(93_900), "26h05m");
    assert_eq!(fmt_hms(360_000), "100h00m");
}

#[test]
fn negative_times_round_toward_zero() {
    for secs in [-1i64, -59, -60, -300, -900, -3_599, -3_600, -93_900, i64::MIN, i64::MAX] {
        assert_eq!(fmt_hms(secs), format!("{}h{:02}m", secs / 3600, (secs % 3600) / 60));
    }
    assert_eq!(fmt_hms(-300), "0h-5m");
    assert_eq!(fmt_hms(-93_900), "-26h-5m");
}

#[test]
fn numbers_in_decimal() {
    for n in [0u64, 7, 10, 99, 100, 12_345, u64::MAX] {
        assert_eq!(decimal_text(n), n.to_string());
    }
    for i in [0i64, -1, 42, -42, i64::MIN, i64::MAX] {
        assert_eq!(integer_text(i), i.to_string());
    }
}

#[test]
fn columns_count_characters() {
    assert_eq!(align_right("1h00m", 7), "  1h00m");
    assert_eq!(align_right("1000h00m", 7), "1000h00m");
    assert_eq!(align_left("iphone", 10), "iphone    ");
    assert_eq!(align_left("caf\u{e9}", 6), format!("{:6}", "caf\u{e9}"));
    assert_eq!(align_left("a-very-long-device", 10), "a-very-long-device");
}

#[test]
fn texts_are_compared_whole() {
    assert!(same_text("", ""));
    assert!(same_text("abc", "abc"));
    assert!(!same_text("abc", "abd"));
    assert!(!same_text("abc", "abcd"));
}

#[test]
fn report_lines() {
    assert_eq!(spans_heading(7), "== active spans (sampler), last 7d ==");
    assert_eq!(screentime_heading(1), "== screen time (knowledgeC), last 1d ==");
    assert_eq!(span_line("Safari", 93_900), " 26h05m  Safari");
    assert_eq!(
        screentime_line("this-mac", "com.apple.Safari", 3_600),
        "  1h00m  this-mac    com.apple.Safari"
    );
}

#[test]
fn report_window() {
    assert_eq!(since_ms(1_700_000_000_000, 7), 1_700_000_000_000 - 604_800_000);
    assert_eq!(since_ms(5, 0), 5);
    assert_eq!(since_ms(0, -1), 86_400_000);
}
