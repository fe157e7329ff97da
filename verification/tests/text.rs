use research_bot::bytes::{byte_length, text_from_byte};
use research_bot::chars::{ascii_alphanumeric, below, control, digit, to_ascii_lower, white};
use research_bot::excerpt::{
    domain_label, extract_text_from_xml, find_year_hint, sanitize_topic, split_message, truncate,
    try_split_message,
};
use research_bot::numbers::{decimal_int_text, decimal_text, parse_number};
use research_bot::outline::{
    is_before, is_bullet_line, is_numbered_list, label_cuts_cleanly, outline_converts,
    strip_bullet_prefix, strip_outline_label, try_convert_outline_fragment_to_prose,
};
use research_bot::pieces::{joined, lines_of, replaced, split_at, words_of};
use research_bot::sections::try_convert_outline_section_to_prose;
use research_bot::text::{cut_once, has, same, starts_with, without_prefix};
use research_bot::trim::{trimmed, trimmed_end, trimmed_start};

const SAMPLES: [&str; 12] = [
    "",
    " ",
    "a",
    "plain words",
    "\u{a0}spaced\u{2003}",
    "line\nline\r\n\nlast",
    "\r\n",
    "é–日本🙂 mixed",
    "\u{85}x\u{3000}",
    "a,b,,c",
    "tab\tand\u{b}vt",
    "ends with feed\n",
];

#[test]
fn character_classes_are_those_of_std() {
    for n in 0..=0x10FFFFu32 {
        if let Some(c) = char::from_u32(n) {
            assert_eq!(white(c), c.is_whitespace());
            assert_eq!(control(c), c.is_control());
            assert_eq!(digit(c), c.is_ascii_digit());
            assert_eq!(ascii_alphanumeric(c), c.is_ascii_alphanumeric());
            assert_eq!(to_ascii_lower(c), c.to_ascii_lowercase());
        }
    }
    assert!(below('a', 'b') && !below('b', 'b') && below('z', 'é'));
}

#[test]
fn text_functions_are_those_of_std() {
    for s in SAMPLES {
        assert_eq!(trimmed(s), s.trim());
        assert_eq!(trimmed_start(s), s.trim_start());
        assert_eq!(trimmed_end(s), s.trim_end());
        assert_eq!(lines_of(s), s.lines().collect::<Vec<_>>());
        assert_eq!(words_of(s), s.split_whitespace().collect::<Vec<_>>());
        assert_eq!(split_at(s, ','), s.split(',').collect::<Vec<_>>());
        assert_eq!(byte_length(s), s.len());
        for p in SAMPLES {
            assert_eq!(has(s, p), s.contains(p));
            assert_eq!(starts_with(s, p), s.starts_with(p));
            assert_eq!(same(s, p), s == p);
            assert_eq!(without_prefix(s, p), s.strip_prefix(p).map(str::to_string));
            assert_eq!(
                cut_once(s, p),
                s.split_once(p).map(|(a, b)| (a.to_string(), b.to_string()))
            );
            assert_eq!(is_before(s, p), s < p);
            if !p.is_empty() {
                assert_eq!(replaced(s, p, "<>"), s.replace(p, "<>"));
            }
        }
        for n in 0..20 {
            assert_eq!(text_from_byte(s, n), s.get(n..).map(str::to_string));
        }
    }
    assert_eq!(replaced("aaaa", "aa", "b"), "bb");
    let list = vec!["a".to_string(), String::new(), "b".to_string()];
    assert_eq!(joined(&list, "; "), list.join("; "));
}

#[test]
fn numbers_are_those_of_std() {
    for n in [0usize, 7, 10, 99, 100, 12345, usize::MAX] {
        assert_eq!(decimal_text(n), n.to_string());
    }
    for n in [0i64, -1, 42, i64::MIN, i64::MAX] {
        assert_eq!(decimal_int_text(n), n.to_string());
    }
    for s in ["", "0", "+7", "-7", "-0", "007", "65535", "65536", "+", "-", " 1", "1a", "９"] {
        assert_eq!(
            parse_number(s, 0, u16::MAX as u64).map(|n| n as u16),
            s.parse::<u16>().ok()
        );
        assert_eq!(
            parse_number(s, i64::MIN, i64::MAX as u64).map(|n| n as i64),
            s.parse::<i64>().ok()
        );
    }
    for s in ["9223372036854775807", "9223372036854775808", "-9223372036854775808", "-9223372036854775809", "99999999999999999999999999999999999999999999"] {
        assert_eq!(
            parse_number(s, i64::MIN, i64::MAX as u64).map(|n| n as i64),
            s.parse::<i64>().ok()
        );
    }
}

#[test]
fn truncation_cuts_at_a_space() {
    assert_eq!(truncate("short", 10), "short");
    assert_eq!(truncate("one two three", 9), "one two...");
    assert_eq!(truncate("unbroken", 4), "unbr...");
    assert_eq!(truncate("ééé", 3), "é...");
    assert_eq!(truncate("", 0), "");
    assert_eq!(truncate("x", 0), "...");
}

#[test]
fn topics_are_sanitized() {
    assert_eq!(sanitize_topic("  AI\u{7} in\nLagos \t"), "AI in\nLagos");
    let long = "é".repeat(600);
    assert_eq!(sanitize_topic(&long).chars().count(), 500);
    let edge = format!("{} {}", "a".repeat(499), "b");
    assert_eq!(sanitize_topic(&edge), "a".repeat(499));
    for s in SAMPLES {
        let once = sanitize_topic(s);
        assert_eq!(sanitize_topic(&once), once);
    }
}

#[test]
fn messages_are_split_at_feeds_and_spaces() {
    assert_eq!(split_message("short", 10), vec!["short"]);
    assert_eq!(split_message("", 10), vec![""]);
    assert_eq!(
        split_message("line one\nline two\nline three", 18),
        vec!["line one\nline two", "line three"]
    );
    assert_eq!(split_message("aaa bbb ccc", 7), vec!["aaa", "bbb ccc"]);
    assert_eq!(split_message("aaaaaaaa", 3), vec!["aaa", "aaa", "aa"]);
    assert_eq!(try_split_message("ééé", 3), None);
    assert_eq!(try_split_message("abc", 0), None);
    assert_eq!(try_split_message("  ", 0), Some(vec![String::new()]));
    let text = "word ".repeat(2000);
    let parts = split_message(&text, 3800);
    assert!(parts.iter().all(|p| p.len() <= 3800));
    assert_eq!(parts.concat().replace(' ', ""), text.replace(' ', ""));
}

#[test]
fn domains_lose_scheme_and_www() {
    assert_eq!(domain_label("https://www.bbc.com/news/1"), "bbc.com");
    assert_eq!(domain_label("http://www.www.x.org"), "x.org");
    assert_eq!(domain_label("ftp://x"), "ftp:");
    assert_eq!(domain_label(""), "");
}

#[test]
fn years_are_runs_of_four_digits() {
    assert_eq!(find_year_hint("in 2019 and 2020"), Some(2019));
    assert_eq!(find_year_hint("12019 1899 2101 x2100y"), Some(2100));
    assert_eq!(find_year_hint("no year"), None);
    assert_eq!(find_year_hint("1900"), Some(1900));
}

#[test]
fn captions_are_read() {
    assert_eq!(
        extract_text_from_xml("<transcript><text start=\"0\">Tom &amp; Ann</text><text>say &quot;hi&#39;&lt;&gt;</text>x</transcript>"),
        "Tom & Ann say \"hi'<>"
    );
    assert_eq!(extract_text_from_xml("<text>&amp;lt;</text>"), "<");
    assert_eq!(extract_text_from_xml("<p>none</p>"), "");
    assert_eq!(extract_text_from_xml("<text unclosed"), "");
}

#[test]
fn list_lines_are_recognised() {
    assert!(is_bullet_line("  - x") && is_bullet_line("* x") && is_bullet_line("• x"));
    assert!(is_bullet_line("12. x") && !is_bullet_line("12.x") && !is_bullet_line("-x"));
    assert!(is_numbered_list("1. ") && !is_numbered_list(". "));
    assert_eq!(strip_bullet_prefix(" 12. text"), "text");
    assert_eq!(strip_bullet_prefix("• text"), "text");
    assert_eq!(strip_bullet_prefix("  text"), "text");
}

#[test]
fn labels_are_stripped() {
    assert_eq!(strip_outline_label("** Tone Check: ** fine"), "fine");
    assert_eq!(strip_outline_label("Section 2 *: body"), "body");
    assert_eq!(strip_outline_label("ACTUALLY: ** body"), "body");
    assert_eq!(strip_outline_label("Benefit: body"), "Benefit: body");
    assert_eq!(strip_outline_label(" *x"), "x");
}

#[test]
fn labels_that_change_length_are_reported() {
    assert!(label_cuts_cleanly("tone check: fine"));
    let odd = "tone chec\u{212a}:";
    assert!(!label_cuts_cleanly(odd));
    let note = format!("- {odd}");
    assert!(!outline_converts(&note));
    assert_eq!(try_convert_outline_fragment_to_prose(&note), None);
    assert_eq!(try_convert_outline_section_to_prose(&note, "Intro"), None);
    assert_eq!(
        try_convert_outline_fragment_to_prose("- a").as_deref(),
        Some("a.")
    );
    assert_eq!(
        try_convert_outline_section_to_prose("- a", "Intro").as_deref(),
        Some("## Intro\n\na.")
    );
}
