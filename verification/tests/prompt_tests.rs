use base64::engine::general_purpose::STANDARD;
use base64::Engine;
use vglnt::prompt::{
    build_prompt, clean_content, decimal, frame_prompt, is_white_space, kept_range,
    limit_observance, safety_status, signal_color,
};
use vglnt::api::upload_notice;
use vglnt::types::{SafetyStatus, SignalColor};

fn expected_prompt(frame_number: u32, image: &str) -> String {
    format!(
        r#"Analyze this driving frame and output ONLY a JSON object matching this schema:
DRIVING_ANALYSIS_SCHEMA = {{
    "lane_centering": {{"following_lane_discipline": bool, "score": float}},
    "following_distance": {{"safe_distance": "safe" | "unsafe", "score": float}},
    "signal_compliance": {{
        "traffic_light": {{"status": "red" | "yellow" | "green", "compliance": bool, "score": float}},
        "stop_sign": {{"present": bool, "compliance": bool | "N/A", "score": float}}
    }},
    "merging_lane_change": {{"safe_merging": bool, "score": float}},
    "pedestrian_yielding": {{"pedestrian_present": bool, "score": float}},
    "intersection_behavior": {{"stop_line_observance": bool, "score": float}},
    "road_sign_awareness": {{
        "speed_limit_sign": {{"visible": bool, "observing_limit": "yes" | "no" | "unknown", "score": float}},
        "yield_sign": {{"visible": bool, "score": float}}
    }},
    "shoulder_use": {{"using_shoulder": bool, "score": float}}
}}

[Frame #{} - Base64 Image]: {}"#,
        frame_number, image
    )
}

fn std_clean(content: &str) -> &str {
    content.trim().trim_matches(|c| c == '`' || c == '\n' || c == ' ')
}

#[test]
fn numbers_are_written_in_decimal() {
    assert_eq!(decimal(0), "0");
    assert_eq!(decimal(7), "7");
    assert_eq!(decimal(9), "9");
    assert_eq!(decimal(10), "10");
    assert_eq!(decimal(1234567890), "1234567890");
    assert_eq!(decimal(1000), "1000");
    assert_eq!(decimal(4_294_967_295), "4294967295");
    assert_eq!(decimal(u64::MAX), "18446744073709551615");
    for number in [11u64, 99, 100, 101, 4096, 65535, 700_000] {
        assert_eq!(decimal(number), format!("{}", number));
    }
}

#[test]
fn prompt_names_the_frame_and_carries_the_image() {
    assert_eq!(frame_prompt(12, "QUJD"), expected_prompt(12, "QUJD"));
    assert_eq!(frame_prompt(0, ""), expected_prompt(0, ""));
    assert!(frame_prompt(3, "eA==").ends_with("\n\n[Frame #3 - Base64 Image]: eA=="));
    assert!(frame_prompt(3, "eA==").starts_with("Analyze this driving frame"));
}

#[test]
fn prompt_holds_the_image_in_base64() {
    assert_eq!(build_prompt(b"ABC", 5), Some(expected_prompt(5, "QUJD")));
    assert_eq!(build_prompt(b"x", 4_000_000_000), Some(expected_prompt(4_000_000_000, "eA==")));
    assert_eq!(build_prompt(b"", 1), Some(expected_prompt(1, "")));
    let image: Vec<u8> = (0..=255u8).collect();
    assert_eq!(build_prompt(&image, 9), Some(expected_prompt(9, &STANDARD.encode(&image))));
}

#[test]
fn kept_range_cuts_marked_ends() {
    assert_eq!(kept_range(&vec![]), (0, 0));
    assert_eq!(kept_range(&vec![false]), (0, 1));
    assert_eq!(kept_range(&vec![true]), (1, 1));
    assert_eq!(kept_range(&vec![true, true, true]), (3, 3));
    assert_eq!(kept_range(&vec![true, false, true, false, true, true]), (1, 4));
    assert_eq!(kept_range(&vec![false, true, true]), (0, 1));
    assert_eq!(kept_range(&vec![true, true, false]), (2, 3));
    assert_eq!(kept_range(&vec![false, true, false]), (0, 3));
}

#[test]
fn answer_is_cleaned_of_white_space_and_fences() {
    assert_eq!(clean_content("  ```{\"a\": 1}```\n"), "{\"a\": 1}");
    assert_eq!(clean_content("{\"a\": 1}"), "{\"a\": 1}");
    assert_eq!(clean_content(""), "");
    assert_eq!(clean_content("   \n\t "), "");
    assert_eq!(clean_content("```"), "");
    assert_eq!(clean_content(" ` \t{ }\t ` "), "\t{ }\t");
    assert_eq!(clean_content("`json {}`"), "json {}");
    assert_eq!(clean_content("\u{3000}{\u{e9}}\u{a0}"), "{\u{e9}}");
    assert_eq!(clean_content("a ` b"), "a ` b");
}

#[test]
fn answer_is_cleaned_as_by_trimming_twice() {
    let samples = [
        "",
        " ",
        "`",
        "\n`\n",
        "\t`{}`\t",
        " \u{2003}``` {\"k\": [1, 2]} ```\r\n",
        "```\n{\n}\n```",
        "x",
        " x y ",
        "\u{85}`\u{85}",
        "` \u{1680} `",
    ];
    for sample in samples {
        assert_eq!(clean_content(sample), std_clean(sample));
    }
}

#[test]
fn labels_of_an_answer_are_read() {
    assert_eq!(safety_status("safe"), SafetyStatus::Safe);
    assert_eq!(safety_status("unsafe"), SafetyStatus::Unsafe);
    assert_eq!(safety_status("Safe"), SafetyStatus::Unknown);
    assert_eq!(safety_status(""), SafetyStatus::Unknown);
    assert_eq!(safety_status("safe "), SafetyStatus::Unknown);
    assert_eq!(signal_color("red"), SignalColor::Red);
    assert_eq!(signal_color("yellow"), SignalColor::Yellow);
    assert_eq!(signal_color("green"), SignalColor::Green);
    assert_eq!(signal_color("blue"), SignalColor::Unknown);
    assert_eq!(signal_color(""), SignalColor::Unknown);
}

#[test]
fn upload_is_acknowledged_with_name_and_size() {
    assert_eq!(upload_notice("drive.mp4", 1024), "Uploaded file drive.mp4, with size: 1024");
    assert_eq!(upload_notice("", 0), "Uploaded file , with size: 0");
    assert_eq!(
        upload_notice("a b", u64::MAX),
        format!("Uploaded file {}, with size: {}", "a b", u64::MAX)
    );
}

#[test]
fn speed_limit_observance_is_read() {
    assert_eq!(limit_observance("yes"), Some(true));
    assert_eq!(limit_observance("no"), Some(false));
    assert_eq!(limit_observance("unknown"), None);
    assert_eq!(limit_observance(""), None);
    assert_eq!(limit_observance("Yes"), None);
}

#[test]
fn white_space_is_what_unicode_says() {
    for c in ['\t', '\n', '\u{b}', '\u{c}', '\r', ' ', '\u{85}', '\u{a0}', '\u{1680}'] {
        assert!(is_white_space(c));
    }
    for c in ['\u{2000}', '\u{200a}', '\u{2028}', '\u{2029}', '\u{202f}', '\u{205f}', '\u{3000}'] {
        assert!(is_white_space(c));
    }
    for c in ['\u{8}', '\u{e}', 'a', '`', '\u{200b}', '\u{180e}', '\u{feff}', '\u{1f}'] {
        assert!(!is_white_space(c));
    }
}

#[test]
fn white_space_agrees_with_the_standard_library_on_every_character() {
    let mut count = 0;
    for code in 0..=0x10FFFFu32 {
        if let Some(c) = char::from_u32(code) {
            assert_eq!(is_white_space(c), c.is_whitespace(), "U+{:04X}", code);
            if is_white_space(c) {
                count += 1;
            }
        }
    }
    assert_eq!(count, 25);
}
