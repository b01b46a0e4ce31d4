use obs_webrtc::obs_log::{
    debug_whip, format_log_lines, log_message_prefix, obs_log_level, LogLevel, LogSettings,
    MAX_CHUNK_SIZE,
};

fn chars(s: &str) -> Vec<char> {
    s.chars().collect()
}

fn strings(args: &[&str]) -> Vec<String> {
    args.iter().map(|a| a.to_string()).collect()
}

#[test]
fn levels_map_to_libobs_levels() {
    assert_eq!(obs_log_level(LogLevel::Error), 100);
    assert_eq!(obs_log_level(LogLevel::Warn), 200);
    assert_eq!(obs_log_level(LogLevel::Info), 300);
    assert_eq!(obs_log_level(LogLevel::Debug), 300);
    assert_eq!(obs_log_level(LogLevel::Trace), 300);
}

#[test]
fn prefix_uses_target_tag_and_line() {
    assert_eq!(log_message_prefix(LogLevel::Info, "webrtc::whip", Some("m"), Some(42)), "[webrtc::whip:42]");
    assert_eq!(log_message_prefix(LogLevel::Trace, "t", None, Some(7)), "[T] [t:7]");
    assert_eq!(log_message_prefix(LogLevel::Debug, "t", None, Some(1234567)), "[D] [t:1234567]");
}

#[test]
fn prefix_falls_back_to_module_then_unk() {
    assert_eq!(log_message_prefix(LogLevel::Warn, "", Some("obs::output"), Some(3)), "[obs::output:3]");
    assert_eq!(log_message_prefix(LogLevel::Error, "", None, None), "[unk:0]");
}

#[test]
fn short_message_is_one_line() {
    let lines = format_log_lines(LogLevel::Warn, "target", None, Some(10), &chars("hello world"));
    assert_eq!(lines.len(), 1);
    assert_eq!(lines[0].level, 200);
    assert_eq!(lines[0].text, "[target:10]: hello world\0");
}

#[test]
fn empty_message_gives_no_line() {
    let lines = format_log_lines(LogLevel::Info, "target", None, Some(10), &Vec::new());
    assert!(lines.is_empty());
}

#[test]
fn message_of_exactly_one_chunk_is_not_multipart() {
    let message: Vec<char> = std::iter::repeat('x').take(MAX_CHUNK_SIZE).collect();
    let lines = format_log_lines(LogLevel::Info, "t", None, Some(1), &message);
    assert_eq!(lines.len(), 1);
    assert!(!lines[0].text.contains("MULTIPART"));
    assert_eq!(lines[0].text.chars().count(), "[t:1]: ".len() + MAX_CHUNK_SIZE + 1);
}

#[test]
fn long_message_is_split_into_numbered_parts() {
    let mut message: Vec<char> = std::iter::repeat('a').take(3500).collect();
    message.extend(std::iter::repeat('b').take(3500));
    message.extend("ü!".chars());
    let lines = format_log_lines(LogLevel::Debug, "mod", None, None, &message);
    assert_eq!(lines.len(), 3);
    for line in &lines {
        assert_eq!(line.level, 300);
        assert!(line.text.ends_with('\0'));
    }
    assert_eq!(lines[0].text, format!("[D] [mod:0]: MULTIPART [1/3] {}\0", "a".repeat(3500)));
    assert_eq!(lines[1].text, format!("[D] [mod:0]: MULTIPART [2/3] {}\0", "b".repeat(3500)));
    assert_eq!(lines[2].text, "[D] [mod:0]: MULTIPART [3/3] ü!\0");
}

#[test]
fn parts_put_back_together_give_the_message() {
    let message: Vec<char> = (0..9000u32).map(|i| char::from(b'a' + (i % 26) as u8)).collect();
    let lines = format_log_lines(LogLevel::Info, "t", None, Some(5), &message);
    assert_eq!(lines.len(), 3);
    let mut joined = String::new();
    for (i, line) in lines.iter().enumerate() {
        let head = format!("[t:5]: MULTIPART [{}/3] ", i + 1);
        let body = line.text.strip_prefix(&head).unwrap().strip_suffix('\0').unwrap();
        assert!(body.chars().count() <= MAX_CHUNK_SIZE && !body.is_empty());
        joined.push_str(body);
    }
    assert_eq!(joined, message.iter().collect::<String>());
}

#[test]
fn settings_default_to_info() {
    let s = LogSettings::from_cmdline(None, &strings(&["obs", "--portable"]));
    assert_eq!(s.filter, "INFO");
    assert!(!s.debug_whip);
    assert!(!debug_whip(&s));
}

#[test]
fn settings_take_rust_log() {
    let s = LogSettings::from_cmdline(Some("webrtc=trace".to_string()), &strings(&[]));
    assert_eq!(s.filter, "webrtc=trace");
    assert!(!s.debug_whip);
}

#[test]
fn settings_read_debug_and_filter_flags() {
    let s = LogSettings::from_cmdline(
        Some("warn".to_string()),
        &strings(&["obs", "--debug-webrtc-whip", "--debug-webrtc-filter", "debug"]),
    );
    assert!(s.debug_whip);
    assert!(debug_whip(&s));
    assert_eq!(s.filter, "debug");
}

#[test]
fn last_filter_flag_wins_and_a_trailing_one_is_ignored() {
    let s = LogSettings::from_cmdline(
        None,
        &strings(&["--debug-webrtc-filter", "a", "--debug-webrtc-filter", "b", "--debug-webrtc-filter"]),
    );
    assert_eq!(s.filter, "b");
    assert!(!s.debug_whip);
}

#[test]
fn filter_value_is_not_read_as_a_flag() {
    let s = LogSettings::from_cmdline(None, &strings(&["--debug-webrtc-filter", "--debug-webrtc-whip"]));
    assert_eq!(s.filter, "--debug-webrtc-whip");
    assert!(!s.debug_whip);
}
