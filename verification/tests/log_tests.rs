use quantum_launcher::read_log::{
    parse_color, report_parse_failure, should_send, xml_ascii_fallback, xml_feed, LogEvent,
    LogLine, ReadError,
};

fn event(level: &str, timestamp: &str, message: Option<&str>, throwable: Option<&str>) -> LogEvent {
    LogEvent {
        logger: "net.minecraft.client.Minecraft".to_owned(),
        timestamp: timestamp.to_owned(),
        level: level.to_owned(),
        thread: "Render thread".to_owned(),
        message: message.map(|m| m.to_owned()),
        throwable: throwable.map(|t| t.to_owned()),
    }
}

fn is_clock(t: &str) -> bool {
    let b = t.as_bytes();
    t.len() == 8
        && b[2] == b':'
        && b[5] == b':'
        && b.iter().enumerate().all(|(i, c)| i == 2 || i == 5 || c.is_ascii_digit())
}

#[test]
fn colour_codes_become_escape_sequences() {
    assert_eq!(parse_color("§aHello§r world"), "\x1b[92mHello\x1b[0m world\x1b[0m");
    assert_eq!(parse_color("plain"), "plain\x1b[0m");
    assert_eq!(parse_color("§zodd§"), "§zodd\x1b[0m");
    assert_eq!(parse_color("§l§nbold"), "\x1b[1m\x1b[4mbold\x1b[0m");
    assert_eq!(parse_color(""), "\x1b[0m");
}

#[test]
fn read_error_messages() {
    assert_eq!(ReadError::Json("bad".to_owned()).message(), "while reading the game log:\nbad");
    assert_eq!(ReadError::Io("gone".to_owned()).message(), "while reading the game log:\ngone");
}

#[test]
fn events_as_plain_text() {
    let e = event("INFO", "0", Some("Hi"), None);
    assert_eq!(e.display_at("12:00:00"), "[INFO] [12:00:00] Hi\n");
    let e = event("ERROR", "0", None, Some("java.lang.NullPointerException"));
    assert_eq!(e.display_at("t"), "[ERROR] [t] \nCaused by java.lang.NullPointerException\n");
}

#[test]
fn event_times() {
    assert!(event("INFO", "not a number", None, None).get_time().is_none());
    assert!(event("INFO", "-1500", None, None).get_time().is_none());
    let t = event("INFO", "1700000000123", None, None).get_time().unwrap();
    assert!(is_clock(&t), "{t}");
    let t = event("INFO", "-2000", None, None).get_time().unwrap();
    assert!(is_clock(&t), "{t}");
    // Without a clock reading the raw timestamp is shown.
    let s = event("WARN", "later", Some("m"), None).to_display_string();
    assert_eq!(s, "[WARN] [later] m\n");
}

#[test]
fn events_in_colour() {
    colored::control::set_override(true);
    let e = event("INFO", "0", Some("§aHi"), Some("boom"));
    let s = e.print_color_at("12:00:00", false);
    assert_eq!(
        s,
        "\x1b[90m[\x1b[0m\x1b[4;90mINFO\x1b[0m\x1b[90m]\x1b[0m \x1b[90m[\x1b[0m12:00:00\x1b[90m]\x1b[0m \x1b[92mHi\x1b[0m\nCaused by boom\n"
    );
    let line = LogLine::Error("oops".to_owned());
    assert_eq!(line.print_colored(), "\x1b[91moops\x1b[0m");
    colored::control::set_override(false);
    assert_eq!(line.print_colored(), "oops");
    colored::control::unset_override();
}

#[test]
fn plain_lines() {
    assert_eq!(LogLine::Message("hello".to_owned()).print_colored(), "hello");
    assert_eq!(LogLine::Message("hello".to_owned()).to_display_string(), "hello");
    assert_eq!(LogLine::Error("e".to_owned()).to_display_string(), "e");
    let info = LogLine::Info(event("INFO", "x", Some("m"), None));
    assert_eq!(info.to_display_string(), "[INFO] [x] m\n");
}

#[test]
fn session_ids_are_held_back() {
    assert!(!should_send(&LogLine::Info(event("INFO", "0", Some("Session ID is token:abc"), None))));
    assert!(should_send(&LogLine::Info(event("INFO", "0", Some("Setting user: Steve"), None))));
    assert!(should_send(&LogLine::Info(event("INFO", "0", None, None))));
    assert!(should_send(&LogLine::Message("Session ID is x".to_owned())));
}

#[test]
fn xml_events_are_framed() {
    let mut cache = String::new();
    assert!(xml_feed(&mut cache, "noise before\n").is_none());
    assert!(xml_feed(&mut cache, "<log4j:Event logger=\"a\">\n").is_none());
    assert!(xml_feed(&mut cache, "  <log4j:Message><![CDATA[hi]]></log4j:Message>\n").is_none());
    let frame = xml_feed(&mut cache, "  </log4j:Event>\n").unwrap();
    assert_eq!(frame.leading.as_deref(), Some("noise before"));
    assert_eq!(
        frame.text,
        "<Event logger=\"a\">\n  <Message><![CDATA[hi]]></Message>\n  </Event>\n"
    );
    assert!(cache.starts_with("noise before\n<log4j:Event"));
    let mut cache = String::new();
    xml_feed(&mut cache, "<log4j:Event>\n");
    let frame = xml_feed(&mut cache, "  </log4j:Event>").unwrap();
    assert!(frame.leading.is_none());
    assert_eq!(frame.text, "<Event>\n  </Event>");
}

#[test]
fn non_ascii_xml_fallback() {
    assert_eq!(xml_ascii_fallback("Größe café"), "Grosse cafe");
    assert_eq!(xml_ascii_fallback("plain"), "plain");
    assert!(xml_ascii_fallback("日本").is_ascii());
}

#[test]
fn only_the_first_parse_failure_is_reported() {
    let mut errored = false;
    assert!(report_parse_failure(&mut errored));
    assert!(errored);
    assert!(!report_parse_failure(&mut errored));
    assert!(errored);
}

#[test]
fn times_far_from_the_epoch() {
    for ts in ["0", "8000000000000000", "-8000000000000000", "999"] {
        let t = event("INFO", ts, None, None).get_time().unwrap();
        assert_eq!(t.len(), 8);
        assert_eq!(&t[2..3], ":");
    }
}

#[test]
fn lines_per_platform() {
    let e = event("INFO", "0", Some("§aHi"), None);
    let line = LogLine::Info(event("INFO", "0", Some("§aHi"), None));
    let plain = line.print_colored_on(true);
    assert!(plain.starts_with("[INFO] ["), "{plain}");
    assert!(plain.ends_with("] §aHi\n"), "{plain}");
    assert_eq!(LogLine::Error("oops".to_owned()).print_colored_on(true), "oops");
    colored::control::set_override(true);
    assert_eq!(LogLine::Error("oops".to_owned()).print_colored_on(false), "\x1b[91moops\x1b[0m");
    let s = line.print_colored_on(false);
    assert!(s.contains("\x1b[92mHi"), "{s}");
    assert!(!s.contains(" 0\x1b"), "{s}");
    colored::control::unset_override();
    // The shown time is a clock reading, not the raw timestamp.
    let p = e.print_color_on(true);
    assert!(!p.contains("[0]"), "{p}");
    assert!(e.print_color_at("t", true).contains("§aHi"));
}

#[test]
fn clock_range_edges() {
    assert!(event("INFO", "8210266876799999", None, None).get_time().is_some());
    assert!(event("INFO", "8210266876800000", None, None).get_time().is_none());
    assert!(event("INFO", "-8334601228800000", None, None).get_time().is_some());
    assert!(event("INFO", "-8334601228801000", None, None).get_time().is_none());
}
