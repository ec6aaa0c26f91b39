use csv_relay::config::{parse_wait, validate, validate_with, RawSettings, Setting, SettingsError};
use csv_relay::status::{LogEntry, LOG_FILE_NAME, NO_MATCH_REASON};

#[test]
fn success_and_failure_messages() {
    assert_eq!(
        LogEntry::succeeded("/data/in/orders_20240102.csv"),
        LogEntry {
            directory: "/data/in".to_string(),
            message: "Upload succeeded! File: orders_20240102.csv".to_string(),
        }
    );
    assert_eq!(
        LogEntry::failed("/data/in/orders.csv", "No matching table headers found."),
        LogEntry {
            directory: "/data/in".to_string(),
            message: "Upload failed! File: orders.csv Reason: No matching table headers found.".to_string(),
        }
    );
    assert_eq!(LogEntry::failed("orders.csv", "").directory, "");
    assert_eq!(LogEntry::failed("orders.csv", "").message, "Upload failed! File: orders.csv Reason: ");
}

#[test]
fn the_log_lies_in_the_directory_of_the_file() {
    assert_eq!(LOG_FILE_NAME, "upload.log");
    assert_eq!(NO_MATCH_REASON, "No matching table headers found.");
    assert_eq!(LogEntry::succeeded("/data/in/a.csv").log_path(), "/data/in/upload.log");
    assert_eq!(LogEntry::succeeded("/a.csv").log_path(), "/upload.log");
    assert_eq!(LogEntry::succeeded("a.csv").log_path(), "upload.log");
}

#[test]
fn a_log_line_is_time_then_message() {
    let entry = LogEntry::succeeded("/data/in/a_1.csv");
    assert_eq!(
        entry.line_at("2024-01-02 03:04:05"),
        "2024-01-02 03:04:05 - Upload succeeded! File: a_1.csv\n"
    );
}

#[test]
fn stamping_uses_the_current_local_time() {
    let entry = LogEntry::failed("/data/in/a.csv", "why");
    let line = entry.stamp().unwrap();
    assert_eq!(line.path, "/data/in/upload.log");
    assert_eq!(line.line, format!("{} - Upload failed! File: a.csv Reason: why\n", line.time));
    let time: Vec<char> = line.time.chars().collect();
    assert_eq!(time.len(), 19);
    for (i, c) in time.iter().enumerate() {
        match i {
            4 | 7 => assert_eq!(*c, '-'),
            10 => assert_eq!(*c, ' '),
            13 | 16 => assert_eq!(*c, ':'),
            _ => assert!(c.is_ascii_digit()),
        }
    }
    assert!(line.time.as_str() > "2020-01-01 00:00:00");
}

#[test]
fn a_wait_is_a_positive_decimal_number() {
    assert_eq!(parse_wait("1"), Some(1));
    assert_eq!(parse_wait("30"), Some(30));
    assert_eq!(parse_wait("+30"), Some(30));
    assert_eq!(parse_wait("007"), Some(7));
    assert_eq!(parse_wait("18446744073709551615"), Some(u64::MAX));
    assert_eq!(parse_wait("000018446744073709551615"), Some(u64::MAX));
}

#[test]
fn anything_else_is_no_wait() {
    for text in ["", "+", "0", "000", "+0", "-1", "1.5", " 1", "1 ", "1s", "++1", "1+", "0x10", "１", "18446744073709551616", "99999999999999999999999", "184467440737095516150"] {
        assert_eq!(parse_wait(text), None, "{:?}", text);
    }
}

fn raw() -> RawSettings {
    RawSettings {
        source_dir: Some("/data/in".to_string()),
        dest_user: Some("loader".to_string()),
        dest_host: Some("db.example".to_string()),
        dest_dir: Some("/srv/incoming".to_string()),
        template_dir: Some("/etc/templates".to_string()),
        file_suffix: Some("%Y%m%d%H%M%S".to_string()),
        wait_seconds: Some("5".to_string()),
    }
}

#[test]
fn complete_settings_are_taken_over() {
    let settings = validate(raw()).unwrap();
    assert_eq!(settings.source_dir, "/data/in");
    assert_eq!(settings.destination.user, "loader");
    assert_eq!(settings.destination.host, "db.example");
    assert_eq!(settings.destination.directory, "/srv/incoming");
    assert_eq!(settings.template_dir, "/etc/templates");
    assert_eq!(settings.stamp_pattern, "%Y%m%d%H%M%S");
    assert_eq!(settings.wait_seconds, 5);
    assert_eq!(validate_with(raw(), true), Ok(settings));
}

#[test]
fn the_first_missing_setting_is_reported() {
    let mut r = raw();
    r.wait_seconds = None;
    assert_eq!(validate(r), Err(SettingsError::Missing(Setting::WaitSeconds)));
    let mut r = raw();
    r.file_suffix = None;
    r.wait_seconds = None;
    assert_eq!(validate(r), Err(SettingsError::Missing(Setting::FileSuffix)));
    let mut r = raw();
    r.template_dir = None;
    assert_eq!(validate(r), Err(SettingsError::Missing(Setting::TemplateDir)));
    let mut r = raw();
    r.dest_dir = None;
    assert_eq!(validate(r), Err(SettingsError::Missing(Setting::DestDir)));
    let mut r = raw();
    r.dest_host = None;
    r.dest_dir = None;
    assert_eq!(validate(r), Err(SettingsError::Missing(Setting::DestHost)));
    let mut r = raw();
    r.dest_user = None;
    assert_eq!(validate(r), Err(SettingsError::Missing(Setting::DestUser)));
    let mut r = raw();
    r.source_dir = None;
    r.wait_seconds = Some("x".to_string());
    assert_eq!(validate(r), Err(SettingsError::Missing(Setting::SourceDir)));
}

#[test]
fn an_unusable_wait_is_reported() {
    for text in ["0", "", "soon", "-5", "18446744073709551616"] {
        let mut r = raw();
        r.wait_seconds = Some(text.to_string());
        assert_eq!(validate(r), Err(SettingsError::Unusable(Setting::WaitSeconds)), "{:?}", text);
    }
}

#[test]
fn an_unusable_pattern_is_reported() {
    let mut r = raw();
    r.file_suffix = Some("%Y-%".to_string());
    assert_eq!(validate(r), Err(SettingsError::Unusable(Setting::FileSuffix)));
    assert_eq!(validate_with(raw(), false), Err(SettingsError::Unusable(Setting::FileSuffix)));
    let mut r = raw();
    r.wait_seconds = Some("0".to_string());
    assert_eq!(validate_with(r, false), Err(SettingsError::Unusable(Setting::WaitSeconds)));
}

#[test]
fn a_pattern_is_usable_exactly_when_it_can_be_rendered() {
    for pattern in ["%Y%m%d%H%M%S", "", "plain", "%s", "%+", "%%"] {
        let mut r = raw();
        r.file_suffix = Some(pattern.to_string());
        assert!(validate(r).is_ok(), "{:?}", pattern);
    }
    for pattern in ["%", "%Q", "%#z", "%Y%"] {
        let mut r = raw();
        r.file_suffix = Some(pattern.to_string());
        assert_eq!(validate(r), Err(SettingsError::Unusable(Setting::FileSuffix)), "{:?}", pattern);
    }
}

#[test]
fn settings_know_their_variables() {
    assert_eq!(Setting::SourceDir.variable(), "SOURCE_DIR");
    assert_eq!(Setting::DestUser.variable(), "DEST_USER");
    assert_eq!(Setting::DestHost.variable(), "DEST_HOST");
    assert_eq!(Setting::DestDir.variable(), "DEST_DIR");
    assert_eq!(Setting::TemplateDir.variable(), "TEMPLATE_DIR");
    assert_eq!(Setting::FileSuffix.variable(), "FILE_SUFFIX");
    assert_eq!(Setting::WaitSeconds.variable(), "CSV_EVENT_WAIT_SECONDS");
}
