use csv_relay::classify::{Classification, Probe, Rejection};
use csv_relay::batch::ClassifiedFile;
use csv_relay::intake::{
    after_rename, decide, examine, examine_with, Examination, RenameOutcome, RenamedFile,
    Renaming, STAMP_FAILURE,
};
use csv_relay::metadata::{
    describe, describe_at, owner_name, record, sidecar_path, FileFacts, Sidecar,
};
use csv_relay::registry::HeaderRegistry;
use csv_relay::status::LogEntry;
use csv_relay::watch::{ChangeEvent, ChangeKind};

fn registry() -> HeaderRegistry {
    let mut registry = HeaderRegistry::new();
    registry.insert("id,amount,date".to_string(), "orders".to_string());
    registry
}

fn event(path: &str) -> ChangeEvent {
    ChangeEvent { path: path.to_string(), kind: ChangeKind::Created }
}

fn head(text: &str) -> Probe {
    Probe::Head(text.to_string())
}

fn renamed(path: &str, stamp: &str) -> RenamedFile {
    let plan = match examine_with(&event(path), &head("id,amount,date\n"), &registry(), &Some(stamp.to_string())) {
        Examination::Rename(plan) => plan,
        other => panic!("{:?}", other),
    };
    match after_rename(plan, &RenameOutcome::Done) {
        Renaming::Renamed(file) => file,
        other => panic!("{:?}", other),
    }
}

#[test]
fn a_matched_file_is_to_be_renamed_with_the_stamp() {
    let examination = examine_with(
        &event("/data/in/orders.csv"),
        &head("id,amount,date\n1,2,2024-01-01\n"),
        &registry(),
        &Some("20240102030405".to_string()),
    );
    match examination {
        Examination::Rename(plan) => {
            assert_eq!(plan.table(), "orders");
            assert_eq!(plan.from(), "/data/in/orders.csv");
            assert_eq!(plan.to(), "/data/in/orders_20240102030405.csv");
        }
        other => panic!("{:?}", other),
    }
}

#[test]
fn an_unmatched_file_is_rejected_and_recorded() {
    let examination = examine_with(
        &event("/data/in/things.csv"),
        &head("foo,bar\n"),
        &registry(),
        &Some("20240102030405".to_string()),
    );
    assert_eq!(
        examination,
        Examination::Rejected(LogEntry {
            directory: "/data/in".to_string(),
            message: "Upload failed! File: things.csv Reason: No matching table headers found.".to_string(),
        })
    );
}

#[test]
fn an_unreadable_file_is_rejected_with_the_error() {
    let examination = examine_with(
        &event("/data/in/things.csv"),
        &Probe::Unreadable("Permission denied (os error 13)".to_string()),
        &registry(),
        &None,
    );
    assert_eq!(
        examination,
        Examination::Rejected(LogEntry {
            directory: "/data/in".to_string(),
            message: "Upload failed! File: things.csv Reason: Permission denied (os error 13)".to_string(),
        })
    );
}

#[test]
fn a_vanished_file_is_skipped() {
    assert_eq!(
        examine_with(&event("/data/in/orders.csv"), &Probe::Missing, &registry(), &Some("1".to_string())),
        Examination::Skipped
    );
    assert_eq!(examine(&event("/data/in/orders.csv"), &Probe::Missing, &registry(), "%Y"), Examination::Skipped);
}

#[test]
fn a_matched_file_without_a_stamp_is_rejected() {
    assert_eq!(STAMP_FAILURE, "The timestamp suffix could not be rendered.");
    assert_eq!(
        examine_with(&event("/data/in/orders.csv"), &head("id,amount,date"), &registry(), &None),
        Examination::Rejected(LogEntry {
            directory: "/data/in".to_string(),
            message: "Upload failed! File: orders.csv Reason: The timestamp suffix could not be rendered.".to_string(),
        })
    );
    assert_eq!(
        examine(&event("/data/in/orders.csv"), &head("id,amount,date"), &registry(), "%Y-%"),
        Examination::Rejected(LogEntry {
            directory: "/data/in".to_string(),
            message: "Upload failed! File: orders.csv Reason: The timestamp suffix could not be rendered.".to_string(),
        })
    );
}

#[test]
fn decide_goes_by_the_verdict() {
    assert_eq!(decide("/in/a.csv", Classification::Vanished, &Some("1".to_string())), Examination::Skipped);
    assert_eq!(
        decide("/in/a.csv", Classification::Rejected(Rejection::NoMatchingSchema), &None),
        Examination::Rejected(LogEntry::failed("/in/a.csv", "No matching table headers found."))
    );
    match decide("/in/a.csv", Classification::Matched("t".to_string()), &Some("9".to_string())) {
        Examination::Rename(plan) => {
            assert_eq!((plan.table(), plan.from(), plan.to()), ("t", "/in/a.csv", "/in/a_9.csv"));
        }
        other => panic!("{:?}", other),
    }
}

#[test]
fn examine_stamps_with_the_current_time() {
    let examination = examine(&event("/data/in/orders.csv"), &head("id,amount,date\n"), &registry(), "%Y%m%d");
    match examination {
        Examination::Rename(plan) => {
            assert_eq!(plan.table(), "orders");
            assert_eq!(plan.from(), "/data/in/orders.csv");
            let to = plan.to();
            assert!(to.starts_with("/data/in/orders_"));
            assert!(to.ends_with(".csv"));
            let stamp = &to["/data/in/orders_".len()..to.len() - ".csv".len()];
            assert_eq!(stamp.len(), 8);
            assert!(stamp.chars().all(|c| c.is_ascii_digit()));
            assert!(stamp > "20200101");
        }
        other => panic!("{:?}", other),
    }
}

#[test]
fn examine_of_an_unmatched_file_does_not_depend_on_the_pattern() {
    for pattern in ["%Y", "%", ""] {
        assert_eq!(
            examine(&event("/data/in/things.csv"), &head("foo,bar\n"), &registry(), pattern),
            Examination::Rejected(LogEntry::failed("/data/in/things.csv", "No matching table headers found."))
        );
    }
}

#[test]
fn a_renamed_file_remembers_its_table_and_both_names() {
    let file = renamed("/data/in/orders.csv", "20240102");
    assert_eq!(file.table(), "orders");
    assert_eq!(file.path(), "/data/in/orders_20240102.csv");
    assert_eq!(file.original_name(), "orders.csv");
}

#[test]
fn a_failed_rename_rejects_the_file_under_its_old_name() {
    let plan = match examine_with(&event("/data/in/orders.csv"), &head("id,amount,date\n"), &registry(), &Some("7".to_string())) {
        Examination::Rename(plan) => plan,
        other => panic!("{:?}", other),
    };
    assert_eq!(
        after_rename(plan, &RenameOutcome::Failed("No such file or directory (os error 2)".to_string())),
        Renaming::Rejected(LogEntry {
            directory: "/data/in".to_string(),
            message: "Upload failed! File: orders.csv Reason: No such file or directory (os error 2)".to_string(),
        })
    );
}

#[test]
fn the_owner_is_what_the_lookup_printed_without_the_line_end() {
    assert_eq!(owner_name(&Some("alice\n".to_string())), "alice");
    assert_eq!(owner_name(&Some("alice".to_string())), "alice");
    assert_eq!(owner_name(&Some("\n".to_string())), "");
    assert_eq!(owner_name(&Some("alice\n\n".to_string())), "alice\n");
    assert_eq!(owner_name(&None), "");
}

#[test]
fn the_sidecar_lies_beside_the_file() {
    assert_eq!(sidecar_path("/data/in/orders_1.csv"), "/data/in/orders_1.csv.metadata");
    assert_eq!(sidecar_path(""), ".metadata");
}

#[test]
fn the_record_is_time_owner_and_name() {
    assert_eq!(record("2024-01-02 03:04:05", "alice", "orders.csv"), "2024-01-02 03:04:05,alice,orders.csv");
    assert_eq!(record("2024-01-02 03:04:05", "", "orders.csv"), "2024-01-02 03:04:05,,orders.csv");
}

#[test]
fn a_sidecar_described_at_a_given_time() {
    assert_eq!(
        describe_at("/data/in/orders_1.csv", "orders.csv", "2024-01-02 03:04:05", &Some("alice\n".to_string())),
        Sidecar {
            path: "/data/in/orders_1.csv.metadata".to_string(),
            upload_time: "2024-01-02 03:04:05".to_string(),
            line: "2024-01-02 03:04:05,alice,orders.csv".to_string(),
        }
    );
    assert_eq!(
        describe_at("/data/in/orders_1.csv", "orders.csv", "2024-01-02 03:04:05", &None).line,
        "2024-01-02 03:04:05,,orders.csv"
    );
}

fn is_timestamp(text: &str) -> bool {
    let chars: Vec<char> = text.chars().collect();
    chars.len() == 19
        && chars.iter().enumerate().all(|(i, c)| match i {
            4 | 7 => *c == '-',
            10 => *c == ' ',
            13 | 16 => *c == ':',
            _ => c.is_ascii_digit(),
        })
}

#[test]
fn a_sidecar_carries_the_creation_time_in_local_time() {
    let facts = FileFacts { created_secs: Some(1_000_000_000), owner_lookup: Some("bob\n".to_string()) };
    let sidecar = describe("/data/in/orders_1.csv", "orders.csv", &facts).unwrap();
    assert_eq!(sidecar.path, "/data/in/orders_1.csv.metadata");
    assert!(is_timestamp(&sidecar.upload_time), "{:?}", sidecar.upload_time);
    assert!(sidecar.upload_time.starts_with("2001-09-0"));
    assert!(sidecar.upload_time.ends_with(":40"));
    assert_eq!(sidecar.line, format!("{},bob,orders.csv", sidecar.upload_time));
    let later = describe("/data/in/orders_1.csv", "orders.csv", &FileFacts { created_secs: Some(1_000_000_000 + 86_400 * 400), owner_lookup: None }).unwrap();
    assert!(later.upload_time.starts_with("2002-10-1"));
    assert_eq!(later.line, format!("{},,orders.csv", later.upload_time));
}

#[test]
fn a_sidecar_is_made_for_every_creation_time_that_can_be_represented() {
    for secs in [0, -1, 59, 1_700_000_000, -8_334_601_228_800, 8_210_266_876_799, -62_167_219_200, 253_402_300_800] {
        let facts = FileFacts { created_secs: Some(secs), owner_lookup: None };
        let sidecar = describe("/in/a_1.csv", "a.csv", &facts);
        assert!(sidecar.is_some(), "{}", secs);
        let sidecar = sidecar.unwrap();
        assert_eq!(sidecar.line, format!("{},,a.csv", sidecar.upload_time));
    }
    for secs in [-8_334_601_228_801, 8_210_266_876_800, i64::MAX, i64::MIN] {
        let facts = FileFacts { created_secs: Some(secs), owner_lookup: None };
        assert_eq!(describe("/in/a_1.csv", "a.csv", &facts), None, "{}", secs);
    }
}

#[test]
fn a_matched_file_is_renamed_exactly_when_the_pattern_can_be_rendered() {
    for pattern in ["%Y%m%d%H%M%S", "", "plain", "%Y-%m-%d %H:%M:%S", "%s", "%+", "%c", "%%", "%.3f", "%z %Z"] {
        let examination = examine(&event("/data/in/orders.csv"), &head("id,amount,date\n"), &registry(), pattern);
        assert!(matches!(examination, Examination::Rename(_)), "{:?}", pattern);
    }
    for pattern in ["%", "%Y-%", "%Q", "%!", "%#z"] {
        let examination = examine(&event("/data/in/orders.csv"), &head("id,amount,date\n"), &registry(), pattern);
        assert_eq!(
            examination,
            Examination::Rejected(LogEntry::failed("/data/in/orders.csv", STAMP_FAILURE)),
            "{:?}",
            pattern
        );
    }
}

#[test]
fn there_is_no_sidecar_without_a_creation_time() {
    assert_eq!(describe("/in/a_1.csv", "a.csv", &FileFacts { created_secs: None, owner_lookup: Some("bob\n".to_string()) }), None);
    assert_eq!(describe("/in/a_1.csv", "a.csv", &FileFacts { created_secs: Some(i64::MAX), owner_lookup: None }), None);
    assert_eq!(describe("/in/a_1.csv", "a.csv", &FileFacts { created_secs: Some(i64::MIN), owner_lookup: None }), None);
}

#[test]
fn the_sidecar_of_a_renamed_file_names_the_file_as_it_arrived() {
    let file = renamed("/data/in/orders.csv", "20240102");
    let sidecar = file.sidecar(&FileFacts { created_secs: Some(0), owner_lookup: Some("carol\n".to_string()) }).unwrap();
    assert_eq!(sidecar.path, "/data/in/orders_20240102.csv.metadata");
    assert!(is_timestamp(&sidecar.upload_time));
    assert_eq!(sidecar.line, format!("{},carol,orders.csv", sidecar.upload_time));
    assert_eq!(file.sidecar(&FileFacts { created_secs: None, owner_lookup: None }), None);
}

#[test]
fn acceptance_records_the_sidecar_that_was_written() {
    assert_eq!(
        renamed("/data/in/orders.csv", "20240102").accept(true),
        ClassifiedFile {
            table_name: "orders".to_string(),
            renamed_src_path: "/data/in/orders_20240102.csv".to_string(),
            metadata_path: "/data/in/orders_20240102.csv.metadata".to_string(),
        }
    );
    assert_eq!(
        renamed("/data/in/orders.csv", "20240102").accept(false),
        ClassifiedFile {
            table_name: "orders".to_string(),
            renamed_src_path: "/data/in/orders_20240102.csv".to_string(),
            metadata_path: String::new(),
        }
    );
}
