use csv_relay::debounce::Aggregator;
use csv_relay::watch::{
    recognize, retain, ChangeEvent, ChangeKind, CreateKind, ModifyKind, Notice, NoticeKind,
};

fn created(path: &str) -> ChangeEvent {
    ChangeEvent { path: path.to_string(), kind: ChangeKind::Created }
}

fn notice(kind: NoticeKind, paths: &[&str]) -> Notice {
    Notice { kind, paths: paths.iter().map(|p| p.to_string()).collect() }
}

#[test]
fn only_file_creation_and_data_changes_are_recognized() {
    assert_eq!(recognize(NoticeKind::Create(CreateKind::File)), Some(ChangeKind::Created));
    assert_eq!(recognize(NoticeKind::Modify(ModifyKind::Data)), Some(ChangeKind::Modified));
    for kind in [
        NoticeKind::Any,
        NoticeKind::Access,
        NoticeKind::Create(CreateKind::Any),
        NoticeKind::Create(CreateKind::Folder),
        NoticeKind::Create(CreateKind::Other),
        NoticeKind::Modify(ModifyKind::Any),
        NoticeKind::Modify(ModifyKind::Metadata),
        NoticeKind::Modify(ModifyKind::Name),
        NoticeKind::Modify(ModifyKind::Other),
        NoticeKind::Remove,
        NoticeKind::Other,
    ] {
        assert_eq!(recognize(kind), None, "{:?}", kind);
    }
}

#[test]
fn retain_keeps_recognized_changes_to_csv_files() {
    assert_eq!(
        retain(&notice(NoticeKind::Create(CreateKind::File), &["/in/orders.csv"])),
        Some(ChangeEvent { path: "/in/orders.csv".to_string(), kind: ChangeKind::Created })
    );
    assert_eq!(
        retain(&notice(NoticeKind::Modify(ModifyKind::Data), &["/in/orders.csv", "/in/other.txt"])),
        Some(ChangeEvent { path: "/in/orders.csv".to_string(), kind: ChangeKind::Modified })
    );
}

#[test]
fn retain_drops_everything_else() {
    assert_eq!(retain(&notice(NoticeKind::Create(CreateKind::File), &["/in/orders.txt"])), None);
    assert_eq!(retain(&notice(NoticeKind::Create(CreateKind::File), &[])), None);
    assert_eq!(retain(&notice(NoticeKind::Create(CreateKind::File), &["/in/notes.txt", "/in/orders.csv"])), None);
    assert_eq!(retain(&notice(NoticeKind::Create(CreateKind::Folder), &["/in/orders.csv"])), None);
    assert_eq!(retain(&notice(NoticeKind::Remove, &["/in/orders.csv"])), None);
}

#[test]
fn what_the_intake_leaves_behind_is_dropped() {
    assert_eq!(retain(&notice(NoticeKind::Modify(ModifyKind::Name), &["/in/orders.csv", "/in/orders_1.csv"])), None);
    assert_eq!(retain(&notice(NoticeKind::Create(CreateKind::File), &["/in/orders_1.csv.metadata"])), None);
    assert_eq!(retain(&notice(NoticeKind::Modify(ModifyKind::Data), &["/in/orders_1.csv.metadata"])), None);
    assert_eq!(retain(&notice(NoticeKind::Create(CreateKind::File), &["/in/upload.log"])), None);
    assert_eq!(retain(&notice(NoticeKind::Modify(ModifyKind::Data), &["/in/upload.log"])), None);
}

#[test]
fn a_new_aggregator_is_idle_and_releases_nothing() {
    let mut aggregator = Aggregator::new(5);
    assert!(aggregator.is_idle());
    assert_eq!(aggregator.pending_len(), 0);
    assert_eq!(aggregator.poll(0), None);
    assert_eq!(aggregator.poll(1_000_000), None);
    assert_eq!(aggregator.poll(u64::MAX), None);
    assert!(aggregator.is_idle());
}

#[test]
fn a_batch_is_released_only_after_more_than_the_threshold() {
    let mut aggregator = Aggregator::new(5);
    aggregator.observe(created("/in/a.csv"), 100);
    assert!(!aggregator.is_idle());
    assert_eq!(aggregator.poll(100), None);
    assert_eq!(aggregator.poll(104), None);
    assert_eq!(aggregator.poll(105), None);
    assert_eq!(aggregator.pending_len(), 1);
    assert_eq!(aggregator.poll(106), Some(vec![created("/in/a.csv")]));
    assert!(aggregator.is_idle());
    assert_eq!(aggregator.poll(107), None);
    assert_eq!(aggregator.poll(1000), None);
}

#[test]
fn every_event_restarts_the_wait() {
    let mut aggregator = Aggregator::new(5);
    aggregator.observe(created("/in/a.csv"), 0);
    assert_eq!(aggregator.poll(4), None);
    aggregator.observe(created("/in/b.csv"), 5);
    assert_eq!(aggregator.poll(6), None);
    assert_eq!(aggregator.poll(10), None);
    aggregator.observe(created("/in/c.csv"), 10);
    assert_eq!(aggregator.poll(15), None);
    assert_eq!(
        aggregator.poll(16),
        Some(vec![created("/in/a.csv"), created("/in/b.csv"), created("/in/c.csv")])
    );
}

#[test]
fn a_rapid_burst_is_released_as_one_batch() {
    let mut aggregator = Aggregator::new(3);
    let mut released: Vec<Vec<ChangeEvent>> = Vec::new();
    let names = ["/in/a.csv", "/in/b.csv", "/in/c.csv", "/in/d.csv", "/in/e.csv"];
    let mut now: u64 = 10;
    for name in names {
        aggregator.observe(created(name), now);
        if let Some(batch) = aggregator.poll(now) {
            released.push(batch);
        }
        now += 1;
        if let Some(batch) = aggregator.poll(now) {
            released.push(batch);
        }
        now += 1;
    }
    assert!(released.is_empty());
    while now <= 30 {
        if let Some(batch) = aggregator.poll(now) {
            released.push(batch);
        }
        now += 1;
    }
    assert_eq!(released.len(), 1);
    assert_eq!(released[0], names.iter().map(|n| created(n)).collect::<Vec<ChangeEvent>>());
    assert!(aggregator.is_idle());
}

#[test]
fn bursts_separated_by_more_than_the_threshold_are_released_separately() {
    let mut aggregator = Aggregator::new(3);
    let mut released: Vec<Vec<ChangeEvent>> = Vec::new();
    let arrivals: [(u64, &str); 4] = [(0, "/in/a.csv"), (2, "/in/b.csv"), (20, "/in/c.csv"), (21, "/in/d.csv")];
    let mut now: u64 = 0;
    while now <= 40 {
        for (at, name) in arrivals {
            if at == now {
                aggregator.observe(created(name), now);
            }
        }
        if let Some(batch) = aggregator.poll(now) {
            released.push(batch);
        }
        now += 1;
    }
    assert_eq!(
        released,
        vec![
            vec![created("/in/a.csv"), created("/in/b.csv")],
            vec![created("/in/c.csv"), created("/in/d.csv")],
        ]
    );
}

#[test]
fn a_clock_that_runs_backwards_releases_nothing() {
    let mut aggregator = Aggregator::new(0);
    aggregator.observe(created("/in/a.csv"), 50);
    assert_eq!(aggregator.poll(10), None);
    assert_eq!(aggregator.poll(50), None);
    assert_eq!(aggregator.poll(51), Some(vec![created("/in/a.csv")]));
}

#[test]
fn the_same_file_seen_twice_is_buffered_twice() {
    let mut aggregator = Aggregator::new(1);
    aggregator.observe(created("/in/a.csv"), 0);
    aggregator.observe(ChangeEvent { path: "/in/a.csv".to_string(), kind: ChangeKind::Modified }, 0);
    assert_eq!(
        aggregator.poll(2),
        Some(vec![
            created("/in/a.csv"),
            ChangeEvent { path: "/in/a.csv".to_string(), kind: ChangeKind::Modified },
        ])
    );
}
