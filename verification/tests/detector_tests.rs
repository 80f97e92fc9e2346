use filewatch::detector::{backup_path, BackupKind, PollContext};
use filewatch::fingerprint::fingerprint_bytes;
use filewatch::hex::format_fingerprint;
use filewatch::timestamp::TimeFields;

fn some_instant() -> TimeFields {
    TimeFields { year: 2026, month: 10, day: 11, hour: 8, minute: 0, second: 0, millis: 0 }
}

#[test]
fn first_observation_is_a_starting_backup() {
    let mut ctx = PollContext::new(b"config.toml".to_vec(), false);
    assert_eq!(ctx.observe(42), Some(BackupKind::Starting));
}

#[test]
fn unchanged_fingerprint_plans_nothing() {
    let mut ctx = PollContext::new(b"config.toml".to_vec(), false);
    ctx.observe(42);
    assert_eq!(ctx.observe(42), None);
    assert_eq!(ctx.observe(42), None);
}

#[test]
fn changed_fingerprint_plans_exactly_one_backup() {
    let mut ctx = PollContext::new(b"config.toml".to_vec(), false);
    ctx.observe(42);
    assert_eq!(ctx.observe(43), Some(BackupKind::Changed));
    assert_eq!(ctx.observe(43), None);
}

#[test]
fn priming_suppresses_the_starting_backup() {
    let mut ctx = PollContext::new(b"config.toml".to_vec(), false);
    ctx.prime(Some(42));
    assert_eq!(ctx.observe(42), None);
}

#[test]
fn priming_without_a_fingerprint_keeps_the_first_tick_starting() {
    let mut ctx = PollContext::new(b"config.toml".to_vec(), false);
    ctx.prime(None);
    assert_eq!(ctx.observe(42), Some(BackupKind::Starting));
}

#[test]
fn starting_backup_flag_semantics() {
    // With the flag the very first tick backs up, modified or not.
    let mut forced = PollContext::new(b"watched".to_vec(), false);
    let first = forced.plan_tick(fingerprint_bytes(b"A"), &some_instant());
    assert_eq!(first.expect("backup planned").kind, BackupKind::Starting);
    assert!(forced.plan_tick(fingerprint_bytes(b"A"), &some_instant()).is_none());

    // Without it the first fingerprint only becomes the baseline.
    let mut silent = PollContext::new(b"watched".to_vec(), false);
    silent.prime(Some(fingerprint_bytes(b"A")));
    assert!(silent.plan_tick(fingerprint_bytes(b"A"), &some_instant()).is_none());
}

#[test]
fn watch_scenario_four_ticks() {
    // Watch a file that starts out containing "A", with no starting backup.
    let mut ctx = PollContext::new(b"watched.txt".to_vec(), false);
    ctx.prime(Some(fingerprint_bytes(b"A")));

    // Tick 1: content still "A": no backup.
    assert!(ctx.plan_tick(fingerprint_bytes(b"A"), &some_instant()).is_none());

    // The file changes to "B". Tick 2: exactly one backup, for "B".
    let second = ctx
        .plan_tick(fingerprint_bytes(b"B"), &some_instant())
        .expect("a backup is due");
    assert_eq!(second.kind, BackupKind::Changed);
    assert_eq!(
        second.dest_path,
        b"watched.txt.20261011080000000.bak".to_vec()
    );

    // Tick 3: content still "B": no new backup.
    assert!(ctx.plan_tick(fingerprint_bytes(b"B"), &some_instant()).is_none());

    // The file changes back to "A". Tick 4: one new backup, because only
    // the last observation is retained and "A" differs from the cached "B".
    let fourth = ctx
        .plan_tick(fingerprint_bytes(b"A"), &some_instant())
        .expect("a backup is due");
    assert_eq!(fourth.kind, BackupKind::Changed);
}

#[test]
fn plan_carries_timestamp_path_and_rendered_fingerprint() {
    let mut ctx = PollContext::new(b"notes.md".to_vec(), false);
    let fp = fingerprint_bytes(b"first contents");
    let plan = ctx.plan_tick(fp, &some_instant()).expect("starting backup");
    assert_eq!(plan.kind, BackupKind::Starting);
    assert_eq!(plan.timestamp, b"20261011080000000".to_vec());
    assert_eq!(plan.dest_path, b"notes.md.20261011080000000.bak".to_vec());
    assert_eq!(plan.fingerprint_hex, format!("{:#034x}", fp).into_bytes());
}

#[test]
fn backup_path_exact_value() {
    let dest = backup_path(&b"a.txt".to_vec(), &b"123".to_vec());
    assert_eq!(dest, b"a.txt.123.bak".to_vec());
}

#[test]
fn fingerprint_rendering_matches_fixed_width_hex() {
    assert_eq!(
        format_fingerprint(0),
        b"0x00000000000000000000000000000000".to_vec()
    );
    assert_eq!(
        format_fingerprint(0xdead_beef),
        b"0x000000000000000000000000deadbeef".to_vec()
    );
    let fp = fingerprint_bytes(b"render me");
    assert_eq!(format_fingerprint(fp), format!("{:#034x}", fp).into_bytes());
}
