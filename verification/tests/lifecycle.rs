//! Snapshots.
use wvm::host::lifecycle::{
    await_job, concludes, conclusion, confirm, delete, in_time, list, listing, next_job_seq, outcome,
    overdue, parse_snapshot_table, restore, save, size_unit, snapshot_rows, validate_tag, Job,
    Snapshot,
};

/// A size of so many units, in bytes.
fn parse_size(value: &str, unit: &str) -> Result<u64, String> {
    let n: f64 = value.parse().map_err(|e| format!("size {value:?}: {e}"))?;
    Ok((n * size_unit(unit)? as f64) as u64)
}

/// The snapshots that a table shows.
fn snapshots_in(table: &str) -> Vec<Snapshot> {
    let rows = snapshot_rows(table);
    let sizes = rows.iter().map(|r| parse_size(&r.size, &r.unit).ok()).collect();
    parse_snapshot_table(&rows, &sizes)
}

#[test]
fn a_tag_with_whitespace_is_refused() {
    // It would end up inside a monitor command line.
    assert!(validate_tag("has space").is_err());
    assert!(validate_tag("has\ttab").is_err());
}

#[test]
fn a_tag_that_is_empty_or_absurdly_long_is_refused() {
    assert!(validate_tag("").is_err());
    assert!(validate_tag(&"x".repeat(65)).is_err());
    assert!(validate_tag(&"x".repeat(64)).is_ok());
}

#[test]
fn reasonable_tags_are_accepted() {
    for tag in ["snap-1", "before_install", "v1.2.3", "abc123"] {
        assert!(validate_tag(tag).is_ok(), "{tag} should be allowed");
    }
}

#[test]
fn a_size_in_gib_converts_to_bytes() {
    // 3.37 * 1024^3 = 3_618_509_946.
    assert_eq!(parse_size("3.37", "GiB").unwrap(), 3_618_509_946);
    assert_eq!(parse_size("0", "B").unwrap(), 0);
    assert_eq!(parse_size("512", "MiB").unwrap(), 536_870_912);
}

#[test]
fn an_unknown_size_unit_is_an_error_rather_than_a_guess() {
    // Silently treating an unknown unit as bytes would under-report by a factor of a billion,
    // and the number is shown to a caller deciding whether a snapshot is worth keeping.
    assert!(parse_size("1", "PB").is_err());
}

#[test]
fn the_snapshot_table_parses_the_shape_qemu_prints() {
    // VERBATIM output from `info snapshots`. The ID column is not a number, whatever it is called:
    // QEMU renders it as `--` for internal snapshots, and a parser that wanted a digit there would
    // report "no snapshots" while two exist.
    let raw = "List of snapshots present on all disks:\r\n\
               ID      TAG               VM_SIZE                DATE        VM_CLOCK     ICOUNT\r\n\
               --      my-snap          3.37 GiB 2026-09-16 12:57:50  0000:08:49.636         --\r\n\
               --      before-test      2.76 GiB 2026-09-16 13:14:23  0000:01:04.552         --\r\n";

    let snapshots = snapshots_in(raw);

    assert_eq!(
        snapshots.len(),
        2,
        "both data rows must be found, not skipped: {snapshots:?}"
    );
    assert_eq!(snapshots[0].tag, "my-snap");
    assert_eq!(snapshots[1].tag, "before-test");
    assert_eq!(
        snapshots[0].id, "--",
        "the id column is a dash, not a number"
    );
    assert_eq!(snapshots[0].vm_size_bytes, 3_618_509_946);
}

#[test]
fn the_header_and_headings_are_not_mistaken_for_rows() {
    // The failure mode this guards is an empty list, which is also a legitimate answer — so a
    // broken parser is indistinguishable from a disk with no snapshots unless the row detection
    // is actually tested.
    let headers = "List of snapshots present on all disks:\r\n\
                   ID      TAG               VM_SIZE                DATE        VM_CLOCK     ICOUNT\r\n";
    assert_eq!(snapshots_in(headers).len(), 0);

    let empty = "List of snapshots present on all disks:\r\n";
    assert_eq!(snapshots_in(empty).len(), 0);
}

#[test]
fn a_row_whose_size_is_none_shows_no_snapshot() {
    let table = "--  a  3.37 GiB x\n--  b  big GiB x\n--  c  1 PB x\n--  d  2 KiB x\n-- e 1\n";
    let tags: Vec<String> = snapshots_in(table).into_iter().map(|s| s.tag).collect();
    assert_eq!(tags, ["a", "d"]);
    assert_eq!(size_unit("PB"), Err("unknown size unit \"PB\"".to_string()));
}

#[test]
fn tags_are_refused_by_name() {
    assert_eq!(validate_tag(""), Err("a snapshot needs a name".to_string()));
    assert_eq!(
        validate_tag(&"x".repeat(65)),
        Err("snapshot names are limited to 64 characters".to_string())
    );
    assert_eq!(
        validate_tag("a\"b"),
        Err("snapshot names may contain letters, digits, dash, underscore and dot: \"a\\\"b\""
            .to_string())
    );
    // The limit counts bytes, so it comes before the characters are looked at.
    assert_eq!(
        validate_tag(&"é".repeat(33)),
        Err("snapshot names are limited to 64 characters".to_string())
    );
    assert!(save("a b", 1).is_err() && restore("a b", 1).is_err() && delete("a b").is_err());
}

#[test]
fn jobs_have_ids_of_their_own() {
    assert_eq!(next_job_seq(1, 0), 65536);
    assert_eq!(next_job_seq(1, 65537), 65537);
    let first = save("snap", next_job_seq(7, 0)).expect("save");
    let second = save("snap", next_job_seq(7, 1)).expect("save");
    assert_eq!(first.job_id, "wvm-save-snap-458752");
    assert_ne!(first.job_id, second.job_id);
    assert_eq!(restore("snap", 9).expect("restore").job_id, "wvm-load-snap-9");
}

#[test]
fn commands_name_the_disk_and_the_tag() {
    assert_eq!(
        save("snap", 3).expect("save").arguments,
        r#"{"devices":["disk0"],"job-id":"wvm-save-snap-3","tag":"snap","vmstate":"disk0"}"#
    );
    assert_eq!(
        delete("snap").expect("delete"),
        r#"{"device":"disk0","name":"snap"}"#
    );
    assert_eq!(list(), r#"{"command-line":"info snapshots"}"#);
    assert_eq!(listing(r#"{"return":"a\r\nb"}"#), "a\r\nb");
    assert_eq!(listing(r#"{"return":{}}"#), "");
}

#[test]
fn only_the_conclusion_of_the_job_ends_the_wait() {
    let event = |name: &str, id: &str, status: &str| {
        format!(r#"{{"event":"{name}","data":{{"id":"{id}","status":"{status}"}}}}"#)
    };
    assert!(concludes(&event("JOB_STATUS_CHANGE", "j", "concluded"), "j"));
    assert!(!concludes(&event("JOB_STATUS_CHANGE", "j", "running"), "j"));
    assert!(!concludes(&event("JOB_STATUS_CHANGE", "k", "concluded"), "j"));
    assert!(!concludes(&event("STOP", "j", "concluded"), "j"));
    assert!(!concludes(r#"{"event":"JOB_STATUS_CHANGE"}"#, "j"));
    let some = |s: &str| Some(s.to_string());
    assert!(conclusion(&some("JOB_STATUS_CHANGE"), &some("j"), &some("concluded"), "j"));
    assert!(!conclusion(&None, &some("j"), &some("concluded"), "j"));
    assert_eq!(overdue("j"), "the snapshot job 'j' did not conclude within 600s");
    assert_eq!(in_time("j", 600_000_000_000), Ok(()));
    assert_eq!(in_time("j", 600_000_000_001), Err(overdue("j")));
}

#[test]
fn a_concluded_job_may_still_have_failed() {
    let reply = r#"{"return":[{"id":"a"},{"id":"b","error":"no space"},{"id":"c","error":""}]}"#;
    assert_eq!(await_job(reply, "a"), Ok(()));
    assert_eq!(await_job(reply, "b"), Err("snapshot job 'b' failed: no space".to_string()));
    assert_eq!(await_job(reply, "c"), Ok(()));
    assert_eq!(
        await_job(reply, "d"),
        Err("job 'd' concluded but is not in query-jobs".to_string())
    );
    assert!(await_job(r#"{"return":"odd"}"#, "a").is_err());
    let jobs = vec![Job { id: Some("a".into()), error: Some("late".into()) }];
    assert_eq!(outcome(&jobs, "a"), Err("snapshot job 'a' failed: late".to_string()));
}

#[test]
fn a_save_is_confirmed_on_the_disk() {
    let on_disk = snapshots_in("--  a  1 B x\n--  b  2 B x\n");
    assert_eq!(confirm(&on_disk, "b").expect("there").vm_size_bytes, 2);
    assert_eq!(
        confirm(&on_disk, "c"),
        Err("snapshot-save reported success but 'c' is not on the disk".to_string())
    );
}
