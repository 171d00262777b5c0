use lds::transcript_log::{
    cutoff, epoch_of, epoch_seconds, file_name, file_name_at, is_expired, transcript_dir,
    RETENTION_DAYS,
};

#[test]
fn directories() {
    assert_eq!(transcript_dir(Some("/s"), Some("u")), "/s/lds/transcripts");
    assert_eq!(transcript_dir(None, Some("ada")), "/home/ada/.local/state/lds/transcripts");
    assert_eq!(transcript_dir(None, None), "/home/byte/.local/state/lds/transcripts");
}

#[test]
fn file_names_have_date_and_time() {
    assert_eq!(
        file_name_at(1_700_000_000, 0),
        Some("2023-11-14_22-13-20_1700000000.txt".to_string())
    );
    assert_eq!(
        file_name_at(1_700_000_000, 3600 * 5 + 1800),
        Some("2023-11-15_03-43-20_1700000000.txt".to_string())
    );
    assert_eq!(file_name_at(-1, 0), Some("1969-12-31_23-59-59_0.txt".to_string()));
    assert_eq!(file_name_at(0, 86400), None);
    assert_eq!(file_name_at(i64::MAX, 0), None);
    assert_eq!(file_name("stamp", 12), "stamp_12.txt");
}

#[test]
fn the_last_second_of_the_year_9999_has_a_name() {
    assert_eq!(
        file_name_at(253_402_300_799, 0),
        Some("9999-12-31_23-59-59_253402300799.txt".to_string())
    );
    assert!(file_name_at(253_402_300_799, 86399).is_some());
}

#[test]
fn file_names_give_back_the_time() {
    for secs in [0i64, 1, 1_700_000_000, 253_402_300_799] {
        let name = file_name_at(secs, -7200).unwrap();
        assert_eq!(epoch_of(&name), Some(secs as u64));
    }
    assert_eq!(epoch_of(&file_name("a.b_c", u64::MAX)), Some(u64::MAX));
}

#[test]
fn other_files_have_no_time() {
    assert_eq!(epoch_of("notes.txt"), None);
    assert_eq!(epoch_of("2023-11-14_22-13-20_1700000000.log"), None);
    assert_eq!(epoch_of("2023-11-14_22-13-20_.txt"), None);
    assert_eq!(epoch_of(".txt"), None);
    assert_eq!(epoch_of("123.txt"), Some(123));
    assert!(!is_expired("notes.txt", u64::MAX));
}

#[test]
fn transcripts_are_kept_for_a_week() {
    let saved = 1_700_000_000i64;
    let name = file_name_at(saved, 0).unwrap();
    let week = (RETENTION_DAYS * 86400) as i64;
    assert_eq!(week, 604_800);
    assert!(!is_expired(&name, cutoff(saved)));
    assert!(!is_expired(&name, cutoff(saved + week)));
    assert!(is_expired(&name, cutoff(saved + week + 1)));
    assert_eq!(cutoff(5), 0);
    assert_eq!(cutoff(-5), 0);
    assert_eq!(epoch_seconds(-5), 0);
}
