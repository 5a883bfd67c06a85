use tn::datetime::{datetime_sort_key, first_local_stamp, normalize_datetime_to_local, normalize_optional_datetime, LocalChoice, LocalStamp};
use tn::log::{escape_newlines, log_line};

#[test]
fn log_records_stay_on_one_line() {
    assert_eq!(
        log_line("2024-01-01 00:00:00", "INFO", "a\nb"),
        "2024-01-01 00:00:00 [INFO] a\\nb\n"
    );
    assert_eq!(escape_newlines("x\n\ny"), "x\\n\\ny");
    assert_eq!(log_line("t", "WARN", "").matches('\n').count(), 1);
}

#[test]
fn dates_are_read_in_the_known_formats() {
    assert_eq!(datetime_sort_key(Some("2024-01-01T00:00:00Z")), Some(1704067200));
    assert_eq!(datetime_sort_key(Some("Mon, 01 Jan 2024 00:00:00 GMT")), Some(1704067200));
    assert_eq!(datetime_sort_key(Some("  2024-01-01T01:00:00+01:00 ")), Some(1704067200));
    assert_eq!(datetime_sort_key(Some("not a date")), None);
    assert_eq!(datetime_sort_key(Some("   ")), None);
    assert_eq!(datetime_sort_key(None), None);
    assert!(datetime_sort_key(Some("2024-01-01 00:00:00")).is_some());
    assert!(datetime_sort_key(Some("2024-01-01")).is_some());
    let shown = normalize_datetime_to_local("2024-01-01T00:00:00Z").unwrap();
    assert_eq!(shown.len(), 19);
    assert_eq!(&shown[4..5], "-");
    assert!(normalize_datetime_to_local("garbage").is_none());
    assert!(normalize_optional_datetime("   ").is_none());
}

#[test]
fn dates_without_offset_show_their_own_wall_clock_time() {
    assert_eq!(normalize_datetime_to_local("2024-01-01").as_deref(), Some("2024-01-01 00:00:00"));
    assert_eq!(normalize_datetime_to_local(" 2024-01-01 12:30 ").as_deref(), Some("2024-01-01 12:30:00"));
    assert_eq!(normalize_datetime_to_local("2024-01-01 12:30:45").as_deref(), Some("2024-01-01 12:30:45"));
    assert_eq!(normalize_datetime_to_local(""), None);
    assert_eq!(normalize_datetime_to_local("yesterday"), None);
}

#[test]
fn displayed_dates_have_the_display_layout_and_read_back_unchanged() {
    for input in ["2024-03-05T07:08:09+02:00", "Tue, 05 Mar 2024 07:08:09 GMT", "2024-03-05 07:08"] {
        let shown = normalize_datetime_to_local(input).unwrap();
        assert_eq!(shown.len(), 19);
        for (i, c) in shown.chars().enumerate() {
            match i {
                4 | 7 => assert_eq!(c, '-'),
                10 => assert_eq!(c, ' '),
                13 | 16 => assert_eq!(c, ':'),
                _ => assert!(c.is_ascii_digit()),
            }
        }
        assert_eq!(normalize_datetime_to_local(&shown).as_deref(), Some(shown.as_str()));
    }
}

#[test]
fn first_format_whose_local_time_exists_wins() {
    let st = |t: i64, d: &str| LocalStamp { timestamp: t, display: d.to_string() };
    let r = first_local_stamp(Some(LocalChoice::Missing), Some(LocalChoice::Single(st(5, "b"))), Some(LocalChoice::Single(st(9, "c"))));
    assert_eq!(r.map(|s| (s.timestamp, s.display)), Some((5, "b".to_string())));
    let r = first_local_stamp(None, None, Some(LocalChoice::Ambiguous(st(1, "x"), st(2, "x"))));
    assert_eq!(r.map(|s| s.timestamp), Some(1));
    assert!(first_local_stamp(None, Some(LocalChoice::Missing), None).is_none());
}
