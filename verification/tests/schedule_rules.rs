use chrono::{DateTime, Datelike, TimeZone, Timelike, Utc, Weekday};
use openmgmt::models::{CalendarBlock, CalendarBlockSource, CalendarBlockStatus, RecurrenceRule};
use openmgmt::scheduling::{
    generate_schedule_ics, ics_escape, layout_columns, move_block, next_recurrence_at,
    resize_block, snap_to_increment, weekday_of, BlockEdge, MIN_BLOCK_MINUTES,
};
use openmgmt::time::{NANOS_PER_DAY, NANOS_PER_MINUTE, NANOS_PER_WEEK};

fn ts(y: i32, mo: u32, d: u32, h: u32, mi: u32) -> i64 {
    Utc.with_ymd_and_hms(y, mo, d, h, mi, 0).unwrap().timestamp_nanos_opt().unwrap()
}

fn date(t: i64) -> DateTime<Utc> {
    DateTime::from_timestamp_nanos(t)
}

fn at(hour: u32, minute: u32) -> i64 {
    ts(2026, 6, 19, hour, minute)
}

fn block(id: &str, title: &str, status: CalendarBlockStatus) -> CalendarBlock {
    let start = ts(2026, 6, 19, 9, 0);
    CalendarBlock {
        id: id.into(),
        task_id: None,
        project_id: None,
        organization_id: None,
        title: title.into(),
        description: None,
        start_at: start,
        end_at: start + 60 * NANOS_PER_MINUTE,
        timezone: None,
        source: CalendarBlockSource::OpenMgmt,
        external_id: None,
        status,
        created_at: start,
        updated_at: start,
    }
}

#[test]
fn recurrence_supports_daily_weekly_monthly_and_weekdays() {
    let friday = ts(2026, 6, 19, 9, 30);
    assert_eq!(next_recurrence_at(RecurrenceRule::Daily, friday).unwrap(), friday + NANOS_PER_DAY);
    assert_eq!(next_recurrence_at(RecurrenceRule::Weekly, friday).unwrap(), friday + NANOS_PER_WEEK);
    let weekday = date(next_recurrence_at(RecurrenceRule::Weekdays, friday).unwrap());
    assert_eq!(weekday.weekday(), Weekday::Mon);
    assert_eq!(weekday.hour(), 9);

    let january = ts(2026, 1, 15, 9, 30);
    let monthly = date(next_recurrence_at(RecurrenceRule::Monthly, january).unwrap());
    assert_eq!(monthly.month(), 2);
    assert_eq!(monthly.day(), 15);
}

#[test]
fn monthly_recurrence_clamps_month_end_dates() {
    let feb_2025 = next_recurrence_at(RecurrenceRule::Monthly, ts(2025, 1, 31, 9, 30)).unwrap();
    assert_eq!(feb_2025, ts(2025, 2, 28, 9, 30));
    let feb_2024 = next_recurrence_at(RecurrenceRule::Monthly, ts(2024, 1, 31, 9, 30)).unwrap();
    assert_eq!(feb_2024, ts(2024, 2, 29, 9, 30));
}

#[test]
fn no_recurrence_has_no_next_occurrence() {
    assert_eq!(next_recurrence_at(RecurrenceRule::NoRecurrence, ts(2026, 6, 19, 9, 30)), None);
}

#[test]
fn weekday_recurrence_never_lands_on_a_weekend() {
    let saturday = ts(2026, 6, 20, 8, 0);
    let next = date(next_recurrence_at(RecurrenceRule::Weekdays, saturday).unwrap());
    assert_eq!(next.weekday(), Weekday::Mon);
    let tuesday = ts(2026, 6, 16, 8, 0);
    assert_eq!(next_recurrence_at(RecurrenceRule::Weekdays, tuesday).unwrap(), tuesday + NANOS_PER_DAY);
    // 2026-06-19 is a Friday: Monday is day 0.
    assert_eq!(weekday_of(ts(2026, 6, 19, 0, 0)), 4);
}

#[test]
fn ics_export_excludes_inactive_blocks() {
    let planned = block("planned", "Planned Block", CalendarBlockStatus::Planned);
    let moved = block("moved", "Moved Block", CalendarBlockStatus::Moved);
    let skipped = block("skipped", "Skipped Block", CalendarBlockStatus::Skipped);
    let canceled = block("canceled", "Canceled Block", CalendarBlockStatus::Canceled);
    let on_hold = block("on-hold", "On Hold Block", CalendarBlockStatus::OnHold);

    let ics = generate_schedule_ics(&[planned, moved, skipped, canceled, on_hold]);
    assert!(ics.contains("Planned Block"));
    assert!(!ics.contains("Moved Block"));
    assert!(!ics.contains("Skipped Block"));
    assert!(!ics.contains("Canceled Block"));
    assert!(!ics.contains("On Hold Block"));
}

#[test]
fn ics_export_escapes_carriage_returns() {
    let mut block = block("escaped", "Title\r\nCRLF\rCR\nLF,semi;slash\\", CalendarBlockStatus::Planned);
    block.description = Some("Description\r\nCRLF\rCR\nLF".into());

    let ics = generate_schedule_ics(&[block]);
    let summary = ics.split("\r\n").find(|line| line.starts_with("SUMMARY:")).unwrap();
    let description = ics.split("\r\n").find(|line| line.starts_with("DESCRIPTION:")).unwrap();

    assert!(summary.contains("Title\\nCRLF\\nCR\\nLF\\,semi\\;slash\\\\"));
    assert!(description.contains("Description\\nCRLF\\nCR\\nLF"));
    assert!(!summary.contains('\r'));
    assert!(!description.contains('\r'));
}

#[test]
fn ics_calendar_frame_and_event_fields() {
    let ics = generate_schedule_ics(&[block("b1", "Focus", CalendarBlockStatus::Completed)]);
    assert!(ics.starts_with("BEGIN:VCALENDAR\r\n"));
    assert!(ics.ends_with("END:VCALENDAR\r\n"));
    assert!(ics.contains("UID:b1@openmgmt\r\n"));
    assert!(ics.contains("DTSTART:20260619T090000Z\r\n"));
    assert!(ics.contains("DTEND:20260619T100000Z\r\n"));
    assert!(ics.contains("STATUS:COMPLETED\r\n"));
    assert_eq!(ics_escape("a,b;c\\d\ne"), "a\\,b\\;c\\\\d\\ne");
}

#[test]
fn resize_bottom_extends_end_only() {
    let (start, end) = resize_block(at(17, 0), at(18, 0), BlockEdge::End, 60);
    assert_eq!(start, at(17, 0));
    assert_eq!(end, at(19, 0));
}

#[test]
fn resize_top_moves_start_earlier_only() {
    let (start, end) = resize_block(at(17, 0), at(19, 0), BlockEdge::Start, -60);
    assert_eq!(start, at(16, 0));
    assert_eq!(end, at(19, 0));
}

#[test]
fn resize_cannot_invert_or_go_below_minimum() {
    let (start, end) = resize_block(at(17, 0), at(19, 0), BlockEdge::End, -600);
    assert_eq!(start, at(17, 0));
    assert_eq!(end, at(17, 0) + MIN_BLOCK_MINUTES * NANOS_PER_MINUTE);
    let (start, end) = resize_block(at(17, 0), at(19, 0), BlockEdge::Start, 600);
    assert_eq!(end, at(19, 0));
    assert_eq!(start, at(19, 0) - MIN_BLOCK_MINUTES * NANOS_PER_MINUTE);
}

#[test]
fn resize_snaps_to_increment() {
    assert_eq!(snap_to_increment(20), 15);
    assert_eq!(snap_to_increment(23), 30);
    let (_, end) = resize_block(at(17, 0), at(18, 0), BlockEdge::End, 23);
    assert_eq!(end, at(18, 30));
}

#[test]
fn snapping_rounds_half_away_from_zero() {
    assert_eq!(snap_to_increment(0), 0);
    assert_eq!(snap_to_increment(7), 0);
    assert_eq!(snap_to_increment(8), 15);
    assert_eq!(snap_to_increment(-7), 0);
    assert_eq!(snap_to_increment(-8), -15);
    assert_eq!(snap_to_increment(-23), -30);
}

#[test]
fn move_preserves_duration_and_snaps() {
    let (start, end) = move_block(at(17, 0), at(18, 30), 23);
    assert_eq!(start, at(17, 30));
    assert_eq!(end, at(19, 0));
    assert_eq!((end - start) / NANOS_PER_MINUTE, 90);
}

#[test]
fn columns_pack_overlaps_and_reset_between_clusters() {
    let layout = layout_columns(&[(540, 660), (600, 720), (780, 840)]);
    assert_eq!(layout, vec![(0, 2), (1, 2), (0, 1)]);
}

#[test]
fn columns_reuse_freed_slots_and_keep_input_order() {
    // Given out of order: the layout answers in input order.
    let layout = layout_columns(&[(600, 720), (540, 660), (660, 700)]);
    assert_eq!(layout, vec![(1, 2), (0, 2), (0, 2)]);
    assert_eq!(layout_columns(&[]), Vec::<(usize, usize)>::new());
}

#[test]
fn overlapping_blocks_get_distinct_columns_of_one_width() {
    // A chain of blocks in one cluster, with a gap before a separate pair.
    let blocks = [(540, 600), (550, 700), (590, 620), (610, 650), (800, 900), (850, 860)];
    let layout = layout_columns(&blocks);
    assert_eq!(layout, vec![(0, 3), (1, 3), (2, 3), (0, 3), (0, 2), (1, 2)]);
    for i in 0..blocks.len() {
        for j in 0..blocks.len() {
            let (a, b) = (blocks[i], blocks[j]);
            if i != j && a.0 < b.1 && b.0 < a.1 {
                assert_ne!(layout[i].0, layout[j].0);
                assert_eq!(layout[i].1, layout[j].1);
            }
        }
        // Some instant has as many blocks running at once as the block's column count.
        let needed = blocks.iter().map(|&(t, _)| {
            (0..blocks.len())
                .filter(|&j| blocks[j].0 <= t && t < blocks[j].1 && layout[j].1 == layout[i].1)
                .count()
        });
        assert_eq!(needed.max(), Some(layout[i].1));
    }
}
