use ultima::database::Database;
use ultima::database::StoreError;
use ultima::engine::process_calendar_page;
use ultima::engine::process_event_page;
use ultima::engine::run_calendar_drain;
use ultima::engine::run_event_drain;
use ultima::engine::CalendarDrain;
use ultima::engine::DrainFailure;
use ultima::engine::DrainPhase;
use ultima::engine::EventDrain;
use ultima::engine::FetchOutcome;
use ultima::engine::RemotePage;
use ultima::event::AccessRole;
use ultima::event::GcalCalendar;
use ultima::event::RawCalendarEntry;
use ultima::event::RawEventEntry;

const NOW: i64 = 1_700_000_000;

fn raw_calendar(id: &str, role: &str) -> RawCalendarEntry {
    RawCalendarEntry {
        id: Some(id.to_string()),
        summary: Some(format!("name of {}", id)),
        description: None,
        color: None,
        access_role: Some(role.to_string()),
        etag: Some("tag".to_string()),
    }
}

fn raw_event(id: &str, start: i64, end: i64) -> RawEventEntry {
    RawEventEntry {
        id: Some(id.to_string()),
        summary: Some(format!("title of {}", id)),
        description: None,
        location: None,
        start_time: Some(start),
        end_time: Some(end),
        etag: Some("e1".to_string()),
    }
}

fn seeded_store() -> Database {
    let mut db = Database::new();
    db.sync_calendar(GcalCalendar {
        id: "cal-1".to_string(),
        name: "Work".to_string(),
        description: None,
        color: None,
        access: AccessRole::Owner,
        sync_enabled: true,
        etag: None,
        last_sync_time: NOW,
    })
    .unwrap();
    db
}

fn cal_page(
    records: Vec<RawCalendarEntry>,
    next_page: Option<&str>,
    next_sync: Option<&str>,
) -> FetchOutcome<RawCalendarEntry> {
    FetchOutcome::Page(RemotePage {
        records,
        next_page_cursor: next_page.map(|s| s.to_string()),
        next_sync_cursor: next_sync.map(|s| s.to_string()),
    })
}

fn event_page(
    records: Vec<RawEventEntry>,
    next_page: Option<&str>,
    next_sync: Option<&str>,
) -> FetchOutcome<RawEventEntry> {
    FetchOutcome::Page(RemotePage {
        records,
        next_page_cursor: next_page.map(|s| s.to_string()),
        next_sync_cursor: next_sync.map(|s| s.to_string()),
    })
}

#[test]
fn calendar_page_skips_bad_records() {
    let mut db = Database::new();
    let records = vec![
        raw_calendar("cal-1", "owner"),
        raw_calendar("cal-2", "editor"),
        raw_calendar("cal-3", "reader"),
    ];
    let skipped = process_calendar_page(&mut db, records, NOW);
    assert_eq!(skipped, 1);
    assert_eq!(db.calendar_count(), 2);
    assert!(db.get_calendar(&"cal-1".to_string()).is_some());
    assert!(db.get_calendar(&"cal-2".to_string()).is_none());
    assert!(db.get_calendar(&"cal-3".to_string()).is_some());
}

#[test]
fn event_page_merges_into_calendar() {
    let mut db = seeded_store();
    let records = vec![raw_event("ev-1", 100, 200), raw_event("ev-2", 300, 400)];
    let skipped = process_event_page(&mut db, records, &"cal-1".to_string()).unwrap();
    assert_eq!(skipped, 0);
    assert_eq!(db.event_count(), 2);
}

#[test]
fn event_page_counts_bad_records() {
    let mut db = seeded_store();
    let records = vec![raw_event("ev-1", 500, 200), raw_event("ev-2", 300, 400)];
    let skipped = process_event_page(&mut db, records, &"cal-1".to_string()).unwrap();
    assert_eq!(skipped, 1);
    assert_eq!(db.event_count(), 1);
}

#[test]
fn event_page_without_calendar_is_fatal() {
    let mut db = Database::new();
    let records = vec![raw_event("ev-1", 100, 200)];
    let r = process_event_page(&mut db, records, &"cal-none".to_string());
    assert_eq!(r.unwrap_err(), StoreError::ForeignKeyViolation);
    assert_eq!(db.event_count(), 0);
}

#[test]
fn full_drain_of_three_pages() {
    let mut db = Database::new();
    let mut pages = Vec::new();
    for p in 0..3 {
        let mut records = Vec::new();
        for r in 0..10 {
            records.push(raw_calendar(&format!("cal-{}", 10 * p + r), "owner"));
        }
        if p < 2 {
            pages.push(cal_page(records, Some(&format!("page-{}", p + 1)), None));
        } else {
            pages.push(cal_page(records, None, Some("sync-final")));
        }
    }
    let drain = run_calendar_drain(&mut db, None, pages, NOW);
    assert_eq!(drain.phase(), DrainPhase::Completed);
    assert_eq!(db.calendar_count(), 30);
    assert_eq!(drain.stored_cursor().as_deref(), Some("sync-final"));
    assert_eq!(drain.skipped(), 0);
}

#[test]
fn completed_drain_without_sync_cursor_clears_it() {
    let mut db = Database::new();
    let pages = vec![cal_page(vec![raw_calendar("cal-1", "owner")], None, None)];
    let drain = run_calendar_drain(&mut db, Some("old-cursor".to_string()), pages, NOW);
    assert_eq!(drain.phase(), DrainPhase::Completed);
    assert_eq!(*drain.stored_cursor(), None);
}

#[test]
fn invalid_cursor_clears_and_retries_once() {
    let mut db = Database::new();
    let mut drain = CalendarDrain::new(Some("stale".to_string()));
    assert_eq!(drain.sync_cursor().as_deref(), Some("stale"));
    drain.handle(&mut db, FetchOutcome::InvalidCursor, NOW);
    assert_eq!(drain.phase(), DrainPhase::Paging);
    assert_eq!(*drain.sync_cursor(), None);
    assert_eq!(*drain.page_cursor(), None);
    assert_eq!(*drain.stored_cursor(), None);
    drain.handle(
        &mut db,
        cal_page(vec![raw_calendar("cal-1", "owner")], None, Some("sync-2")),
        NOW,
    );
    assert_eq!(drain.phase(), DrainPhase::Completed);
    assert_eq!(drain.stored_cursor().as_deref(), Some("sync-2"));
    assert_eq!(db.calendar_count(), 1);
}

#[test]
fn second_invalid_cursor_fails_the_drain() {
    let mut db = Database::new();
    let responses = vec![FetchOutcome::InvalidCursor, FetchOutcome::InvalidCursor];
    let drain = run_calendar_drain(&mut db, Some("stale".to_string()), responses, NOW);
    assert_eq!(drain.phase(), DrainPhase::Failed(DrainFailure::InvalidCursor));
    assert_eq!(*drain.stored_cursor(), None);
    assert_eq!(db.calendar_count(), 0);
}

#[test]
fn remote_unavailable_keeps_stored_cursor() {
    let mut db = Database::new();
    let responses = vec![FetchOutcome::RemoteUnavailable];
    let drain = run_calendar_drain(&mut db, Some("keep-me".to_string()), responses, NOW);
    assert_eq!(drain.phase(), DrainPhase::Failed(DrainFailure::RemoteUnavailable));
    assert_eq!(drain.stored_cursor().as_deref(), Some("keep-me"));
}

#[test]
fn drain_still_paging_when_responses_run_out() {
    let mut db = Database::new();
    let pages = vec![cal_page(vec![raw_calendar("cal-1", "owner")], Some("page-2"), None)];
    let drain = run_calendar_drain(&mut db, None, pages, NOW);
    assert_eq!(drain.phase(), DrainPhase::Paging);
    assert_eq!(drain.page_cursor().as_deref(), Some("page-2"));
    assert_eq!(db.calendar_count(), 1);
}

#[test]
fn drain_skip_counts_accumulate_across_pages() {
    let mut db = Database::new();
    let pages = vec![
        cal_page(
            vec![raw_calendar("cal-1", "owner"), raw_calendar("cal-2", "editor")],
            Some("page-2"),
            None,
        ),
        cal_page(
            vec![raw_calendar("cal-3", "boss"), raw_calendar("cal-4", "reader")],
            None,
            Some("sync"),
        ),
    ];
    let drain = run_calendar_drain(&mut db, None, pages, NOW);
    assert_eq!(drain.phase(), DrainPhase::Completed);
    assert_eq!(drain.skipped(), 2);
    assert_eq!(db.calendar_count(), 2);
}

#[test]
fn event_drain_completes_over_two_pages() {
    let mut db = seeded_store();
    let responses = vec![
        event_page(vec![raw_event("ev-1", 100, 200)], Some("page-2"), None),
        event_page(vec![raw_event("ev-2", 300, 400)], None, Some("ev-sync")),
    ];
    let drain = run_event_drain(&mut db, "cal-1".to_string(), None, responses);
    assert_eq!(drain.phase(), DrainPhase::Completed);
    assert_eq!(drain.stored_cursor().as_deref(), Some("ev-sync"));
    assert_eq!(db.event_count(), 2);
}

#[test]
fn event_drain_fails_on_missing_calendar() {
    let mut db = Database::new();
    let responses = vec![event_page(vec![raw_event("ev-1", 100, 200)], None, Some("s"))];
    let drain = run_event_drain(&mut db, "cal-none".to_string(), None, responses);
    assert_eq!(
        drain.phase(),
        DrainPhase::Failed(DrainFailure::Store(StoreError::ForeignKeyViolation))
    );
    assert_eq!(db.event_count(), 0);
}

#[test]
fn event_drain_cursor_fallback() {
    let mut db = seeded_store();
    let responses = vec![
        FetchOutcome::InvalidCursor,
        event_page(vec![raw_event("ev-1", 100, 200)], None, Some("fresh")),
    ];
    let drain = run_event_drain(&mut db, "cal-1".to_string(), Some("stale".to_string()), responses);
    assert_eq!(drain.phase(), DrainPhase::Completed);
    assert_eq!(drain.stored_cursor().as_deref(), Some("fresh"));
    assert_eq!(db.event_count(), 1);
}

#[test]
fn event_drain_stepper_reports_its_calendar() {
    let drain = EventDrain::new("cal-1".to_string(), Some("cursor".to_string()));
    assert_eq!(drain.calendar_id(), "cal-1");
    assert_eq!(drain.sync_cursor().as_deref(), Some("cursor"));
    assert_eq!(drain.phase(), DrainPhase::Paging);
    assert_eq!(drain.skipped(), 0);
}
