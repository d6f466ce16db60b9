use ultima::database::Database;
use ultima::database::StoreError;
use ultima::event::AccessRole;
use ultima::event::CalendarEvent;
use ultima::event::GcalCalendar;
use ultima::event::SourceType;

fn calendar(id: &str, name: &str, access: AccessRole) -> GcalCalendar {
    GcalCalendar {
        id: id.to_string(),
        name: name.to_string(),
        description: None,
        color: None,
        access,
        sync_enabled: true,
        etag: Some("tag".to_string()),
        last_sync_time: 1_700_000_000,
    }
}

fn event(calendar_id: &str, event_id: &str, title: &str, start: i64, end: i64, etag: &str) -> CalendarEvent {
    CalendarEvent {
        title: title.to_string(),
        description: None,
        location: None,
        start_time: start,
        end_time: end,
        etag: etag.to_string(),
        event_id: event_id.to_string(),
        calendar_id: calendar_id.to_string(),
        source_type: SourceType::GoogleCalendar,
        updated: false,
    }
}

#[test]
fn new_store_is_empty() {
    let db = Database::new();
    assert_eq!(db.calendar_count(), 0);
    assert_eq!(db.event_count(), 0);
}

#[test]
fn sync_calendar_inserts_row() {
    let mut db = Database::new();
    db.sync_calendar(calendar("cal-1", "Work", AccessRole::Owner)).unwrap();
    assert_eq!(db.calendar_count(), 1);
    let row = db.get_calendar(&"cal-1".to_string()).unwrap();
    assert_eq!(row.name, "Work");
    assert_eq!(row.access, AccessRole::Owner);
}

#[test]
fn sync_calendar_remote_wins_on_update() {
    let mut db = Database::new();
    db.sync_calendar(calendar("cal-1", "Work", AccessRole::Owner)).unwrap();
    db.sync_calendar(calendar("cal-1", "Work (renamed)", AccessRole::Reader)).unwrap();
    assert_eq!(db.calendar_count(), 1);
    let row = db.get_calendar(&"cal-1".to_string()).unwrap();
    assert_eq!(row.name, "Work (renamed)");
    assert_eq!(row.access, AccessRole::Reader);
}

#[test]
fn merge_calendar_twice_is_idempotent() {
    let mut db = Database::new();
    db.sync_calendar(calendar("cal-1", "Work", AccessRole::Owner)).unwrap();
    db.sync_calendar(calendar("cal-1", "Work", AccessRole::Owner)).unwrap();
    assert_eq!(db.calendar_count(), 1);
    let row = db.get_calendar(&"cal-1".to_string()).unwrap();
    assert_eq!(row.name, "Work");
}

#[test]
fn sync_event_inserts_row() {
    let mut db = Database::new();
    db.sync_calendar(calendar("cal-1", "Work", AccessRole::Owner)).unwrap();
    db.sync_event(event("cal-1", "ev-1", "Standup", 100, 200, "e1")).unwrap();
    assert_eq!(db.event_count(), 1);
    let row = db.get_event(&"cal-1".to_string(), &"ev-1".to_string()).unwrap();
    assert_eq!(row.title, "Standup");
    assert!(!row.updated);
}

#[test]
fn sync_event_remote_overwrites_clean_row() {
    let mut db = Database::new();
    db.sync_calendar(calendar("cal-1", "Work", AccessRole::Owner)).unwrap();
    db.sync_event(event("cal-1", "ev-1", "Standup", 100, 200, "e1")).unwrap();
    db.sync_event(event("cal-1", "ev-1", "Standup (moved)", 300, 400, "e2")).unwrap();
    assert_eq!(db.event_count(), 1);
    let row = db.get_event(&"cal-1".to_string(), &"ev-1".to_string()).unwrap();
    assert_eq!(row.title, "Standup (moved)");
    assert_eq!(row.start_time, 300);
    assert_eq!(row.end_time, 400);
    assert_eq!(row.etag, "e2");
    assert!(!row.updated);
}

#[test]
fn merge_event_twice_is_idempotent() {
    let mut db = Database::new();
    db.sync_calendar(calendar("cal-1", "Work", AccessRole::Owner)).unwrap();
    db.sync_event(event("cal-1", "ev-1", "Standup", 100, 200, "e1")).unwrap();
    db.sync_event(event("cal-1", "ev-1", "Standup", 100, 200, "e1")).unwrap();
    assert_eq!(db.event_count(), 1);
    let row = db.get_event(&"cal-1".to_string(), &"ev-1".to_string()).unwrap();
    assert_eq!(row.title, "Standup");
    assert_eq!(row.etag, "e1");
}

#[test]
fn local_edit_survives_remote_merge() {
    let mut db = Database::new();
    db.sync_calendar(calendar("cal-1", "Work", AccessRole::Owner)).unwrap();
    let mut edited = event("cal-1", "ev-1", "Standup (local)", 150, 250, "e1");
    edited.updated = true;
    db.restore_event(edited).unwrap();
    db.sync_event(event("cal-1", "ev-1", "Standup (remote)", 500, 600, "e9")).unwrap();
    assert_eq!(db.event_count(), 1);
    let row = db.get_event(&"cal-1".to_string(), &"ev-1".to_string()).unwrap();
    assert_eq!(row.title, "Standup (local)");
    assert_eq!(row.start_time, 150);
    assert_eq!(row.end_time, 250);
    assert!(row.updated);
    assert_eq!(row.etag, "e9");
}

#[test]
fn event_without_calendar_is_foreign_key_violation() {
    let mut db = Database::new();
    let r = db.sync_event(event("cal-none", "ev-1", "Standup", 100, 200, "e1"));
    assert_eq!(r.unwrap_err(), StoreError::ForeignKeyViolation);
    assert_eq!(db.event_count(), 0);
    assert!(db.get_event(&"cal-none".to_string(), &"ev-1".to_string()).is_none());
}

#[test]
fn restore_event_keeps_dirty_flag() {
    let mut db = Database::new();
    db.sync_calendar(calendar("cal-1", "Work", AccessRole::Owner)).unwrap();
    let mut edited = event("cal-1", "ev-1", "Standup", 100, 200, "e1");
    edited.updated = true;
    db.restore_event(edited).unwrap();
    let row = db.get_event(&"cal-1".to_string(), &"ev-1".to_string()).unwrap();
    assert!(row.updated);
}

#[test]
fn restore_event_requires_calendar() {
    let mut db = Database::new();
    let r = db.restore_event(event("cal-none", "ev-1", "Standup", 100, 200, "e1"));
    assert_eq!(r.unwrap_err(), StoreError::ForeignKeyViolation);
}

#[test]
fn sample_scenario_merges_once() {
    let mut db = Database::new();
    db.sync_calendar(calendar("cal-1", "Work", AccessRole::Owner)).unwrap();
    db.sync_event(event("cal-1", "ev-1", "Standup", 9 * 3600, 9 * 3600 + 900, "e1")).unwrap();
    assert_eq!(db.calendar_count(), 1);
    assert_eq!(db.event_count(), 1);
    let row = db.get_event(&"cal-1".to_string(), &"ev-1".to_string()).unwrap();
    assert!(!row.updated);
    db.sync_calendar(calendar("cal-1", "Work", AccessRole::Owner)).unwrap();
    db.sync_event(event("cal-1", "ev-1", "Standup", 9 * 3600, 9 * 3600 + 900, "e1")).unwrap();
    assert_eq!(db.calendar_count(), 1);
    assert_eq!(db.event_count(), 1);
}

#[test]
fn sync_enabled_ids_lists_only_enabled() {
    let mut db = Database::new();
    db.sync_calendar(calendar("cal-1", "Work", AccessRole::Owner)).unwrap();
    let mut off = calendar("cal-2", "Archive", AccessRole::Reader);
    off.sync_enabled = false;
    db.sync_calendar(off).unwrap();
    let ids = db.sync_enabled_calendar_ids();
    assert_eq!(ids.len(), 1);
    assert_eq!(ids[0], "cal-1");
}

#[test]
fn row_walks_cover_the_store() {
    let mut db = Database::new();
    db.sync_calendar(calendar("cal-1", "Work", AccessRole::Owner)).unwrap();
    db.sync_calendar(calendar("cal-2", "Home", AccessRole::Writer)).unwrap();
    db.sync_event(event("cal-1", "ev-1", "Standup", 100, 200, "e1")).unwrap();
    assert_eq!(db.calendars().len(), 2);
    assert_eq!(db.events().len(), 1);
    assert_eq!(db.events()[0].event_id, "ev-1");
}
