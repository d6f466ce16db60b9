use ultima::event::access_role_from_str;
use ultima::event::map_calendar;
use ultima::event::AccessRole;
use ultima::event::CalendarEvent;
use ultima::event::FieldName;
use ultima::event::GcalCalendar;
use ultima::event::MappingError;
use ultima::event::RawCalendarEntry;
use ultima::event::RawEventEntry;
use ultima::event::SourceType;

fn raw_calendar(id: &str, name: &str, role: &str) -> RawCalendarEntry {
    RawCalendarEntry {
        id: Some(id.to_string()),
        summary: Some(name.to_string()),
        description: Some("desc".to_string()),
        color: Some("#aabbcc".to_string()),
        access_role: Some(role.to_string()),
        etag: Some("etag-1".to_string()),
    }
}

fn raw_event(id: &str, title: &str, start: i64, end: i64) -> RawEventEntry {
    RawEventEntry {
        id: Some(id.to_string()),
        summary: Some(title.to_string()),
        description: None,
        location: Some("room 1".to_string()),
        start_time: Some(start),
        end_time: Some(end),
        etag: Some("e1".to_string()),
    }
}

#[test]
fn map_calendar_full_entry() {
    let c = map_calendar(raw_calendar("cal-1", "Work", "owner"), 1_700_000_000).unwrap();
    assert_eq!(c.id, "cal-1");
    assert_eq!(c.name, "Work");
    assert_eq!(c.description.as_deref(), Some("desc"));
    assert_eq!(c.color.as_deref(), Some("#aabbcc"));
    assert_eq!(c.access, AccessRole::Owner);
    assert!(c.sync_enabled);
    assert_eq!(c.etag.as_deref(), Some("etag-1"));
    assert_eq!(c.last_sync_time, 1_700_000_000);
}

#[test]
fn map_calendar_missing_id() {
    let mut raw = raw_calendar("cal-1", "Work", "owner");
    raw.id = None;
    let r = map_calendar(raw, 0);
    assert_eq!(r.unwrap_err(), MappingError::MissingField(FieldName::Id));
}

#[test]
fn map_calendar_missing_name() {
    let mut raw = raw_calendar("cal-1", "Work", "owner");
    raw.summary = None;
    let r = map_calendar(raw, 0);
    assert_eq!(r.unwrap_err(), MappingError::MissingField(FieldName::Name));
}

#[test]
fn map_calendar_missing_access_role() {
    let mut raw = raw_calendar("cal-1", "Work", "owner");
    raw.access_role = None;
    let r = map_calendar(raw, 0);
    assert_eq!(r.unwrap_err(), MappingError::MissingField(FieldName::Access));
}

#[test]
fn map_calendar_unknown_access_role() {
    let r = map_calendar(raw_calendar("cal-1", "Work", "editor"), 0);
    assert_eq!(r.unwrap_err(), MappingError::UnknownEnum);
}

#[test]
fn access_role_table_is_exact() {
    assert_eq!(access_role_from_str(&"owner".to_string()), Some(AccessRole::Owner));
    assert_eq!(access_role_from_str(&"writer".to_string()), Some(AccessRole::Writer));
    assert_eq!(access_role_from_str(&"reader".to_string()), Some(AccessRole::Reader));
    assert_eq!(
        access_role_from_str(&"freeBusyReader".to_string()),
        Some(AccessRole::FreeBusyReader)
    );
    assert_eq!(access_role_from_str(&"OWNER".to_string()), None);
    assert_eq!(access_role_from_str(&"".to_string()), None);
}

#[test]
fn from_calendar_list_entry_stamps_clock() {
    let c = GcalCalendar::from_calendar_list_entry(raw_calendar("cal-1", "Work", "reader")).unwrap();
    assert_eq!(c.id, "cal-1");
    assert_eq!(c.name, "Work");
    assert_eq!(c.access, AccessRole::Reader);
    assert!(c.sync_enabled);
}

#[test]
fn from_calendar_list_entry_rejects_bad_role() {
    let r = GcalCalendar::from_calendar_list_entry(raw_calendar("cal-1", "Work", "boss"));
    assert_eq!(r.unwrap_err(), MappingError::UnknownEnum);
}

#[test]
fn map_event_full_entry() {
    let e = CalendarEvent::from_gcal_api(raw_event("ev-1", "Standup", 100, 200), "cal-1".to_string())
        .unwrap();
    assert_eq!(e.event_id, "ev-1");
    assert_eq!(e.calendar_id, "cal-1");
    assert_eq!(e.title, "Standup");
    assert_eq!(e.location.as_deref(), Some("room 1"));
    assert_eq!(e.start_time, 100);
    assert_eq!(e.end_time, 200);
    assert_eq!(e.etag, "e1");
    assert_eq!(e.source_type, SourceType::GoogleCalendar);
    assert!(!e.updated);
}

#[test]
fn map_event_missing_title() {
    let mut raw = raw_event("ev-1", "Standup", 100, 200);
    raw.summary = None;
    let r = CalendarEvent::from_gcal_api(raw, "cal-1".to_string());
    assert_eq!(r.unwrap_err(), MappingError::MissingField(FieldName::Title));
}

#[test]
fn map_event_missing_start_time() {
    let mut raw = raw_event("ev-1", "Standup", 100, 200);
    raw.start_time = None;
    let r = CalendarEvent::from_gcal_api(raw, "cal-1".to_string());
    assert_eq!(r.unwrap_err(), MappingError::MissingField(FieldName::StartTime));
}

#[test]
fn map_event_missing_end_time() {
    let mut raw = raw_event("ev-1", "Standup", 100, 200);
    raw.end_time = None;
    let r = CalendarEvent::from_gcal_api(raw, "cal-1".to_string());
    assert_eq!(r.unwrap_err(), MappingError::MissingField(FieldName::EndTime));
}

#[test]
fn map_event_missing_etag() {
    let mut raw = raw_event("ev-1", "Standup", 100, 200);
    raw.etag = None;
    let r = CalendarEvent::from_gcal_api(raw, "cal-1".to_string());
    assert_eq!(r.unwrap_err(), MappingError::MissingField(FieldName::Etag));
}

#[test]
fn map_event_missing_id() {
    let mut raw = raw_event("ev-1", "Standup", 100, 200);
    raw.id = None;
    let r = CalendarEvent::from_gcal_api(raw, "cal-1".to_string());
    assert_eq!(r.unwrap_err(), MappingError::MissingField(FieldName::Id));
}

#[test]
fn map_event_start_after_end() {
    let r = CalendarEvent::from_gcal_api(raw_event("ev-1", "Standup", 300, 200), "cal-1".to_string());
    assert_eq!(r.unwrap_err(), MappingError::InvalidTimeRange);
}

#[test]
fn local_edit_raises_dirty_flag() {
    let mut e = CalendarEvent::from_gcal_api(raw_event("ev-1", "Standup", 100, 200), "cal-1".to_string())
        .unwrap();
    e.update("Retro".to_string(), Some("notes".to_string()), None, 150, 250);
    assert_eq!(e.title, "Retro");
    assert_eq!(e.description.as_deref(), Some("notes"));
    assert_eq!(e.location, None);
    assert_eq!(e.start_time, 150);
    assert_eq!(e.end_time, 250);
    assert!(e.updated);
    assert_eq!(e.etag, "e1");
}
