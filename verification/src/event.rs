//! Domain entities of the mirror (calendars and events), the raw shape in
//! which the remote listing reports them, and the fallible mappers from the
//! raw shape into the entities.

use vstd::prelude::*;

verus! {

/// The caller's permission level on a calendar, as reported by the provider.
#[derive(Clone, Copy, PartialEq, Eq, Structural, Debug)]
pub enum AccessRole {
    Owner,
    Writer,
    Reader,
    FreeBusyReader,
}

/// Provenance of an event record.
#[derive(Clone, Copy, PartialEq, Eq, Structural, Debug)]
pub enum SourceType {
    GoogleCalendar,
}

/// A required field that a raw remote record failed to carry.
#[derive(Clone, Copy, PartialEq, Eq, Structural, Debug)]
pub enum FieldName {
    Id,
    Name,
    Access,
    Title,
    StartTime,
    EndTime,
    Etag,
}

/// Why a raw remote record could not be mapped into an entity.
/// Such records are skipped and counted; they never abort a page.
#[derive(Clone, Copy, PartialEq, Eq, Structural, Debug)]
pub enum MappingError {
    /// A required field was absent from the raw record.
    MissingField(FieldName),
    /// The access-role string is not one of the four recognized values.
    UnknownEnum,
    /// The event's start instant lies after its end instant.
    InvalidTimeRange,
}

/// A calendar entry as the remote listing reports it: every field optional,
/// strings loosely typed.
#[derive(Debug, Clone)]
pub struct RawCalendarEntry {
    pub id: Option<String>,
    pub summary: Option<String>,
    pub description: Option<String>,
    pub color: Option<String>,
    pub access_role: Option<String>,
    pub etag: Option<String>,
}

/// An event entry as the remote listing reports it. Instants are Unix
/// seconds, already decoded from the provider's textual representation.
#[derive(Debug, Clone)]
pub struct RawEventEntry {
    pub id: Option<String>,
    pub summary: Option<String>,
    pub description: Option<String>,
    pub location: Option<String>,
    pub start_time: Option<i64>,
    pub end_time: Option<i64>,
    pub etag: Option<String>,
}

/// A mirrored calendar row.
#[derive(Debug, Clone)]
pub struct GcalCalendar {
    /// Provider-assigned stable identifier; primary key.
    pub id: String,
    pub name: String,
    pub description: Option<String>,
    pub color: Option<String>,
    pub access: AccessRole,
    /// Whether this calendar's events are drained; true on first sight.
    pub sync_enabled: bool,
    pub etag: Option<String>,
    /// Unix seconds of the most recent successful merge.
    pub last_sync_time: i64,
}

/// A mirrored event row.
#[derive(Debug, Clone)]
pub struct CalendarEvent {
    pub title: String,
    pub description: Option<String>,
    pub location: Option<String>,
    /// Unix seconds; never after `end_time`.
    pub start_time: i64,
    pub end_time: i64,
    /// Provider version tag for this event revision.
    pub etag: String,
    /// Provider-assigned identifier, unique within its calendar.
    pub event_id: String,
    /// Owning calendar's id; must reference an existing calendar row.
    pub calendar_id: String,
    pub source_type: SourceType,
    /// Local dirty flag: a local edit has not yet been pushed upstream.
    pub updated: bool,
}

/// Mathematical value of a `RawCalendarEntry`.
pub ghost struct RawCalendarEntryModel {
    pub id: Option<Seq<char>>,
    pub summary: Option<Seq<char>>,
    pub description: Option<Seq<char>>,
    pub color: Option<Seq<char>>,
    pub access_role: Option<Seq<char>>,
    pub etag: Option<Seq<char>>,
}

/// Mathematical value of a `RawEventEntry`.
pub ghost struct RawEventEntryModel {
    pub id: Option<Seq<char>>,
    pub summary: Option<Seq<char>>,
    pub description: Option<Seq<char>>,
    pub location: Option<Seq<char>>,
    pub start_time: Option<i64>,
    pub end_time: Option<i64>,
    pub etag: Option<Seq<char>>,
}

/// Mathematical value of a `GcalCalendar`.
pub ghost struct CalendarModel {
    pub id: Seq<char>,
    pub name: Seq<char>,
    pub description: Option<Seq<char>>,
    pub color: Option<Seq<char>>,
    pub access: AccessRole,
    pub sync_enabled: bool,
    pub etag: Option<Seq<char>>,
    pub last_sync_time: i64,
}

/// Mathematical value of a `CalendarEvent`.
pub ghost struct EventModel {
    pub title: Seq<char>,
    pub description: Option<Seq<char>>,
    pub location: Option<Seq<char>>,
    pub start_time: i64,
    pub end_time: i64,
    pub etag: Seq<char>,
    pub event_id: Seq<char>,
    pub calendar_id: Seq<char>,
    pub source_type: SourceType,
    pub updated: bool,
}

pub open spec fn opt_str_view(s: Option<String>) -> Option<Seq<char>> {
    match s {
        Some(v) => Some(v@),
        None => None,
    }
}

impl View for RawCalendarEntry {
    type V = RawCalendarEntryModel;

    open spec fn view(&self) -> RawCalendarEntryModel {
        RawCalendarEntryModel {
            id: opt_str_view(self.id),
            summary: opt_str_view(self.summary),
            description: opt_str_view(self.description),
            color: opt_str_view(self.color),
            access_role: opt_str_view(self.access_role),
            etag: opt_str_view(self.etag),
        }
    }
}

impl View for RawEventEntry {
    type V = RawEventEntryModel;

    open spec fn view(&self) -> RawEventEntryModel {
        RawEventEntryModel {
            id: opt_str_view(self.id),
            summary: opt_str_view(self.summary),
            description: opt_str_view(self.description),
            location: opt_str_view(self.location),
            start_time: self.start_time,
            end_time: self.end_time,
            etag: opt_str_view(self.etag),
        }
    }
}

impl View for GcalCalendar {
    type V = CalendarModel;

    open spec fn view(&self) -> CalendarModel {
        CalendarModel {
            id: self.id@,
            name: self.name@,
            description: opt_str_view(self.description),
            color: opt_str_view(self.color),
            access: self.access,
            sync_enabled: self.sync_enabled,
            etag: opt_str_view(self.etag),
            last_sync_time: self.last_sync_time,
        }
    }
}

impl View for CalendarEvent {
    type V = EventModel;

    open spec fn view(&self) -> EventModel {
        EventModel {
            title: self.title@,
            description: opt_str_view(self.description),
            location: opt_str_view(self.location),
            start_time: self.start_time,
            end_time: self.end_time,
            etag: self.etag@,
            event_id: self.event_id@,
            calendar_id: self.calendar_id@,
            source_type: self.source_type,
            updated: self.updated,
        }
    }
}

impl EventModel {
    /// An event is well formed when it does not end before it starts.
    pub open spec fn wf(self) -> bool {
        self.start_time <= self.end_time
    }
}

/// The exhaustive string-to-variant table for access roles; any other
/// string is unrecognized.
pub open spec fn spec_access_role(s: Seq<char>) -> Option<AccessRole> {
    if s == "owner"@ {
        Some(AccessRole::Owner)
    } else if s == "writer"@ {
        Some(AccessRole::Writer)
    } else if s == "reader"@ {
        Some(AccessRole::Reader)
    } else if s == "freeBusyReader"@ {
        Some(AccessRole::FreeBusyReader)
    } else {
        None
    }
}

/// Decode an access-role string by the table `spec_access_role`.
pub fn access_role_from_str(s: &String) -> (r: Option<AccessRole>)
    ensures
        r == spec_access_role(s@),
{
    if *s == String::from_str("owner") {
        Some(AccessRole::Owner)
    } else if *s == String::from_str("writer") {
        Some(AccessRole::Writer)
    } else if *s == String::from_str("reader") {
        Some(AccessRole::Reader)
    } else if *s == String::from_str("freeBusyReader") {
        Some(AccessRole::FreeBusyReader)
    } else {
        None
    }
}

/// What mapping a raw calendar entry yields: the entry is rejected when a
/// required field (id, name, access role) is absent or the access-role
/// string is unrecognized; otherwise a calendar with `sync_enabled` true
/// and `last_sync_time` stamped `now`.
pub open spec fn spec_map_calendar(e: RawCalendarEntryModel, now: i64) -> Result<
    CalendarModel,
    MappingError,
> {
    if e.id is None {
        Err(MappingError::MissingField(FieldName::Id))
    } else if e.summary is None {
        Err(MappingError::MissingField(FieldName::Name))
    } else if e.access_role is None {
        Err(MappingError::MissingField(FieldName::Access))
    } else if spec_access_role(e.access_role->0) is None {
        Err(MappingError::UnknownEnum)
    } else {
        Ok(
            CalendarModel {
                id: e.id->0,
                name: e.summary->0,
                description: e.description,
                color: e.color,
                access: spec_access_role(e.access_role->0)->0,
                sync_enabled: true,
                etag: e.etag,
                last_sync_time: now,
            },
        )
    }
}

/// What mapping a raw event entry yields: the entry is rejected when a
/// required field (title, start, end, etag, id) is absent or its start
/// instant lies after its end instant; otherwise an event of the given
/// calendar with `updated` false.
pub open spec fn spec_map_event(e: RawEventEntryModel, calendar_id: Seq<char>) -> Result<
    EventModel,
    MappingError,
> {
    if e.summary is None {
        Err(MappingError::MissingField(FieldName::Title))
    } else if e.start_time is None {
        Err(MappingError::MissingField(FieldName::StartTime))
    } else if e.end_time is None {
        Err(MappingError::MissingField(FieldName::EndTime))
    } else if e.etag is None {
        Err(MappingError::MissingField(FieldName::Etag))
    } else if e.id is None {
        Err(MappingError::MissingField(FieldName::Id))
    } else if !(e.start_time->0 <= e.end_time->0) {
        Err(MappingError::InvalidTimeRange)
    } else {
        Ok(
            EventModel {
                title: e.summary->0,
                description: e.description,
                location: e.location,
                start_time: e.start_time->0,
                end_time: e.end_time->0,
                etag: e.etag->0,
                event_id: e.id->0,
                calendar_id: calendar_id,
                source_type: SourceType::GoogleCalendar,
                updated: false,
            },
        )
    }
}

pub open spec fn cal_result_model(r: Result<GcalCalendar, MappingError>) -> Result<
    CalendarModel,
    MappingError,
> {
    match r {
        Ok(c) => Ok(c@),
        Err(e) => Err(e),
    }
}

pub open spec fn event_result_model(r: Result<CalendarEvent, MappingError>) -> Result<
    EventModel,
    MappingError,
> {
    match r {
        Ok(e) => Ok(e@),
        Err(e) => Err(e),
    }
}

/// Map a raw calendar entry into a calendar row, stamping `now` as the
/// merge time.
pub fn map_calendar(entry: RawCalendarEntry, now: i64) -> (r: Result<GcalCalendar, MappingError>)
    ensures
        cal_result_model(r) == spec_map_calendar(entry@, now),
{
    let RawCalendarEntry { id, summary, description, color, access_role, etag } = entry;
    let id = match id {
        Some(v) => v,
        None => {
            return Err(MappingError::MissingField(FieldName::Id));
        },
    };
    let name = match summary {
        Some(v) => v,
        None => {
            return Err(MappingError::MissingField(FieldName::Name));
        },
    };
    let role = match access_role {
        Some(v) => v,
        None => {
            return Err(MappingError::MissingField(FieldName::Access));
        },
    };
    let access = match access_role_from_str(&role) {
        Some(a) => a,
        None => {
            return Err(MappingError::UnknownEnum);
        },
    };
    Ok(
        GcalCalendar {
            id,
            name,
            description,
            color,
            access,
            sync_enabled: true,
            etag,
            last_sync_time: now,
        },
    )
}

impl GcalCalendar {
    /// Map a raw calendar entry, reading the merge time from the system
    /// clock; apart from `last_sync_time` the result is that of
    /// `spec_map_calendar`.
    pub fn from_calendar_list_entry(entry: RawCalendarEntry) -> (r: Result<
        GcalCalendar,
        MappingError,
    >)
        ensures
            (r matches Ok(c) ==> Ok::<CalendarModel, MappingError>(c@) == spec_map_calendar(
                entry@,
                c@.last_sync_time,
            )),
            (r matches Err(e) ==> Err::<CalendarModel, MappingError>(e) == spec_map_calendar(
                entry@,
                0,
            )),
    {
        let now = crate::clock::now_timestamp();
        map_calendar(entry, now)
    }
}

impl CalendarEvent {
    /// Map a raw event entry of the given calendar into an event row.
    pub fn from_gcal_api(event: RawEventEntry, calendar_id: String) -> (r: Result<
        CalendarEvent,
        MappingError,
    >)
        ensures
            event_result_model(r) == spec_map_event(event@, calendar_id@),
            (r matches Ok(e) ==> e@.wf()),
    {
        let RawEventEntry { id, summary, description, location, start_time, end_time, etag } =
            event;
        let title = match summary {
            Some(v) => v,
            None => {
                return Err(MappingError::MissingField(FieldName::Title));
            },
        };
        let start_time = match start_time {
            Some(v) => v,
            None => {
                return Err(MappingError::MissingField(FieldName::StartTime));
            },
        };
        let end_time = match end_time {
            Some(v) => v,
            None => {
                return Err(MappingError::MissingField(FieldName::EndTime));
            },
        };
        let etag = match etag {
            Some(v) => v,
            None => {
                return Err(MappingError::MissingField(FieldName::Etag));
            },
        };
        let event_id = match id {
            Some(v) => v,
            None => {
                return Err(MappingError::MissingField(FieldName::Id));
            },
        };
        if !(start_time <= end_time) {
            return Err(MappingError::InvalidTimeRange);
        }
        Ok(
            CalendarEvent {
                title,
                description,
                location,
                start_time,
                end_time,
                etag,
                event_id,
                calendar_id,
                source_type: SourceType::GoogleCalendar,
                updated: false,
            },
        )
    }

    /// Apply a local edit: overwrite the mutable fields and raise the
    /// dirty flag, so that the edit survives later remote merges until a
    /// push reconciles it.
    pub fn update(
        &mut self,
        title: String,
        description: Option<String>,
        location: Option<String>,
        start_time: i64,
        end_time: i64,
    )
        requires
            start_time <= end_time,
        ensures
            final(self)@ == (EventModel {
                title: title@,
                description: opt_str_view(description),
                location: opt_str_view(location),
                start_time: start_time,
                end_time: end_time,
                updated: true,
                ..old(self)@
            }),
            final(self)@.wf(),
    {
        self.title = title;
        self.description = description;
        self.location = location;
        self.start_time = start_time;
        self.end_time = end_time;
        self.updated = true;
    }
}

} // verus!
