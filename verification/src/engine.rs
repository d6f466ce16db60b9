//! The synchronization engine: drains a paginated remote listing to
//! completion, tracks the incremental-sync cursor across passes, and
//! merges every record of every page into the store.
//!
//! One remote fetch is a suspension point, so the engine is a stepper: the
//! caller performs the fetch and hands the outcome to `handle`, which does
//! everything that follows from it. `run_calendar_drain` and
//! `run_event_drain` drive a whole drain over a sequence of outcomes.

use vstd::prelude::*;

use crate::database::Database;
use crate::database::StoreError;
use crate::database::StoreModel;
use crate::database::spec_merge_calendar;
use crate::database::spec_merge_event;
use crate::event::CalendarModel;
use crate::event::EventModel;
use crate::event::RawCalendarEntry;
use crate::event::RawCalendarEntryModel;
use crate::event::RawEventEntry;
use crate::event::RawEventEntryModel;
use crate::event::map_calendar;
use crate::event::spec_map_calendar;
use crate::event::spec_map_event;
use crate::event::CalendarEvent;

verus! {

/// One page of a remote listing: the records it reports, the cursor of
/// the next page (present iff more pages remain), and the cursor to store
/// for the next synchronization pass (meaningful only on the final page).
pub struct RemotePage<T> {
    pub records: Vec<T>,
    pub next_page_cursor: Option<String>,
    pub next_sync_cursor: Option<String>,
}

/// What one page fetch came to: a page, a transport or auth failure, or
/// the provider rejecting a stale sync cursor.
pub enum FetchOutcome<T> {
    Page(RemotePage<T>),
    RemoteUnavailable,
    InvalidCursor,
}

/// Mathematical value of a `RemotePage`.
pub ghost struct PageModel<V> {
    pub records: Seq<V>,
    pub next_page_cursor: Option<Seq<char>>,
    pub next_sync_cursor: Option<Seq<char>>,
}

/// Mathematical value of a `FetchOutcome`.
pub ghost enum OutcomeModel<V> {
    Page(PageModel<V>),
    RemoteUnavailable,
    InvalidCursor,
}

impl<T: View> View for RemotePage<T> {
    type V = PageModel<<T as View>::V>;

    open spec fn view(&self) -> PageModel<<T as View>::V> {
        PageModel {
            records: self.records@.map_values(|t: T| t@),
            next_page_cursor: crate::event::opt_str_view(self.next_page_cursor),
            next_sync_cursor: crate::event::opt_str_view(self.next_sync_cursor),
        }
    }
}

impl<T: View> View for FetchOutcome<T> {
    type V = OutcomeModel<<T as View>::V>;

    open spec fn view(&self) -> OutcomeModel<<T as View>::V> {
        match self {
            FetchOutcome::Page(p) => OutcomeModel::Page(p@),
            FetchOutcome::RemoteUnavailable => OutcomeModel::RemoteUnavailable,
            FetchOutcome::InvalidCursor => OutcomeModel::InvalidCursor,
        }
    }
}

/// The calendar table after merging, in order, every record of a page
/// that maps successfully; records that fail to map are passed over.
pub open spec fn spec_apply_cal_records(
    cals: Map<Seq<char>, CalendarModel>,
    records: Seq<RawCalendarEntryModel>,
    now: i64,
) -> Map<Seq<char>, CalendarModel>
    decreases records.len(),
{
    if records.len() == 0 {
        cals
    } else {
        match spec_map_calendar(records[0], now) {
            Ok(c) => spec_apply_cal_records(spec_merge_calendar(cals, c), records.skip(1), now),
            Err(_) => spec_apply_cal_records(cals, records.skip(1), now),
        }
    }
}

/// How many records of a calendar page fail to map.
pub open spec fn spec_cal_skips(records: Seq<RawCalendarEntryModel>, now: i64) -> nat
    decreases records.len(),
{
    if records.len() == 0 {
        0
    } else {
        (if spec_map_calendar(records[0], now) is Err {
            1nat
        } else {
            0nat
        }) + spec_cal_skips(records.skip(1), now)
    }
}

pub open spec fn raw_cal_views(s: Seq<RawCalendarEntry>) -> Seq<RawCalendarEntryModel> {
    s.map_values(|r: RawCalendarEntry| r@)
}

pub open spec fn raw_event_views(s: Seq<RawEventEntry>) -> Seq<RawEventEntryModel> {
    s.map_values(|r: RawEventEntry| r@)
}

/// Map and merge every record of one calendar page. Mapping failures are
/// skipped and counted, never fatal; merging a calendar always succeeds.
pub fn process_calendar_page(db: &mut Database, records: Vec<RawCalendarEntry>, now: i64) -> (skipped:
    usize)
    requires
        old(db).wf(),
    ensures
        final(db).wf(),
        final(db)@.calendars == spec_apply_cal_records(
            old(db)@.calendars,
            raw_cal_views(records@),
            now,
        ),
        final(db)@.events == old(db)@.events,
        skipped == spec_cal_skips(raw_cal_views(records@), now),
{
    let ghost all = raw_cal_views(records@);
    let mut recs = records;
    let n = recs.len();
    let mut skipped: usize = 0;
    while recs.len() > 0
        invariant
            db.wf(),
            db@.events == old(db)@.events,
            skipped + recs@.len() <= n,
            spec_apply_cal_records(db@.calendars, raw_cal_views(recs@), now)
                == spec_apply_cal_records(old(db)@.calendars, all, now),
            skipped + spec_cal_skips(raw_cal_views(recs@), now) == spec_cal_skips(all, now),
        decreases recs@.len(),
    {
        let ghost before = raw_cal_views(recs@);
        let rec = recs.remove(0);
        proof {
            assert(before[0] == rec@);
            assert(before.skip(1) =~= raw_cal_views(recs@));
        }
        match map_calendar(rec, now) {
            Ok(c) => {
                let _ = db.sync_calendar(c);
            },
            Err(_) => {
                skipped = skipped + 1;
            },
        }
    }
    proof {
        assert(raw_cal_views(recs@) =~= Seq::<RawCalendarEntryModel>::empty());
    }
    skipped
}

/// What applying one page of raw event records to the event table comes
/// to: the table after the merges, the count of records that failed to
/// map, and whether a merge hit a missing calendar row (fatal; the table
/// is then left as it was).
pub ghost struct EventApplyResult {
    pub events: Map<(Seq<char>, Seq<char>), EventModel>,
    pub skipped: nat,
    pub fatal: bool,
}

/// Merge, in order, every record of an event page that maps successfully;
/// records that fail to map are passed over, and the first merge against
/// a missing calendar row aborts the page.
pub open spec fn spec_apply_event_records(
    evs: Map<(Seq<char>, Seq<char>), EventModel>,
    has_cal: bool,
    records: Seq<RawEventEntryModel>,
    calendar_id: Seq<char>,
) -> EventApplyResult
    decreases records.len(),
{
    if records.len() == 0 {
        EventApplyResult { events: evs, skipped: 0, fatal: false }
    } else {
        match spec_map_event(records[0], calendar_id) {
            Err(_) => {
                let rest = spec_apply_event_records(evs, has_cal, records.skip(1), calendar_id);
                EventApplyResult { events: rest.events, skipped: rest.skipped + 1, fatal: rest.fatal }
            },
            Ok(e) => {
                if !has_cal {
                    EventApplyResult { events: evs, skipped: 0, fatal: true }
                } else {
                    spec_apply_event_records(
                        spec_merge_event(evs, e),
                        has_cal,
                        records.skip(1),
                        calendar_id,
                    )
                }
            },
        }
    }
}

/// Map and merge every record of one event page of the given calendar.
/// Mapping failures are skipped and counted; a merge against a missing
/// calendar row is fatal and leaves the store as it was.
#[verifier::loop_isolation(false)]
pub fn process_event_page(
    db: &mut Database,
    records: Vec<RawEventEntry>,
    calendar_id: &String,
) -> (r: Result<usize, StoreError>)
    requires
        old(db).wf(),
    ensures
        final(db).wf(),
        final(db)@.calendars == old(db)@.calendars,
        ({
            let res = spec_apply_event_records(
                old(db)@.events,
                old(db)@.calendars.dom().contains(calendar_id@),
                raw_event_views(records@),
                calendar_id@,
            );
            match r {
                Ok(skipped) => !res.fatal && final(db)@.events == res.events && skipped
                    == res.skipped,
                Err(e) => res.fatal && e == StoreError::ForeignKeyViolation && final(db)@
                    == old(db)@,
            }
        }),
{
    let ghost all = raw_event_views(records@);
    let ghost has_cal = old(db)@.calendars.dom().contains(calendar_id@);
    let mut recs = records;
    let n = recs.len();
    let mut skipped: usize = 0;
    while recs.len() > 0
        invariant
            db.wf(),
            db@.calendars == old(db)@.calendars,
            has_cal == old(db)@.calendars.dom().contains(calendar_id@),
            !has_cal ==> db@.events == old(db)@.events,
            skipped + recs@.len() <= n,
            ({
                let rest = spec_apply_event_records(
                    db@.events,
                    has_cal,
                    raw_event_views(recs@),
                    calendar_id@,
                );
                let total = spec_apply_event_records(old(db)@.events, has_cal, all, calendar_id@);
                total == (EventApplyResult {
                    events: rest.events,
                    skipped: (skipped + rest.skipped) as nat,
                    fatal: rest.fatal,
                })
            }),
        decreases recs@.len(),
    {
        let ghost before = raw_event_views(recs@);
        let rec = recs.remove(0);
        proof {
            assert(before[0] == rec@);
            assert(before.skip(1) =~= raw_event_views(recs@));
        }
        match CalendarEvent::from_gcal_api(rec, calendar_id.clone()) {
            Ok(ev) => {
                let ghost evs_at_entry = db@.events;
                match db.sync_event(ev) {
                    Ok(_) => {},
                    Err(e) => {
                        proof {
                            assert(ev@ == spec_map_event(before[0], calendar_id@)->Ok_0);
                            assert(!has_cal);
                            assert(spec_apply_event_records(
                                evs_at_entry,
                                has_cal,
                                before,
                                calendar_id@,
                            ) == (EventApplyResult {
                                events: evs_at_entry,
                                skipped: 0,
                                fatal: true,
                            }));
                        }
                        return Err(e);
                    },
                }
            },
            Err(_) => {
                skipped = skipped + 1;
            },
        }
    }
    proof {
        assert(raw_event_views(recs@) =~= Seq::<RawEventEntryModel>::empty());
    }
    Ok(skipped)
}

/// Why a drain ended without completing.
#[derive(Clone, Copy, PartialEq, Eq, Structural, Debug)]
pub enum DrainFailure {
    /// Transport or auth failure: the stored cursor is left untouched and
    /// the whole drain may be retried later.
    RemoteUnavailable,
    /// The provider rejected the sync cursor twice in one drain.
    InvalidCursor,
    /// A merge broke the ordering invariant (calendars before events).
    Store(StoreError),
}

/// Where a drain stands: still expecting pages, completed, or failed.
#[derive(Clone, Copy, PartialEq, Eq, Structural, Debug)]
pub enum DrainPhase {
    Paging,
    Completed,
    Failed(DrainFailure),
}

/// Mathematical value of a drain's cursor machine.
pub ghost struct CursorModel {
    pub phase: DrainPhase,
    /// The sync cursor presented on every fetch of this drain.
    pub sync_cursor: Option<Seq<char>>,
    /// The page cursor to present on the next fetch.
    pub page_cursor: Option<Seq<char>>,
    /// Whether the one bounded full-resync fallback has been spent.
    pub fallback_used: bool,
    /// The cursor to persist for the next synchronization pass.
    pub stored_cursor: Option<Seq<char>>,
    /// Records skipped over mapping failures so far (saturating).
    pub skipped: usize,
}

/// A drain together with the store it merges into.
pub ghost struct DrainModel {
    pub ctrl: CursorModel,
    pub store: StoreModel,
}

/// Addition on the skip counter saturates rather than wraps.
pub open spec fn sat_add_usize(a: usize, b: nat) -> usize {
    if a + b > usize::MAX {
        usize::MAX
    } else {
        (a + b) as usize
    }
}

/// A fresh drain: paging, presenting the stored cursor (or none, forcing
/// a full listing), with the fallback still available.
pub open spec fn spec_drain_init(stored: Option<Seq<char>>) -> CursorModel {
    CursorModel {
        phase: DrainPhase::Paging,
        sync_cursor: stored,
        page_cursor: None,
        fallback_used: false,
        stored_cursor: stored,
        skipped: 0,
    }
}

/// Transport failure: the drain fails, the stored cursor stays untouched.
pub open spec fn spec_ctrl_remote_unavailable(c: CursorModel) -> CursorModel {
    CursorModel { phase: DrainPhase::Failed(DrainFailure::RemoteUnavailable), ..c }
}

/// Stale cursor: the first time, clear the stored cursor and restart as a
/// full resync; the second time, fail.
pub open spec fn spec_ctrl_invalid_cursor(c: CursorModel) -> CursorModel {
    if !c.fallback_used {
        CursorModel {
            sync_cursor: None,
            page_cursor: None,
            fallback_used: true,
            stored_cursor: None,
            ..c
        }
    } else {
        CursorModel { phase: DrainPhase::Failed(DrainFailure::InvalidCursor), ..c }
    }
}

/// A merged page: keep paging while a next-page cursor remains; on the
/// final page, complete and persist its next-sync cursor (or clear the
/// stored cursor when the provider offers none).
pub open spec fn spec_ctrl_page(
    c: CursorModel,
    next_page: Option<Seq<char>>,
    next_sync: Option<Seq<char>>,
    page_skips: nat,
) -> CursorModel {
    let c2 = CursorModel { skipped: sat_add_usize(c.skipped, page_skips), ..c };
    match next_page {
        Some(p) => CursorModel { page_cursor: Some(p), ..c2 },
        None => CursorModel {
            phase: DrainPhase::Completed,
            page_cursor: None,
            stored_cursor: next_sync,
            ..c2
        },
    }
}

/// One step of a calendar drain on one fetch outcome.
pub open spec fn spec_cal_drain_step(
    st: DrainModel,
    outcome: OutcomeModel<RawCalendarEntryModel>,
    now: i64,
) -> DrainModel {
    match outcome {
        OutcomeModel::RemoteUnavailable => DrainModel {
            ctrl: spec_ctrl_remote_unavailable(st.ctrl),
            ..st
        },
        OutcomeModel::InvalidCursor => DrainModel { ctrl: spec_ctrl_invalid_cursor(st.ctrl), ..st },
        OutcomeModel::Page(p) => DrainModel {
            ctrl: spec_ctrl_page(
                st.ctrl,
                p.next_page_cursor,
                p.next_sync_cursor,
                spec_cal_skips(p.records, now),
            ),
            store: StoreModel {
                calendars: spec_apply_cal_records(st.store.calendars, p.records, now),
                ..st.store
            },
        },
    }
}

/// A calendar drain run over a sequence of fetch outcomes, stopping at
/// the first terminal phase.
pub open spec fn spec_cal_drain_run(
    st: DrainModel,
    outcomes: Seq<OutcomeModel<RawCalendarEntryModel>>,
    now: i64,
) -> DrainModel
    decreases outcomes.len(),
{
    if outcomes.len() == 0 || !(st.ctrl.phase is Paging) {
        st
    } else {
        spec_cal_drain_run(spec_cal_drain_step(st, outcomes[0], now), outcomes.skip(1), now)
    }
}

/// One step of an event drain (of the calendar `calendar_id`) on one
/// fetch outcome. A merge against a missing calendar row fails the drain
/// and leaves the store as it was.
pub open spec fn spec_event_drain_step(
    st: DrainModel,
    outcome: OutcomeModel<RawEventEntryModel>,
    calendar_id: Seq<char>,
) -> DrainModel {
    match outcome {
        OutcomeModel::RemoteUnavailable => DrainModel {
            ctrl: spec_ctrl_remote_unavailable(st.ctrl),
            ..st
        },
        OutcomeModel::InvalidCursor => DrainModel { ctrl: spec_ctrl_invalid_cursor(st.ctrl), ..st },
        OutcomeModel::Page(p) => {
            let res = spec_apply_event_records(
                st.store.events,
                st.store.calendars.dom().contains(calendar_id),
                p.records,
                calendar_id,
            );
            if res.fatal {
                DrainModel {
                    ctrl: CursorModel {
                        phase: DrainPhase::Failed(DrainFailure::Store(
                            StoreError::ForeignKeyViolation,
                        )),
                        ..st.ctrl
                    },
                    store: st.store,
                }
            } else {
                DrainModel {
                    ctrl: spec_ctrl_page(
                        st.ctrl,
                        p.next_page_cursor,
                        p.next_sync_cursor,
                        res.skipped,
                    ),
                    store: StoreModel { events: res.events, ..st.store },
                }
            }
        },
    }
}

/// An event drain run over a sequence of fetch outcomes, stopping at the
/// first terminal phase.
pub open spec fn spec_event_drain_run(
    st: DrainModel,
    outcomes: Seq<OutcomeModel<RawEventEntryModel>>,
    calendar_id: Seq<char>,
) -> DrainModel
    decreases outcomes.len(),
{
    if outcomes.len() == 0 || !(st.ctrl.phase is Paging) {
        st
    } else {
        spec_event_drain_run(
            spec_event_drain_step(st, outcomes[0], calendar_id),
            outcomes.skip(1),
            calendar_id,
        )
    }
}

fn clone_opt_string(s: &Option<String>) -> (r: Option<String>)
    ensures
        r == *s,
{
    match s {
        Some(v) => Some(v.clone()),
        None => None,
    }
}

/// The cursor machine of one calendar-collection drain. The caller
/// fetches; `handle` does everything that follows from each outcome.
pub struct CalendarDrain {
    phase: DrainPhase,
    sync_cursor: Option<String>,
    page_cursor: Option<String>,
    fallback_used: bool,
    stored_cursor: Option<String>,
    skipped: usize,
}

impl View for CalendarDrain {
    type V = CursorModel;

    closed spec fn view(&self) -> CursorModel {
        CursorModel {
            phase: self.phase,
            sync_cursor: crate::event::opt_str_view(self.sync_cursor),
            page_cursor: crate::event::opt_str_view(self.page_cursor),
            fallback_used: self.fallback_used,
            stored_cursor: crate::event::opt_str_view(self.stored_cursor),
            skipped: self.skipped,
        }
    }
}

impl CalendarDrain {
    /// Begin a drain, presenting the stored cursor of the calendars
    /// collection (or none, forcing a full listing).
    pub fn new(stored_cursor: Option<String>) -> (r: CalendarDrain)
        ensures
            r@ == spec_drain_init(crate::event::opt_str_view(stored_cursor)),
    {
        let sync_cursor = clone_opt_string(&stored_cursor);
        CalendarDrain {
            phase: DrainPhase::Paging,
            sync_cursor,
            page_cursor: None,
            fallback_used: false,
            stored_cursor,
            skipped: 0,
        }
    }

    pub fn phase(&self) -> (r: DrainPhase)
        ensures
            r == self@.phase,
    {
        self.phase
    }

    /// The sync cursor to present on the next fetch.
    pub fn sync_cursor(&self) -> (r: &Option<String>)
        ensures
            crate::event::opt_str_view(*r) == self@.sync_cursor,
    {
        &self.sync_cursor
    }

    /// The page cursor to present on the next fetch.
    pub fn page_cursor(&self) -> (r: &Option<String>)
        ensures
            crate::event::opt_str_view(*r) == self@.page_cursor,
    {
        &self.page_cursor
    }

    /// The cursor to persist for the next synchronization pass.
    pub fn stored_cursor(&self) -> (r: &Option<String>)
        ensures
            crate::event::opt_str_view(*r) == self@.stored_cursor,
    {
        &self.stored_cursor
    }

    /// Records skipped over mapping failures so far.
    pub fn skipped(&self) -> (r: usize)
        ensures
            r == self@.skipped,
    {
        self.skipped
    }

    /// Advance the drain by one fetch outcome, merging a page's records
    /// into the store.
    pub fn handle(&mut self, db: &mut Database, outcome: FetchOutcome<RawCalendarEntry>, now: i64)
        requires
            old(self)@.phase is Paging,
            old(db).wf(),
        ensures
            final(db).wf(),
            (DrainModel { ctrl: final(self)@, store: final(db)@ }) == spec_cal_drain_step(
                DrainModel { ctrl: old(self)@, store: old(db)@ },
                outcome@,
                now,
            ),
    {
        match outcome {
            FetchOutcome::RemoteUnavailable => {
                self.phase = DrainPhase::Failed(DrainFailure::RemoteUnavailable);
            },
            FetchOutcome::InvalidCursor => {
                if !self.fallback_used {
                    self.sync_cursor = None;
                    self.page_cursor = None;
                    self.fallback_used = true;
                    self.stored_cursor = None;
                } else {
                    self.phase = DrainPhase::Failed(DrainFailure::InvalidCursor);
                }
            },
            FetchOutcome::Page(page) => {
                let RemotePage { records, next_page_cursor, next_sync_cursor } = page;
                let sk = process_calendar_page(db, records, now);
                self.skipped = if self.skipped > usize::MAX - sk {
                    usize::MAX
                } else {
                    self.skipped + sk
                };
                match next_page_cursor {
                    Some(c) => {
                        self.page_cursor = Some(c);
                    },
                    None => {
                        self.phase = DrainPhase::Completed;
                        self.page_cursor = None;
                        self.stored_cursor = next_sync_cursor;
                    },
                }
            },
        }
    }
}

/// The cursor machine of one event-collection drain, bound to the
/// calendar whose events it lists.
pub struct EventDrain {
    calendar_id: String,
    phase: DrainPhase,
    sync_cursor: Option<String>,
    page_cursor: Option<String>,
    fallback_used: bool,
    stored_cursor: Option<String>,
    skipped: usize,
}

impl View for EventDrain {
    type V = CursorModel;

    closed spec fn view(&self) -> CursorModel {
        CursorModel {
            phase: self.phase,
            sync_cursor: crate::event::opt_str_view(self.sync_cursor),
            page_cursor: crate::event::opt_str_view(self.page_cursor),
            fallback_used: self.fallback_used,
            stored_cursor: crate::event::opt_str_view(self.stored_cursor),
            skipped: self.skipped,
        }
    }
}

impl EventDrain {
    /// The calendar whose events this drain lists.
    pub closed spec fn spec_calendar_id(&self) -> Seq<char> {
        self.calendar_id@
    }

    /// Begin a drain of the events of `calendar_id`, presenting that
    /// collection's stored cursor.
    pub fn new(calendar_id: String, stored_cursor: Option<String>) -> (r: EventDrain)
        ensures
            r@ == spec_drain_init(crate::event::opt_str_view(stored_cursor)),
            r.spec_calendar_id() == calendar_id@,
    {
        let sync_cursor = clone_opt_string(&stored_cursor);
        EventDrain {
            calendar_id,
            phase: DrainPhase::Paging,
            sync_cursor,
            page_cursor: None,
            fallback_used: false,
            stored_cursor,
            skipped: 0,
        }
    }

    pub fn calendar_id(&self) -> (r: &String)
        ensures
            r@ == self.spec_calendar_id(),
    {
        &self.calendar_id
    }

    pub fn phase(&self) -> (r: DrainPhase)
        ensures
            r == self@.phase,
    {
        self.phase
    }

    /// The sync cursor to present on the next fetch.
    pub fn sync_cursor(&self) -> (r: &Option<String>)
        ensures
            crate::event::opt_str_view(*r) == self@.sync_cursor,
    {
        &self.sync_cursor
    }

    /// The page cursor to present on the next fetch.
    pub fn page_cursor(&self) -> (r: &Option<String>)
        ensures
            crate::event::opt_str_view(*r) == self@.page_cursor,
    {
        &self.page_cursor
    }

    /// The cursor to persist for the next synchronization pass.
    pub fn stored_cursor(&self) -> (r: &Option<String>)
        ensures
            crate::event::opt_str_view(*r) == self@.stored_cursor,
    {
        &self.stored_cursor
    }

    /// Records skipped over mapping failures so far.
    pub fn skipped(&self) -> (r: usize)
        ensures
            r == self@.skipped,
    {
        self.skipped
    }

    /// Advance the drain by one fetch outcome, merging a page's records
    /// into the store.
    pub fn handle(&mut self, db: &mut Database, outcome: FetchOutcome<RawEventEntry>)
        requires
            old(self)@.phase is Paging,
            old(db).wf(),
        ensures
            final(db).wf(),
            final(self).spec_calendar_id() == old(self).spec_calendar_id(),
            (DrainModel { ctrl: final(self)@, store: final(db)@ }) == spec_event_drain_step(
                DrainModel { ctrl: old(self)@, store: old(db)@ },
                outcome@,
                old(self).spec_calendar_id(),
            ),
    {
        match outcome {
            FetchOutcome::RemoteUnavailable => {
                self.phase = DrainPhase::Failed(DrainFailure::RemoteUnavailable);
            },
            FetchOutcome::InvalidCursor => {
                if !self.fallback_used {
                    self.sync_cursor = None;
                    self.page_cursor = None;
                    self.fallback_used = true;
                    self.stored_cursor = None;
                } else {
                    self.phase = DrainPhase::Failed(DrainFailure::InvalidCursor);
                }
            },
            FetchOutcome::Page(page) => {
                let RemotePage { records, next_page_cursor, next_sync_cursor } = page;
                match process_event_page(db, records, &self.calendar_id) {
                    Ok(sk) => {
                        self.skipped = if self.skipped > usize::MAX - sk {
                            usize::MAX
                        } else {
                            self.skipped + sk
                        };
                        match next_page_cursor {
                            Some(c) => {
                                self.page_cursor = Some(c);
                            },
                            None => {
                                self.phase = DrainPhase::Completed;
                                self.page_cursor = None;
                                self.stored_cursor = next_sync_cursor;
                            },
                        }
                    },
                    Err(_) => {
                        self.phase = DrainPhase::Failed(DrainFailure::Store(
                            StoreError::ForeignKeyViolation,
                        ));
                    },
                }
            },
        }
    }
}

pub open spec fn outcome_cal_views(s: Seq<FetchOutcome<RawCalendarEntry>>) -> Seq<
    OutcomeModel<RawCalendarEntryModel>,
> {
    s.map_values(|o: FetchOutcome<RawCalendarEntry>| o@)
}

pub open spec fn outcome_event_views(s: Seq<FetchOutcome<RawEventEntry>>) -> Seq<
    OutcomeModel<RawEventEntryModel>,
> {
    s.map_values(|o: FetchOutcome<RawEventEntry>| o@)
}

/// Drive a whole calendar drain over a sequence of fetch outcomes, taken
/// in order as the responses to the drain's page requests. The returned
/// drain holds the terminal phase, the cursor to persist, and the skip
/// count; a drain still paging when the outcomes run out reports phase
/// `Paging`.
#[verifier::loop_isolation(false)]
pub fn run_calendar_drain(
    db: &mut Database,
    stored_cursor: Option<String>,
    responses: Vec<FetchOutcome<RawCalendarEntry>>,
    now: i64,
) -> (r: CalendarDrain)
    requires
        old(db).wf(),
    ensures
        final(db).wf(),
        (DrainModel { ctrl: r@, store: final(db)@ }) == spec_cal_drain_run(
            DrainModel {
                ctrl: spec_drain_init(crate::event::opt_str_view(stored_cursor)),
                store: old(db)@,
            },
            outcome_cal_views(responses@),
            now,
        ),
{
    let ghost all = outcome_cal_views(responses@);
    let ghost init = DrainModel {
        ctrl: spec_drain_init(crate::event::opt_str_view(stored_cursor)),
        store: old(db)@,
    };
    let mut drain = CalendarDrain::new(stored_cursor);
    let mut rest = responses;
    while rest.len() > 0
        invariant
            db.wf(),
            spec_cal_drain_run(
                DrainModel { ctrl: drain@, store: db@ },
                outcome_cal_views(rest@),
                now,
            ) == spec_cal_drain_run(init, all, now),
        decreases rest@.len(),
    {
        match drain.phase() {
            DrainPhase::Paging => {},
            _ => {
                break ;
            },
        }
        let ghost before = outcome_cal_views(rest@);
        let outcome = rest.remove(0);
        proof {
            assert(before[0] == outcome@);
            assert(before.skip(1) =~= outcome_cal_views(rest@));
        }
        drain.handle(db, outcome, now);
    }
    proof {
        if drain@.phase is Paging {
            assert(outcome_cal_views(rest@) =~= Seq::<OutcomeModel<RawCalendarEntryModel>>::empty());
        }
    }
    drain
}

/// Drive a whole event drain for one calendar over a sequence of fetch
/// outcomes, as `run_calendar_drain` does for the calendars collection.
#[verifier::loop_isolation(false)]
pub fn run_event_drain(
    db: &mut Database,
    calendar_id: String,
    stored_cursor: Option<String>,
    responses: Vec<FetchOutcome<RawEventEntry>>,
) -> (r: EventDrain)
    requires
        old(db).wf(),
    ensures
        final(db).wf(),
        r.spec_calendar_id() == calendar_id@,
        (DrainModel { ctrl: r@, store: final(db)@ }) == spec_event_drain_run(
            DrainModel {
                ctrl: spec_drain_init(crate::event::opt_str_view(stored_cursor)),
                store: old(db)@,
            },
            outcome_event_views(responses@),
            calendar_id@,
        ),
{
    let ghost all = outcome_event_views(responses@);
    let ghost init = DrainModel {
        ctrl: spec_drain_init(crate::event::opt_str_view(stored_cursor)),
        store: old(db)@,
    };
    let mut drain = EventDrain::new(calendar_id, stored_cursor);
    let mut rest = responses;
    while rest.len() > 0
        invariant
            db.wf(),
            drain.spec_calendar_id() == calendar_id@,
            spec_event_drain_run(
                DrainModel { ctrl: drain@, store: db@ },
                outcome_event_views(rest@),
                calendar_id@,
            ) == spec_event_drain_run(init, all, calendar_id@),
        decreases rest@.len(),
    {
        match drain.phase() {
            DrainPhase::Paging => {},
            _ => {
                break ;
            },
        }
        let ghost before = outcome_event_views(rest@);
        let outcome = rest.remove(0);
        proof {
            assert(before[0] == outcome@);
            assert(before.skip(1) =~= outcome_event_views(rest@));
        }
        drain.handle(db, outcome);
    }
    proof {
        if drain@.phase is Paging {
            assert(outcome_event_views(rest@) =~= Seq::<OutcomeModel<RawEventEntryModel>>::empty());
        }
    }
    drain
}

pub open spec fn outcome_is_page<V>(o: OutcomeModel<V>) -> bool {
    o is Page
}

pub open spec fn outcome_page<V>(o: OutcomeModel<V>) -> PageModel<V> {
    match o {
        OutcomeModel::Page(p) => p,
        _ => arbitrary(),
    }
}

/// The records of a sequence of pages, in order.
pub open spec fn concat_page_records<V>(outcomes: Seq<OutcomeModel<V>>) -> Seq<V>
    decreases outcomes.len(),
{
    if outcomes.len() == 0 {
        Seq::empty()
    } else {
        outcome_page(outcomes[0]).records + concat_page_records(outcomes.skip(1))
    }
}

/// Merging the records of two pages in order is merging their
/// concatenation.
pub proof fn lemma_apply_cal_append(
    cals: Map<Seq<char>, CalendarModel>,
    a: Seq<RawCalendarEntryModel>,
    b: Seq<RawCalendarEntryModel>,
    now: i64,
)
    ensures
        spec_apply_cal_records(cals, a + b, now) == spec_apply_cal_records(
            spec_apply_cal_records(cals, a, now),
            b,
            now,
        ),
    decreases a.len(),
{
    if a.len() == 0 {
        assert(a + b =~= b);
    } else {
        assert((a + b)[0] == a[0]);
        assert((a + b).skip(1) =~= a.skip(1) + b);
        match spec_map_calendar(a[0], now) {
            Ok(c) => {
                lemma_apply_cal_append(spec_merge_calendar(cals, c), a.skip(1), b, now);
            },
            Err(_) => {
                lemma_apply_cal_append(cals, a.skip(1), b, now);
            },
        }
    }
}

/// Full-drain completeness: a drain whose every fetch answers with a
/// page, each page but the last carrying a next-page cursor and the last
/// carrying none, completes; its stored cursor becomes the final page's
/// next-sync cursor, and the calendar table is the merge, in order, of
/// every record of every page. Events are untouched.
pub proof fn lemma_full_drain_completeness(
    st: DrainModel,
    outcomes: Seq<OutcomeModel<RawCalendarEntryModel>>,
    now: i64,
)
    requires
        st.ctrl.phase is Paging,
        outcomes.len() > 0,
        forall|i: int| 0 <= i < outcomes.len() ==> outcome_is_page(#[trigger] outcomes[i]),
        forall|i: int|
            0 <= i < outcomes.len() - 1 ==> outcome_page(#[trigger] outcomes[i]).next_page_cursor
                is Some,
        outcome_page(outcomes[outcomes.len() - 1]).next_page_cursor is None,
    ensures
        ({
            let fin = spec_cal_drain_run(st, outcomes, now);
            &&& fin.ctrl.phase is Completed
            &&& fin.ctrl.stored_cursor == outcome_page(
                outcomes[outcomes.len() - 1],
            ).next_sync_cursor
            &&& fin.store.calendars == spec_apply_cal_records(
                st.store.calendars,
                concat_page_records(outcomes),
                now,
            )
            &&& fin.store.events == st.store.events
        }),
    decreases outcomes.len(),
{
    let p = outcome_page(outcomes[0]);
    let st2 = spec_cal_drain_step(st, outcomes[0], now);
    if outcomes.len() == 1 {
        assert(spec_cal_drain_run(st, outcomes, now) == st2);
        assert(outcomes.skip(1).len() == 0);
        assert(concat_page_records(outcomes.skip(1))
            =~= Seq::<RawCalendarEntryModel>::empty());
        assert(concat_page_records(outcomes) == p.records + concat_page_records(outcomes.skip(1)));
        assert(p.records + Seq::<RawCalendarEntryModel>::empty() =~= p.records);
    } else {
        assert(outcome_page(outcomes[0]).next_page_cursor is Some);
        assert(st2.ctrl.phase is Paging);
        let rest = outcomes.skip(1);
        assert forall|i: int| 0 <= i < rest.len() implies outcome_is_page(#[trigger] rest[i]) by {
            assert(rest[i] == outcomes[i + 1]);
        }
        assert forall|i: int| 0 <= i < rest.len() - 1 implies outcome_page(
            #[trigger] rest[i],
        ).next_page_cursor is Some by {
            assert(rest[i] == outcomes[i + 1]);
        }
        assert(rest[rest.len() - 1] == outcomes[outcomes.len() - 1]);
        lemma_full_drain_completeness(st2, rest, now);
        lemma_apply_cal_append(st.store.calendars, p.records, concat_page_records(rest), now);
        assert(concat_page_records(outcomes) == p.records + concat_page_records(rest));
    }
}

pub open spec fn spec_mapped_cal(rec: RawCalendarEntryModel, now: i64) -> CalendarModel {
    match spec_map_calendar(rec, now) {
        Ok(c) => c,
        Err(_) => arbitrary(),
    }
}

/// Exact row count of a full drain: when every record maps, the mapped
/// ids are pairwise distinct, and none is already stored, the calendar
/// table grows by exactly one row per record.
pub proof fn lemma_apply_cal_records_count(
    cals: Map<Seq<char>, CalendarModel>,
    records: Seq<RawCalendarEntryModel>,
    now: i64,
)
    requires
        cals.dom().finite(),
        forall|i: int| 0 <= i < records.len() ==> spec_map_calendar(#[trigger] records[i], now) is Ok,
        forall|i: int, j: int|
            0 <= i < j < records.len() ==> spec_mapped_cal(records[i], now).id != spec_mapped_cal(
                records[j],
                now,
            ).id,
        forall|i: int|
            0 <= i < records.len() ==> !cals.dom().contains(
                spec_mapped_cal(#[trigger] records[i], now).id,
            ),
    ensures
        spec_apply_cal_records(cals, records, now).dom().finite(),
        spec_apply_cal_records(cals, records, now).len() == cals.len() + records.len(),
    decreases records.len(),
{
    broadcast use vstd::set::group_set_axioms;

    if records.len() > 0 {
        let c = spec_mapped_cal(records[0], now);
        let cals2 = spec_merge_calendar(cals, c);
        assert(!cals.dom().contains(c.id));
        assert(cals2.len() == cals.len() + 1);
        let rest = records.skip(1);
        assert forall|i: int| 0 <= i < rest.len() implies spec_map_calendar(
            #[trigger] rest[i],
            now,
        ) is Ok by {
            assert(rest[i] == records[i + 1]);
        }
        assert forall|i: int, j: int| 0 <= i < j < rest.len() implies spec_mapped_cal(
            rest[i],
            now,
        ).id != spec_mapped_cal(rest[j], now).id by {
            assert(rest[i] == records[i + 1] && rest[j] == records[j + 1]);
        }
        assert forall|i: int| 0 <= i < rest.len() implies !cals2.dom().contains(
            spec_mapped_cal(#[trigger] rest[i], now).id,
        ) by {
            assert(rest[i] == records[i + 1]);
            assert(spec_mapped_cal(records[i + 1], now).id != c.id);
        }
        lemma_apply_cal_records_count(cals2, rest, now);
    }
}

/// Row count of a completed full drain: when every record of every page
/// maps, the mapped ids are pairwise distinct, and none is already
/// stored, the drain completes with exactly one calendar row per record
/// served.
pub proof fn lemma_full_drain_row_count(
    st: DrainModel,
    outcomes: Seq<OutcomeModel<RawCalendarEntryModel>>,
    now: i64,
)
    requires
        st.ctrl.phase is Paging,
        st.store.calendars.dom().finite(),
        outcomes.len() > 0,
        forall|i: int| 0 <= i < outcomes.len() ==> outcome_is_page(#[trigger] outcomes[i]),
        forall|i: int|
            0 <= i < outcomes.len() - 1 ==> outcome_page(#[trigger] outcomes[i]).next_page_cursor
                is Some,
        outcome_page(outcomes[outcomes.len() - 1]).next_page_cursor is None,
        forall|i: int|
            0 <= i < concat_page_records(outcomes).len() ==> spec_map_calendar(
                #[trigger] concat_page_records(outcomes)[i],
                now,
            ) is Ok,
        forall|i: int, j: int|
            0 <= i < j < concat_page_records(outcomes).len() ==> spec_mapped_cal(
                concat_page_records(outcomes)[i],
                now,
            ).id != spec_mapped_cal(concat_page_records(outcomes)[j], now).id,
        forall|i: int|
            0 <= i < concat_page_records(outcomes).len() ==> !st.store.calendars.dom().contains(
                spec_mapped_cal(#[trigger] concat_page_records(outcomes)[i], now).id,
            ),
    ensures
        ({
            let fin = spec_cal_drain_run(st, outcomes, now);
            &&& fin.ctrl.phase is Completed
            &&& fin.store.calendars.len() == st.store.calendars.len() + concat_page_records(
                outcomes,
            ).len()
        }),
{
    lemma_full_drain_completeness(st, outcomes, now);
    lemma_apply_cal_records_count(st.store.calendars, concat_page_records(outcomes), now);
}

/// Cursor fallback, first half: a drain that is answered `InvalidCursor`
/// before its fallback is spent clears the stored cursor and goes on,
/// still paging, as a full resync from no cursor at all; the store is
/// untouched by that step.
pub proof fn lemma_invalid_cursor_fallback(
    st: DrainModel,
    outcomes: Seq<OutcomeModel<RawCalendarEntryModel>>,
    now: i64,
)
    requires
        st.ctrl.phase is Paging,
        !st.ctrl.fallback_used,
        outcomes.len() > 0,
        outcomes[0] is InvalidCursor,
    ensures
        ({
            let st2 = spec_cal_drain_step(st, outcomes[0], now);
            &&& st2.ctrl.phase is Paging
            &&& st2.ctrl.sync_cursor is None
            &&& st2.ctrl.page_cursor is None
            &&& st2.ctrl.stored_cursor is None
            &&& st2.ctrl.fallback_used
            &&& st2.store == st.store
            &&& spec_cal_drain_run(st, outcomes, now) == spec_cal_drain_run(
                st2,
                outcomes.skip(1),
                now,
            )
        }),
{
}

/// Cursor fallback, second half: a second `InvalidCursor` in the same
/// drain is terminal. The drain fails, the stored cursor stays cleared,
/// and the store is untouched.
pub proof fn lemma_invalid_cursor_twice_fails(
    st: DrainModel,
    outcomes: Seq<OutcomeModel<RawCalendarEntryModel>>,
    now: i64,
)
    requires
        st.ctrl.phase is Paging,
        !st.ctrl.fallback_used,
        outcomes.len() >= 2,
        outcomes[0] is InvalidCursor,
        outcomes[1] is InvalidCursor,
    ensures
        ({
            let fin = spec_cal_drain_run(st, outcomes, now);
            &&& fin.ctrl.phase == DrainPhase::Failed(DrainFailure::InvalidCursor)
            &&& fin.ctrl.stored_cursor is None
            &&& fin.store == st.store
        }),
{
    let st2 = spec_cal_drain_step(st, outcomes[0], now);
    assert(st2.ctrl.phase is Paging);
    assert(outcomes.skip(1)[0] == outcomes[1]);
    let st3 = spec_cal_drain_step(st2, outcomes[1], now);
    assert(spec_cal_drain_run(st, outcomes, now) == spec_cal_drain_run(
        st2,
        outcomes.skip(1),
        now,
    ));
    assert(spec_cal_drain_run(st2, outcomes.skip(1), now) == spec_cal_drain_run(
        st3,
        outcomes.skip(1).skip(1),
        now,
    ));
    assert(!(st3.ctrl.phase is Paging));
    assert(spec_cal_drain_run(st3, outcomes.skip(1).skip(1), now) == st3);
}

/// A transport failure is terminal for the pass and leaves both the
/// stored cursor and the store exactly as they were, so the whole drain
/// may be retried later.
pub proof fn lemma_remote_unavailable_fails(
    st: DrainModel,
    outcomes: Seq<OutcomeModel<RawCalendarEntryModel>>,
    now: i64,
)
    requires
        st.ctrl.phase is Paging,
        outcomes.len() > 0,
        outcomes[0] is RemoteUnavailable,
    ensures
        ({
            let fin = spec_cal_drain_run(st, outcomes, now);
            &&& fin.ctrl.phase == DrainPhase::Failed(DrainFailure::RemoteUnavailable)
            &&& fin.ctrl.stored_cursor == st.ctrl.stored_cursor
            &&& fin.store == st.store
        }),
{
    let st2 = spec_cal_drain_step(st, outcomes[0], now);
    assert(!(st2.ctrl.phase is Paging));
    assert(spec_cal_drain_run(st, outcomes, now) == spec_cal_drain_run(
        st2,
        outcomes.skip(1),
        now,
    ));
    assert(spec_cal_drain_run(st2, outcomes.skip(1), now) == st2);
}

/// Cursor fallback, whole story: `InvalidCursor` on the first fetch, then
/// pages to completion, is a completed full resync; the stored cursor
/// becomes the final page's next-sync cursor and the calendar table is
/// the merge of every record served after the fallback.
pub proof fn lemma_cursor_fallback_then_completes(
    st: DrainModel,
    outcomes: Seq<OutcomeModel<RawCalendarEntryModel>>,
    now: i64,
)
    requires
        st.ctrl.phase is Paging,
        !st.ctrl.fallback_used,
        outcomes.len() >= 2,
        outcomes[0] is InvalidCursor,
        forall|i: int| 1 <= i < outcomes.len() ==> outcome_is_page(#[trigger] outcomes[i]),
        forall|i: int|
            1 <= i < outcomes.len() - 1 ==> outcome_page(#[trigger] outcomes[i]).next_page_cursor
                is Some,
        outcome_page(outcomes[outcomes.len() - 1]).next_page_cursor is None,
    ensures
        ({
            let fin = spec_cal_drain_run(st, outcomes, now);
            &&& fin.ctrl.phase is Completed
            &&& fin.ctrl.stored_cursor == outcome_page(
                outcomes[outcomes.len() - 1],
            ).next_sync_cursor
            &&& fin.store.calendars == spec_apply_cal_records(
                st.store.calendars,
                concat_page_records(outcomes.skip(1)),
                now,
            )
            &&& fin.store.events == st.store.events
        }),
{
    lemma_invalid_cursor_fallback(st, outcomes, now);
    let st2 = spec_cal_drain_step(st, outcomes[0], now);
    let rest = outcomes.skip(1);
    assert forall|i: int| 0 <= i < rest.len() implies outcome_is_page(#[trigger] rest[i]) by {
        assert(rest[i] == outcomes[i + 1]);
    }
    assert forall|i: int| 0 <= i < rest.len() - 1 implies outcome_page(
        #[trigger] rest[i],
    ).next_page_cursor is Some by {
        assert(rest[i] == outcomes[i + 1]);
    }
    assert(rest[rest.len() - 1] == outcomes[outcomes.len() - 1]);
    lemma_full_drain_completeness(st2, rest, now);
}

/// With the calendar row present, applying an event page never hits the
/// foreign-key rule.
pub proof fn lemma_event_apply_no_fatal(
    evs: Map<(Seq<char>, Seq<char>), EventModel>,
    records: Seq<RawEventEntryModel>,
    calendar_id: Seq<char>,
)
    ensures
        !spec_apply_event_records(evs, true, records, calendar_id).fatal,
    decreases records.len(),
{
    if records.len() > 0 {
        match spec_map_event(records[0], calendar_id) {
            Err(_) => {
                lemma_event_apply_no_fatal(evs, records.skip(1), calendar_id);
            },
            Ok(e) => {
                lemma_event_apply_no_fatal(spec_merge_event(evs, e), records.skip(1), calendar_id);
            },
        }
    }
}

/// Merging the records of two event pages in order is merging their
/// concatenation, with the skip counts adding up.
pub proof fn lemma_apply_event_append(
    evs: Map<(Seq<char>, Seq<char>), EventModel>,
    a: Seq<RawEventEntryModel>,
    b: Seq<RawEventEntryModel>,
    calendar_id: Seq<char>,
)
    ensures
        ({
            let ra = spec_apply_event_records(evs, true, a, calendar_id);
            let rb = spec_apply_event_records(ra.events, true, b, calendar_id);
            let rab = spec_apply_event_records(evs, true, a + b, calendar_id);
            rab.events == rb.events && rab.skipped == ra.skipped + rb.skipped && !rab.fatal
        }),
    decreases a.len(),
{
    if a.len() == 0 {
        assert(a + b =~= b);
        lemma_event_apply_no_fatal(evs, b, calendar_id);
    } else {
        assert((a + b)[0] == a[0]);
        assert((a + b).skip(1) =~= a.skip(1) + b);
        match spec_map_event(a[0], calendar_id) {
            Err(_) => {
                lemma_apply_event_append(evs, a.skip(1), b, calendar_id);
            },
            Ok(e) => {
                lemma_apply_event_append(spec_merge_event(evs, e), a.skip(1), b, calendar_id);
            },
        }
    }
}

/// Full-drain completeness for an event drain, the counterpart of
/// `lemma_full_drain_completeness`: with the calendar row present, a
/// drain answered only with pages, chained by next-page cursors up to a
/// final page without one, completes; its stored cursor becomes the final
/// page's next-sync cursor, and the event table is the merge, in order,
/// of every record of every page. Calendars are untouched.
pub proof fn lemma_full_event_drain_completeness(
    st: DrainModel,
    outcomes: Seq<OutcomeModel<RawEventEntryModel>>,
    calendar_id: Seq<char>,
)
    requires
        st.ctrl.phase is Paging,
        st.store.calendars.dom().contains(calendar_id),
        outcomes.len() > 0,
        forall|i: int| 0 <= i < outcomes.len() ==> outcome_is_page(#[trigger] outcomes[i]),
        forall|i: int|
            0 <= i < outcomes.len() - 1 ==> outcome_page(#[trigger] outcomes[i]).next_page_cursor
                is Some,
        outcome_page(outcomes[outcomes.len() - 1]).next_page_cursor is None,
    ensures
        ({
            let fin = spec_event_drain_run(st, outcomes, calendar_id);
            &&& fin.ctrl.phase is Completed
            &&& fin.ctrl.stored_cursor == outcome_page(
                outcomes[outcomes.len() - 1],
            ).next_sync_cursor
            &&& fin.store.events == spec_apply_event_records(
                st.store.events,
                true,
                concat_page_records(outcomes),
                calendar_id,
            ).events
            &&& fin.store.calendars == st.store.calendars
        }),
    decreases outcomes.len(),
{
    let p = outcome_page(outcomes[0]);
    lemma_event_apply_no_fatal(st.store.events, p.records, calendar_id);
    let st2 = spec_event_drain_step(st, outcomes[0], calendar_id);
    if outcomes.len() == 1 {
        assert(spec_event_drain_run(st, outcomes, calendar_id) == st2);
        assert(outcomes.skip(1).len() == 0);
        assert(concat_page_records(outcomes.skip(1)) =~= Seq::<RawEventEntryModel>::empty());
        assert(concat_page_records(outcomes) == p.records + concat_page_records(outcomes.skip(1)));
        assert(p.records + Seq::<RawEventEntryModel>::empty() =~= p.records);
    } else {
        assert(outcome_page(outcomes[0]).next_page_cursor is Some);
        assert(st2.ctrl.phase is Paging);
        assert(st2.store.calendars == st.store.calendars);
        let rest = outcomes.skip(1);
        assert forall|i: int| 0 <= i < rest.len() implies outcome_is_page(#[trigger] rest[i]) by {
            assert(rest[i] == outcomes[i + 1]);
        }
        assert forall|i: int| 0 <= i < rest.len() - 1 implies outcome_page(
            #[trigger] rest[i],
        ).next_page_cursor is Some by {
            assert(rest[i] == outcomes[i + 1]);
        }
        assert(rest[rest.len() - 1] == outcomes[outcomes.len() - 1]);
        lemma_full_event_drain_completeness(st2, rest, calendar_id);
        lemma_apply_event_append(st.store.events, p.records, concat_page_records(rest), calendar_id);
        assert(concat_page_records(outcomes) == p.records + concat_page_records(rest));
    }
}

} // verus!
