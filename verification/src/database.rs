//! The local store: one row per calendar, one row per event, with the
//! merge-by-identity operations that a synchronization pass applies.
//!
//! A store value denotes two maps: calendars keyed by id, events keyed by
//! (calendar id, event id). Merging a calendar is remote-wins; merging an
//! event is remote-wins unless the local row carries an unpushed edit, in
//! which case only the incoming version tag is recorded.

use vstd::prelude::*;

use crate::event::CalendarEvent;
use crate::event::CalendarModel;
use crate::event::EventModel;
use crate::event::GcalCalendar;
use crate::keyed::keyed_map;
use crate::keyed::lemma_keyed_map_contains;
use crate::keyed::lemma_keyed_map_index;
use crate::keyed::lemma_keyed_map_len;
use crate::keyed::lemma_keyed_map_push;
use crate::keyed::lemma_keyed_map_update;
use crate::keyed::unique_keys;

verus! {

/// Why a merge into the store was refused.
#[derive(Clone, Copy, PartialEq, Eq, Structural, Debug)]
pub enum StoreError {
    /// The event references a calendar id with no calendar row: the
    /// ordering invariant (calendars before their events) was broken
    /// upstream, fatal to the current drain.
    ForeignKeyViolation,
}

/// Mathematical value of the store: the two tables as maps.
pub ghost struct StoreModel {
    pub calendars: Map<Seq<char>, CalendarModel>,
    pub events: Map<(Seq<char>, Seq<char>), EventModel>,
}

/// The key under which a calendar row is merged.
pub open spec fn cal_key() -> spec_fn(CalendarModel) -> Seq<char> {
    |c: CalendarModel| c.id
}

/// The key under which an event row is merged.
pub open spec fn event_key() -> spec_fn(EventModel) -> (Seq<char>, Seq<char>) {
    |e: EventModel| (e.calendar_id, e.event_id)
}

/// Merging a calendar is remote-wins on every mutable field, so the row
/// simply becomes the incoming record.
pub open spec fn spec_merge_calendar(
    cals: Map<Seq<char>, CalendarModel>,
    c: CalendarModel,
) -> Map<Seq<char>, CalendarModel> {
    cals.insert(c.id, c)
}

/// The event row that merging `e` leaves at its key: if a local row exists
/// and carries an unpushed edit, the local fields win and only the incoming
/// version tag is recorded; otherwise the incoming record, with the dirty
/// flag lowered.
pub open spec fn spec_merged_event(
    evs: Map<(Seq<char>, Seq<char>), EventModel>,
    e: EventModel,
) -> EventModel {
    let k = (e.calendar_id, e.event_id);
    if evs.dom().contains(k) && evs[k].updated {
        EventModel { etag: e.etag, ..evs[k] }
    } else {
        EventModel { updated: false, ..e }
    }
}

/// Merging an event replaces the row at its key by `spec_merged_event`.
pub open spec fn spec_merge_event(
    evs: Map<(Seq<char>, Seq<char>), EventModel>,
    e: EventModel,
) -> Map<(Seq<char>, Seq<char>), EventModel> {
    evs.insert((e.calendar_id, e.event_id), spec_merged_event(evs, e))
}

/// The local store: the authoritative calendar and event rows, merged by
/// identity. Each merge is one atomic operation on the in-memory rows;
/// writing them out (and reading them back) is the unverified shell's
/// concern, through `calendars`, `events` and `restore_event`.
pub struct Database {
    calendars: Vec<GcalCalendar>,
    events: Vec<CalendarEvent>,
}

impl View for Database {
    type V = StoreModel;

    closed spec fn view(&self) -> StoreModel {
        StoreModel {
            calendars: keyed_map(self.cal_rows(), cal_key()),
            events: keyed_map(self.event_rows(), event_key()),
        }
    }
}

impl Database {
    pub closed spec fn cal_rows(self) -> Seq<CalendarModel> {
        self.calendars@.map_values(|c: GcalCalendar| c@)
    }

    pub closed spec fn event_rows(self) -> Seq<EventModel> {
        self.events@.map_values(|e: CalendarEvent| e@)
    }

    /// Well-formedness: one row per key, every event's start not after its
    /// end, and every event referencing an existing calendar row.
    pub closed spec fn wf(self) -> bool {
        &&& unique_keys(self.cal_rows(), cal_key())
        &&& unique_keys(self.event_rows(), event_key())
        &&& forall|i: int|
            0 <= i < self.event_rows().len() ==> (#[trigger] self.event_rows()[i]).wf()
        &&& forall|i: int|
            0 <= i < self.event_rows().len() ==> keyed_map(self.cal_rows(), cal_key()).dom()
                .contains((#[trigger] self.event_rows()[i]).calendar_id)
    }

    /// An empty store.
    pub fn new() -> (r: Database)
        ensures
            r.wf(),
            r@.calendars == Map::<Seq<char>, CalendarModel>::empty(),
            r@.events == Map::<(Seq<char>, Seq<char>), EventModel>::empty(),
    {
        let r = Database { calendars: Vec::new(), events: Vec::new() };
        proof {
            assert(r.cal_rows().len() == 0);
            assert(r.event_rows().len() == 0);
        }
        r
    }

    fn find_calendar_index(&self, id: &String) -> (r: Option<usize>)
        ensures
            match r {
                Some(i) => i < self.cal_rows().len() && self.cal_rows()[i as int].id == id@,
                None => forall|i: int|
                    0 <= i < self.cal_rows().len() ==> (#[trigger] self.cal_rows()[i]).id != id@,
            },
    {
        let n = self.calendars.len();
        let mut i: usize = 0;
        while i < n
            invariant
                n == self.cal_rows().len(),
                i <= n,
                forall|j: int| 0 <= j < i ==> (#[trigger] self.cal_rows()[j]).id != id@,
            decreases n - i,
        {
            if self.calendars[i].id == *id {
                return Some(i);
            }
            i = i + 1;
        }
        None
    }

    fn find_event_index(&self, calendar_id: &String, event_id: &String) -> (r: Option<usize>)
        ensures
            match r {
                Some(i) => i < self.event_rows().len() && self.event_rows()[i as int].calendar_id
                    == calendar_id@ && self.event_rows()[i as int].event_id == event_id@,
                None => forall|i: int|
                    0 <= i < self.event_rows().len() ==> (#[trigger] self.event_rows()[i]).calendar_id
                        != calendar_id@ || self.event_rows()[i].event_id != event_id@,
            },
    {
        let n = self.events.len();
        let mut i: usize = 0;
        while i < n
            invariant
                n == self.event_rows().len(),
                i <= n,
                forall|j: int|
                    0 <= j < i ==> (#[trigger] self.event_rows()[j]).calendar_id != calendar_id@
                        || self.event_rows()[j].event_id != event_id@,
            decreases n - i,
        {
            if self.events[i].calendar_id == *calendar_id && self.events[i].event_id == *event_id {
                return Some(i);
            }
            i = i + 1;
        }
        None
    }

    /// Merge a calendar record: update the row with its id, or insert a
    /// new row. Remote-wins on every mutable field; always succeeds.
    pub fn sync_calendar(&mut self, calendar: GcalCalendar) -> (r: Result<(), StoreError>)
        requires
            old(self).wf(),
        ensures
            final(self).wf(),
            r is Ok,
            final(self)@.calendars == spec_merge_calendar(old(self)@.calendars, calendar@),
            final(self)@.events == old(self)@.events,
    {
        let ghost pre = self.cal_rows();
        let ghost pre_events = self.event_rows();
        match self.find_calendar_index(&calendar.id) {
            Some(i) => {
                proof {
                    lemma_keyed_map_update(pre, cal_key(), i as int, calendar@);
                }
                let slot = vstd::std_specs::vec::vec_index_mut(&mut self.calendars, i);
                *slot = calendar;
                proof {
                    assert(self.cal_rows() =~= pre.update(i as int, calendar@));
                    assert(self.event_rows() =~= pre_events);
                }
            },
            None => {
                proof {
                    lemma_keyed_map_push(pre, cal_key(), calendar@);
                }
                self.calendars.push(calendar);
                proof {
                    assert(self.cal_rows() =~= pre.push(calendar@));
                    assert(self.event_rows() =~= pre_events);
                }
            },
        }
        Ok(())
    }

    /// Merge an event record: refused outright when no calendar row with
    /// its calendar id exists; otherwise the row at (calendar id, event
    /// id) becomes `spec_merged_event`, so a locally edited row keeps its
    /// fields and only records the incoming version tag.
    pub fn sync_event(&mut self, event: CalendarEvent) -> (r: Result<(), StoreError>)
        requires
            old(self).wf(),
            event@.wf(),
        ensures
            final(self).wf(),
            final(self)@.calendars == old(self)@.calendars,
            match r {
                Ok(_) => old(self)@.calendars.dom().contains(event@.calendar_id)
                    && final(self)@.events == spec_merge_event(old(self)@.events, event@),
                Err(e) => e == StoreError::ForeignKeyViolation && !old(self)@.calendars.dom()
                    .contains(event@.calendar_id) && final(self)@ == old(self)@,
            },
    {
        proof {
            lemma_keyed_map_contains(self.cal_rows(), cal_key(), event.calendar_id@);
        }
        let cal_idx = match self.find_calendar_index(&event.calendar_id) {
            Some(i) => i,
            None => {
                proof {
                    assert forall|j: int| 0 <= j < self.cal_rows().len() implies cal_key()(
                        self.cal_rows()[j],
                    ) != event.calendar_id@ by {
                        assert(self.cal_rows()[j].id != event.calendar_id@);
                    }
                }
                return Err(StoreError::ForeignKeyViolation);
            },
        };
        proof {
            assert(cal_key()(self.cal_rows()[cal_idx as int]) == event.calendar_id@);
            assert(self@.calendars.dom().contains(event@.calendar_id));
        }
        let ghost pre = self.event_rows();
        let ghost pre_cals = self.cal_rows();
        let ghost k = (event@.calendar_id, event@.event_id);
        match self.find_event_index(&event.calendar_id, &event.event_id) {
            Some(i) => {
                proof {
                    lemma_keyed_map_index(pre, event_key(), i as int);
                    assert(event_key()(pre[i as int]) == k);
                    assert(old(self)@.events.dom().contains(k));
                    assert(old(self)@.events[k] == pre[i as int]);
                }
                if self.events[i].updated {
                    let ghost merged = EventModel { etag: event.etag@, ..pre[i as int] };
                    proof {
                        assert(pre[i as int].updated);
                        assert(spec_merged_event(old(self)@.events, event@) == merged);
                        assert(event_key()(merged) == k);
                        lemma_keyed_map_update(pre, event_key(), i as int, merged);
                    }
                    let slot = vstd::std_specs::vec::vec_index_mut(&mut self.events, i);
                    slot.etag = event.etag;
                    proof {
                        assert(self.event_rows() =~= pre.update(i as int, merged));
                        assert(self.cal_rows() =~= pre_cals);
                        assert(self@.events == spec_merge_event(old(self)@.events, event@));
                    }
                } else {
                    let mut row = event;
                    row.updated = false;
                    let ghost merged = row@;
                    proof {
                        assert(!pre[i as int].updated);
                        assert(spec_merged_event(old(self)@.events, event@) == merged);
                        assert(event_key()(merged) == k);
                        lemma_keyed_map_update(pre, event_key(), i as int, merged);
                    }
                    let slot = vstd::std_specs::vec::vec_index_mut(&mut self.events, i);
                    *slot = row;
                    proof {
                        assert(self.event_rows() =~= pre.update(i as int, merged));
                        assert(self.cal_rows() =~= pre_cals);
                        assert(self@.events == spec_merge_event(old(self)@.events, event@));
                    }
                }
            },
            None => {
                proof {
                    lemma_keyed_map_contains(pre, event_key(), k);
                    assert forall|j: int| 0 <= j < pre.len() implies event_key()(pre[j]) != k by {
                        assert(pre[j].calendar_id != event.calendar_id@ || pre[j].event_id
                            != event.event_id@);
                    }
                    assert(!old(self)@.events.dom().contains(k));
                }
                let mut row = event;
                row.updated = false;
                let ghost merged = row@;
                proof {
                    assert(spec_merged_event(old(self)@.events, event@) == merged);
                    assert(event_key()(merged) == k);
                    assert forall|j: int| 0 <= j < pre.len() implies event_key()(pre[j])
                        != event_key()(merged) by {
                        assert(event_key()(pre[j]) != k);
                    }
                    lemma_keyed_map_push(pre, event_key(), merged);
                }
                self.events.push(row);
                proof {
                    assert(self.event_rows() =~= pre.push(merged));
                    assert(self.cal_rows() =~= pre_cals);
                    assert(self@.events == spec_merge_event(old(self)@.events, event@));
                }
            },
        }
        Ok(())
    }

    /// Number of calendar rows; one per id in the store's calendar map.
    pub fn calendar_count(&self) -> (r: usize)
        requires
            self.wf(),
        ensures
            r == self@.calendars.len(),
    {
        proof {
            lemma_keyed_map_len(self.cal_rows(), cal_key());
        }
        self.calendars.len()
    }

    /// Number of event rows; one per (calendar id, event id) in the
    /// store's event map.
    pub fn event_count(&self) -> (r: usize)
        requires
            self.wf(),
        ensures
            r == self@.events.len(),
    {
        proof {
            lemma_keyed_map_len(self.event_rows(), event_key());
        }
        self.events.len()
    }

    /// The calendar row with the given id, if one exists.
    pub fn get_calendar(&self, id: &String) -> (r: Option<&GcalCalendar>)
        requires
            self.wf(),
        ensures
            match r {
                Some(c) => self@.calendars.dom().contains(id@) && c@ == self@.calendars[id@],
                None => !self@.calendars.dom().contains(id@),
            },
    {
        proof {
            lemma_keyed_map_contains(self.cal_rows(), cal_key(), id@);
        }
        match self.find_calendar_index(id) {
            Some(i) => {
                proof {
                    lemma_keyed_map_index(self.cal_rows(), cal_key(), i as int);
                }
                Some(&self.calendars[i])
            },
            None => {
                proof {
                    assert forall|j: int| 0 <= j < self.cal_rows().len() implies cal_key()(
                        self.cal_rows()[j],
                    ) != id@ by {
                        assert(self.cal_rows()[j].id != id@);
                    }
                }
                None
            },
        }
    }

    /// The event row with the given identity, if one exists.
    pub fn get_event(&self, calendar_id: &String, event_id: &String) -> (r: Option<&CalendarEvent>)
        requires
            self.wf(),
        ensures
            match r {
                Some(e) => self@.events.dom().contains((calendar_id@, event_id@)) && e@
                    == self@.events[(calendar_id@, event_id@)],
                None => !self@.events.dom().contains((calendar_id@, event_id@)),
            },
    {
        proof {
            lemma_keyed_map_contains(self.event_rows(), event_key(), (calendar_id@, event_id@));
        }
        match self.find_event_index(calendar_id, event_id) {
            Some(i) => {
                proof {
                    lemma_keyed_map_index(self.event_rows(), event_key(), i as int);
                }
                Some(&self.events[i])
            },
            None => {
                proof {
                    assert forall|j: int| 0 <= j < self.event_rows().len() implies event_key()(
                        self.event_rows()[j],
                    ) != (calendar_id@, event_id@) by {
                        assert(self.event_rows()[j].calendar_id != calendar_id@
                            || self.event_rows()[j].event_id != event_id@);
                    }
                }
                None
            },
        }
    }

    /// All calendar rows, for read-only walks and persistence: one row
    /// per entry of the store's calendar map, each the value at its id.
    pub fn calendars(&self) -> (r: &Vec<GcalCalendar>)
        requires
            self.wf(),
        ensures
            r@.len() == self@.calendars.len(),
            forall|i: int|
                0 <= i < r@.len() ==> self@.calendars.dom().contains(#[trigger] r@[i]@.id)
                    && self@.calendars[r@[i]@.id] == r@[i]@,
    {
        proof {
            lemma_keyed_map_len(self.cal_rows(), cal_key());
            assert forall|i: int|
                0 <= i < self.calendars@.len() implies self@.calendars.dom().contains(
                (#[trigger] self.calendars@[i])@.id,
            ) && self@.calendars[self.calendars@[i]@.id] == self.calendars@[i]@ by {
                lemma_keyed_map_index(self.cal_rows(), cal_key(), i);
                assert(self.cal_rows()[i] == self.calendars@[i]@);
                assert(cal_key()(self.cal_rows()[i]) == self.calendars@[i]@.id);
            }
        }
        &self.calendars
    }

    /// All event rows, for read-only walks and persistence: one row per
    /// entry of the store's event map, each the value at its key.
    pub fn events(&self) -> (r: &Vec<CalendarEvent>)
        requires
            self.wf(),
        ensures
            r@.len() == self@.events.len(),
            forall|i: int|
                0 <= i < r@.len() ==> self@.events.dom().contains(
                    ((#[trigger] r@[i])@.calendar_id, r@[i]@.event_id),
                ) && self@.events[(r@[i]@.calendar_id, r@[i]@.event_id)] == r@[i]@,
    {
        proof {
            lemma_keyed_map_len(self.event_rows(), event_key());
            assert forall|i: int|
                0 <= i < self.events@.len() implies self@.events.dom().contains(
                ((#[trigger] self.events@[i])@.calendar_id, self.events@[i]@.event_id),
            ) && self@.events[(self.events@[i]@.calendar_id, self.events@[i]@.event_id)]
                == self.events@[i]@ by {
                lemma_keyed_map_index(self.event_rows(), event_key(), i);
                assert(self.event_rows()[i] == self.events@[i]@);
                assert(event_key()(self.event_rows()[i]) == (
                    self.events@[i]@.calendar_id,
                    self.events@[i]@.event_id,
                ));
            }
        }
        &self.events
    }

    /// Put back a persisted event row exactly as it was, dirty flag
    /// included: unlike a merge, a restore is not a remote write, so the
    /// unpushed-edit flag must survive it. The foreign-key rule still
    /// holds.
    pub fn restore_event(&mut self, event: CalendarEvent) -> (r: Result<(), StoreError>)
        requires
            old(self).wf(),
            event@.wf(),
        ensures
            final(self).wf(),
            final(self)@.calendars == old(self)@.calendars,
            match r {
                Ok(_) => old(self)@.calendars.dom().contains(event@.calendar_id)
                    && final(self)@.events == old(self)@.events.insert(
                    (event@.calendar_id, event@.event_id),
                    event@,
                ),
                Err(e) => e == StoreError::ForeignKeyViolation && !old(self)@.calendars.dom()
                    .contains(event@.calendar_id) && final(self)@ == old(self)@,
            },
    {
        proof {
            lemma_keyed_map_contains(self.cal_rows(), cal_key(), event.calendar_id@);
        }
        let cal_idx = match self.find_calendar_index(&event.calendar_id) {
            Some(i) => i,
            None => {
                proof {
                    assert forall|j: int| 0 <= j < self.cal_rows().len() implies cal_key()(
                        self.cal_rows()[j],
                    ) != event.calendar_id@ by {
                        assert(self.cal_rows()[j].id != event.calendar_id@);
                    }
                }
                return Err(StoreError::ForeignKeyViolation);
            },
        };
        proof {
            assert(cal_key()(self.cal_rows()[cal_idx as int]) == event.calendar_id@);
            assert(self@.calendars.dom().contains(event@.calendar_id));
        }
        let ghost pre = self.event_rows();
        let ghost pre_cals = self.cal_rows();
        let ghost k = (event@.calendar_id, event@.event_id);
        match self.find_event_index(&event.calendar_id, &event.event_id) {
            Some(i) => {
                proof {
                    assert(event_key()(pre[i as int]) == k);
                    assert(event_key()(event@) == k);
                    lemma_keyed_map_update(pre, event_key(), i as int, event@);
                }
                let ghost restored = event@;
                let slot = vstd::std_specs::vec::vec_index_mut(&mut self.events, i);
                *slot = event;
                proof {
                    assert(self.event_rows() =~= pre.update(i as int, restored));
                    assert(self.cal_rows() =~= pre_cals);
                }
            },
            None => {
                proof {
                    assert(event_key()(event@) == k);
                    assert forall|j: int| 0 <= j < pre.len() implies event_key()(pre[j])
                        != event_key()(event@) by {
                        assert(pre[j].calendar_id != event.calendar_id@ || pre[j].event_id
                            != event.event_id@);
                    }
                    lemma_keyed_map_push(pre, event_key(), event@);
                }
                let ghost restored = event@;
                self.events.push(event);
                proof {
                    assert(self.event_rows() =~= pre.push(restored));
                    assert(self.cal_rows() =~= pre_cals);
                }
            },
        }
        Ok(())
    }

    /// The ids of the calendars whose events are to be drained: exactly
    /// those whose row has `sync_enabled`, each once.
    pub fn sync_enabled_calendar_ids(&self) -> (r: Vec<String>)
        requires
            self.wf(),
        ensures
            forall|i: int|
                0 <= i < r@.len() ==> self@.calendars.dom().contains(#[trigger] r@[i]@)
                    && self@.calendars[r@[i]@].sync_enabled,
            forall|id: Seq<char>|
                self@.calendars.dom().contains(id) && self@.calendars[id].sync_enabled
                    ==> exists|i: int| 0 <= i < r@.len() && #[trigger] r@[i]@ == id,
    {
        let mut r: Vec<String> = Vec::new();
        let n = self.calendars.len();
        let mut i: usize = 0;
        while i < n
            invariant
                self.wf(),
                n == self.cal_rows().len(),
                i <= n,
                forall|p: int|
                    0 <= p < r@.len() ==> self@.calendars.dom().contains(#[trigger] r@[p]@)
                        && self@.calendars[r@[p]@].sync_enabled,
                forall|j: int|
                    0 <= j < i && (#[trigger] self.cal_rows()[j]).sync_enabled ==> exists|p: int|
                        0 <= p < r@.len() && #[trigger] r@[p]@ == self.cal_rows()[j].id,
            decreases n - i,
        {
            if self.calendars[i].sync_enabled {
                proof {
                    lemma_keyed_map_index(self.cal_rows(), cal_key(), i as int);
                }
                let ghost r0 = r@;
                r.push(self.calendars[i].id.clone());
                proof {
                    assert(r@[r@.len() - 1]@ == self.cal_rows()[i as int].id);
                    assert forall|j: int|
                        0 <= j < i + 1 && (#[trigger] self.cal_rows()[j]).sync_enabled
                            implies exists|p: int|
                            0 <= p < r@.len() && #[trigger] r@[p]@ == self.cal_rows()[j].id by {
                        if j < i {
                            let p0 = choose|p: int|
                                0 <= p < r0.len() && #[trigger] r0[p]@ == self.cal_rows()[j].id;
                            assert(r@[p0] == r0[p0]);
                            assert(r@[p0]@ == self.cal_rows()[j].id);
                        } else {
                            assert(r@[r@.len() - 1]@ == self.cal_rows()[j].id);
                        }
                    }
                }
            }
            i = i + 1;
        }
        proof {
            assert forall|id: Seq<char>|
                self@.calendars.dom().contains(id) && self@.calendars[id].sync_enabled
                    implies exists|p: int| 0 <= p < r@.len() && #[trigger] r@[p]@ == id by {
                lemma_keyed_map_contains(self.cal_rows(), cal_key(), id);
                let j = choose|j: int|
                    0 <= j < self.cal_rows().len() && cal_key()(self.cal_rows()[j]) == id;
                lemma_keyed_map_index(self.cal_rows(), cal_key(), j);
                assert(self.cal_rows()[j].sync_enabled);
            }
        }
        r
    }
}

/// Idempotence of the calendar merge: merging the same record twice
/// leaves the same single row as merging it once.
pub proof fn lemma_merge_calendar_idempotent(cals: Map<Seq<char>, CalendarModel>, c: CalendarModel)
    ensures
        spec_merge_calendar(spec_merge_calendar(cals, c), c) == spec_merge_calendar(cals, c),
{
    assert(spec_merge_calendar(spec_merge_calendar(cals, c), c) =~= spec_merge_calendar(cals, c));
}

/// Idempotence of the event merge: merging the same record twice leaves
/// the same single row as merging it once, whether or not the local row
/// carried an unpushed edit.
pub proof fn lemma_merge_event_idempotent(
    evs: Map<(Seq<char>, Seq<char>), EventModel>,
    e: EventModel,
)
    ensures
        spec_merge_event(spec_merge_event(evs, e), e) == spec_merge_event(evs, e),
{
    let k = (e.calendar_id, e.event_id);
    let m1 = spec_merged_event(evs, e);
    assert(spec_merge_event(evs, e)[k] == m1);
    assert(spec_merged_event(spec_merge_event(evs, e), e) == m1);
    assert(spec_merge_event(spec_merge_event(evs, e), e) =~= spec_merge_event(evs, e));
}

/// Local-edit preservation: when the stored row carries an unpushed edit,
/// merging an incoming remote record leaves every user-visible field as
/// edited, keeps the dirty flag raised, and records only the incoming
/// version tag.
pub proof fn lemma_local_edit_preserved(
    evs: Map<(Seq<char>, Seq<char>), EventModel>,
    e: EventModel,
)
    requires
        evs.dom().contains((e.calendar_id, e.event_id)),
        evs[(e.calendar_id, e.event_id)].updated,
    ensures
        ({
            let k = (e.calendar_id, e.event_id);
            let row = spec_merge_event(evs, e)[k];
            row.title == evs[k].title && row.description == evs[k].description && row.location
                == evs[k].location && row.start_time == evs[k].start_time && row.end_time
                == evs[k].end_time && row.updated && row.etag == e.etag
        }),
{
}

} // verus!
