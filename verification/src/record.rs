//! Scoring records: the persisted, later-editable outcome of one run.
//!
//! A record is created once per terminal event (stop, DNF, miss-course) and
//! is thereafter mutable in place. It is never deleted, only marked removed
//! and possibly reinstated.

use vstd::prelude::*;

verus! {

/// The scoring state of a record.
#[derive(Clone, Copy, Debug, PartialEq, Eq, Structural)]
pub enum RecordState {
    /// A regular finish.
    Checkered,
    /// The entrant left the course.
    MissCourse,
    /// The entrant never started.
    DidNotStarted,
    /// The entrant started but did not finish.
    DidNotFinished,
    /// Soft-deleted; the record stays addressable.
    Removed,
}

/// Mathematical model of a record: every field as a plain value.
pub struct RecordV {
    pub id: Seq<char>,
    pub state: RecordState,
    pub duration: u64,
    pub competition_entry_id: Seq<char>,
    pub pylon_touch_count: u32,
    pub derailment_count: u32,
    pub record_type: Seq<char>,
    pub timestamp: u64,
}

/// One entrant's scoring outcome. Durations and timestamps are milliseconds.
#[derive(Debug)]
pub struct Record {
    pub(crate) id: String,
    pub(crate) state: RecordState,
    pub(crate) duration: u64,
    pub(crate) competition_entry_id: String,
    pub(crate) pylon_touch_count: u32,
    pub(crate) derailment_count: u32,
    pub(crate) record_type: String,
    pub(crate) timestamp: u64,
}

impl View for Record {
    type V = RecordV;

    closed spec fn view(&self) -> RecordV {
        RecordV {
            id: self.id@,
            state: self.state,
            duration: self.duration,
            competition_entry_id: self.competition_entry_id@,
            pylon_touch_count: self.pylon_touch_count,
            derailment_count: self.derailment_count,
            record_type: self.record_type@,
            timestamp: self.timestamp,
        }
    }
}

impl Record {
    /// A freshly created record with the given fields.
    pub fn new(
        id: String,
        state: RecordState,
        duration: u64,
        competition_entry_id: String,
        pylon_touch_count: u32,
        derailment_count: u32,
        record_type: String,
        timestamp: u64,
    ) -> (r: Record)
        ensures
            r@ == (RecordV {
                id: id@,
                state,
                duration,
                competition_entry_id: competition_entry_id@,
                pylon_touch_count,
                derailment_count,
                record_type: record_type@,
                timestamp,
            }),
    {
        Record {
            id,
            state,
            duration,
            competition_entry_id,
            pylon_touch_count,
            derailment_count,
            record_type,
            timestamp,
        }
    }

    /// Overwrite the scoring state; every other field is untouched.
    pub fn set_state(&mut self, state: RecordState)
        ensures
            final(self)@ == (RecordV { state, ..old(self)@ }),
    {
        self.state = state;
    }

    /// Overwrite the pylon-touch count; every other field is untouched.
    pub fn set_pylon_touch_count(&mut self, count: u32)
        ensures
            final(self)@ == (RecordV { pylon_touch_count: count, ..old(self)@ }),
    {
        self.pylon_touch_count = count;
    }

    /// Overwrite the derailment count; every other field is untouched.
    pub fn set_derailment_count(&mut self, count: u32)
        ensures
            final(self)@ == (RecordV { derailment_count: count, ..old(self)@ }),
    {
        self.derailment_count = count;
    }

    /// Overwrite the record type; every other field is untouched.
    pub fn set_record_type(&mut self, record_type: String)
        ensures
            final(self)@ == (RecordV { record_type: record_type@, ..old(self)@ }),
    {
        self.record_type = record_type;
    }

    /// The record's identifier.
    pub fn get_id(&self) -> (r: &str)
        ensures
            r@ == self@.id,
    {
        self.id.as_str()
    }

    /// The record's identifier as the owned string it is stored as.
    pub fn get_id_string(&self) -> (r: &String)
        ensures
            r@ == self@.id,
    {
        &self.id
    }

    /// The scoring state.
    pub fn get_state(&self) -> (r: RecordState)
        ensures
            r == self@.state,
    {
        self.state
    }

    /// The measured duration in milliseconds.
    pub fn get_duration(&self) -> (r: u64)
        ensures
            r == self@.duration,
    {
        self.duration
    }

    /// The entrant the record scores.
    pub fn get_competition_entry_id(&self) -> (r: &str)
        ensures
            r@ == self@.competition_entry_id,
    {
        self.competition_entry_id.as_str()
    }

    /// The pylon-touch count recorded.
    pub fn get_pylon_touch_count(&self) -> (r: u32)
        ensures
            r == self@.pylon_touch_count,
    {
        self.pylon_touch_count
    }

    /// The derailment count recorded.
    pub fn get_derailment_count(&self) -> (r: u32)
        ensures
            r == self@.derailment_count,
    {
        self.derailment_count
    }

    /// The record type the track carried when the record was created, or the
    /// value a later correction overwrote it with.
    pub fn get_record_type(&self) -> (r: &str)
        ensures
            r@ == self@.record_type,
    {
        self.record_type.as_str()
    }

    /// The logical timestamp of the terminal event.
    pub fn get_timestamp(&self) -> (r: u64)
        ensures
            r == self@.timestamp,
    {
        self.timestamp
    }
}

} // verus!
