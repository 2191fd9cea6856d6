//! The flat list of measured results kept by the standalone measurement
//! service: one line per run, each with a generated id, a duration and a
//! schema-validated metadata text.

use vstd::prelude::*;

use crate::ids::generate_id;
use crate::pending_queue::{compile_schema_text, meta_accepted, schema_accepts, schema_compiles};

verus! {

/// Error kinds of the record store.
#[derive(Clone, Copy, Debug, PartialEq, Eq, Structural)]
pub enum RecordsError {
    /// The metadata text is not JSON accepted by the schema.
    MetadataValidationFailed,
    /// No stored record carries the given id.
    NoSuchRecord,
}

/// Model of one stored result line.
pub struct RecordLineV {
    pub record_id: Seq<char>,
    pub duration: u64,
    pub meta: Seq<char>,
}

/// One stored result line.
#[derive(Debug)]
pub struct RecordLine {
    record_id: String,
    duration: u64,
    meta: String,
}

impl View for RecordLine {
    type V = RecordLineV;

    closed spec fn view(&self) -> RecordLineV {
        RecordLineV { record_id: self.record_id@, duration: self.duration, meta: self.meta@ }
    }
}

impl RecordLine {
    /// The line's generated id.
    pub fn record_id(&self) -> (r: &String)
        ensures
            r@ == self@.record_id,
    {
        &self.record_id
    }

    /// The measured duration in milliseconds.
    pub fn duration(&self) -> (r: u64)
        ensures
            r == self@.duration,
    {
        self.duration
    }

    /// The line's metadata text.
    pub fn meta(&self) -> (r: &String)
        ensures
            r@ == self@.meta,
    {
        &self.meta
    }
}

/// A sink that files one measured result.
pub trait RecordService {
    /// The sink's own invariant.
    spec fn sink_wf(&self) -> bool;

    /// The metadata of the filed results, oldest first.
    spec fn sink_model(&self) -> Seq<(u64, Seq<char>)>;

    /// File one result. A sink may refuse a result it cannot hold; it then
    /// stays unchanged.
    fn record(&mut self, duration: u64, meta: String)
        requires
            old(self).sink_wf(),
        ensures
            final(self).sink_wf(),
            final(self).sink_model() == old(self).sink_model().push((duration, meta@))
                || final(self).sink_model() == old(self).sink_model(),
    ;
}

/// The first index in `s` of a line with the given id, if any.
pub open spec fn find_line(s: Seq<RecordLineV>, id: Seq<char>) -> Option<int>
    decreases s.len(),
{
    if s.len() == 0 {
        None
    } else if s[0].record_id == id {
        Some(0)
    } else {
        match find_line(s.drop_first(), id) {
            Some(i) => Some(i + 1),
            None => None,
        }
    }
}

/// `find_line` returns the first matching index, or rules a match out.
pub proof fn lemma_find_line(s: Seq<RecordLineV>, id: Seq<char>)
    ensures
        match find_line(s, id) {
            Some(i) => 0 <= i < s.len() && s[i].record_id == id && (forall|j: int|
                0 <= j < i ==> s[j].record_id != id),
            None => forall|j: int| 0 <= j < s.len() ==> s[j].record_id != id,
        },
    decreases s.len(),
{
    if s.len() != 0 && s[0].record_id != id {
        lemma_find_line(s.drop_first(), id);
        assert forall|j: int| 1 <= j < s.len() implies s.drop_first()[j - 1] == s[j] by {}
    }
}

/// The record store: result lines in filing order.
#[derive(Debug)]
pub struct Records {
    records: Vec<RecordLine>,
    schema: String,
}

impl View for Records {
    type V = Seq<RecordLineV>;

    closed spec fn view(&self) -> Seq<RecordLineV> {
        self.records@.map_values(|r: RecordLine| r@)
    }
}

impl Records {
    /// The schema every metadata text is validated against.
    pub closed spec fn schema_spec(&self) -> Seq<char> {
        self.schema@
    }

    /// Well-formedness: the schema compiles.
    pub open spec fn wf(&self) -> bool {
        schema_compiles(self.schema_spec())
    }

    /// An empty store over the given schema.
    pub fn new(schema: String) -> (r: Records)
        requires
            schema_compiles(schema@),
        ensures
            r.wf(),
            r.schema_spec() == schema@,
            r@ =~= Seq::<RecordLineV>::empty(),
    {
        let r = Records { records: Vec::new(), schema };
        proof {
            assert(r@ =~= Seq::<RecordLineV>::empty());
        }
        r
    }

    /// An empty store over the given schema text, refused unless it
    /// compiles.
    pub fn try_new(schema: String) -> (r: Option<Records>)
        ensures
            match r {
                Some(store) => {
                    &&& schema_compiles(schema@)
                    &&& store.wf()
                    &&& store.schema_spec() == schema@
                    &&& store@ =~= Seq::<RecordLineV>::empty()
                },
                None => !schema_compiles(schema@),
            },
    {
        if !compile_schema_text(&schema) {
            return None;
        }
        Some(Records::new(schema))
    }

    /// How many lines are stored.
    pub fn len(&self) -> (r: usize)
        ensures
            r == self@.len(),
    {
        self.records.len()
    }

    /// The stored line at `index`, if any.
    pub fn get_line(&self, index: usize) -> (r: Option<&RecordLine>)
        ensures
            match r {
                Some(line) => index < self@.len() && line@ == self@[index as int],
                None => index >= self@.len(),
            },
    {
        if index < self.records.len() {
            Some(&self.records[index])
        } else {
            None
        }
    }

    /// File one result under a fresh id; refused when the metadata fails
    /// validation, leaving the store unchanged.
    pub fn add(&mut self, duration: u64, meta: &str) -> (r: Result<(), RecordsError>)
        requires
            old(self).wf(),
        ensures
            final(self).wf(),
            final(self).schema_spec() == old(self).schema_spec(),
            if schema_accepts(old(self).schema_spec(), meta@) {
                &&& r == Ok::<(), RecordsError>(())
                &&& final(self)@.len() == old(self)@.len() + 1
                &&& (forall|m: int| 0 <= m < old(self)@.len() ==> final(self)@[m] == old(self)@[m])
                &&& final(self)@.last().duration == duration
                &&& final(self)@.last().meta == meta@
                &&& final(self)@.last().record_id.len() == 21
            } else {
                r == Err::<(), RecordsError>(RecordsError::MetadataValidationFailed)
                    && final(self)@ == old(self)@
            },
    {
        let meta_text = meta.to_owned();
        if !meta_accepted(&self.schema, &meta_text) {
            return Err(RecordsError::MetadataValidationFailed);
        }
        let line = RecordLine { record_id: generate_id(), duration, meta: meta_text };
        self.records.push(line);
        Ok(())
    }

    /// Overwrite the line with the given id; refused when no line carries
    /// it or the new metadata fails validation, leaving the store unchanged.
    pub fn update(&mut self, record_id: &str, duration: u64, meta: &str) -> (r: Result<
        (),
        RecordsError,
    >)
        requires
            old(self).wf(),
        ensures
            final(self).wf(),
            final(self).schema_spec() == old(self).schema_spec(),
            match find_line(old(self)@, record_id@) {
                None => r == Err::<(), RecordsError>(RecordsError::NoSuchRecord) && final(self)@
                    == old(self)@,
                Some(i) => {
                    if schema_accepts(old(self).schema_spec(), meta@) {
                        r == Ok::<(), RecordsError>(()) && final(self)@ =~= old(self)@.update(
                            i,
                            (RecordLineV { record_id: record_id@, duration, meta: meta@ }),
                        )
                    } else {
                        r == Err::<(), RecordsError>(RecordsError::MetadataValidationFailed)
                            && final(self)@ == old(self)@
                    }
                },
            },
    {
        let key = record_id.to_owned();
        let index = match self.find_line_index(&key) {
            Some(i) => i,
            None => {
                return Err(RecordsError::NoSuchRecord);
            },
        };
        let meta_text = meta.to_owned();
        if !meta_accepted(&self.schema, &meta_text) {
            return Err(RecordsError::MetadataValidationFailed);
        }
        proof {
            lemma_find_line(self@, key@);
        }
        let _old_line = self.records.remove(index);
        self.records.insert(index, RecordLine { record_id: key, duration, meta: meta_text });
        proof {
            assert(self@ =~= old(self)@.update(
                index as int,
                (RecordLineV {
                    record_id: record_id@,
                    duration,
                    meta: self@[index as int].meta,
                }),
            ));
        }
        Ok(())
    }

    /// Remove the line with the given id; refused when no line carries it.
    pub fn remove(&mut self, record_id: &str) -> (r: Result<(), RecordsError>)
        requires
            old(self).wf(),
        ensures
            final(self).wf(),
            final(self).schema_spec() == old(self).schema_spec(),
            match find_line(old(self)@, record_id@) {
                None => r == Err::<(), RecordsError>(RecordsError::NoSuchRecord) && final(self)@
                    == old(self)@,
                Some(i) => r == Ok::<(), RecordsError>(()) && final(self)@ =~= old(
                    self,
                )@.remove(i),
            },
    {
        let key = record_id.to_owned();
        let index = match self.find_line_index(&key) {
            Some(i) => i,
            None => {
                return Err(RecordsError::NoSuchRecord);
            },
        };
        proof {
            lemma_find_line(self@, key@);
        }
        self.records.remove(index);
        proof {
            assert(self@ =~= old(self)@.remove(index as int));
        }
        Ok(())
    }

    /// Empty the store.
    pub fn remove_all(&mut self) -> (r: Result<(), RecordsError>)
        requires
            old(self).wf(),
        ensures
            final(self).wf(),
            final(self).schema_spec() == old(self).schema_spec(),
            r == Ok::<(), RecordsError>(()),
            final(self)@ =~= Seq::<RecordLineV>::empty(),
    {
        self.records.clear();
        proof {
            assert(self@ =~= Seq::<RecordLineV>::empty());
        }
        Ok(())
    }

    /// The first index of the line with the given id.
    fn find_line_index(&self, id: &String) -> (r: Option<usize>)
        ensures
            match r {
                Some(i) => find_line(self@, id@) == Some(i as int),
                None => find_line(self@, id@) is None,
            },
    {
        let n = self.records.len();
        let mut i: usize = 0;
        while i < n
            invariant
                n == self.records.len(),
                0 <= i <= n,
                forall|j: int| 0 <= j < i ==> self@[j].record_id != id@,
            decreases n - i,
        {
            if self.records[i].record_id == *id {
                proof {
                    let s = self@;
                    lemma_find_line(s, id@);
                    assert(s[i as int].record_id == id@);
                    if let Some(k) = find_line(s, id@) {
                        assert(!(k < i as int));
                        assert(!((i as int) < k));
                    }
                }
                return Some(i);
            }
            i += 1;
        }
        proof {
            lemma_find_line(self@, id@);
        }
        None
    }
}

impl RecordService for Records {
    /// The store's own invariant.
    open spec fn sink_wf(&self) -> bool {
        self.wf()
    }

    /// The filed results, oldest first.
    open spec fn sink_model(&self) -> Seq<(u64, Seq<char>)> {
        self@.map_values(|r: RecordLineV| (r.duration, r.meta))
    }

    /// File one result; a result whose metadata the schema refuses is
    /// dropped rather than failing the run that produced it.
    fn record(&mut self, duration: u64, meta: String)
        ensures
            if schema_accepts(old(self).schema_spec(), meta@) {
                final(self).sink_model() == old(self).sink_model().push((duration, meta@))
            } else {
                final(self).sink_model() == old(self).sink_model()
            },
    {
        let _ = self.add(duration, meta.as_str());
        proof {
            if schema_accepts(old(self).schema_spec(), meta@) {
                assert(self.sink_model() =~= old(self).sink_model().push((duration, meta@)));
            } else {
                assert(self.sink_model() =~= old(self).sink_model());
            }
        }
    }
}

} // verus!
