//! The queue of entrants waiting to run, each with a metadata text that must
//! satisfy a JSON Schema fixed at construction.
//!
//! The queue is seeded with one entry carrying the default metadata, and is
//! refilled with it whenever a removal or a consumption empties it, so that
//! a consumer always finds something to run next.

use vstd::prelude::*;

use crate::ids::generate_id;

verus! {

/// Whether a text parses as JSON and compiles as a JSON Schema.
pub uninterp spec fn schema_compiles(schema: Seq<char>) -> bool;

/// Whether a metadata text parses as JSON and satisfies the schema.
pub uninterp spec fn schema_accepts(schema: Seq<char>, meta: Seq<char>) -> bool;

/// Relies on serde_json::from_str and jsonschema::validator_for: whether the
/// text parses as JSON and compiles as a JSON Schema. With the resolving
/// features disabled the outcome depends on the text alone.
#[verifier::external_body]
pub(crate) fn compile_schema_text(schema: &String) -> (r: bool)
    ensures
        r == schema_compiles(schema@),
{
    match serde_json::from_str::<serde_json::Value>(schema.as_str()) {
        Ok(v) => jsonschema::validator_for(&v).is_ok(),
        Err(_) => false,
    }
}

/// Relies on serde_json::from_str and jsonschema::Validator::is_valid:
/// whether the metadata text parses as JSON and satisfies the schema. With
/// the resolving features disabled the outcome depends on the texts alone.
#[verifier::external_body]
pub(crate) fn meta_accepted(schema: &String, meta: &String) -> (r: bool)
    requires
        schema_compiles(schema@),
    ensures
        r == schema_accepts(schema@, meta@),
{
    let schema_value = match serde_json::from_str::<serde_json::Value>(schema.as_str()) {
        Ok(v) => v,
        Err(_) => return false,
    };
    let validator = match jsonschema::validator_for(&schema_value) {
        Ok(v) => v,
        Err(_) => return false,
    };
    match serde_json::from_str::<serde_json::Value>(meta.as_str()) {
        Ok(v) => validator.is_valid(&v),
        Err(_) => false,
    }
}

/// Error kinds of the pending-car queue.
#[derive(Clone, Copy, Debug, PartialEq, Eq, Structural)]
pub enum QueueError {
    /// The metadata text is not JSON accepted by the schema.
    MetadataValidationFailed,
    /// An insertion position beyond the end of the queue.
    IndexTooLarge,
    /// No queued car carries the given id.
    NoSuchCar,
}

/// Model of one queued car.
pub struct PendingCarV {
    pub id: Seq<char>,
    pub meta: Seq<char>,
}

/// One entrant waiting to run: a generated id and its metadata text.
#[derive(Debug)]
pub struct PendingCar {
    id: String,
    meta: String,
}

impl View for PendingCar {
    type V = PendingCarV;

    closed spec fn view(&self) -> PendingCarV {
        PendingCarV { id: self.id@, meta: self.meta@ }
    }
}

impl PendingCar {
    /// The car's generated id.
    pub fn id(&self) -> (r: &String)
        ensures
            r@ == self@.id,
    {
        &self.id
    }

    /// The car's metadata text.
    pub fn meta(&self) -> (r: &String)
        ensures
            r@ == self@.meta,
    {
        &self.meta
    }
}

impl Clone for PendingCar {
    fn clone(&self) -> (r: Self)
        ensures
            r@ == self@,
    {
        PendingCar { id: self.id.clone(), meta: self.meta.clone() }
    }
}

/// A queue that consumes metadata from the front, if anything is queued.
pub trait NextCarQueue {
    /// The implementation's own invariant.
    spec fn queue_wf(&self) -> bool;

    /// The queued metadata texts, front first.
    spec fn queue_model(&self) -> Seq<Seq<char>>;

    /// Consume the front of the queue, if any.
    fn consume_next_car(&mut self) -> (r: Option<String>)
        requires
            old(self).queue_wf(),
        ensures
            final(self).queue_wf(),
            match r {
                None => old(self).queue_model().len() == 0 && final(self).queue_model()
                    == old(self).queue_model(),
                Some(m) => old(self).queue_model().len() > 0 && m@ == old(
                    self,
                ).queue_model()[0],
            },
    ;
}

/// The first index in `s` of a car with the given id, if any.
pub open spec fn find_pending(s: Seq<PendingCarV>, id: Seq<char>) -> Option<int>
    decreases s.len(),
{
    if s.len() == 0 {
        None
    } else if s[0].id == id {
        Some(0)
    } else {
        match find_pending(s.drop_first(), id) {
            Some(i) => Some(i + 1),
            None => None,
        }
    }
}

/// `find_pending` returns the first matching index, or rules a match out.
pub proof fn lemma_find_pending(s: Seq<PendingCarV>, id: Seq<char>)
    ensures
        match find_pending(s, id) {
            Some(i) => 0 <= i < s.len() && s[i].id == id && (forall|j: int|
                0 <= j < i ==> s[j].id != id),
            None => forall|j: int| 0 <= j < s.len() ==> s[j].id != id,
        },
    decreases s.len(),
{
    if s.len() != 0 && s[0].id != id {
        lemma_find_pending(s.drop_first(), id);
        assert forall|j: int| 1 <= j < s.len() implies s.drop_first()[j - 1] == s[j] by {}
    }
}

/// The queue of entrants waiting to run.
#[derive(Debug)]
pub struct PendingCarQueue {
    queue: Vec<PendingCar>,
    schema: String,
    default_meta: String,
}

impl View for PendingCarQueue {
    type V = Seq<PendingCarV>;

    closed spec fn view(&self) -> Seq<PendingCarV> {
        self.queue@.map_values(|c: PendingCar| c@)
    }
}

impl PendingCarQueue {
    /// The schema every metadata text is validated against.
    pub closed spec fn schema_spec(&self) -> Seq<char> {
        self.schema@
    }

    /// The default metadata used to seed and refill the queue.
    pub closed spec fn default_meta_spec(&self) -> Seq<char> {
        self.default_meta@
    }

    /// Well-formedness: the schema compiles and accepts the default.
    pub open spec fn wf(&self) -> bool {
        &&& schema_compiles(self.schema_spec())
        &&& schema_accepts(self.schema_spec(), self.default_meta_spec())
    }

    /// A queue over the given schema, seeded with one default entry.
    pub fn new(schema: String, default_meta: String) -> (r: PendingCarQueue)
        requires
            schema_compiles(schema@),
            schema_accepts(schema@, default_meta@),
        ensures
            r.wf(),
            r.schema_spec() == schema@,
            r.default_meta_spec() == default_meta@,
            r@.len() == 1,
            r@[0].meta == default_meta@,
            r@[0].id.len() == 21,
    {
        let seed = PendingCar { id: generate_id(), meta: default_meta.clone() };
        let mut queue: Vec<PendingCar> = Vec::new();
        queue.push(seed);
        PendingCarQueue { queue, schema, default_meta }
    }

    /// A queue over the given texts, refused unless the schema compiles and
    /// accepts the default metadata.
    pub fn try_new(schema: String, default_meta: String) -> (r: Option<PendingCarQueue>)
        ensures
            match r {
                Some(q) => {
                    &&& schema_compiles(schema@)
                    &&& schema_accepts(schema@, default_meta@)
                    &&& q.wf()
                    &&& q.schema_spec() == schema@
                    &&& q.default_meta_spec() == default_meta@
                    &&& q@.len() == 1
                    &&& q@[0].meta == default_meta@
                },
                None => !(schema_compiles(schema@) && schema_accepts(schema@, default_meta@)),
            },
    {
        if !compile_schema_text(&schema) {
            return None;
        }
        if !meta_accepted(&schema, &default_meta) {
            return None;
        }
        Some(PendingCarQueue::new(schema, default_meta))
    }

    /// How many cars are queued.
    pub fn len(&self) -> (r: usize)
        ensures
            r == self@.len(),
    {
        self.queue.len()
    }

    /// The queued car at `index`, if any.
    pub fn get_car(&self, index: usize) -> (r: Option<&PendingCar>)
        ensures
            match r {
                Some(c) => index < self@.len() && c@ == self@[index as int],
                None => index >= self@.len(),
            },
    {
        if index < self.queue.len() {
            Some(&self.queue[index])
        } else {
            None
        }
    }

    /// Queue a metadata text under a fresh id, at `index` or at the back.
    /// Refused when the metadata fails validation, or the index lies beyond
    /// the end; the queue is then unchanged.
    pub fn insert(&mut self, meta: String, index: Option<usize>) -> (r: Result<(), QueueError>)
        requires
            old(self).wf(),
        ensures
            final(self).wf(),
            final(self).schema_spec() == old(self).schema_spec(),
            final(self).default_meta_spec() == old(self).default_meta_spec(),
            !schema_accepts(old(self).schema_spec(), meta@) ==> r == Err::<(), QueueError>(
                QueueError::MetadataValidationFailed,
            ) && final(self)@ == old(self)@,
            schema_accepts(old(self).schema_spec(), meta@) ==> match index {
                Some(i) => {
                    if i > old(self)@.len() {
                        r == Err::<(), QueueError>(QueueError::IndexTooLarge) && final(self)@
                            == old(self)@
                    } else {
                        r == Ok::<(), QueueError>(()) && inserted_at(
                            old(self)@,
                            final(self)@,
                            i as int,
                            meta@,
                        )
                    }
                },
                None => r == Ok::<(), QueueError>(()) && inserted_at(
                    old(self)@,
                    final(self)@,
                    old(self)@.len() as int,
                    meta@,
                ),
            },
    {
        if !meta_accepted(&self.schema, &meta) {
            return Err(QueueError::MetadataValidationFailed);
        }
        let car = PendingCar { id: generate_id(), meta };
        match index {
            Some(i) => {
                if i > self.queue.len() {
                    return Err(QueueError::IndexTooLarge);
                }
                self.queue.insert(i, car);
                proof {
                    assert(self@ =~= old(self)@.insert(i as int, self@[i as int]));
                }
            },
            None => {
                self.queue.push(car);
                proof {
                    assert(self@ =~= old(self)@.insert(
                        old(self)@.len() as int,
                        self@[old(self)@.len() as int],
                    ));
                }
            },
        }
        Ok(())
    }

    /// Remove the car with the given id; refused when no queued car carries
    /// it. A removal that empties the queue refills it with one default
    /// entry under a fresh id.
    pub fn remove(&mut self, id: &str) -> (r: Result<(), QueueError>)
        requires
            old(self).wf(),
        ensures
            final(self).wf(),
            final(self).schema_spec() == old(self).schema_spec(),
            final(self).default_meta_spec() == old(self).default_meta_spec(),
            match find_pending(old(self)@, id@) {
                None => r == Err::<(), QueueError>(QueueError::NoSuchCar) && final(self)@
                    == old(self)@,
                Some(i) => r == Ok::<(), QueueError>(()) && {
                    if old(self)@.len() == 1 {
                        final(self)@.len() == 1 && final(self)@[0].meta == old(
                            self,
                        ).default_meta_spec() && final(self)@[0].id.len() == 21
                    } else {
                        final(self)@ == old(self)@.remove(i)
                    }
                },
            },
    {
        let key = id.to_owned();
        let index = match self.find_car_index(&key) {
            Some(i) => i,
            None => {
                return Err(QueueError::NoSuchCar);
            },
        };
        proof {
            lemma_find_pending(self@, key@);
        }
        self.queue.remove(index);
        if self.queue.len() == 0 {
            let seed = PendingCar { id: generate_id(), meta: self.default_meta.clone() };
            self.queue.push(seed);
            proof {
                assert(old(self)@.len() == 1);
            }
        } else {
            proof {
                assert(self@ =~= old(self)@.remove(index as int));
            }
        }
        Ok(())
    }

    /// Overwrite the metadata of the car with the given id; refused when no
    /// queued car carries it. The id and the position stay.
    pub fn update(&mut self, id: &str, meta: String) -> (r: Result<(), QueueError>)
        requires
            old(self).wf(),
        ensures
            final(self).wf(),
            final(self).schema_spec() == old(self).schema_spec(),
            final(self).default_meta_spec() == old(self).default_meta_spec(),
            match find_pending(old(self)@, id@) {
                None => r == Err::<(), QueueError>(QueueError::NoSuchCar) && final(self)@
                    == old(self)@,
                Some(i) => r == Ok::<(), QueueError>(()) && final(self)@ =~= old(self)@.update(
                    i,
                    (PendingCarV { id: old(self)@[i].id, meta: meta@ }),
                ),
            },
    {
        let key = id.to_owned();
        let index = match self.find_car_index(&key) {
            Some(i) => i,
            None => {
                return Err(QueueError::NoSuchCar);
            },
        };
        proof {
            lemma_find_pending(self@, key@);
        }
        let old_car = self.queue.remove(index);
        let new_car = PendingCar { id: old_car.id, meta };
        self.queue.insert(index, new_car);
        proof {
            assert(self@ =~= old(self)@.update(
                index as int,
                (PendingCarV { id: old(self)@[index as int].id, meta: self@[index as int].meta }),
            ));
        }
        Ok(())
    }

    /// Queue several metadata texts, each under a fresh id, at `position` or
    /// at the back. Refused when the position lies beyond the end, or any
    /// text fails validation; the queue is then unchanged.
    pub fn insert_many(&mut self, metas: Vec<String>, position: Option<usize>) -> (r: Result<
        (),
        QueueError,
    >)
        requires
            old(self).wf(),
        ensures
            final(self).wf(),
            final(self).schema_spec() == old(self).schema_spec(),
            final(self).default_meta_spec() == old(self).default_meta_spec(),
            ({
                let pos = match position {
                    Some(p) => p as int,
                    None => old(self)@.len() as int,
                };
                if pos > old(self)@.len() {
                    r == Err::<(), QueueError>(QueueError::IndexTooLarge)
                        && final(self)@ == old(self)@
                } else if (exists|k: int|
                    0 <= k < metas@.len() && !schema_accepts(
                        old(self).schema_spec(),
                        metas@[k]@,
                    )) {
                    r == Err::<(), QueueError>(QueueError::MetadataValidationFailed)
                        && final(self)@ == old(self)@
                } else {
                    r == Ok::<(), QueueError>(()) && many_inserted_at(
                        old(self)@,
                        final(self)@,
                        pos,
                        metas@.map_values(|m: String| m@),
                    )
                }
            }),
    {
        let at = match position {
            Some(p) => p,
            None => self.queue.len(),
        };
        if at > self.queue.len() {
            return Err(QueueError::IndexTooLarge);
        }
        let ghost pos_spec: int = match position {
            Some(p) => p as int,
            None => old(self)@.len() as int,
        };
        let n = metas.len();
        let mut k: usize = 0;
        while k < n
            invariant
                n == metas.len(),
                0 <= k <= n,
                self == old(self),
                old(self).wf(),
                at <= old(self)@.len(),
                at as int == pos_spec,
                pos_spec == (match position {
                    Some(p) => p as int,
                    None => old(self)@.len() as int,
                }),
                forall|m: int| 0 <= m < k ==> schema_accepts(old(self).schema_spec(), metas@[m]@),
            decreases n - k,
        {
            if !meta_accepted(&self.schema, &metas[k]) {
                proof {
                    let kk = k as int;
                    assert(0 <= kk < metas@.len() && !schema_accepts(
                        old(self).schema_spec(),
                        metas@[kk]@,
                    ));
                }
                return Err(QueueError::MetadataValidationFailed);
            }
            k += 1;
        }
        let mut tail = self.queue.split_off(at);
        let mut i: usize = 0;
        while i < n
            invariant
                n == metas.len(),
                0 <= i <= n,
                self.schema_spec() == old(self).schema_spec(),
                self.default_meta_spec() == old(self).default_meta_spec(),
                self.wf(),
                at <= old(self)@.len(),
                at as int == pos_spec,
                pos_spec == (match position {
                    Some(p) => p as int,
                    None => old(self)@.len() as int,
                }),
                forall|m: int| 0 <= m < metas@.len() ==> schema_accepts(
                    old(self).schema_spec(),
                    metas@[m]@,
                ),
                tail@.map_values(|c: PendingCar| c@) == old(self)@.subrange(
                    at as int,
                    old(self)@.len() as int,
                ),
                self@.len() == at + i,
                forall|m: int| 0 <= m < at ==> self@[m] == old(self)@[m],
                forall|m: int|
                    #![trigger self@[at + m]]
                    0 <= m < i ==> self@[at + m].meta == metas@[m]@ && self@[at
                        + m].id.len() == 21,
            decreases n - i,
        {
            let ghost prev = self@;
            let car = PendingCar { id: generate_id(), meta: metas[i].clone() };
            self.queue.push(car);
            proof {
                assert(self@ =~= prev.push(self@[prev.len() as int]));
            }
            i += 1;
        }
        let ghost built = self@;
        let ghost tail_view = tail@.map_values(|c: PendingCar| c@);
        self.queue.append(&mut tail);
        proof {
            let pre = old(self)@;
            let ms = metas@.map_values(|m: String| m@);
            assert(self@ =~= built + tail_view);
            assert(self@.len() == pre.len() + ms.len());
            assert forall|m: int| 0 <= m < at implies self@[m] == pre[m] by {
                assert(self@[m] == built[m]);
            }
            assert forall|m: int|
                #![trigger self@[at + m]]
                0 <= m < ms.len() implies self@[at + m].meta == ms[m] && self@[at + m].id.len()
                == 21 by {
                assert(self@[at + m] == built[at + m]);
            }
            assert forall|m: int|
                #![trigger pre[at + m]]
                0 <= m < pre.len() - at implies self@[at + n + m] == pre[at + m] by {
                assert(self@[at + n + m] == tail_view[m]);
                assert(tail_view[m] == pre.subrange(at as int, pre.len() as int)[m]);
            }
        }
        Ok(())
    }

    /// Empty the queue and reseed it with one default entry.
    pub fn remove_all(&mut self) -> (r: Result<(), QueueError>)
        requires
            old(self).wf(),
        ensures
            final(self).wf(),
            final(self).schema_spec() == old(self).schema_spec(),
            final(self).default_meta_spec() == old(self).default_meta_spec(),
            r == Ok::<(), QueueError>(()),
            final(self)@.len() == 1,
            final(self)@[0].meta == old(self).default_meta_spec(),
            final(self)@[0].id.len() == 21,
    {
        self.queue.clear();
        let seed = PendingCar { id: generate_id(), meta: self.default_meta.clone() };
        self.queue.push(seed);
        Ok(())
    }

    /// Replace the whole queue with the given metadata texts, each under a
    /// fresh id. Refused when any text fails validation; the queue is then
    /// unchanged.
    pub fn replace(&mut self, metas: Vec<String>) -> (r: Result<(), QueueError>)
        requires
            old(self).wf(),
        ensures
            final(self).wf(),
            final(self).schema_spec() == old(self).schema_spec(),
            final(self).default_meta_spec() == old(self).default_meta_spec(),
            if (exists|k: int|
                0 <= k < metas@.len() && !schema_accepts(old(self).schema_spec(), metas@[k]@)) {
                r == Err::<(), QueueError>(QueueError::MetadataValidationFailed) && final(self)@
                    == old(self)@
            } else {
                r == Ok::<(), QueueError>(()) && final(self)@.len() == metas@.len() && (forall|
                    m: int,
                |
                    #![trigger final(self)@[m]]
                    0 <= m < metas@.len() ==> final(self)@[m].meta == metas@[m]@
                        && final(self)@[m].id.len() == 21)
            },
    {
        let n = metas.len();
        let mut k: usize = 0;
        while k < n
            invariant
                n == metas.len(),
                0 <= k <= n,
                self == old(self),
                old(self).wf(),
                forall|m: int| 0 <= m < k ==> schema_accepts(old(self).schema_spec(), metas@[m]@),
            decreases n - k,
        {
            if !meta_accepted(&self.schema, &metas[k]) {
                return Err(QueueError::MetadataValidationFailed);
            }
            k += 1;
        }
        let mut fresh: Vec<PendingCar> = Vec::new();
        let mut i: usize = 0;
        while i < n
            invariant
                n == metas.len(),
                0 <= i <= n,
                self == old(self),
                fresh@.len() == i,
                forall|m: int|
                    #![trigger fresh@[m]]
                    0 <= m < i ==> fresh@[m]@.meta == metas@[m]@ && fresh@[m]@.id.len() == 21,
            decreases n - i,
        {
            fresh.push(PendingCar { id: generate_id(), meta: metas[i].clone() });
            i += 1;
        }
        self.queue = fresh;
        Ok(())
    }

    /// The first index of the car with the given id.
    fn find_car_index(&self, id: &String) -> (r: Option<usize>)
        ensures
            match r {
                Some(i) => find_pending(self@, id@) == Some(i as int),
                None => find_pending(self@, id@) is None,
            },
    {
        let n = self.queue.len();
        let mut i: usize = 0;
        while i < n
            invariant
                n == self.queue.len(),
                0 <= i <= n,
                forall|j: int| 0 <= j < i ==> self@[j].id != id@,
            decreases n - i,
        {
            if self.queue[i].id == *id {
                proof {
                    let s = self@;
                    lemma_find_pending(s, id@);
                    assert(s[i as int].id == id@);
                    if let Some(k) = find_pending(s, id@) {
                        assert(!(k < i as int));
                        assert(!((i as int) < k));
                    }
                }
                return Some(i);
            }
            i += 1;
        }
        proof {
            lemma_find_pending(self@, id@);
        }
        None
    }
}

/// Whether `post` is `pre` with one fresh-id car carrying `meta` at `pos`.
pub open spec fn inserted_at(
    pre: Seq<PendingCarV>,
    post: Seq<PendingCarV>,
    pos: int,
    meta: Seq<char>,
) -> bool {
    &&& post.len() == pre.len() + 1
    &&& forall|m: int| 0 <= m < pos ==> post[m] == pre[m]
    &&& post[pos].meta == meta
    &&& post[pos].id.len() == 21
    &&& forall|m: int| pos < m < post.len() ==> post[m] == pre[m - 1]
}

/// Whether `post` is `pre` with fresh-id cars carrying `metas` spliced in
/// at `pos`, in order.
pub open spec fn many_inserted_at(
    pre: Seq<PendingCarV>,
    post: Seq<PendingCarV>,
    pos: int,
    metas: Seq<Seq<char>>,
) -> bool {
    &&& post.len() == pre.len() + metas.len()
    &&& forall|m: int| 0 <= m < pos ==> post[m] == pre[m]
    &&& forall|m: int|
        #![trigger post[pos + m]]
        0 <= m < metas.len() ==> post[pos + m].meta == metas[m] && post[pos + m].id.len() == 21
    &&& forall|m: int|
        #![trigger pre[pos + m]]
        0 <= m < pre.len() - pos ==> post[pos + metas.len() + m] == pre[pos + m]
}

impl NextCarQueue for PendingCarQueue {
    /// The queue's own invariant.
    open spec fn queue_wf(&self) -> bool {
        self.wf()
    }

    /// The queued metadata texts, front first.
    open spec fn queue_model(&self) -> Seq<Seq<char>> {
        self@.map_values(|c: PendingCarV| c.meta)
    }

    /// Consume the front of the queue. A consumption that empties the queue
    /// refills it with one default entry under a fresh id.
    fn consume_next_car(&mut self) -> (r: Option<String>)
        ensures
            match r {
                None => final(self)@ == old(self)@,
                Some(_) => {
                    if old(self)@.len() == 1 {
                        final(self)@.len() == 1 && final(self)@[0].meta == old(
                            self,
                        ).default_meta_spec() && final(self)@[0].id.len() == 21
                    } else {
                        final(self)@ == old(self)@.remove(0)
                    }
                },
            },
            final(self).schema_spec() == old(self).schema_spec(),
            final(self).default_meta_spec() == old(self).default_meta_spec(),
    {
        if self.queue.len() == 0 {
            return None;
        }
        let consumed = self.queue.remove(0);
        if self.queue.len() == 0 {
            let seed = PendingCar { id: generate_id(), meta: self.default_meta.clone() };
            self.queue.push(seed);
        } else {
            proof {
                assert(self@ =~= old(self)@.remove(0));
            }
        }
        proof {
            assert(consumed@.meta == old(self).queue_model()[0]);
        }
        Some(consumed.meta)
    }
}

} // verus!
