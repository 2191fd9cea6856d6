//! Identifier types of the engine.
//!
//! All identifiers are opaque strings. Track ids come from configuration,
//! entrant ids from the caller, result ids are generated server-side on
//! terminal events.

use vstd::prelude::*;

verus! {

/// A track (lane/course) identifier, global per competition.
pub type TrackId = String;

/// A record identifier, generated on terminal events.
pub type ResultId = String;

/// A caller-supplied entrant (car) identifier.
#[derive(Debug)]
pub struct CompetitionEntryId {
    id: String,
}

impl View for CompetitionEntryId {
    type V = Seq<char>;

    closed spec fn view(&self) -> Seq<char> {
        self.id@
    }
}

impl CompetitionEntryId {
    /// Wrap a caller-supplied id.
    pub fn new(id: &str) -> (r: Self)
        ensures
            r@ == id@,
    {
        Self { id: id.to_owned() }
    }

    /// The underlying string.
    pub fn get(&self) -> (r: &str)
        ensures
            r@ == self@,
    {
        self.id.as_str()
    }
}

impl Clone for CompetitionEntryId {
    fn clone(&self) -> (r: Self)
        ensures
            r@ == self@,
    {
        CompetitionEntryId { id: self.id.clone() }
    }
}

impl PartialEq for CompetitionEntryId {
    fn eq(&self, other: &Self) -> (r: bool) {
        self.id == other.id
    }
}

impl vstd::std_specs::cmp::PartialEqSpecImpl for CompetitionEntryId {
    open spec fn obeys_eq_spec() -> bool {
        true
    }

    open spec fn eq_spec(&self, other: &Self) -> bool {
        self@ == other@
    }
}

/// An identifier of an externally stored competition configuration.
#[derive(Debug)]
pub struct CompetitionConfigurationId {
    id: String,
}

impl View for CompetitionConfigurationId {
    type V = Seq<char>;

    closed spec fn view(&self) -> Seq<char> {
        self.id@
    }
}

impl CompetitionConfigurationId {
    /// Wrap a configuration id.
    pub fn new(id: &str) -> (r: Self)
        ensures
            r@ == id@,
    {
        Self { id: id.to_owned() }
    }

    /// The underlying string.
    pub fn get(&self) -> (r: &str)
        ensures
            r@ == self@,
    {
        self.id.as_str()
    }
}

impl Clone for CompetitionConfigurationId {
    fn clone(&self) -> (r: Self)
        ensures
            r@ == self@,
    {
        CompetitionConfigurationId { id: self.id.clone() }
    }
}

/// Relies on nanoid::format with the default alphabet and RNG: a random
/// URL-safe identifier of exactly 21 characters. The result is random, so
/// nothing beyond its length is promised.
#[verifier::external_body]
pub(crate) fn generate_id() -> (r: String)
    ensures
        r@.len() == 21,
{
    nanoid::format(nanoid::rngs::default, &nanoid::alphabet::SAFE, 21)
}

} // verus!
