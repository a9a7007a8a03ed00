//! The records that the registry stores and returns.

use crate::collections::{ExactClone, MapKey};
use vstd::prelude::*;

verus! {

/// A region: the geographic unit that districts belong to.
#[derive(Debug, PartialEq, Eq)]
pub struct Region {
    pub title: String,
}

/// A district, with the region it lies in.
#[derive(Debug, PartialEq, Eq)]
pub struct District {
    pub region_id: u64,
    pub title: String,
}

/// A candidate, with the party they stand for.
#[derive(Debug, PartialEq, Eq)]
pub struct Candidate {
    pub title: String,
    pub party_id: u64,
}

/// A party together with its identifier.
#[derive(Debug, PartialEq, Eq)]
pub struct Party {
    pub index: u64,
    pub title: String,
}

/// What a lookup answers: the candidate's title and the title of their party.
#[derive(Debug, PartialEq, Eq)]
pub struct Recommendation {
    pub title: String,
    pub party: String,
}

/// The composite key of a recommendation: a campaign and a district, taken
/// together as one key.
#[derive(Debug, Clone, Copy, PartialEq, Eq, Hash)]
pub struct RecommendationIndex {
    pub campaign_id: u64,
    pub district_id: u64,
}

/// A [`Recommendation`] as two sequences of characters.
pub struct RecommendationView {
    pub title: Seq<char>,
    pub party: Seq<char>,
}

impl View for Recommendation {
    type V = RecommendationView;

    open spec fn view(&self) -> RecommendationView {
        RecommendationView { title: self.title@, party: self.party@ }
    }
}

impl Clone for Region {
    fn clone(&self) -> (r: Self)
        ensures
            r == *self,
    {
        Region { title: self.title.clone() }
    }
}

impl ExactClone for Region {
    proof fn lemma_clone_is_exact(original: Self, copy: Self) {
    }
}

impl Clone for District {
    fn clone(&self) -> (r: Self)
        ensures
            r == *self,
    {
        District { region_id: self.region_id, title: self.title.clone() }
    }
}

impl ExactClone for District {
    proof fn lemma_clone_is_exact(original: Self, copy: Self) {
    }
}

impl Clone for Candidate {
    fn clone(&self) -> (r: Self)
        ensures
            r == *self,
    {
        Candidate { title: self.title.clone(), party_id: self.party_id }
    }
}

impl ExactClone for Candidate {
    proof fn lemma_clone_is_exact(original: Self, copy: Self) {
    }
}

impl Clone for Party {
    fn clone(&self) -> (r: Self)
        ensures
            r == *self,
    {
        Party { index: self.index, title: self.title.clone() }
    }
}

impl ExactClone for Party {
    proof fn lemma_clone_is_exact(original: Self, copy: Self) {
    }
}

impl Clone for Recommendation {
    fn clone(&self) -> (r: Self)
        ensures
            r == *self,
    {
        Recommendation { title: self.title.clone(), party: self.party.clone() }
    }
}

impl MapKey for RecommendationIndex {
    fn same(&self, other: &Self) -> (b: bool) {
        self.campaign_id == other.campaign_id && self.district_id == other.district_id
    }
}

} // verus!
