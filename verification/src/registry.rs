//! The registry: five tables of reference data, the recommendation index
//! over them, and the one account that may write.

use crate::collections::{
    distinct_keys, lemma_lookup_upsert, lookup, upsert, upsert_all, UnorderedMap,
};
use crate::entities::{
    Candidate, District, Recommendation, RecommendationIndex, RecommendationView, Region,
};
use crate::pagination::{unordered_map_pagination, window};
use vstd::prelude::*;

verus! {

/// The name of an account.
pub type AccountId = String;

/// Why a call was turned down.
#[derive(Debug, Clone, Copy, PartialEq, Eq, Structural)]
pub enum Error {
    /// The caller is not the master account.
    Unauthorized,
}

impl Error {
    /// The words that go with the error.
    pub fn message(&self) -> (text: String)
        ensures
            text@ == "No access"@,
    {
        "No access".to_owned()
    }
}

/// The registry's state.
pub struct VoteSmart {
    master_account_id: AccountId,
    parties: UnorderedMap<u64, String>,
    campaigns: UnorderedMap<u64, String>,
    regions: UnorderedMap<u64, Region>,
    districts: UnorderedMap<u64, District>,
    candidates: UnorderedMap<u64, Candidate>,
    recommendations: UnorderedMap<RecommendationIndex, u64>,
}

/// What a registry holds: the master account and, for each table, its
/// entries in the order in which their identifiers first arrived.
pub struct VoteSmartView {
    pub master_account_id: Seq<char>,
    pub parties: Seq<(u64, String)>,
    pub campaigns: Seq<(u64, String)>,
    pub regions: Seq<(u64, Region)>,
    pub districts: Seq<(u64, District)>,
    pub candidates: Seq<(u64, Candidate)>,
    pub recommendations: Seq<(RecommendationIndex, u64)>,
}

/// The party title shown for a candidate whose party is not stored.
pub open spec fn unknown_party() -> Seq<char> {
    "Unknown"@
}

/// The predicate "this district lies in the region `region_id`".
pub open spec fn in_region(region_id: u64) -> spec_fn((u64, District)) -> bool {
    |entry: (u64, District)| entry.1.region_id == region_id
}

/// A batch of recommendations as pairs of composite key and candidate.
pub open spec fn keyed(batch: Seq<(u64, u64, u64)>) -> Seq<(RecommendationIndex, u64)> {
    batch.map_values(
        |r: (u64, u64, u64)| (RecommendationIndex { campaign_id: r.0, district_id: r.1 }, r.2),
    )
}

/// Stored recommendations as triples of campaign, district and candidate.
pub open spec fn triples(entries: Seq<(RecommendationIndex, u64)>) -> Seq<(u64, u64, u64)> {
    entries.map_values(|e: (RecommendationIndex, u64)| (e.0.campaign_id, e.0.district_id, e.1))
}

impl VoteSmartView {
    /// The registry of `master_account_id` with nothing stored.
    pub open spec fn empty(master_account_id: Seq<char>) -> VoteSmartView {
        VoteSmartView {
            master_account_id,
            parties: Seq::empty(),
            campaigns: Seq::empty(),
            regions: Seq::empty(),
            districts: Seq::empty(),
            candidates: Seq::empty(),
            recommendations: Seq::empty(),
        }
    }

    /// No table holds an identifier twice.
    pub open spec fn wf(self) -> bool {
        &&& distinct_keys(self.parties)
        &&& distinct_keys(self.campaigns)
        &&& distinct_keys(self.regions)
        &&& distinct_keys(self.districts)
        &&& distinct_keys(self.candidates)
        &&& distinct_keys(self.recommendations)
    }

    /// Whether `account_id` is the master account.
    pub open spec fn is_master(self, account_id: Seq<char>) -> bool {
        account_id == self.master_account_id
    }

    /// The title of the party `party_id`, or the placeholder where no such
    /// party is stored.
    pub open spec fn party_title(self, party_id: u64) -> Seq<char> {
        match lookup(self.parties, party_id) {
            Some(title) => title@,
            None => unknown_party(),
        }
    }

    /// What the candidate `candidate_id` is recommended as: nothing where no
    /// such candidate is stored, else their title with the title of their
    /// party.
    pub open spec fn candidate_card(self, candidate_id: u64) -> Option<RecommendationView> {
        match lookup(self.candidates, candidate_id) {
            None => None,
            Some(candidate) => Some(
                RecommendationView {
                    title: candidate.title@,
                    party: self.party_title(candidate.party_id),
                },
            ),
        }
    }

    /// The recommendation for a campaign and a district: none where the pair
    /// has no entry in the index, else what the candidate of the entry is
    /// recommended as.
    pub open spec fn recommendation(self, campaign_id: u64, district_id: u64) -> Option<
        RecommendationView,
    > {
        match lookup(self.recommendations, RecommendationIndex { campaign_id, district_id }) {
            None => None,
            Some(candidate_id) => self.candidate_card(candidate_id),
        }
    }
}

/// Once a candidate is put under a campaign and a district, the pair resolves
/// to that candidate, and every other pair resolves as before.
pub proof fn lemma_recommendation_after_store(
    before: VoteSmartView,
    campaign_id: u64,
    district_id: u64,
    candidate_id: u64,
    other_campaign_id: u64,
    other_district_id: u64,
)
    requires
        before.wf(),
    ensures
        ({
            let after = VoteSmartView {
                recommendations: upsert(
                    before.recommendations,
                    RecommendationIndex { campaign_id, district_id },
                    candidate_id,
                ),
                ..before
            };
            &&& after.recommendation(campaign_id, district_id) == before.candidate_card(
                candidate_id,
            )
            &&& (other_campaign_id != campaign_id || other_district_id != district_id)
                ==> after.recommendation(other_campaign_id, other_district_id)
                == before.recommendation(other_campaign_id, other_district_id)
        }),
{
    let key = RecommendationIndex { campaign_id, district_id };
    let other = RecommendationIndex { campaign_id: other_campaign_id, district_id: other_district_id };
    lemma_lookup_upsert(before.recommendations, key, candidate_id, key);
    lemma_lookup_upsert(before.recommendations, key, candidate_id, other);
}

impl View for VoteSmart {
    type V = VoteSmartView;

    closed spec fn view(&self) -> VoteSmartView {
        VoteSmartView {
            master_account_id: self.master_account_id@,
            parties: self.parties@,
            campaigns: self.campaigns@,
            regions: self.regions@,
            districts: self.districts@,
            candidates: self.candidates@,
            recommendations: self.recommendations@,
        }
    }
}

impl VoteSmart {
    /// A registry with empty tables. Its master account is `admin_id` where
    /// one is given, else `caller`, the account that creates it.
    pub fn new(admin_id: Option<AccountId>, caller: AccountId) -> (registry: Self)
        ensures
            registry@ == VoteSmartView::empty(
                match admin_id {
                    Some(account_id) => account_id@,
                    None => caller@,
                },
            ),
            registry@.wf(),
    {
        let master_account_id = if let Some(account_id) = admin_id {
            account_id
        } else {
            caller
        };
        VoteSmart {
            master_account_id,
            parties: UnorderedMap::new(),
            campaigns: UnorderedMap::new(),
            regions: UnorderedMap::new(),
            districts: UnorderedMap::new(),
            candidates: UnorderedMap::new(),
            recommendations: UnorderedMap::new(),
        }
    }

    /// The master account.
    pub fn master_account_id(&self) -> (account_id: &AccountId)
        ensures
            account_id@ == self@.master_account_id,
    {
        &self.master_account_id
    }

    /// Lets the master account through and nobody else.
    pub fn assert_access(&self, caller: &AccountId) -> (r: Result<(), Error>)
        ensures
            self@.is_master(caller@) ==> r is Ok,
            !self@.is_master(caller@) ==> r == Err::<(), Error>(Error::Unauthorized),
    {
        if *caller == self.master_account_id {
            Ok(())
        } else {
            Err(Error::Unauthorized)
        }
    }

    /// Makes `admin_id` the master account, whatever account that is. Only
    /// the master account may.
    pub fn set_master_account_id(&mut self, caller: &AccountId, admin_id: AccountId) -> (r: Result<
        (),
        Error,
    >)
        ensures
            old(self)@.is_master(caller@) ==> r is Ok && final(self)@ == (VoteSmartView {
                master_account_id: admin_id@,
                ..old(self)@
            }),
            !old(self)@.is_master(caller@) ==> r == Err::<(), Error>(Error::Unauthorized)
                && *final(self) == *old(self),
            final(self)@.wf(),
    {
        self.ids_are_distinct();
        self.assert_access(caller)?;
        self.master_account_id = admin_id;
        Ok(())
    }

    /// Stores a campaign under `id`, over the one that was there if the
    /// identifier is known. Only the master account may.
    pub fn add_campaign(&mut self, caller: &AccountId, id: u64, title: String) -> (r: Result<
        (),
        Error,
    >)
        ensures
            old(self)@.is_master(caller@) ==> r is Ok && final(self)@ == (VoteSmartView {
                campaigns: upsert(old(self)@.campaigns, id, title),
                ..old(self)@
            }),
            !old(self)@.is_master(caller@) ==> r == Err::<(), Error>(Error::Unauthorized)
                && *final(self) == *old(self),
            final(self)@.wf(),
    {
        self.ids_are_distinct();
        self.assert_access(caller)?;
        self.campaigns.insert(id, title);
        Ok(())
    }

    /// The campaigns in the window that `from_index` and `limit` give.
    pub fn get_campaigns(&self, from_index: Option<u64>, limit: Option<u64>) -> (page: Vec<
        (u64, String),
    >)
        ensures
            page@ == window(self@.campaigns, from_index, limit),
    {
        unordered_map_pagination(&self.campaigns, from_index, limit)
    }

    /// Stores each party of the batch in turn, first to last. Only the
    /// master account may.
    pub fn add_parties(&mut self, caller: &AccountId, parties: Vec<(u64, String)>) -> (r: Result<
        (),
        Error,
    >)
        ensures
            old(self)@.is_master(caller@) ==> r is Ok && final(self)@ == (VoteSmartView {
                parties: upsert_all(old(self)@.parties, parties@),
                ..old(self)@
            }),
            !old(self)@.is_master(caller@) ==> r == Err::<(), Error>(Error::Unauthorized)
                && *final(self) == *old(self),
            final(self)@.wf(),
    {
        self.ids_are_distinct();
        self.assert_access(caller)?;
        self.parties.extend(parties);
        Ok(())
    }

    /// The parties in the window that `from_index` and `limit` give.
    pub fn get_parties(&self, from_index: Option<u64>, limit: Option<u64>) -> (page: Vec<
        (u64, String),
    >)
        ensures
            page@ == window(self@.parties, from_index, limit),
    {
        unordered_map_pagination(&self.parties, from_index, limit)
    }

    /// Stores each region of the batch in turn, first to last. Only the
    /// master account may.
    pub fn add_regions(&mut self, caller: &AccountId, regions: Vec<(u64, Region)>) -> (r: Result<
        (),
        Error,
    >)
        ensures
            old(self)@.is_master(caller@) ==> r is Ok && final(self)@ == (VoteSmartView {
                regions: upsert_all(old(self)@.regions, regions@),
                ..old(self)@
            }),
            !old(self)@.is_master(caller@) ==> r == Err::<(), Error>(Error::Unauthorized)
                && *final(self) == *old(self),
            final(self)@.wf(),
    {
        self.ids_are_distinct();
        self.assert_access(caller)?;
        self.regions.extend(regions);
        Ok(())
    }

    /// The regions in the window that `from_index` and `limit` give.
    pub fn get_regions(&self, from_index: Option<u64>, limit: Option<u64>) -> (page: Vec<
        (u64, Region),
    >)
        ensures
            page@ == window(self@.regions, from_index, limit),
    {
        unordered_map_pagination(&self.regions, from_index, limit)
    }

    /// Stores each district of the batch in turn, first to last. Only the
    /// master account may.
    pub fn add_districts(&mut self, caller: &AccountId, districts: Vec<(u64, District)>) -> (r:
        Result<(), Error>)
        ensures
            old(self)@.is_master(caller@) ==> r is Ok && final(self)@ == (VoteSmartView {
                districts: upsert_all(old(self)@.districts, districts@),
                ..old(self)@
            }),
            !old(self)@.is_master(caller@) ==> r == Err::<(), Error>(Error::Unauthorized)
                && *final(self) == *old(self),
            final(self)@.wf(),
    {
        self.ids_are_distinct();
        self.assert_access(caller)?;
        self.districts.extend(districts);
        Ok(())
    }

    /// The districts in the window that `from_index` and `limit` give.
    pub fn get_districts(&self, from_index: Option<u64>, limit: Option<u64>) -> (page: Vec<
        (u64, District),
    >)
        ensures
            page@ == window(self@.districts, from_index, limit),
    {
        unordered_map_pagination(&self.districts, from_index, limit)
    }

    /// The districts of the region `region_id` among those in the window
    /// that `from_index` and `limit` give. The window is cut from the whole
    /// table first and the region is looked at afterwards, so a page may
    /// hold fewer districts than the window has indices.
    pub fn get_districts_by_region(
        &self,
        region_id: u64,
        from_index: Option<u64>,
        limit: Option<u64>,
    ) -> (page: Vec<(u64, District)>)
        ensures
            page@ == window(self@.districts, from_index, limit).filter(in_region(region_id)),
    {
        let keys = self.districts.keys_as_vector();
        let values = self.districts.values_as_vector();
        let count = keys.len();
        let total = count as u64;
        let from_index = match from_index {
            Some(from) => from,
            None => 0,
        };
        let limit = match limit {
            Some(bound) => bound,
            None => total,
        };
        let end = if limit < total {
            limit
        } else {
            total
        };
        let ghost all = self@.districts;
        let mut page: Vec<(u64, District)> = Vec::new();
        if from_index >= end {
            proof {
                reveal(Seq::filter);
            }
            return page;
        }
        let ghost seen = all.subrange(from_index as int, end as int);
        proof {
            reveal(Seq::filter);
            assert(seen.take(0) =~= Seq::<(u64, District)>::empty());
        }
        let mut index = from_index;
        while index < end
            invariant
                from_index <= index <= end <= count,
                count == all.len(),
                keys@.len() == all.len(),
                values@.len() == all.len(),
                forall|i: int| 0 <= i < all.len() ==> keys@[i] == (#[trigger] all[i]).0,
                forall|i: int| 0 <= i < all.len() ==> values@[i] == (#[trigger] all[i]).1,
                seen == all.subrange(from_index as int, end as int),
                page@ == seen.take(index - from_index).filter(in_region(region_id)),
            decreases end - index,
        {
            let district = &values[index as usize];
            proof {
                let done = seen.take(index - from_index + 1);
                reveal(Seq::filter);
                assert(done.drop_last() =~= seen.take(index - from_index));
                assert(done.last() == all[index as int]);
                assert(all[index as int] == (keys@[index as int], values@[index as int]));
            }
            if district.region_id == region_id {
                page.push((keys[index as usize], district.clone()));
            }
            index += 1;
        }
        proof {
            assert(seen.take(end - from_index) =~= seen);
        }
        page
    }

    /// Stores each candidate of the batch in turn, first to last. Only the
    /// master account may.
    pub fn add_candidates(&mut self, caller: &AccountId, candidates: Vec<(u64, Candidate)>) -> (r:
        Result<(), Error>)
        ensures
            old(self)@.is_master(caller@) ==> r is Ok && final(self)@ == (VoteSmartView {
                candidates: upsert_all(old(self)@.candidates, candidates@),
                ..old(self)@
            }),
            !old(self)@.is_master(caller@) ==> r == Err::<(), Error>(Error::Unauthorized)
                && *final(self) == *old(self),
            final(self)@.wf(),
    {
        self.ids_are_distinct();
        self.assert_access(caller)?;
        self.candidates.extend(candidates);
        Ok(())
    }

    /// The candidates in the window that `from_index` and `limit` give.
    pub fn get_candidates(&self, from_index: Option<u64>, limit: Option<u64>) -> (page: Vec<
        (u64, Candidate),
    >)
        ensures
            page@ == window(self@.candidates, from_index, limit),
    {
        unordered_map_pagination(&self.candidates, from_index, limit)
    }

    /// Stores each recommendation of the batch in turn, first to last: a
    /// triple of campaign, district and candidate puts the candidate under
    /// the key that the campaign and the district form. Nothing asks whether
    /// the candidate is stored. Only the master account may.
    pub fn add_recommendations(
        &mut self,
        caller: &AccountId,
        recommendations: Vec<(u64, u64, u64)>,
    ) -> (r: Result<(), Error>)
        ensures
            old(self)@.is_master(caller@) ==> r is Ok && final(self)@ == (VoteSmartView {
                recommendations: upsert_all(old(self)@.recommendations, keyed(recommendations@)),
                ..old(self)@
            }),
            !old(self)@.is_master(caller@) ==> r == Err::<(), Error>(Error::Unauthorized)
                && *final(self) == *old(self),
            final(self)@.wf(),
    {
        self.ids_are_distinct();
        self.assert_access(caller)?;
        let ghost before = self@;
        let ghost batch = keyed(recommendations@);
        for data in it: recommendations
            invariant
                it.seq() == recommendations@,
                batch == keyed(recommendations@),
                self@ == (VoteSmartView {
                    recommendations: upsert_all(
                        before.recommendations,
                        batch.take(it.index() as int),
                    ),
                    ..before
                }),
                self@.wf(),
        {
            let campaign_id = data.0;
            let district_id = data.1;
            let candidate_id = data.2;
            proof {
                let done = batch.take(it.index() + 1);
                assert(done.drop_last() =~= batch.take(it.index() as int));
                assert(done.last() == (
                    RecommendationIndex { campaign_id, district_id },
                    candidate_id,
                ));
            }
            self.recommendations.insert(
                RecommendationIndex { campaign_id, district_id },
                candidate_id,
            );
        }
        proof {
            assert(batch.take(batch.len() as int) =~= batch);
        }
        Ok(())
    }

    /// The stored recommendations in the window that `from_index` and
    /// `limit` give, each as a triple of campaign, district and candidate.
    pub fn get_recommendations(&self, from_index: Option<u64>, limit: Option<u64>) -> (page: Vec<
        (u64, u64, u64),
    >)
        ensures
            page@ == triples(window(self@.recommendations, from_index, limit)),
    {
        let entries = unordered_map_pagination(&self.recommendations, from_index, limit);
        let ghost wanted = window(self@.recommendations, from_index, limit);
        let mut page: Vec<(u64, u64, u64)> = Vec::new();
        for entry in it: entries
            invariant
                it.seq() == entries@,
                entries@ == wanted,
                page@ == triples(wanted.take(it.index() as int)),
        {
            proof {
                assert(triples(wanted.take(it.index() + 1)) =~= triples(
                    wanted.take(it.index() as int),
                ).push((entry.0.campaign_id, entry.0.district_id, entry.1)));
            }
            page.push((entry.0.campaign_id, entry.0.district_id, entry.1));
        }
        proof {
            assert(wanted.take(wanted.len() as int) =~= wanted);
        }
        page
    }

    /// The recommendation for a campaign and a district. There is none where
    /// the pair has no entry in the index, and none where the entry names a
    /// candidate that is not stored. A candidate whose party is not stored
    /// comes with the party title "Unknown".
    pub fn get_votesmart(&self, campaign_id: u64, district_id: u64) -> (found: Option<
        Recommendation,
    >)
        ensures
            self@.recommendation(campaign_id, district_id) == match found {
                Some(recommendation) => Some(recommendation@),
                None => None,
            },
    {
        let candidate_id = self.recommendations.get(
            &RecommendationIndex { campaign_id, district_id },
        );
        if let Some(candidate_id_unwrapped) = candidate_id {
            if let Some(candidate_unwrapped) = self.candidates.get(candidate_id_unwrapped) {
                let party = match self.parties.get(&candidate_unwrapped.party_id) {
                    Some(title) => title.clone(),
                    None => "Unknown".to_owned(),
                };
                Some(Recommendation { title: candidate_unwrapped.title.clone(), party })
            } else {
                None
            }
        } else {
            None
        }
    }

    /// Brings what holds of every table into the view: no identifier
    /// occurs twice.
    fn ids_are_distinct(&self)
        ensures
            self@.wf(),
    {
        proof {
            use_type_invariant(&self.parties);
            use_type_invariant(&self.campaigns);
            use_type_invariant(&self.regions);
            use_type_invariant(&self.districts);
            use_type_invariant(&self.candidates);
            use_type_invariant(&self.recommendations);
            self.parties.lemma_inv_distinct();
            self.campaigns.lemma_inv_distinct();
            self.regions.lemma_inv_distinct();
            self.districts.lemma_inv_distinct();
            self.candidates.lemma_inv_distinct();
            self.recommendations.lemma_inv_distinct();
        }
    }
}

} // verus!
