use votesmart::{Candidate, District, Error, Party, Recommendation, RecommendationIndex, Region};

#[test]
fn a_cloned_region_is_the_same_region() {
    let region = Region { title: "North".to_string() };
    assert_eq!(region.clone(), region);
    assert_eq!(region.clone().title, "North");
}

#[test]
fn a_cloned_district_is_the_same_district() {
    let district = District { region_id: 7, title: "Harbour".to_string() };
    assert_eq!(district.clone(), district);
    assert_eq!(district.clone().region_id, 7);
    assert_eq!(district.clone().title, "Harbour");
}

#[test]
fn a_cloned_candidate_is_the_same_candidate() {
    let candidate = Candidate { title: "Alice".to_string(), party_id: 3 };
    assert_eq!(candidate.clone(), candidate);
    assert_eq!(candidate.clone().party_id, 3);
    assert_eq!(candidate.clone().title, "Alice");
}

#[test]
fn a_cloned_party_is_the_same_party() {
    let party = Party { index: 4, title: "Green".to_string() };
    assert_eq!(party.clone(), party);
    assert_eq!(party.clone().index, 4);
    assert_eq!(party.clone().title, "Green");
}

#[test]
fn a_cloned_recommendation_is_the_same_recommendation() {
    let recommendation = Recommendation { title: "Alice".to_string(), party: "Green".to_string() };
    assert_eq!(recommendation.clone(), recommendation);
    assert_eq!(recommendation.clone().title, "Alice");
    assert_eq!(recommendation.clone().party, "Green");
}

#[test]
fn records_differ_field_by_field() {
    assert_ne!(
        District { region_id: 1, title: "A".to_string() },
        District { region_id: 2, title: "A".to_string() }
    );
    assert_ne!(
        Candidate { title: "A".to_string(), party_id: 1 },
        Candidate { title: "B".to_string(), party_id: 1 }
    );
    assert_ne!(
        RecommendationIndex { campaign_id: 1, district_id: 2 },
        RecommendationIndex { campaign_id: 2, district_id: 1 }
    );
}

#[test]
fn the_only_error_is_unauthorized() {
    let error = Error::Unauthorized;
    assert_eq!(error, Error::Unauthorized);
    assert_eq!(error.message(), "No access".to_string());
    assert_eq!(format!("{:?}", error), "Unauthorized");
}
