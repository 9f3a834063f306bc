use solarance::construction::{
    aggregate_contributions, deposit_amounts, modules_for_station_name, plan_contribution, purpose_from_lowercase, refresh_station_progress,
    station_purpose,
    validate_construction_requirements, ContributionError, GrantedModule, SiteError, StationPurpose,
};

#[test]
fn contributions_are_grouped_in_first_seen_order() {
    assert_eq!(aggregate_contributions(&[(5, 1), (3, 2), (5, 4), (9, 0)]), vec![(5, 5), (3, 2), (9, 0)]);
    assert!(aggregate_contributions(&[]).is_empty());
}

#[test]
fn contribution_is_capped_at_what_is_still_needed() {
    let reqs = [(1, 100), (2, 10)];
    let given = [(1, 60), (1, 30)];
    let cargo = [(1, 50), (7, 1)];
    assert_eq!(plan_contribution(25, Some(false), 4, 4, true, &reqs, &given, 1, &cargo), Ok(10));
    assert_eq!(plan_contribution(5, Some(false), 4, 4, true, &reqs, &given, 1, &cargo), Ok(5));
}

#[test]
fn contribution_errors_in_order() {
    let reqs = [(1, 100)];
    let full = [(1, 100)];
    let cargo = [(1, 50)];
    assert_eq!(plan_contribution(0, None, 1, 2, false, &reqs, &[], 1, &cargo), Err(ContributionError::ZeroQuantity));
    assert_eq!(plan_contribution(1, None, 1, 2, false, &reqs, &[], 1, &cargo), Err(ContributionError::NotUnderConstruction));
    assert_eq!(plan_contribution(1, Some(true), 1, 2, false, &reqs, &[], 1, &cargo), Err(ContributionError::AlreadyOperational));
    assert_eq!(
        plan_contribution(1, Some(false), 1, 2, false, &reqs, &[], 1, &cargo),
        Err(ContributionError::WrongSector { ship_sector_id: 1, station_sector_id: 2 })
    );
    assert_eq!(plan_contribution(1, Some(false), 2, 2, false, &reqs, &[], 1, &cargo), Err(ContributionError::OutOfRange));
    assert_eq!(plan_contribution(1, Some(false), 2, 2, true, &reqs, &[], 9, &cargo), Err(ContributionError::NotRequired { item_id: 9 }));
    assert_eq!(
        plan_contribution(1, Some(false), 2, 2, true, &reqs, &full, 1, &cargo),
        Err(ContributionError::AlreadySatisfied { contributed: 100, required: 100 })
    );
    assert_eq!(
        plan_contribution(80, Some(false), 2, 2, true, &reqs, &[], 1, &cargo),
        Err(ContributionError::NotEnoughCargo { needed: 80, available: 50 })
    );
    let big = [(1, 100_000)];
    assert_eq!(
        plan_contribution(70_000, Some(false), 2, 2, true, &big, &[], 1, &cargo),
        Err(ContributionError::ExceedsCargoLimit { quantity: 70_000 })
    );
}

#[test]
fn refresh_completes_a_site_once() {
    let reqs = [(1, 10), (2, 5)];
    let (progress, now_complete) = refresh_station_progress(&reqs, &[(1, 4), (2, 5), (1, 6)], false);
    assert_eq!(progress.ratios, vec![(10, 10), (5, 5)]);
    assert!(progress.is_complete());
    assert!(now_complete);
    let (_, again) = refresh_station_progress(&reqs, &[(1, 10), (2, 5)], true);
    assert!(!again);
    let (partial, done) = refresh_station_progress(&reqs, &[(1, 100)], false);
    assert!(!partial.is_complete());
    assert!(!done);
}

#[test]
fn site_specs_must_be_nonempty_and_positive() {
    assert_eq!(validate_construction_requirements(&[]), Err(SiteError::NoRequirements));
    assert_eq!(
        validate_construction_requirements(&[(1, 5), (2, 0), (3, 0)]),
        Err(SiteError::ZeroQuantityRequirement { item_id: 2 })
    );
    assert_eq!(validate_construction_requirements(&[(1, 5)]), Ok(()));
}

#[test]
fn station_names_pick_the_granted_modules() {
    assert_eq!(station_purpose("Iron REFINERY Alpha"), StationPurpose::Refinery);
    assert_eq!(station_purpose("Kessler Exchange"), StationPurpose::Market);
    assert_eq!(station_purpose("Northern Watch"), StationPurpose::Outpost);
    assert_eq!(station_purpose("Halcyon"), StationPurpose::General);
    assert_eq!(
        modules_for_station_name("Deep Refinery"),
        vec![GrantedModule::IronRefinery, GrantedModule::IceRefinery, GrantedModule::SiliconRefinery]
    );
    assert_eq!(modules_for_station_name("Trade Port"), vec![GrantedModule::TradingPort]);
    assert_eq!(modules_for_station_name("Halcyon"), vec![GrantedModule::TradingPort]);
}

#[test]
fn lowercased_names_are_matched_by_keyword_order() {
    let chars = |s: &str| s.chars().collect::<Vec<char>>();
    assert_eq!(purpose_from_lowercase(&chars("refinery port")), StationPurpose::Refinery);
    assert_eq!(purpose_from_lowercase(&chars("outpost bazar")), StationPurpose::Market);
    assert_eq!(purpose_from_lowercase(&chars("watchtower")), StationPurpose::Outpost);
    assert_eq!(purpose_from_lowercase(&chars("REFINERY")), StationPurpose::General);
    assert_eq!(purpose_from_lowercase(&chars("")), StationPurpose::General);
}

#[test]
fn deposit_buttons_follow_the_cargo_quantity() {
    assert_eq!(deposit_amounts(3), vec![1, 3]);
    assert_eq!(deposit_amounts(10), vec![1, 10, 10]);
    assert_eq!(deposit_amounts(250), vec![1, 10, 100, 250]);
}
