use voting_organization::{Address, Status, VotingError, VotingOrganization};

fn addr(s: &str) -> Address {
    Address::new(s.to_string())
}

fn setup() -> VotingOrganization {
    let mut org = VotingOrganization::new();
    org.init(addr("owner"));
    org
}

/// Owner set, voter "v1" and candidate "c1" approved, window [5, 10].
fn ready() -> VotingOrganization {
    let mut org = setup();
    let owner = addr("owner");
    org.registerVoter("V".to_string(), "ipfsV".to_string(), addr("v1"));
    org.register_candidate("C".to_string(), "ipfsC".to_string(), addr("c1"));
    org.approve_voter(&addr("v1"), "ok".to_string(), &owner).unwrap();
    org.approve_candidate(&addr("c1"), "ok".to_string(), &owner).unwrap();
    org.set_voting_period(5, 10, &owner).unwrap();
    org
}

#[test]
fn ids_start_at_one_and_increase_per_kind() {
    let mut org = setup();
    org.registerVoter("A".to_string(), "a".to_string(), addr("a"));
    org.registerVoter("B".to_string(), "b".to_string(), addr("b"));
    org.register_candidate("C".to_string(), "c".to_string(), addr("c"));
    org.registerVoter("D".to_string(), "d".to_string(), addr("d"));
    org.register_candidate("E".to_string(), "e".to_string(), addr("e"));
    assert_eq!(org.get_voter(&addr("a")).register_id, 1);
    assert_eq!(org.get_voter(&addr("b")).register_id, 2);
    assert_eq!(org.get_voter(&addr("d")).register_id, 3);
    assert_eq!(org.get_candidate(&addr("c")).register_id, 1);
    assert_eq!(org.get_candidate(&addr("e")).register_id, 2);
}

#[test]
fn ids_not_reused_after_rejection() {
    let mut org = setup();
    let owner = addr("owner");
    org.registerVoter("A".to_string(), "a".to_string(), addr("a"));
    assert_eq!(org.reject_voter(&addr("a"), "no".to_string(), &owner), Ok(()));
    org.registerVoter("B".to_string(), "b".to_string(), addr("b"));
    assert_eq!(org.get_voter(&addr("b")).register_id, 2);
}

#[test]
fn vote_needs_approved_voter() {
    let mut org = ready();
    org.registerVoter("P".to_string(), "p".to_string(), addr("p"));
    assert_eq!(org.vote(&addr("c1"), &addr("p"), 7), Err(VotingError::NotApproved));
    assert_eq!(org.get_candidate(&addr("c1")).vote_count, 0);
    assert!(!org.get_voter(&addr("p")).has_voted);
}

#[test]
fn vote_needs_approved_candidate() {
    let mut org = ready();
    org.register_candidate("Q".to_string(), "q".to_string(), addr("q"));
    assert_eq!(org.vote(&addr("q"), &addr("v1"), 7), Err(VotingError::NotApproved));
    assert_eq!(org.get_candidate(&addr("q")).vote_count, 0);
    assert!(!org.get_voter(&addr("v1")).has_voted);
}

#[test]
fn vote_unknown_parties_not_found() {
    let mut org = ready();
    assert_eq!(org.vote(&addr("c1"), &addr("nobody"), 7), Err(VotingError::NotFound));
    assert_eq!(org.vote(&addr("nobody"), &addr("v1"), 7), Err(VotingError::NotFound));
    assert!(!org.get_voter(&addr("v1")).has_voted);
}

#[test]
fn second_vote_is_already_voted() {
    let mut org = ready();
    assert_eq!(org.vote(&addr("c1"), &addr("v1"), 7), Ok(()));
    assert_eq!(org.get_candidate(&addr("c1")).vote_count, 1);
    assert!(org.get_voter(&addr("v1")).has_voted);
    assert_eq!(org.vote(&addr("c1"), &addr("v1"), 8), Err(VotingError::AlreadyVoted));
    assert_eq!(org.get_candidate(&addr("c1")).vote_count, 1);
}

#[test]
fn approve_then_listed() {
    let mut org = setup();
    let owner = addr("owner");
    org.registerVoter("A".to_string(), "a".to_string(), addr("a"));
    org.register_candidate("C".to_string(), "c".to_string(), addr("c"));
    assert!(org.get_all_approved_voters().is_empty());
    assert_eq!(org.approve_voter(&addr("a"), "welcome".to_string(), &owner), Ok(()));
    assert_eq!(org.approve_candidate(&addr("c"), "go".to_string(), &owner), Ok(()));
    let voters = org.get_all_approved_voters();
    assert_eq!(voters.len(), 1);
    assert_eq!(voters[0].voter_address, addr("a"));
    assert_eq!(voters[0].status, Status::Approved);
    assert_eq!(voters[0].message, "welcome");
    let candidates = org.get_all_approved_candidates();
    assert_eq!(candidates.len(), 1);
    assert_eq!(candidates[0].candidate_address, addr("c"));
    assert_eq!(org.get_candidate(&addr("c")).status, Status::Approved);
}

#[test]
fn approve_unknown_is_not_found() {
    let mut org = setup();
    let owner = addr("owner");
    assert_eq!(org.approve_voter(&addr("x"), "m".to_string(), &owner), Err(VotingError::NotFound));
    assert_eq!(
        org.approve_candidate(&addr("x"), "m".to_string(), &owner),
        Err(VotingError::NotFound)
    );
    assert!(org.get_all_approved_voters().is_empty());
}

#[test]
fn reject_leaves_status_approved_and_lists_alone() {
    let mut org = setup();
    let owner = addr("owner");
    org.register_candidate("C".to_string(), "c".to_string(), addr("c"));
    assert_eq!(org.reject_candidate(&addr("c"), "sorry".to_string(), &owner), Ok(()));
    let c = org.get_candidate(&addr("c"));
    assert_eq!(c.status, Status::Approved);
    assert_eq!(c.message, "sorry");
    assert!(org.get_all_approved_candidates().is_empty());
    assert_eq!(
        org.reject_voter(&addr("nobody"), "m".to_string(), &owner),
        Err(VotingError::NotFound)
    );
}

#[test]
fn voting_period_rules() {
    let mut org = ready();
    let owner = addr("owner");
    assert_eq!(org.set_voting_period(10, 5, &owner), Err(VotingError::InvalidPeriod));
    assert_eq!(org.set_voting_period(7, 7, &owner), Err(VotingError::InvalidPeriod));
    assert_eq!(org.set_voting_period(5, 10, &owner), Ok(()));
    assert_eq!(org.get_voting_time(), vec![5, 10]);
    assert_eq!(org.vote(&addr("c1"), &addr("v1"), 12), Err(VotingError::VotingNotActive));
    assert_eq!(org.vote(&addr("c1"), &addr("v1"), 4), Err(VotingError::VotingNotActive));
    assert_eq!(org.vote(&addr("c1"), &addr("v1"), 7), Ok(()));
}

#[test]
fn window_bounds_are_inclusive() {
    let mut org = ready();
    let owner = addr("owner");
    org.registerVoter("W".to_string(), "w".to_string(), addr("w"));
    org.approve_voter(&addr("w"), "ok".to_string(), &owner).unwrap();
    assert_eq!(org.vote(&addr("c1"), &addr("v1"), 5), Ok(()));
    assert_eq!(org.vote(&addr("c1"), &addr("w"), 10), Ok(()));
    assert_eq!(org.get_candidate(&addr("c1")).vote_count, 2);
}

#[test]
fn closed_window_by_default() {
    let mut org = setup();
    let owner = addr("owner");
    org.registerVoter("V".to_string(), "v".to_string(), addr("v"));
    org.register_candidate("C".to_string(), "c".to_string(), addr("c"));
    org.approve_voter(&addr("v"), "ok".to_string(), &owner).unwrap();
    org.approve_candidate(&addr("c"), "ok".to_string(), &owner).unwrap();
    assert_eq!(org.get_voting_time(), vec![0, 0]);
    assert_eq!(org.vote(&addr("c"), &addr("v"), 1), Err(VotingError::VotingNotActive));
}

#[test]
fn non_owner_is_unauthorized() {
    let mut org = ready();
    let intruder = addr("intruder");
    assert_eq!(
        org.approve_voter(&addr("v1"), "m".to_string(), &intruder),
        Err(VotingError::Unauthorized)
    );
    assert_eq!(
        org.approve_voter(&addr("nobody"), "m".to_string(), &intruder),
        Err(VotingError::Unauthorized)
    );
    assert_eq!(org.reset_contract(&intruder), Err(VotingError::Unauthorized));
    assert_eq!(
        org.change_owner(addr("intruder"), &intruder),
        Err(VotingError::Unauthorized)
    );
    assert_eq!(org.set_voting_period(1, 2, &intruder), Err(VotingError::Unauthorized));
    assert_eq!(org.set_voting_period(2, 1, &intruder), Err(VotingError::Unauthorized));
    assert_eq!(org.get_voting_time(), vec![5, 10]);
    assert_eq!(org.get_all_registered_voters().len(), 1);
}

#[test]
fn no_owner_before_init() {
    let mut org = VotingOrganization::new();
    assert_eq!(org.set_voting_period(1, 2, &addr("")), Err(VotingError::Unauthorized));
    assert_eq!(org.reset_contract(&addr("anyone")), Err(VotingError::Unauthorized));
}

#[test]
fn change_owner_moves_rights() {
    let mut org = setup();
    assert_eq!(org.change_owner(addr("new"), &addr("owner")), Ok(()));
    assert_eq!(org.set_voting_period(1, 2, &addr("owner")), Err(VotingError::Unauthorized));
    assert_eq!(org.set_voting_period(1, 2, &addr("new")), Ok(()));
}

#[test]
fn reset_clears_everything() {
    let mut org = ready();
    let owner = addr("owner");
    org.vote(&addr("c1"), &addr("v1"), 7).unwrap();
    assert_eq!(org.reset_contract(&owner), Ok(()));
    assert!(org.get_all_registered_voters().is_empty());
    assert!(org.get_all_registered_candidates().is_empty());
    assert!(org.get_all_approved_voters().is_empty());
    assert!(org.get_all_approved_candidates().is_empty());
    assert!(org.get_all_voters_who_voted().is_empty());
    assert_eq!(org.voter_id_counter, 1);
    assert_eq!(org.candidate_id_counter, 1);
    assert_eq!(org.get_voting_time(), vec![0, 0]);
    let v = org.get_voter(&addr("v1"));
    assert!(v.is_not_found());
    assert_eq!(v.ipfs, "NotFound");
    assert_eq!(v.status, Status::Rejected);
    org.registerVoter("N".to_string(), "n".to_string(), addr("n"));
    assert_eq!(org.get_voter(&addr("n")).register_id, 1);
    assert_eq!(org.set_voting_period(1, 2, &owner), Ok(()));
}

#[test]
fn winner_only_after_end() {
    let mut org = ready();
    assert_eq!(
        org.get_winning_candidate(10).map(|c| c.vote_count),
        Err(VotingError::VotingStillActive)
    );
    assert_eq!(
        org.get_winning_candidate(3).map(|c| c.vote_count),
        Err(VotingError::VotingStillActive)
    );
    org.vote(&addr("c1"), &addr("v1"), 7).unwrap();
    let w = org.get_winning_candidate(11).unwrap();
    assert_eq!(w.candidate_address, addr("c1"));
    assert_eq!(w.vote_count, 1);
}

#[test]
fn winner_is_greatest_first_seen_on_ties() {
    let mut org = setup();
    let owner = addr("owner");
    for c in ["c1", "c2", "c3"] {
        org.register_candidate(c.to_string(), c.to_string(), addr(c));
        org.approve_candidate(&addr(c), "ok".to_string(), &owner).unwrap();
    }
    for v in ["v1", "v2", "v3", "v4", "v5"] {
        org.registerVoter(v.to_string(), v.to_string(), addr(v));
        org.approve_voter(&addr(v), "ok".to_string(), &owner).unwrap();
    }
    org.set_voting_period(5, 10, &owner).unwrap();
    org.vote(&addr("c1"), &addr("v1"), 6).unwrap();
    org.vote(&addr("c2"), &addr("v2"), 6).unwrap();
    org.vote(&addr("c2"), &addr("v3"), 6).unwrap();
    org.vote(&addr("c3"), &addr("v4"), 6).unwrap();
    org.vote(&addr("c3"), &addr("v5"), 6).unwrap();
    let w = org.get_winning_candidate(11).unwrap();
    assert_eq!(w.candidate_address, addr("c2"));
    assert_eq!(w.vote_count, 2);
    assert_eq!(org.get_current_voting_status().candidate_address, addr("c2"));
}

#[test]
fn no_votes_gives_empty_leader() {
    let mut org = setup();
    org.register_candidate("C".to_string(), "c".to_string(), addr("c"));
    let w = org.get_current_voting_status();
    assert!(w.is_not_found());
    assert_eq!(w.candidate_address, addr(""));
    assert_eq!(w.vote_count, 0);
}

#[test]
fn register_then_get_voter() {
    let mut org = setup();
    org.registerVoter("A".to_string(), "ipfsA".to_string(), addr("addr"));
    let v = org.get_voter(&addr("addr"));
    assert_eq!(v.status, Status::Pending);
    assert!(!v.has_voted);
    assert_eq!(v.message, "Currently your registration is pending");
    assert_eq!(v.name, "A");
    assert_eq!(v.ipfs, "ipfsA");
    assert!(!v.is_not_found());
    let c = org.get_candidate(&addr("addr"));
    assert!(c.is_not_found());
}

#[test]
fn reregistration_overwrites_and_duplicates() {
    let mut org = ready();
    org.registerVoter("V2".to_string(), "x".to_string(), addr("v1"));
    let v = org.get_voter(&addr("v1"));
    assert_eq!(v.status, Status::Pending);
    assert_eq!(v.name, "V2");
    assert_eq!(v.register_id, 2);
    assert_eq!(org.registered_voters.len(), 2);
    assert_eq!(org.get_all_registered_voters().len(), 2);
}

#[test]
fn update_keeps_status() {
    let mut org = ready();
    assert_eq!(
        org.update_voter("New".to_string(), "nipfs".to_string(), &addr("v1")),
        Ok(())
    );
    let v = org.get_voter(&addr("v1"));
    assert_eq!(v.name, "New");
    assert_eq!(v.ipfs, "nipfs");
    assert_eq!(v.status, Status::Approved);
    assert_eq!(v.message, "ok");
    assert_eq!(
        org.update_candidate("N".to_string(), "n".to_string(), &addr("nobody")),
        Err(VotingError::NotFound)
    );
    assert_eq!(
        org.update_voter("N".to_string(), "n".to_string(), &addr("nobody")),
        Err(VotingError::NotFound)
    );
}

#[test]
fn voted_list_not_filled_by_vote() {
    let mut org = ready();
    org.vote(&addr("c1"), &addr("v1"), 7).unwrap();
    assert!(org.get_all_voters_who_voted().is_empty());
}

#[test]
fn well_formed_states() {
    let mut org = ready();
    assert!(VotingOrganization::new().is_well_formed());
    assert!(org.is_well_formed());
    org.vote(&addr("c1"), &addr("v1"), 7).unwrap();
    assert!(org.is_well_formed());
}

#[test]
fn ill_formed_states() {
    let org = ready();
    let mut dup = ready();
    let copy = dup.voters[0].clone();
    dup.voters.push(copy);
    assert!(!dup.is_well_formed());
    let mut counter = ready();
    counter.candidate_id_counter = 5;
    assert!(!counter.is_well_formed());
    let mut tally = ready();
    tally.candidates[0].vote_count = 2;
    assert!(!tally.is_well_formed());
    assert!(org.is_well_formed());
}

#[test]
fn unregistered_record_is_ill_formed() {
    let mut org = ready();
    org.registered_voters[0] = addr("other");
    assert!(!org.is_well_formed());
}
