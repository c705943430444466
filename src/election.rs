use vstd::prelude::*;
use crate::store::{
    candidate_in, candidates_are_unique, candidates_unique, count_unvoted, tally_within,
    voters_are_unique, leader, resolve_candidates, resolve_voters, find_candidate, find_voter, lemma_candidate_push,
    lemma_candidate_replace, lemma_tally_bounds, lemma_tally_replace, lemma_unvoted_replace,
    lemma_voter_push, lemma_voter_replace, voters_listed, candidates_listed,
    lemma_voters_listed_register, lemma_candidates_listed_register, voters_all_listed,
    candidates_all_listed, tally, unvoted, voter_in, voters_unique,
};
use crate::types::{
    not_found_marker, pending_message, pending_message_text, Address, Candidate, Status, Voter,
    VotingError,
};

verus! {

/// The whole state of one election: owner, voting window, id counters, the five
/// address lists and the per-address voter and candidate records.
pub struct VotingOrganization {
    pub owner: Option<Address>,
    pub voters: Vec<Voter>,
    pub candidates: Vec<Candidate>,
    pub registered_voters: Vec<Address>,
    pub registered_candidates: Vec<Address>,
    pub approved_voters: Vec<Address>,
    pub approved_candidates: Vec<Address>,
    pub voted_voters: Vec<Address>,
    pub voter_id_counter: u128,
    pub candidate_id_counter: u128,
    pub start_time: u64,
    pub end_time: u64,
}

impl VotingOrganization {
    /// Records are keyed by address and each belongs to a registered address;
    /// the counters and the tallies are bounded by the registrations made since
    /// the last reset, so they cannot overflow.
    pub open spec fn wf(&self) -> bool {
        &&& voters_unique(self.voters@)
        &&& candidates_unique(self.candidates@)
        &&& self.voter_id_counter <= self.registered_voters@.len() + 1
        &&& self.candidate_id_counter <= self.registered_candidates@.len() + 1
        &&& tally(self.candidates@) + unvoted(self.voters@) <= self.registered_voters@.len()
        &&& voters_listed(self.voters@, self.registered_voters@)
        &&& candidates_listed(self.candidates@, self.registered_candidates@)
    }

    /// The voter record stored under `a`, if any.
    pub open spec fn voter(&self, a: Seq<char>) -> Option<Voter> {
        voter_in(self.voters@, a)
    }

    /// The candidate record stored under `a`, if any.
    pub open spec fn candidate(&self, a: Seq<char>) -> Option<Candidate> {
        candidate_in(self.candidates@, a)
    }

    /// Whether an owner is configured and `a` is it.
    pub open spec fn is_owner(&self, a: Seq<char>) -> bool {
        match self.owner {
            Some(o) => o@ == a,
            None => false,
        }
    }

    /// Whether `now` lies in the voting window, both ends included.
    pub open spec fn active_at(&self, now: u64) -> bool {
        self.start_time <= now <= self.end_time
    }

    /// The five address lists are those of `o`.
    pub open spec fn same_lists(&self, o: &Self) -> bool {
        &&& self.registered_voters == o.registered_voters
        &&& self.registered_candidates == o.registered_candidates
        &&& self.approved_voters == o.approved_voters
        &&& self.approved_candidates == o.approved_candidates
        &&& self.voted_voters == o.voted_voters
    }

    /// Owner, id counters and voting window are those of `o`.
    pub open spec fn same_settings(&self, o: &Self) -> bool {
        &&& self.owner == o.owner
        &&& self.voter_id_counter == o.voter_id_counter
        &&& self.candidate_id_counter == o.candidate_id_counter
        &&& self.start_time == o.start_time
        &&& self.end_time == o.end_time
    }

    /// Whether the state meets `wf`; for a state assembled from stored parts.
    pub fn is_well_formed(&self) -> (r: bool)
        ensures
            r == self.wf(),
    {
        let nv = self.registered_voters.len();
        let nc = self.registered_candidates.len();
        if self.voter_id_counter > nv as u128 + 1 || self.candidate_id_counter > nc as u128 + 1 {
            return false;
        }
        if !voters_are_unique(&self.voters) || !candidates_are_unique(&self.candidates) {
            return false;
        }
        if !voters_all_listed(&self.voters, &self.registered_voters) || !candidates_all_listed(
            &self.candidates,
            &self.registered_candidates,
        ) {
            return false;
        }
        let open_votes = count_unvoted(&self.voters);
        if open_votes > nv {
            return false;
        }
        tally_within(&self.candidates, nv - open_votes)
    }

    /// A state with no owner, no records, empty lists, counters at 1 and a
    /// closed voting window.
    pub fn new() -> (r: VotingOrganization)
        ensures
            r.wf(),
            r.owner is None,
            r.voters@.len() == 0,
            r.candidates@.len() == 0,
            r.registered_voters@.len() == 0,
            r.registered_candidates@.len() == 0,
            r.approved_voters@.len() == 0,
            r.approved_candidates@.len() == 0,
            r.voted_voters@.len() == 0,
            r.voter_id_counter == 1,
            r.candidate_id_counter == 1,
            r.start_time == 0,
            r.end_time == 0,
    {
        VotingOrganization {
            owner: None,
            voters: Vec::new(),
            candidates: Vec::new(),
            registered_voters: Vec::new(),
            registered_candidates: Vec::new(),
            approved_voters: Vec::new(),
            approved_candidates: Vec::new(),
            voted_voters: Vec::new(),
            voter_id_counter: 1,
            candidate_id_counter: 1,
            start_time: 0,
            end_time: 0,
        }
    }

    /// Sets the owner and puts both id counters back to 1; records, lists and
    /// the voting window are kept.
    pub fn init(&mut self, owner_address: Address)
        requires
            old(self).wf(),
        ensures
            final(self).wf(),
            final(self).owner == Some(owner_address),
            final(self).voter_id_counter == 1,
            final(self).candidate_id_counter == 1,
            final(self).voters == old(self).voters,
            final(self).candidates == old(self).candidates,
            final(self).same_lists(old(self)),
            final(self).start_time == old(self).start_time,
            final(self).end_time == old(self).end_time,
    {
        self.owner = Some(owner_address);
        self.voter_id_counter = 1;
        self.candidate_id_counter = 1;
    }

    /// Fails with `Unauthorized` unless `caller` is the configured owner.
    pub fn owner_only(&self, caller: &Address) -> (r: Result<(), VotingError>)
        ensures
            r is Ok <==> self.is_owner(caller@),
            r is Err ==> r == Err::<(), VotingError>(VotingError::Unauthorized),
    {
        match &self.owner {
            Some(o) => if o.same_as(caller) {
                Ok(())
            } else {
                Err(VotingError::Unauthorized)
            },
            None => Err(VotingError::Unauthorized),
        }
    }

    /// Fails with `VotingNotActive` unless `now` lies in the voting window.
    pub fn only_during_voting_period(&self, now: u64) -> (r: Result<(), VotingError>)
        ensures
            r is Ok <==> self.active_at(now),
            r is Err ==> r == Err::<(), VotingError>(VotingError::VotingNotActive),
    {
        if self.start_time <= now && now <= self.end_time {
            Ok(())
        } else {
            Err(VotingError::VotingNotActive)
        }
    }

    /// Why a vote by `voter` for `candidate` at time `now` is refused, if it is.
    pub open spec fn vote_error(&self, candidate: Seq<char>, voter: Seq<char>, now: u64) -> Option<
        VotingError,
    > {
        if !self.active_at(now) {
            Some(VotingError::VotingNotActive)
        } else if self.voter(voter) is None {
            Some(VotingError::NotFound)
        } else if self.voter(voter)->0.status != Status::Approved {
            Some(VotingError::NotApproved)
        } else if self.voter(voter)->0.has_voted {
            Some(VotingError::AlreadyVoted)
        } else if self.candidate(candidate) is None {
            Some(VotingError::NotFound)
        } else if self.candidate(candidate)->0.status != Status::Approved {
            Some(VotingError::NotApproved)
        } else {
            None
        }
    }

    /// What `vote` leaves: the state unchanged and the error of `vote_error`
    /// when there is one; else the voter marked as having voted, the
    /// candidate's count up by one, and nothing else changed.
    pub open spec fn vote_outcome(
        &self,
        post: Self,
        candidate: Seq<char>,
        voter: Seq<char>,
        now: u64,
        r: Result<(), VotingError>,
    ) -> bool {
        match self.vote_error(candidate, voter, now) {
            Some(e) => r == Err::<(), VotingError>(e) && post == *self,
            None => {
                &&& r is Ok
                &&& post.voter(voter) == Some((Voter { has_voted: true, ..self.voter(voter)->0 }))
                &&& post.candidate(candidate) == Some(
                    (Candidate {
                        vote_count: (self.candidate(candidate)->0.vote_count + 1) as u128,
                        ..self.candidate(candidate)->0
                    }),
                )
                &&& forall|a: Seq<char>| a != voter ==> #[trigger] post.voter(a) == self.voter(a)
                &&& forall|a: Seq<char>|
                    a != candidate ==> #[trigger] post.candidate(a) == self.candidate(a)
                &&& post.same_lists(self)
                &&& post.same_settings(self)
            },
        }
    }

    /// Casts the vote of `voter_address` for `candidate_address` at time `now`.
    /// On success the voter is marked as having voted and the candidate's count
    /// goes up by one; nothing else changes. The list of voters who voted is
    /// left as it is.
    pub fn vote(&mut self, candidate_address: &Address, voter_address: &Address, now: u64) -> (r:
        Result<(), VotingError>)
        requires
            old(self).wf(),
        ensures
            final(self).wf(),
            old(self).vote_outcome(*final(self), candidate_address@, voter_address@, now, r),
    {
        self.only_during_voting_period(now)?;
        let vi = match find_voter(&self.voters, voter_address) {
            Some(i) => i,
            None => return Err(VotingError::NotFound),
        };
        if self.voters[vi].status != Status::Approved {
            return Err(VotingError::NotApproved);
        }
        if self.voters[vi].has_voted {
            return Err(VotingError::AlreadyVoted);
        }
        let ci = match find_candidate(&self.candidates, candidate_address) {
            Some(i) => i,
            None => return Err(VotingError::NotFound),
        };
        if self.candidates[ci].status != Status::Approved {
            return Err(VotingError::NotApproved);
        }
        let ghost old_voters = self.voters@;
        let ghost old_candidates = self.candidates@;
        proof {
            lemma_tally_bounds(old_candidates, ci as int);
            lemma_unvoted_replace(old_voters, vi as int, Voter { has_voted: true, ..old_voters[vi as int] });
        }
        let n = self.registered_voters.len();
        let count = self.candidates[ci].vote_count;
        assert(count + 1 <= n);
        self.voters[vi].has_voted = true;
        self.candidates[ci].vote_count = count + 1;
        proof {
            assert(self.voters@ == old_voters.update(vi as int, Voter { has_voted: true, ..old_voters[vi as int] }));
            lemma_voter_replace(old_voters, vi as int, self.voters@[vi as int]);
            lemma_candidate_replace(old_candidates, ci as int, self.candidates@[ci as int]);
            lemma_tally_replace(old_candidates, ci as int, self.candidates@[ci as int]);
        }
        Ok(())
    }
}

impl VotingOrganization {
    /// What `registerVoter` leaves: a fresh record under `address` with the
    /// next voter id, the address appended to the registered voters, the voter
    /// counter up by one, and nothing else changed.
    pub open spec fn voter_registration(&self, post: Self, name: String, ipfs: String, address: Address) -> bool {
        &&& post.voter(address@) is Some
        &&& post.voter(address@)->0.is_fresh(address, name, ipfs, self.voter_id_counter)
        &&& forall|a: Seq<char>| a != address@ ==> #[trigger] post.voter(a) == self.voter(a)
        &&& post.candidates == self.candidates
        &&& post.registered_voters@ == self.registered_voters@.push(address)
        &&& post.voter_id_counter == self.voter_id_counter + 1
        &&& post.registered_candidates == self.registered_candidates
        &&& post.approved_voters == self.approved_voters
        &&& post.approved_candidates == self.approved_candidates
        &&& post.voted_voters == self.voted_voters
        &&& post.owner == self.owner
        &&& post.candidate_id_counter == self.candidate_id_counter
        &&& post.start_time == self.start_time
        &&& post.end_time == self.end_time
    }

    /// What `register_candidate` leaves: a fresh record under `address` with
    /// the next candidate id, the address appended to the registered
    /// candidates, the candidate counter up by one, and nothing else changed.
    pub open spec fn candidate_registration(&self, post: Self, name: String, ipfs: String, address: Address) -> bool {
        &&& post.candidate(address@) is Some
        &&& post.candidate(address@)->0.is_fresh(address, name, ipfs, self.candidate_id_counter)
        &&& forall|a: Seq<char>| a != address@ ==> #[trigger] post.candidate(a) == self.candidate(a)
        &&& post.voters == self.voters
        &&& post.registered_candidates@ == self.registered_candidates@.push(address)
        &&& post.candidate_id_counter == self.candidate_id_counter + 1
        &&& post.registered_voters == self.registered_voters
        &&& post.approved_voters == self.approved_voters
        &&& post.approved_candidates == self.approved_candidates
        &&& post.voted_voters == self.voted_voters
        &&& post.owner == self.owner
        &&& post.voter_id_counter == self.voter_id_counter
        &&& post.start_time == self.start_time
        &&& post.end_time == self.end_time
    }

    /// Registers `address` as a voter under the next voter id, as pending. A
    /// record already stored under `address` is overwritten, and the address is
    /// appended to the registered voters even if it is there already.
    #[allow(non_snake_case)]
    pub fn registerVoter(&mut self, name: String, ipfs: String, address: Address)
        requires
            old(self).wf(),
        ensures
            final(self).wf(),
            old(self).voter_registration(*final(self), name, ipfs, address),
    {
        let id = self.voter_id_counter;
        let n = self.registered_voters.len();
        assert(id + 1 <= n + 2);
        let record = Voter {
            voter_address: address.copy(),
            name,
            ipfs,
            register_id: id,
            status: Status::Pending,
            has_voted: false,
            message: pending_message_text(),
        };
        let ghost old_voters = self.voters@;
        let ghost old_list = self.registered_voters@;
        let ghost key = address;
        match find_voter(&self.voters, &address) {
            Some(i) => {
                proof {
                    lemma_voter_replace(old_voters, i as int, record);
                    lemma_unvoted_replace(old_voters, i as int, record);
                }
                self.voters[i] = record;
            },
            None => {
                proof {
                    lemma_voter_push(old_voters, record);
                    assert(old_voters.push(record).drop_last() =~= old_voters);
                }
                self.voters.push(record);
            },
        }
        self.registered_voters.push(address);
        self.voter_id_counter = id + 1;
        proof {
            let t = self.voters@;
            assert forall|m: int| 0 <= m < t.len() implies #[trigger] t[m].voter_address@ == key@
                || exists|n: int|
                0 <= n < old_voters.len() && old_voters[n].voter_address@ == t[m].voter_address@ by {
                if m < old_voters.len() && t[m] != old_voters[m] {
                    assert(t[m].voter_address@ == key@);
                } else if m < old_voters.len() {
                    assert(old_voters[m].voter_address@ == t[m].voter_address@);
                }
            }
            lemma_voters_listed_register(old_voters, t, old_list, key);
        }
    }

    /// Registers `address` as a candidate under the next candidate id, as
    /// pending with no votes. A record already stored under `address` is
    /// overwritten, and the address is appended to the registered candidates
    /// even if it is there already.
    pub fn register_candidate(&mut self, name: String, ipfs: String, address: Address)
        requires
            old(self).wf(),
        ensures
            final(self).wf(),
            old(self).candidate_registration(*final(self), name, ipfs, address),
    {
        let id = self.candidate_id_counter;
        let n = self.registered_candidates.len();
        assert(id + 1 <= n + 2);
        let record = Candidate {
            candidate_address: address.copy(),
            name,
            ipfs,
            register_id: id,
            status: Status::Pending,
            vote_count: 0,
            message: pending_message_text(),
        };
        let ghost old_candidates = self.candidates@;
        let ghost old_list = self.registered_candidates@;
        let ghost key = address;
        match find_candidate(&self.candidates, &address) {
            Some(i) => {
                proof {
                    lemma_candidate_replace(old_candidates, i as int, record);
                    lemma_tally_replace(old_candidates, i as int, record);
                }
                self.candidates[i] = record;
            },
            None => {
                proof {
                    lemma_candidate_push(old_candidates, record);
                    assert(old_candidates.push(record).drop_last() =~= old_candidates);
                }
                self.candidates.push(record);
            },
        }
        self.registered_candidates.push(address);
        self.candidate_id_counter = id + 1;
        proof {
            let t = self.candidates@;
            assert forall|m: int| 0 <= m < t.len() implies #[trigger] t[m].candidate_address@ == key@
                || exists|n: int|
                0 <= n < old_candidates.len() && old_candidates[n].candidate_address@ == t[m].candidate_address@ by {
                if m < old_candidates.len() && t[m] != old_candidates[m] {
                    assert(t[m].candidate_address@ == key@);
                } else if m < old_candidates.len() {
                    assert(old_candidates[m].candidate_address@ == t[m].candidate_address@);
                }
            }
            lemma_candidates_listed_register(old_candidates, t, old_list, key);
        }
    }
}

impl VotingOrganization {
    /// Marks the voter stored under `address` as approved with `message`.
    fn decide_voter(&mut self, address: &Address, message: String) -> (r: Result<(), VotingError>)
        requires
            old(self).wf(),
        ensures
            final(self).wf(),
            old(self).voter(address@) is None ==> r == Err::<(), VotingError>(VotingError::NotFound)
                && *final(self) == *old(self),
            old(self).voter(address@) is Some ==> {
                &&& r is Ok
                &&& final(self).voter(address@) == Some(
                    (Voter {
                        status: Status::Approved,
                        message: message,
                        ..old(self).voter(address@)->0
                    }),
                )
                &&& forall|a: Seq<char>|
                    a != address@ ==> #[trigger] final(self).voter(a) == old(self).voter(a)
                &&& final(self).candidates == old(self).candidates
                &&& final(self).same_lists(old(self))
                &&& final(self).same_settings(old(self))
            },
    {
        let i = match find_voter(&self.voters, address) {
            Some(i) => i,
            None => return Err(VotingError::NotFound),
        };
        let ghost old_voters = self.voters@;
        let ghost decided = Voter { status: Status::Approved, message: message, ..old_voters[i as int] };
        proof {
            lemma_voter_replace(old_voters, i as int, decided);
            lemma_unvoted_replace(old_voters, i as int, decided);
        }
        self.voters[i].status = Status::Approved;
        self.voters[i].message = message;
        assert(self.voters@ =~= old_voters.update(i as int, decided));
        Ok(())
    }

    /// Marks the candidate stored under `address` as approved with `message`.
    fn decide_candidate(&mut self, address: &Address, message: String) -> (r: Result<
        (),
        VotingError,
    >)
        requires
            old(self).wf(),
        ensures
            final(self).wf(),
            old(self).candidate(address@) is None ==> r == Err::<(), VotingError>(
                VotingError::NotFound,
            ) && *final(self) == *old(self),
            old(self).candidate(address@) is Some ==> {
                &&& r is Ok
                &&& final(self).candidate(address@) == Some(
                    (Candidate {
                        status: Status::Approved,
                        message: message,
                        ..old(self).candidate(address@)->0
                    }),
                )
                &&& forall|a: Seq<char>|
                    a != address@ ==> #[trigger] final(self).candidate(a) == old(self).candidate(a)
                &&& final(self).voters == old(self).voters
                &&& final(self).same_lists(old(self))
                &&& final(self).same_settings(old(self))
            },
    {
        let i = match find_candidate(&self.candidates, address) {
            Some(i) => i,
            None => return Err(VotingError::NotFound),
        };
        let ghost old_candidates = self.candidates@;
        let ghost decided = Candidate {
            status: Status::Approved,
            message: message,
            ..old_candidates[i as int]
        };
        proof {
            lemma_candidate_replace(old_candidates, i as int, decided);
            lemma_tally_replace(old_candidates, i as int, decided);
        }
        self.candidates[i].status = Status::Approved;
        self.candidates[i].message = message;
        assert(self.candidates@ =~= old_candidates.update(i as int, decided));
        Ok(())
    }

    /// What `approve_voter` leaves: `Unauthorized` for anyone but the owner,
    /// `NotFound` for an address with no voter record, the state unchanged on
    /// either; else the record approved with `message`, the address appended
    /// to the approved voters, and nothing else changed.
    pub open spec fn voter_approval(
        &self,
        post: Self,
        address: Address,
        message: String,
        caller: Address,
        r: Result<(), VotingError>,
    ) -> bool {
        &&& !self.is_owner(caller@) ==> r == Err::<(), VotingError>(VotingError::Unauthorized)
            && post == *self
        &&& self.is_owner(caller@) && self.voter(address@) is None ==> r == Err::<(), VotingError>(
            VotingError::NotFound,
        ) && post == *self
        &&& self.is_owner(caller@) && self.voter(address@) is Some ==> {
            &&& r is Ok
            &&& post.voter(address@) == Some(
                (Voter { status: Status::Approved, message: message, ..self.voter(address@)->0 }),
            )
            &&& forall|a: Seq<char>| a != address@ ==> #[trigger] post.voter(a) == self.voter(a)
            &&& post.candidates == self.candidates
            &&& post.approved_voters@ == self.approved_voters@.push(address)
            &&& post.registered_voters == self.registered_voters
            &&& post.registered_candidates == self.registered_candidates
            &&& post.approved_candidates == self.approved_candidates
            &&& post.voted_voters == self.voted_voters
            &&& post.same_settings(self)
        }
    }

    /// What `approve_candidate` leaves: `Unauthorized` for anyone but the
    /// owner, `NotFound` for an address with no candidate record, the state
    /// unchanged on either; else the record approved with `message`, the
    /// address appended to the approved candidates, and nothing else changed.
    pub open spec fn candidate_approval(
        &self,
        post: Self,
        address: Address,
        message: String,
        caller: Address,
        r: Result<(), VotingError>,
    ) -> bool {
        &&& !self.is_owner(caller@) ==> r == Err::<(), VotingError>(VotingError::Unauthorized)
            && post == *self
        &&& self.is_owner(caller@) && self.candidate(address@) is None ==> r == Err::<
            (),
            VotingError,
        >(VotingError::NotFound) && post == *self
        &&& self.is_owner(caller@) && self.candidate(address@) is Some ==> {
            &&& r is Ok
            &&& post.candidate(address@) == Some(
                (Candidate {
                    status: Status::Approved,
                    message: message,
                    ..self.candidate(address@)->0
                }),
            )
            &&& forall|a: Seq<char>|
                a != address@ ==> #[trigger] post.candidate(a) == self.candidate(a)
            &&& post.voters == self.voters
            &&& post.approved_candidates@ == self.approved_candidates@.push(address)
            &&& post.registered_voters == self.registered_voters
            &&& post.registered_candidates == self.registered_candidates
            &&& post.approved_voters == self.approved_voters
            &&& post.voted_voters == self.voted_voters
            &&& post.same_settings(self)
        }
    }

    /// Owner only: approves the voter stored under `address` with `message`
    /// and appends the address to the approved voters.
    pub fn approve_voter(&mut self, address: &Address, message: String, caller: &Address) -> (r:
        Result<(), VotingError>)
        requires
            old(self).wf(),
        ensures
            final(self).wf(),
            old(self).voter_approval(*final(self), *address, message, *caller, r),
    {
        self.owner_only(caller)?;
        let r = self.decide_voter(address, message);
        if r.is_err() {
            return r;
        }
        let ghost decided = *self;
        self.approved_voters.push(address.copy());
        assert(forall|a: Seq<char>| #[trigger] self.voter(a) == decided.voter(a));
        Ok(())
    }

    /// Owner only: approves the candidate stored under `address` with
    /// `message` and appends the address to the approved candidates.
    pub fn approve_candidate(&mut self, address: &Address, message: String, caller: &Address) -> (r:
        Result<(), VotingError>)
        requires
            old(self).wf(),
        ensures
            final(self).wf(),
            old(self).candidate_approval(*final(self), *address, message, *caller, r),
    {
        self.owner_only(caller)?;
        let r = self.decide_candidate(address, message);
        if r.is_err() {
            return r;
        }
        let ghost decided = *self;
        self.approved_candidates.push(address.copy());
        assert(forall|a: Seq<char>| #[trigger] self.candidate(a) == decided.candidate(a));
        Ok(())
    }

    /// Owner only: records `message` for the voter stored under `address`.
    /// The status it leaves is `Approved`, as approval does, and no list
    /// changes.
    pub fn reject_voter(&mut self, address: &Address, message: String, caller: &Address) -> (r:
        Result<(), VotingError>)
        requires
            old(self).wf(),
        ensures
            final(self).wf(),
            !old(self).is_owner(caller@) ==> r == Err::<(), VotingError>(VotingError::Unauthorized)
                && *final(self) == *old(self),
            old(self).is_owner(caller@) && old(self).voter(address@) is None ==> r == Err::<
                (),
                VotingError,
            >(VotingError::NotFound) && *final(self) == *old(self),
            old(self).is_owner(caller@) && old(self).voter(address@) is Some ==> {
                &&& r is Ok
                &&& final(self).voter(address@) == Some(
                    (Voter {
                        status: Status::Approved,
                        message: message,
                        ..old(self).voter(address@)->0
                    }),
                )
                &&& forall|a: Seq<char>|
                    a != address@ ==> #[trigger] final(self).voter(a) == old(self).voter(a)
                &&& final(self).candidates == old(self).candidates
                &&& final(self).same_lists(old(self))
                &&& final(self).same_settings(old(self))
            },
    {
        self.owner_only(caller)?;
        self.decide_voter(address, message)
    }

    /// Owner only: records `message` for the candidate stored under
    /// `address`. The status it leaves is `Approved`, as approval does, and no
    /// list changes.
    pub fn reject_candidate(&mut self, address: &Address, message: String, caller: &Address) -> (r:
        Result<(), VotingError>)
        requires
            old(self).wf(),
        ensures
            final(self).wf(),
            !old(self).is_owner(caller@) ==> r == Err::<(), VotingError>(VotingError::Unauthorized)
                && *final(self) == *old(self),
            old(self).is_owner(caller@) && old(self).candidate(address@) is None ==> r == Err::<
                (),
                VotingError,
            >(VotingError::NotFound) && *final(self) == *old(self),
            old(self).is_owner(caller@) && old(self).candidate(address@) is Some ==> {
                &&& r is Ok
                &&& final(self).candidate(address@) == Some(
                    (Candidate {
                        status: Status::Approved,
                        message: message,
                        ..old(self).candidate(address@)->0
                    }),
                )
                &&& forall|a: Seq<char>|
                    a != address@ ==> #[trigger] final(self).candidate(a) == old(self).candidate(a)
                &&& final(self).voters == old(self).voters
                &&& final(self).same_lists(old(self))
                &&& final(self).same_settings(old(self))
            },
    {
        self.owner_only(caller)?;
        self.decide_candidate(address, message)
    }
}

impl VotingOrganization {
    /// Replaces the name and external-content reference of the voter stored
    /// under `addr`; anyone may call it.
    pub fn update_voter(&mut self, name: String, ipfs: String, addr: &Address) -> (r: Result<
        (),
        VotingError,
    >)
        requires
            old(self).wf(),
        ensures
            final(self).wf(),
            old(self).voter(addr@) is None ==> r == Err::<(), VotingError>(VotingError::NotFound)
                && *final(self) == *old(self),
            old(self).voter(addr@) is Some ==> {
                &&& r is Ok
                &&& final(self).voter(addr@) == Some(
                    (Voter { name: name, ipfs: ipfs, ..old(self).voter(addr@)->0 }),
                )
                &&& forall|a: Seq<char>|
                    a != addr@ ==> #[trigger] final(self).voter(a) == old(self).voter(a)
                &&& final(self).candidates == old(self).candidates
                &&& final(self).same_lists(old(self))
                &&& final(self).same_settings(old(self))
            },
    {
        let i = match find_voter(&self.voters, addr) {
            Some(i) => i,
            None => return Err(VotingError::NotFound),
        };
        let ghost old_voters = self.voters@;
        let ghost updated = Voter { name: name, ipfs: ipfs, ..old_voters[i as int] };
        proof {
            lemma_voter_replace(old_voters, i as int, updated);
            lemma_unvoted_replace(old_voters, i as int, updated);
        }
        self.voters[i].name = name;
        self.voters[i].ipfs = ipfs;
        assert(self.voters@ =~= old_voters.update(i as int, updated));
        Ok(())
    }

    /// Replaces the name and external-content reference of the candidate
    /// stored under `addr`; anyone may call it.
    pub fn update_candidate(&mut self, name: String, ipfs: String, addr: &Address) -> (r: Result<
        (),
        VotingError,
    >)
        requires
            old(self).wf(),
        ensures
            final(self).wf(),
            old(self).candidate(addr@) is None ==> r == Err::<(), VotingError>(
                VotingError::NotFound,
            ) && *final(self) == *old(self),
            old(self).candidate(addr@) is Some ==> {
                &&& r is Ok
                &&& final(self).candidate(addr@) == Some(
                    (Candidate { name: name, ipfs: ipfs, ..old(self).candidate(addr@)->0 }),
                )
                &&& forall|a: Seq<char>|
                    a != addr@ ==> #[trigger] final(self).candidate(a) == old(self).candidate(a)
                &&& final(self).voters == old(self).voters
                &&& final(self).same_lists(old(self))
                &&& final(self).same_settings(old(self))
            },
    {
        let i = match find_candidate(&self.candidates, addr) {
            Some(i) => i,
            None => return Err(VotingError::NotFound),
        };
        let ghost old_candidates = self.candidates@;
        let ghost updated = Candidate { name: name, ipfs: ipfs, ..old_candidates[i as int] };
        proof {
            lemma_candidate_replace(old_candidates, i as int, updated);
            lemma_tally_replace(old_candidates, i as int, updated);
        }
        self.candidates[i].name = name;
        self.candidates[i].ipfs = ipfs;
        assert(self.candidates@ =~= old_candidates.update(i as int, updated));
        Ok(())
    }

    /// Owner only: opens voting from `start_time` to `end_time`, both
    /// included; the start must come before the end.
    pub fn set_voting_period(&mut self, start_time: u64, end_time: u64, address: &Address) -> (r:
        Result<(), VotingError>)
        requires
            old(self).wf(),
        ensures
            final(self).wf(),
            !old(self).is_owner(address@) ==> r == Err::<(), VotingError>(VotingError::Unauthorized)
                && *final(self) == *old(self),
            old(self).is_owner(address@) && start_time >= end_time ==> r == Err::<(), VotingError>(
                VotingError::InvalidPeriod,
            ) && *final(self) == *old(self),
            old(self).is_owner(address@) && start_time < end_time ==> r is Ok && *final(self) == (
            VotingOrganization { start_time, end_time, ..*old(self) }),
    {
        self.owner_only(address)?;
        if start_time >= end_time {
            return Err(VotingError::InvalidPeriod);
        }
        self.start_time = start_time;
        self.end_time = end_time;
        Ok(())
    }

    /// Owner only: hands ownership to `new_owner`.
    pub fn change_owner(&mut self, new_owner: Address, address: &Address) -> (r: Result<
        (),
        VotingError,
    >)
        requires
            old(self).wf(),
        ensures
            final(self).wf(),
            !old(self).is_owner(address@) ==> r == Err::<(), VotingError>(VotingError::Unauthorized)
                && *final(self) == *old(self),
            old(self).is_owner(address@) ==> r is Ok && *final(self) == (VotingOrganization {
                owner: Some(new_owner),
                ..*old(self)
            }),
    {
        self.owner_only(address)?;
        self.owner = Some(new_owner);
        Ok(())
    }

    /// Owner only: removes the record of every registered address, which is
    /// every stored record, empties the five lists, puts both counters back to
    /// 1 and closes the voting window. The owner stays.
    pub fn reset_contract(&mut self, address: &Address) -> (r: Result<(), VotingError>)
        requires
            old(self).wf(),
        ensures
            final(self).wf(),
            !old(self).is_owner(address@) ==> r == Err::<(), VotingError>(VotingError::Unauthorized)
                && *final(self) == *old(self),
            old(self).is_owner(address@) ==> {
                &&& r is Ok
                &&& final(self).is_reset()
                &&& final(self).owner == old(self).owner
            },
    {
        self.owner_only(address)?;
        self.voters = Vec::new();
        self.candidates = Vec::new();
        self.registered_voters = Vec::new();
        self.registered_candidates = Vec::new();
        self.approved_voters = Vec::new();
        self.approved_candidates = Vec::new();
        self.voted_voters = Vec::new();
        self.voter_id_counter = 1;
        self.candidate_id_counter = 1;
        self.start_time = 0;
        self.end_time = 0;
        Ok(())
    }

    /// No records, empty lists, counters at 1, window closed at (0, 0).
    pub open spec fn is_reset(&self) -> bool {
        &&& forall|a: Seq<char>| #[trigger] self.voter(a) is None
        &&& forall|a: Seq<char>| #[trigger] self.candidate(a) is None
        &&& self.voters@.len() == 0
        &&& self.candidates@.len() == 0
        &&& self.registered_voters@.len() == 0
        &&& self.registered_candidates@.len() == 0
        &&& self.approved_voters@.len() == 0
        &&& self.approved_candidates@.len() == 0
        &&& self.voted_voters@.len() == 0
        &&& self.voter_id_counter == 1
        &&& self.candidate_id_counter == 1
        &&& self.start_time == 0
        &&& self.end_time == 0
    }
}

impl VotingOrganization {
    /// The records of the addresses in `list`, skipping those with none.
    fn collect_voters(&self, list: &Vec<Address>) -> (r: Vec<Voter>)
        requires
            self.wf(),
        ensures
            r@ == resolve_voters(list@, self.voters@),
    {
        let mut out: Vec<Voter> = Vec::new();
        let mut i: usize = 0;
        while i < list.len()
            invariant
                self.wf(),
                i <= list@.len(),
                out@ == resolve_voters(list@.take(i as int), self.voters@),
            decreases list@.len() - i,
        {
            proof {
                assert(list@.take(i + 1).drop_last() =~= list@.take(i as int));
            }
            match find_voter(&self.voters, &list[i]) {
                Some(j) => out.push(self.voters[j].copy()),
                None => {},
            }
            i = i + 1;
        }
        assert(list@.take(list@.len() as int) =~= list@);
        out
    }

    /// The records of the addresses in `list`, skipping those with none.
    fn collect_candidates(&self, list: &Vec<Address>) -> (r: Vec<Candidate>)
        requires
            self.wf(),
        ensures
            r@ == resolve_candidates(list@, self.candidates@),
    {
        let mut out: Vec<Candidate> = Vec::new();
        let mut i: usize = 0;
        while i < list.len()
            invariant
                self.wf(),
                i <= list@.len(),
                out@ == resolve_candidates(list@.take(i as int), self.candidates@),
            decreases list@.len() - i,
        {
            proof {
                assert(list@.take(i + 1).drop_last() =~= list@.take(i as int));
            }
            match find_candidate(&self.candidates, &list[i]) {
                Some(j) => out.push(self.candidates[j].copy()),
                None => {},
            }
            i = i + 1;
        }
        assert(list@.take(list@.len() as int) =~= list@);
        out
    }

    /// The records of the registered voters, in registration order.
    pub fn get_all_registered_voters(&self) -> (r: Vec<Voter>)
        requires
            self.wf(),
        ensures
            r@ == resolve_voters(self.registered_voters@, self.voters@),
    {
        self.collect_voters(&self.registered_voters)
    }

    /// The records of the registered candidates, in registration order.
    pub fn get_all_registered_candidates(&self) -> (r: Vec<Candidate>)
        requires
            self.wf(),
        ensures
            r@ == resolve_candidates(self.registered_candidates@, self.candidates@),
    {
        self.collect_candidates(&self.registered_candidates)
    }

    /// The records of the approved candidates, in approval order.
    pub fn get_all_approved_candidates(&self) -> (r: Vec<Candidate>)
        requires
            self.wf(),
        ensures
            r@ == resolve_candidates(self.approved_candidates@, self.candidates@),
    {
        self.collect_candidates(&self.approved_candidates)
    }

    /// The records of the approved voters, in approval order.
    pub fn get_all_approved_voters(&self) -> (r: Vec<Voter>)
        requires
            self.wf(),
        ensures
            r@ == resolve_voters(self.approved_voters@, self.voters@),
    {
        self.collect_voters(&self.approved_voters)
    }

    /// The records of the addresses on the list of voters who voted.
    pub fn get_all_voters_who_voted(&self) -> (r: Vec<Voter>)
        requires
            self.wf(),
        ensures
            r@ == resolve_voters(self.voted_voters@, self.voters@),
    {
        self.collect_voters(&self.voted_voters)
    }

    /// The candidate stored under `addr`, or the not-found record for it.
    pub fn get_candidate(&self, addr: &Address) -> (r: Candidate)
        requires
            self.wf(),
        ensures
            match self.candidate(addr@) {
                Some(c) => r == c,
                None => r.is_not_found_for(addr@),
            },
    {
        match find_candidate(&self.candidates, addr) {
            Some(i) => self.candidates[i].copy(),
            None => Candidate::not_found(addr),
        }
    }

    /// The voter stored under `addr`, or the not-found record for it.
    pub fn get_voter(&self, addr: &Address) -> (r: Voter)
        requires
            self.wf(),
        ensures
            match self.voter(addr@) {
                Some(v) => r == v,
                None => r.is_not_found_for(addr@),
            },
    {
        match find_voter(&self.voters, addr) {
            Some(i) => self.voters[i].copy(),
            None => Voter::not_found(addr),
        }
    }

    /// The registered candidate with the most votes, the earliest registered
    /// among equals; the not-found record of the empty address when no
    /// candidate has a vote.
    pub fn get_current_voting_status(&self) -> (r: Candidate)
        requires
            self.wf(),
        ensures
            match leader(self.registered_candidates@, self.candidates@) {
                Some(c) => r == c,
                None => r.is_not_found_for(Seq::empty()),
            },
    {
        let list = &self.registered_candidates;
        let mut winner = Candidate::not_found(&Address::empty());
        let mut i: usize = 0;
        while i < list.len()
            invariant
                self.wf(),
                list == &self.registered_candidates,
                i <= list@.len(),
                match leader(list@.take(i as int), self.candidates@) {
                    Some(c) => winner == c,
                    None => winner.is_not_found_for(Seq::empty()),
                },
            decreases list@.len() - i,
        {
            proof {
                assert(list@.take(i + 1).drop_last() =~= list@.take(i as int));
            }
            match find_candidate(&self.candidates, &list[i]) {
                Some(j) => {
                    if winner.vote_count < self.candidates[j].vote_count {
                        winner = self.candidates[j].copy();
                    }
                },
                None => {},
            }
            i = i + 1;
        }
        assert(list@.take(list@.len() as int) =~= list@);
        winner
    }

    /// The current leader, once the voting window has ended; before that,
    /// `VotingStillActive`.
    pub fn get_winning_candidate(&self, now: u64) -> (r: Result<Candidate, VotingError>)
        requires
            self.wf(),
        ensures
            now <= self.end_time ==> r == Err::<Candidate, VotingError>(
                VotingError::VotingStillActive,
            ),
            now > self.end_time ==> r is Ok && match leader(
                self.registered_candidates@,
                self.candidates@,
            ) {
                Some(c) => r->Ok_0 == c,
                None => r->Ok_0.is_not_found_for(Seq::empty()),
            },
    {
        if now <= self.end_time {
            return Err(VotingError::VotingStillActive);
        }
        Ok(self.get_current_voting_status())
    }

    /// The voting window as `[start, end]`.
    pub fn get_voting_time(&self) -> (r: Vec<u64>)
        ensures
            r@ == seq![self.start_time, self.end_time],
    {
        let mut r: Vec<u64> = Vec::new();
        r.push(self.start_time);
        r.push(self.end_time);
        r
    }
}

} // verus!
