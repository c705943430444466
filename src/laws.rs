use vstd::prelude::*;
use crate::election::VotingOrganization;
use crate::store::{candidate_in, leader, listed, resolve_candidates, resolve_voters};
use crate::types::{pending_message, Address, Candidate, Status, VotingError};

verus! {

/// Two registrations of voters in a row receive consecutive ids, and each
/// leaves the candidate counter alone.
pub proof fn lemma_voter_ids_consecutive(
    s0: VotingOrganization,
    s1: VotingOrganization,
    s2: VotingOrganization,
    name1: String,
    ipfs1: String,
    addr1: Address,
    name2: String,
    ipfs2: String,
    addr2: Address,
)
    requires
        s0.voter_registration(s1, name1, ipfs1, addr1),
        s1.voter_registration(s2, name2, ipfs2, addr2),
    ensures
        s1.voter(addr1@)->0.register_id == s0.voter_id_counter,
        s2.voter(addr2@)->0.register_id == s1.voter(addr1@)->0.register_id + 1,
        s2.voter_id_counter == s0.voter_id_counter + 2,
        s2.candidate_id_counter == s0.candidate_id_counter,
{
}

/// Two registrations of candidates in a row receive consecutive ids, and each
/// leaves the voter counter alone.
pub proof fn lemma_candidate_ids_consecutive(
    s0: VotingOrganization,
    s1: VotingOrganization,
    s2: VotingOrganization,
    name1: String,
    ipfs1: String,
    addr1: Address,
    name2: String,
    ipfs2: String,
    addr2: Address,
)
    requires
        s0.candidate_registration(s1, name1, ipfs1, addr1),
        s1.candidate_registration(s2, name2, ipfs2, addr2),
    ensures
        s1.candidate(addr1@)->0.register_id == s0.candidate_id_counter,
        s2.candidate(addr2@)->0.register_id == s1.candidate(addr1@)->0.register_id + 1,
        s2.candidate_id_counter == s0.candidate_id_counter + 2,
        s2.voter_id_counter == s0.voter_id_counter,
{
}

/// A vote changes a candidate's count only when it succeeds, which needs an
/// approved voter and an approved candidate; and a voter who has voted stays
/// so, with an unchanged record.
pub proof fn lemma_vote_needs_approval(
    s0: VotingOrganization,
    s1: VotingOrganization,
    candidate: Seq<char>,
    voter: Seq<char>,
    now: u64,
    r: Result<(), VotingError>,
)
    requires
        s0.vote_outcome(s1, candidate, voter, now, r),
    ensures
        forall|a: Seq<char>|
            #[trigger] s1.candidate(a) != s0.candidate(a) ==> {
                &&& r is Ok
                &&& a == candidate
                &&& s0.voter(voter)->0.status == Status::Approved
                &&& s0.candidate(candidate)->0.status == Status::Approved
            },
        forall|a: Seq<char>|
            s0.voter(a) is Some && s0.voter(a)->0.has_voted ==> #[trigger] s1.voter(a) == s0.voter(
                a,
            ),
{
}

/// A voter who voted once is refused a second time, inside the voting window,
/// with `AlreadyVoted`, and that second call changes nothing.
pub proof fn lemma_second_vote_refused(
    s0: VotingOrganization,
    s1: VotingOrganization,
    s2: VotingOrganization,
    candidate1: Seq<char>,
    candidate2: Seq<char>,
    voter: Seq<char>,
    now1: u64,
    now2: u64,
    r1: Result<(), VotingError>,
    r2: Result<(), VotingError>,
)
    requires
        s0.vote_outcome(s1, candidate1, voter, now1, r1),
        r1 is Ok,
        s1.vote_outcome(s2, candidate2, voter, now2, r2),
        s1.active_at(now2),
    ensures
        r2 == Err::<(), VotingError>(VotingError::AlreadyVoted),
        s2 == s1,
{
}

/// After a successful approval the voter reads as approved and is the last
/// entry of the approved voters.
pub proof fn lemma_approved_voter_listed(
    s0: VotingOrganization,
    s1: VotingOrganization,
    address: Address,
    message: String,
    caller: Address,
    r: Result<(), VotingError>,
)
    requires
        s0.voter_approval(s1, address, message, caller, r),
        r is Ok,
    ensures
        s1.voter(address@) is Some,
        s1.voter(address@)->0.status == Status::Approved,
        resolve_voters(s1.approved_voters@, s1.voters@).last() == s1.voter(address@)->0,
{
    assert(s1.approved_voters@.drop_last() =~= s0.approved_voters@);
}

/// After a successful approval the candidate reads as approved and is the
/// last entry of the approved candidates.
pub proof fn lemma_approved_candidate_listed(
    s0: VotingOrganization,
    s1: VotingOrganization,
    address: Address,
    message: String,
    caller: Address,
    r: Result<(), VotingError>,
)
    requires
        s0.candidate_approval(s1, address, message, caller, r),
        r is Ok,
    ensures
        s1.candidate(address@) is Some,
        s1.candidate(address@)->0.status == Status::Approved,
        resolve_candidates(s1.approved_candidates@, s1.candidates@).last() == s1.candidate(
            address@,
        )->0,
{
    assert(s1.approved_candidates@.drop_last() =~= s0.approved_candidates@);
}

/// A voter read back right after registering is pending, has not voted and
/// carries the pending message.
pub proof fn lemma_registered_voter_reads_back(
    s0: VotingOrganization,
    s1: VotingOrganization,
    name: String,
    ipfs: String,
    address: Address,
)
    requires
        s0.voter_registration(s1, name, ipfs, address),
    ensures
        s1.voter(address@) is Some,
        s1.voter(address@)->0.status == Status::Pending,
        !s1.voter(address@)->0.has_voted,
        s1.voter(address@)->0.message@ == pending_message(),
        s1.voter(address@)->0.name == name,
        s1.voter(address@)->0.ipfs == ipfs,
{
}

/// Every stored record belongs to a registered address, and a reset leaves
/// no record: so what a reset removes is exactly the records of the registered
/// addresses.
pub proof fn lemma_reset_removes_registered_records(s0: VotingOrganization, s1: VotingOrganization)
    requires
        s0.wf(),
        s1.is_reset(),
    ensures
        forall|a: Seq<char>| #[trigger] s0.voter(a) is Some ==> listed(s0.registered_voters@, a),
        forall|a: Seq<char>|
            #[trigger] s0.candidate(a) is Some ==> listed(s0.registered_candidates@, a),
        forall|a: Seq<char>| #[trigger] s1.voter(a) is None && s1.candidate(a) is None,
{
    assert forall|a: Seq<char>| #[trigger] s0.voter(a) is Some implies listed(
        s0.registered_voters@,
        a,
    ) by {
        let i = choose|i: int| 0 <= i < s0.voters@.len() && s0.voters@[i].voter_address@ == a;
        assert(listed(s0.registered_voters@, s0.voters@[i].voter_address@));
    }
    assert forall|a: Seq<char>| #[trigger] s0.candidate(a) is Some implies listed(
        s0.registered_candidates@,
        a,
    ) by {
        let i = choose|i: int|
            0 <= i < s0.candidates@.len() && s0.candidates@[i].candidate_address@ == a;
        assert(listed(s0.registered_candidates@, s0.candidates@[i].candidate_address@));
    }
    assert forall|a: Seq<char>| #[trigger] s1.voter(a) is None && s1.candidate(a) is None by {
        assert(s1.voter(a) is None);
        assert(s1.candidate(a) is None);
    }
}

/// The vote count of the record stored for the `k`-th address of `list`, zero
/// when there is none.
pub open spec fn count_at(list: Seq<Address>, store: Seq<Candidate>, k: int) -> int {
    match candidate_in(store, list[k]@) {
        Some(c) => c.vote_count as int,
        None => 0,
    }
}

/// The leader has the greatest count of all listed candidates, strictly
/// greater than that of every candidate listed before it; with no leader,
/// no listed candidate has a vote.
pub proof fn lemma_leader_is_greatest(list: Seq<Address>, store: Seq<Candidate>)
    ensures
        match leader(list, store) {
            Some(c) => {
                &&& c.vote_count > 0
                &&& exists|j: int|
                    0 <= j < list.len() && candidate_in(store, list[j]@) == Some(c) && forall|
                        k: int,
                    |
                        0 <= k < j ==> #[trigger] count_at(list, store, k) < c.vote_count
                &&& forall|k: int|
                    0 <= k < list.len() ==> #[trigger] count_at(list, store, k) <= c.vote_count
            },
            None => forall|k: int| 0 <= k < list.len() ==> #[trigger] count_at(list, store, k) == 0,
        },
    decreases list.len(),
{
    if list.len() > 0 {
        let prefix = list.drop_last();
        let n = list.len() - 1;
        lemma_leader_is_greatest(prefix, store);
        assert forall|k: int| 0 <= k < n implies #[trigger] count_at(list, store, k) == count_at(
            prefix,
            store,
            k,
        ) by {
            assert(list[k] == prefix[k]);
        }
        match leader(prefix, store) {
            Some(p) => {
                let j = choose|j: int|
                    0 <= j < prefix.len() && candidate_in(store, prefix[j]@) == Some(p) && forall|
                        k: int,
                    |
                        0 <= k < j ==> #[trigger] count_at(prefix, store, k) < p.vote_count;
                assert(candidate_in(store, list[j]@) == Some(p));
                match leader(list, store) {
                    Some(c) => {
                        if c != p {
                            assert(candidate_in(store, list[n]@) == Some(c));
                            assert(forall|k: int|
                                0 <= k < n ==> #[trigger] count_at(list, store, k)
                                    < c.vote_count);
                        } else {
                            assert(forall|k: int|
                                0 <= k < j ==> #[trigger] count_at(list, store, k)
                                    < c.vote_count);
                        }
                    },
                    None => {},
                }
            },
            None => {},
        }
    }
}

} // verus!
