use vstd::prelude::*;

verus! {

/// An account, held as its canonical text form; two addresses are the same
/// account exactly when their texts are equal.
#[derive(Debug, Clone, PartialEq, Eq)]
pub struct Address {
    pub id: String,
}

impl View for Address {
    type V = Seq<char>;

    open spec fn view(&self) -> Seq<char> {
        self.id@
    }
}

impl Address {
    pub fn new(id: String) -> (r: Address)
        ensures
            r@ == id@,
    {
        Address { id }
    }

    /// The address whose text is empty: no real account has it.
    pub fn empty() -> (r: Address)
        ensures
            r@ == Seq::<char>::empty(),
    {
        Address { id: String::new() }
    }

    /// Whether both name the same account.
    pub fn same_as(&self, other: &Address) -> (r: bool)
        ensures
            r == (self@ == other@),
    {
        self.id == other.id
    }

    /// A copy equal to this address.
    pub fn copy(&self) -> (r: Address)
        ensures
            r == *self,
    {
        Address { id: self.id.clone() }
    }
}

/// Where a registrant stands with the administrator.
#[derive(Debug, Clone, Copy, PartialEq, Eq, Structural)]
pub enum Status {
    Pending,
    Approved,
    Rejected,
}

/// Why an operation was refused. A refused operation changes nothing.
#[derive(Debug, Clone, Copy, PartialEq, Eq, Structural)]
pub enum VotingError {
    Unauthorized,
    NotFound,
    AlreadyVoted,
    NotApproved,
    VotingNotActive,
    VotingStillActive,
    InvalidPeriod,
}

/// The message that every fresh registration carries.
pub open spec fn pending_message() -> Seq<char> {
    "Currently your registration is pending"@
}

/// The external-content marker of a record that is not stored.
pub open spec fn not_found_marker() -> Seq<char> {
    "NotFound"@
}

/// The pending message as a string.
pub fn pending_message_text() -> (r: String)
    ensures
        r@ == pending_message(),
{
    proof {
        reveal_strlit("Currently your registration is pending");
    }
    "Currently your registration is pending".to_owned()
}

/// The not-found marker as a string.
pub fn not_found_text() -> (r: String)
    ensures
        r@ == not_found_marker(),
{
    proof {
        reveal_strlit("NotFound");
    }
    "NotFound".to_owned()
}

/// A registered voter.
#[derive(Debug, Clone, PartialEq, Eq)]
pub struct Voter {
    pub voter_address: Address,
    pub name: String,
    pub ipfs: String,
    pub register_id: u128,
    pub status: Status,
    pub has_voted: bool,
    pub message: String,
}

/// A registered candidate.
#[derive(Debug, Clone, PartialEq, Eq)]
pub struct Candidate {
    pub candidate_address: Address,
    pub name: String,
    pub ipfs: String,
    pub register_id: u128,
    pub status: Status,
    pub vote_count: u128,
    pub message: String,
}

impl Voter {
    /// A new registration: pending, not voted, with the pending message.
    pub open spec fn is_fresh(&self, address: Address, name: String, ipfs: String, id: u128) -> bool {
        &&& self.voter_address == address
        &&& self.name == name
        &&& self.ipfs == ipfs
        &&& self.register_id == id
        &&& self.status == Status::Pending
        &&& !self.has_voted
        &&& self.message@ == pending_message()
    }

    /// The record handed out for an address that holds no voter.
    pub open spec fn is_not_found_for(&self, a: Seq<char>) -> bool {
        &&& self.voter_address@ == a
        &&& self.name@ == Seq::<char>::empty()
        &&& self.ipfs@ == not_found_marker()
        &&& self.message@ == Seq::<char>::empty()
        &&& self.register_id == 0
        &&& self.status == Status::Rejected
        &&& !self.has_voted
    }

    /// The record handed out for `addr` when none is stored.
    pub fn not_found(addr: &Address) -> (r: Voter)
        ensures
            r.is_not_found_for(addr@),
    {
        Voter {
            voter_address: addr.copy(),
            name: String::new(),
            ipfs: not_found_text(),
            register_id: 0,
            status: Status::Rejected,
            has_voted: false,
            message: String::new(),
        }
    }

    /// Whether this is a not-found record, told by its content marker.
    pub fn is_not_found(&self) -> (r: bool)
        ensures
            r == (self.ipfs@ == not_found_marker()),
    {
        let marker = not_found_text();
        self.ipfs == marker
    }

    /// A copy equal to this record.
    pub fn copy(&self) -> (r: Voter)
        ensures
            r == *self,
    {
        Voter {
            voter_address: self.voter_address.copy(),
            name: self.name.clone(),
            ipfs: self.ipfs.clone(),
            register_id: self.register_id,
            status: self.status,
            has_voted: self.has_voted,
            message: self.message.clone(),
        }
    }
}

impl Candidate {
    /// A new registration: pending, no votes, with the pending message.
    pub open spec fn is_fresh(&self, address: Address, name: String, ipfs: String, id: u128) -> bool {
        &&& self.candidate_address == address
        &&& self.name == name
        &&& self.ipfs == ipfs
        &&& self.register_id == id
        &&& self.status == Status::Pending
        &&& self.vote_count == 0
        &&& self.message@ == pending_message()
    }

    /// The record handed out for an address that holds no candidate.
    pub open spec fn is_not_found_for(&self, a: Seq<char>) -> bool {
        &&& self.candidate_address@ == a
        &&& self.name@ == Seq::<char>::empty()
        &&& self.ipfs@ == not_found_marker()
        &&& self.message@ == Seq::<char>::empty()
        &&& self.register_id == 0
        &&& self.status == Status::Rejected
        &&& self.vote_count == 0
    }

    /// The record handed out for `addr` when none is stored.
    pub fn not_found(addr: &Address) -> (r: Candidate)
        ensures
            r.is_not_found_for(addr@),
    {
        Candidate {
            candidate_address: addr.copy(),
            name: String::new(),
            ipfs: not_found_text(),
            register_id: 0,
            status: Status::Rejected,
            vote_count: 0,
            message: String::new(),
        }
    }

    /// Whether this is a not-found record, told by its content marker.
    pub fn is_not_found(&self) -> (r: bool)
        ensures
            r == (self.ipfs@ == not_found_marker()),
    {
        let marker = not_found_text();
        self.ipfs == marker
    }

    /// A copy equal to this record.
    pub fn copy(&self) -> (r: Candidate)
        ensures
            r == *self,
    {
        Candidate {
            candidate_address: self.candidate_address.copy(),
            name: self.name.clone(),
            ipfs: self.ipfs.clone(),
            register_id: self.register_id,
            status: self.status,
            vote_count: self.vote_count,
            message: self.message.clone(),
        }
    }
}

} // verus!
