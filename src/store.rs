use vstd::prelude::*;
use crate::types::{Address, Candidate, Voter};

verus! {

/// No two stored voter records share an address.
pub open spec fn voters_unique(s: Seq<Voter>) -> bool {
    forall|i: int, j: int|
        0 <= i < s.len() && 0 <= j < s.len() && i != j ==> s[i].voter_address@ != s[j].voter_address@
}

/// No two stored candidate records share an address.
pub open spec fn candidates_unique(s: Seq<Candidate>) -> bool {
    forall|i: int, j: int|
        0 <= i < s.len() && 0 <= j < s.len() && i != j
            ==> s[i].candidate_address@ != s[j].candidate_address@
}

/// The voter record stored under address `a`, if any.
pub open spec fn voter_in(s: Seq<Voter>, a: Seq<char>) -> Option<Voter> {
    if exists|i: int| 0 <= i < s.len() && s[i].voter_address@ == a {
        Some(s[choose|i: int| 0 <= i < s.len() && s[i].voter_address@ == a])
    } else {
        None
    }
}

/// The candidate record stored under address `a`, if any.
pub open spec fn candidate_in(s: Seq<Candidate>, a: Seq<char>) -> Option<Candidate> {
    if exists|i: int| 0 <= i < s.len() && s[i].candidate_address@ == a {
        Some(s[choose|i: int| 0 <= i < s.len() && s[i].candidate_address@ == a])
    } else {
        None
    }
}

pub proof fn lemma_voter_at(s: Seq<Voter>, i: int)
    requires
        voters_unique(s),
        0 <= i < s.len(),
    ensures
        voter_in(s, s[i].voter_address@) == Some(s[i]),
{
    let a = s[i].voter_address@;
    let j = choose|j: int| 0 <= j < s.len() && s[j].voter_address@ == a;
    assert(j == i);
}

pub proof fn lemma_candidate_at(s: Seq<Candidate>, i: int)
    requires
        candidates_unique(s),
        0 <= i < s.len(),
    ensures
        candidate_in(s, s[i].candidate_address@) == Some(s[i]),
{
    let a = s[i].candidate_address@;
    let j = choose|j: int| 0 <= j < s.len() && s[j].candidate_address@ == a;
    assert(j == i);
}

/// Overwriting a record with one of the same address changes the lookup of that
/// address alone.
pub proof fn lemma_voter_replace(s: Seq<Voter>, i: int, x: Voter)
    requires
        voters_unique(s),
        0 <= i < s.len(),
        x.voter_address@ == s[i].voter_address@,
    ensures
        voters_unique(s.update(i, x)),
        forall|b: Seq<char>|
            #[trigger] voter_in(s.update(i, x), b) == if b == x.voter_address@ {
                Some(x)
            } else {
                voter_in(s, b)
            },
{
    let t = s.update(i, x);
    assert(voters_unique(t));
    assert forall|b: Seq<char>|
        #[trigger] voter_in(t, b) == if b == x.voter_address@ {
            Some(x)
        } else {
            voter_in(s, b)
        } by {
        if b == x.voter_address@ {
            lemma_voter_at(t, i);
        } else if exists|k: int| 0 <= k < s.len() && s[k].voter_address@ == b {
            let k = choose|k: int| 0 <= k < s.len() && s[k].voter_address@ == b;
            lemma_voter_at(s, k);
            lemma_voter_at(t, k);
        } else {
            assert(!exists|k: int| 0 <= k < t.len() && t[k].voter_address@ == b);
        }
    }
}

/// Appending a record under a fresh address changes the lookup of that address
/// alone.
pub proof fn lemma_voter_push(s: Seq<Voter>, x: Voter)
    requires
        voters_unique(s),
        voter_in(s, x.voter_address@) is None,
    ensures
        voters_unique(s.push(x)),
        forall|b: Seq<char>|
            #[trigger] voter_in(s.push(x), b) == if b == x.voter_address@ {
                Some(x)
            } else {
                voter_in(s, b)
            },
{
    let t = s.push(x);
    assert(voters_unique(t));
    assert forall|b: Seq<char>|
        #[trigger] voter_in(t, b) == if b == x.voter_address@ {
            Some(x)
        } else {
            voter_in(s, b)
        } by {
        if b == x.voter_address@ {
            lemma_voter_at(t, s.len() as int);
        } else if exists|k: int| 0 <= k < s.len() && s[k].voter_address@ == b {
            let k = choose|k: int| 0 <= k < s.len() && s[k].voter_address@ == b;
            lemma_voter_at(s, k);
            lemma_voter_at(t, k);
        } else {
            assert(!exists|k: int| 0 <= k < t.len() && t[k].voter_address@ == b);
        }
    }
}

pub proof fn lemma_candidate_replace(s: Seq<Candidate>, i: int, x: Candidate)
    requires
        candidates_unique(s),
        0 <= i < s.len(),
        x.candidate_address@ == s[i].candidate_address@,
    ensures
        candidates_unique(s.update(i, x)),
        forall|b: Seq<char>|
            #[trigger] candidate_in(s.update(i, x), b) == if b == x.candidate_address@ {
                Some(x)
            } else {
                candidate_in(s, b)
            },
{
    let t = s.update(i, x);
    assert(candidates_unique(t));
    assert forall|b: Seq<char>|
        #[trigger] candidate_in(t, b) == if b == x.candidate_address@ {
            Some(x)
        } else {
            candidate_in(s, b)
        } by {
        if b == x.candidate_address@ {
            lemma_candidate_at(t, i);
        } else if exists|k: int| 0 <= k < s.len() && s[k].candidate_address@ == b {
            let k = choose|k: int| 0 <= k < s.len() && s[k].candidate_address@ == b;
            lemma_candidate_at(s, k);
            lemma_candidate_at(t, k);
        } else {
            assert(!exists|k: int| 0 <= k < t.len() && t[k].candidate_address@ == b);
        }
    }
}

pub proof fn lemma_candidate_push(s: Seq<Candidate>, x: Candidate)
    requires
        candidates_unique(s),
        candidate_in(s, x.candidate_address@) is None,
    ensures
        candidates_unique(s.push(x)),
        forall|b: Seq<char>|
            #[trigger] candidate_in(s.push(x), b) == if b == x.candidate_address@ {
                Some(x)
            } else {
                candidate_in(s, b)
            },
{
    let t = s.push(x);
    assert(candidates_unique(t));
    assert forall|b: Seq<char>|
        #[trigger] candidate_in(t, b) == if b == x.candidate_address@ {
            Some(x)
        } else {
            candidate_in(s, b)
        } by {
        if b == x.candidate_address@ {
            lemma_candidate_at(t, s.len() as int);
        } else if exists|k: int| 0 <= k < s.len() && s[k].candidate_address@ == b {
            let k = choose|k: int| 0 <= k < s.len() && s[k].candidate_address@ == b;
            lemma_candidate_at(s, k);
            lemma_candidate_at(t, k);
        } else {
            assert(!exists|k: int| 0 <= k < t.len() && t[k].candidate_address@ == b);
        }
    }
}

/// Finds the position of the voter record stored under `a`.
pub fn find_voter(s: &Vec<Voter>, a: &Address) -> (r: Option<usize>)
    requires
        voters_unique(s@),
    ensures
        match r {
            Some(i) => i < s@.len() && s@[i as int].voter_address@ == a@ && voter_in(s@, a@)
                == Some(s@[i as int]),
            None => voter_in(s@, a@) is None,
        },
{
    let mut i: usize = 0;
    while i < s.len()
        invariant
            i <= s@.len(),
            voters_unique(s@),
            forall|k: int| 0 <= k < i ==> s@[k].voter_address@ != a@,
        decreases s@.len() - i,
    {
        if s[i].voter_address.same_as(a) {
            proof {
                lemma_voter_at(s@, i as int);
            }
            return Some(i);
        }
        i = i + 1;
    }
    None
}

/// Finds the position of the candidate record stored under `a`.
pub fn find_candidate(s: &Vec<Candidate>, a: &Address) -> (r: Option<usize>)
    requires
        candidates_unique(s@),
    ensures
        match r {
            Some(i) => i < s@.len() && s@[i as int].candidate_address@ == a@ && candidate_in(s@, a@)
                == Some(s@[i as int]),
            None => candidate_in(s@, a@) is None,
        },
{
    let mut i: usize = 0;
    while i < s.len()
        invariant
            i <= s@.len(),
            candidates_unique(s@),
            forall|k: int| 0 <= k < i ==> s@[k].candidate_address@ != a@,
        decreases s@.len() - i,
    {
        if s[i].candidate_address.same_as(a) {
            proof {
                lemma_candidate_at(s@, i as int);
            }
            return Some(i);
        }
        i = i + 1;
    }
    None
}

/// Whether `a` occurs in `list`.
pub open spec fn listed(list: Seq<Address>, a: Seq<char>) -> bool {
    exists|j: int| 0 <= j < list.len() && list[j]@ == a
}

/// Every stored voter's address occurs in `list`.
pub open spec fn voters_listed(s: Seq<Voter>, list: Seq<Address>) -> bool {
    forall|i: int| 0 <= i < s.len() ==> listed(list, #[trigger] s[i].voter_address@)
}

/// Every stored candidate's address occurs in `list`.
pub open spec fn candidates_listed(s: Seq<Candidate>, list: Seq<Address>) -> bool {
    forall|i: int| 0 <= i < s.len() ==> listed(list, #[trigger] s[i].candidate_address@)
}

pub proof fn lemma_listed_push(list: Seq<Address>, x: Address, a: Seq<char>)
    ensures
        listed(list, a) ==> listed(list.push(x), a),
        listed(list.push(x), x@),
{
    assert(list.push(x)[list.len() as int] == x);
    if listed(list, a) {
        let j = choose|j: int| 0 <= j < list.len() && list[j]@ == a;
        assert(list.push(x)[j] == list[j]);
    }
}

/// A registration keeps every stored voter listed: the list gains `x`, and
/// the record stored for `x` replaces one or is appended.
pub proof fn lemma_voters_listed_register(s: Seq<Voter>, t: Seq<Voter>, list: Seq<Address>, x: Address)
    requires
        voters_listed(s, list),
        forall|k: int|
            0 <= k < t.len() ==> #[trigger] t[k].voter_address@ == x@ || exists|m: int|
                0 <= m < s.len() && s[m].voter_address@ == t[k].voter_address@,
    ensures
        voters_listed(t, list.push(x)),
{
    assert forall|k: int| 0 <= k < t.len() implies listed(list.push(x), #[trigger] t[k].voter_address@) by {
        lemma_listed_push(list, x, t[k].voter_address@);
        if t[k].voter_address@ != x@ {
            let m = choose|m: int| 0 <= m < s.len() && s[m].voter_address@ == t[k].voter_address@;
            assert(listed(list, s[m].voter_address@));
        }
    }
}

/// A registration keeps every stored candidate listed: the list gains `x`,
/// and the record stored for `x` replaces one or is appended.
pub proof fn lemma_candidates_listed_register(
    s: Seq<Candidate>,
    t: Seq<Candidate>,
    list: Seq<Address>,
    x: Address,
)
    requires
        candidates_listed(s, list),
        forall|k: int|
            0 <= k < t.len() ==> #[trigger] t[k].candidate_address@ == x@ || exists|m: int|
                0 <= m < s.len() && s[m].candidate_address@ == t[k].candidate_address@,
    ensures
        candidates_listed(t, list.push(x)),
{
    assert forall|k: int| 0 <= k < t.len() implies listed(list.push(x), #[trigger] t[k].candidate_address@) by {
        lemma_listed_push(list, x, t[k].candidate_address@);
        if t[k].candidate_address@ != x@ {
            let m = choose|m: int|
                0 <= m < s.len() && s[m].candidate_address@ == t[k].candidate_address@;
            assert(listed(list, s[m].candidate_address@));
        }
    }
}

/// The voter records of the addresses in `list`, in list order; addresses that
/// hold no record are skipped.
pub open spec fn resolve_voters(list: Seq<Address>, store: Seq<Voter>) -> Seq<Voter>
    decreases list.len(),
{
    if list.len() == 0 {
        Seq::empty()
    } else {
        let before = resolve_voters(list.drop_last(), store);
        match voter_in(store, list.last()@) {
            Some(v) => before.push(v),
            None => before,
        }
    }
}

/// The candidate records of the addresses in `list`, in list order; addresses
/// that hold no record are skipped.
pub open spec fn resolve_candidates(list: Seq<Address>, store: Seq<Candidate>) -> Seq<Candidate>
    decreases list.len(),
{
    if list.len() == 0 {
        Seq::empty()
    } else {
        let before = resolve_candidates(list.drop_last(), store);
        match candidate_in(store, list.last()@) {
            Some(c) => before.push(c),
            None => before,
        }
    }
}

/// The first candidate of `list` whose vote count is greater than that of
/// every candidate before it and greater than zero; `None` when no candidate
/// has a vote.
pub open spec fn leader(list: Seq<Address>, store: Seq<Candidate>) -> Option<Candidate>
    decreases list.len(),
{
    if list.len() == 0 {
        None
    } else {
        let before = leader(list.drop_last(), store);
        let best: int = match before {
            Some(c) => c.vote_count as int,
            None => 0,
        };
        match candidate_in(store, list.last()@) {
            Some(c) => if best < c.vote_count {
                Some(c)
            } else {
                before
            },
            None => before,
        }
    }
}

/// How many stored voters have not voted yet.
pub open spec fn unvoted(s: Seq<Voter>) -> nat
    decreases s.len(),
{
    if s.len() == 0 {
        0
    } else {
        unvoted(s.drop_last()) + if s.last().has_voted {
            0nat
        } else {
            1nat
        }
    }
}

/// The sum of the vote counts of the stored candidates.
pub open spec fn tally(s: Seq<Candidate>) -> nat
    decreases s.len(),
{
    if s.len() == 0 {
        0
    } else {
        tally(s.drop_last()) + s.last().vote_count as nat
    }
}

pub proof fn lemma_unvoted_replace(s: Seq<Voter>, i: int, x: Voter)
    requires
        0 <= i < s.len(),
    ensures
        unvoted(s.update(i, x)) + (if s[i].has_voted { 0int } else { 1int }) == unvoted(s) + (
        if x.has_voted {
            0int
        } else {
            1int
        }),
    decreases s.len(),
{
    if i == s.len() - 1 {
        assert(s.update(i, x).drop_last() =~= s.drop_last());
    } else {
        assert(s.update(i, x).drop_last() =~= s.drop_last().update(i, x));
        lemma_unvoted_replace(s.drop_last(), i, x);
    }
}

pub proof fn lemma_tally_replace(s: Seq<Candidate>, i: int, x: Candidate)
    requires
        0 <= i < s.len(),
    ensures
        tally(s.update(i, x)) + s[i].vote_count == tally(s) + x.vote_count,
    decreases s.len(),
{
    if i == s.len() - 1 {
        assert(s.update(i, x).drop_last() =~= s.drop_last());
    } else {
        assert(s.update(i, x).drop_last() =~= s.drop_last().update(i, x));
        lemma_tally_replace(s.drop_last(), i, x);
    }
}

pub proof fn lemma_tally_bounds(s: Seq<Candidate>, i: int)
    requires
        0 <= i < s.len(),
    ensures
        s[i].vote_count <= tally(s),
    decreases s.len(),
{
    if i < s.len() - 1 {
        lemma_tally_bounds(s.drop_last(), i);
    }
}

pub proof fn lemma_tally_prefix(s: Seq<Candidate>, i: int)
    requires
        0 <= i <= s.len(),
    ensures
        tally(s.take(i)) <= tally(s),
    decreases s.len(),
{
    if i < s.len() {
        assert(s.drop_last().take(i) =~= s.take(i));
        lemma_tally_prefix(s.drop_last(), i);
    } else {
        assert(s.take(i) =~= s);
    }
}

/// Whether no two voter records share an address.
pub fn voters_are_unique(s: &Vec<Voter>) -> (r: bool)
    ensures
        r == voters_unique(s@),
{
    let mut i: usize = 0;
    while i < s.len()
        invariant
            i <= s@.len(),
            forall|p: int, q: int|
                0 <= p < i && 0 <= q < s@.len() && p != q ==> s@[p].voter_address@
                    != s@[q].voter_address@,
        decreases s@.len() - i,
    {
        let mut j: usize = 0;
        while j < s.len()
            invariant
                i < s@.len(),
                j <= s@.len(),
                forall|p: int, q: int|
                    0 <= p < i && 0 <= q < s@.len() && p != q ==> s@[p].voter_address@
                        != s@[q].voter_address@,
                forall|q: int|
                    0 <= q < j && q != i ==> s@[i as int].voter_address@ != s@[q].voter_address@,
            decreases s@.len() - j,
        {
            if j != i && s[i].voter_address.same_as(&s[j].voter_address) {
                return false;
            }
            j = j + 1;
        }
        i = i + 1;
    }
    true
}

/// Whether no two candidate records share an address.
pub fn candidates_are_unique(s: &Vec<Candidate>) -> (r: bool)
    ensures
        r == candidates_unique(s@),
{
    let mut i: usize = 0;
    while i < s.len()
        invariant
            i <= s@.len(),
            forall|p: int, q: int|
                0 <= p < i && 0 <= q < s@.len() && p != q ==> s@[p].candidate_address@
                    != s@[q].candidate_address@,
        decreases s@.len() - i,
    {
        let mut j: usize = 0;
        while j < s.len()
            invariant
                i < s@.len(),
                j <= s@.len(),
                forall|p: int, q: int|
                    0 <= p < i && 0 <= q < s@.len() && p != q ==> s@[p].candidate_address@
                        != s@[q].candidate_address@,
                forall|q: int|
                    0 <= q < j && q != i ==> s@[i as int].candidate_address@
                        != s@[q].candidate_address@,
            decreases s@.len() - j,
        {
            if j != i && s[i].candidate_address.same_as(&s[j].candidate_address) {
                return false;
            }
            j = j + 1;
        }
        i = i + 1;
    }
    true
}

/// How many voter records have not voted.
pub fn count_unvoted(s: &Vec<Voter>) -> (r: usize)
    ensures
        r == unvoted(s@),
{
    let mut n: usize = 0;
    let mut i: usize = 0;
    while i < s.len()
        invariant
            i <= s@.len(),
            n <= i,
            n == unvoted(s@.take(i as int)),
        decreases s@.len() - i,
    {
        assert(s@.take(i + 1).drop_last() =~= s@.take(i as int));
        if !s[i].has_voted {
            n = n + 1;
        }
        i = i + 1;
    }
    assert(s@.take(s@.len() as int) =~= s@);
    n
}

/// Whether the candidates' vote counts sum to at most `bound`.
pub fn tally_within(s: &Vec<Candidate>, bound: usize) -> (r: bool)
    ensures
        r == (tally(s@) <= bound),
{
    let mut sum: u128 = 0;
    let mut i: usize = 0;
    while i < s.len()
        invariant
            i <= s@.len(),
            sum <= bound,
            sum == tally(s@.take(i as int)),
        decreases s@.len() - i,
    {
        assert(s@.take(i + 1).drop_last() =~= s@.take(i as int));
        let count = s[i].vote_count;
        if count > bound as u128 - sum {
            proof {
                lemma_tally_prefix(s@, i + 1);
            }
            return false;
        }
        sum = sum + count;
        i = i + 1;
    }
    assert(s@.take(s@.len() as int) =~= s@);
    true
}

/// Whether `a` occurs in `list`.
pub fn is_listed(list: &Vec<Address>, a: &Address) -> (r: bool)
    ensures
        r == listed(list@, a@),
{
    let mut j: usize = 0;
    while j < list.len()
        invariant
            j <= list@.len(),
            forall|k: int| 0 <= k < j ==> list@[k]@ != a@,
        decreases list@.len() - j,
    {
        if list[j].same_as(a) {
            return true;
        }
        j = j + 1;
    }
    false
}

/// Whether every stored voter's address occurs in `list`.
pub fn voters_all_listed(s: &Vec<Voter>, list: &Vec<Address>) -> (r: bool)
    ensures
        r == voters_listed(s@, list@),
{
    let mut i: usize = 0;
    while i < s.len()
        invariant
            i <= s@.len(),
            forall|k: int| 0 <= k < i ==> listed(list@, #[trigger] s@[k].voter_address@),
        decreases s@.len() - i,
    {
        if !is_listed(list, &s[i].voter_address) {
            return false;
        }
        i = i + 1;
    }
    true
}

/// Whether every stored candidate's address occurs in `list`.
pub fn candidates_all_listed(s: &Vec<Candidate>, list: &Vec<Address>) -> (r: bool)
    ensures
        r == candidates_listed(s@, list@),
{
    let mut i: usize = 0;
    while i < s.len()
        invariant
            i <= s@.len(),
            forall|k: int| 0 <= k < i ==> listed(list@, #[trigger] s@[k].candidate_address@),
        decreases s@.len() - i,
    {
        if !is_listed(list, &s[i].candidate_address) {
            return false;
        }
        i = i + 1;
    }
    true
}

} // verus!
