use vstd::prelude::*;

verus! {

/// Lexicographic "at least as up to date" order on `(term, index)` pairs of log positions.
pub open spec fn log_at_least_as_recent(left_term: int, left_index: int, right_term: int, right_index: int) -> bool {
    left_term > right_term || (left_term == right_term && left_index >= right_index)
}

/// Whether a log ending at `(left_term, left_index)` is at least as up to date as
/// one ending at `(right_term, right_index)`: a later term wins, and with equal terms
/// the longer log wins.
pub fn is_log_left_as_update_as_right(left_term: i32, left_index: i32, right_term: i32, right_index: i32) -> (r: bool)
    ensures
        r == log_at_least_as_recent(left_term as int, left_index as int, right_term as int, right_index as int),
{
    if left_term > right_term {
        return true;
    } else if left_term < right_term {
        return false;
    } else {
        if left_index >= right_index {
            return true;
        } else {
            return false;
        }
    }
}

/// "At least as up to date" orders log positions totally: every position is at
/// least as up to date as itself, of two positions one is at least as up to date
/// as the other, the order is transitive, and two positions each at least as up
/// to date as the other are the same.
pub proof fn lemma_up_to_date_is_total_order(t1: int, i1: int, t2: int, i2: int, t3: int, i3: int)
    ensures
        log_at_least_as_recent(t1, i1, t1, i1),
        log_at_least_as_recent(t1, i1, t2, i2) || log_at_least_as_recent(t2, i2, t1, i1),
        log_at_least_as_recent(t1, i1, t2, i2) && log_at_least_as_recent(t2, i2, t3, i3) ==> log_at_least_as_recent(t1, i1, t3, i3),
        log_at_least_as_recent(t1, i1, t2, i2) && log_at_least_as_recent(t2, i2, t1, i1) ==> t1 == t2 && i1 == i2,
{
}

/// The votes a candidate has collected in one election round: the identifiers
/// of the nodes that voted for it, each counted once, and the count it must exceed.
pub struct VoteTally {
    pub votes: Vec<i32>,
    pub majority: usize,
}

impl VoteTally {
    /// The voters, in the order their votes came.
    pub open spec fn view(&self) -> Seq<i32> {
        self.votes@
    }

    /// No voter is counted twice.
    pub open spec fn wf(&self) -> bool {
        self.votes@.no_duplicates()
    }

    /// A tally holding only the candidate's own vote.
    pub fn new(own_id: i32, majority: usize) -> (t: Self)
        ensures
            t.wf(),
            t@ == seq![own_id],
            t.majority == majority,
    {
        let mut votes: Vec<i32> = Vec::new();
        votes.push(own_id);
        VoteTally { votes, majority }
    }

    /// Counts a vote from `id`, unless it was already counted.
    pub fn insert(&mut self, id: i32)
        requires
            old(self).wf(),
        ensures
            final(self).wf(),
            final(self).majority == old(self).majority,
            old(self)@.contains(id) ==> final(self)@ == old(self)@,
            !old(self)@.contains(id) ==> final(self)@ == old(self)@.push(id),
    {
        let mut i: usize = 0;
        while i < self.votes.len()
            invariant
                i <= self.votes@.len(),
                self.votes@ == old(self).votes@,
                self.majority == old(self).majority,
                old(self).wf(),
                forall|j: int| 0 <= j < i ==> self.votes@[j] != id,
            decreases self.votes@.len() - i,
        {
            if self.votes[i] == id {
                return;
            }
            i += 1;
        }
        self.votes.push(id);
        proof {
            assert forall|a: int, b: int| 0 <= a < b < self@.len() implies self@[a] != self@[b] by {
                if b == self@.len() - 1 {
                    assert(old(self)@[a] != id);
                }
            }
        }
    }

    /// The number of distinct voters.
    pub fn count(&self) -> (r: usize)
        ensures
            r == self@.len(),
    {
        self.votes.len()
    }
}

/// Progress of one election.
#[derive(Debug, Clone, Copy, PartialEq, Eq, Structural)]
pub enum ElectionState {
    Finished,
    Running,
    Won,
    Lost,
}

} // verus!
