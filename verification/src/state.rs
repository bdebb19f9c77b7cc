use vstd::prelude::*;

verus! {

/// The role a node plays in the cluster.
#[derive(Debug, Clone, Copy, PartialEq, Eq, Structural)]
pub enum NodeState {
    Candidate,
    Follower,
    Leader,
}

/// The printed name of each role.
pub open spec fn state_name(s: NodeState) -> Seq<char> {
    match s {
        NodeState::Candidate => seq!['C', 'a', 'n', 'd', 'i', 'd', 'a', 't', 'e'],
        NodeState::Follower => seq!['F', 'o', 'l', 'l', 'o', 'w', 'e', 'r'],
        NodeState::Leader => seq!['L', 'e', 'a', 'd', 'e', 'r'],
    }
}

impl NodeState {
    /// The role's name.
    pub fn get_state(&self) -> (r: &'static str)
        ensures
            r@ == state_name(*self),
    {
        match self {
            NodeState::Candidate => {
                proof {
                    reveal_strlit("Candidate");
                    assert("Candidate"@ =~= state_name(*self));
                }
                "Candidate"
            },
            NodeState::Follower => {
                proof {
                    reveal_strlit("Follower");
                    assert("Follower"@ =~= state_name(*self));
                }
                "Follower"
            },
            NodeState::Leader => {
                proof {
                    reveal_strlit("Leader");
                    assert("Leader"@ =~= state_name(*self));
                }
                "Leader"
            },
        }
    }
}

impl Default for NodeState {
    /// A node starts as a follower.
    fn default() -> (r: Self)
        ensures
            r == NodeState::Follower,
    {
        NodeState::Follower
    }
}

} // verus!
