use vstd::prelude::*;
use crate::address::NodeAddress;
use crate::config::{seq_insert, insert_all};
use crate::message::{LogEntry, UpdateConfigResponse, ReadQueueResponse};
use crate::queue::{Queue, enqueue_keyword, dequeue_keyword};
use crate::server::RaftRpcImpl;
use crate::state::NodeState;

verus! {

/// How many times, at most, the leader tries to tell one member the new membership.
pub const CONFIG_UPDATE_ATTEMPTS: u32 = 3;

/// Whether the leader tries again to tell a member the new membership after
/// attempt number `attempt` (counted from 0): only when that attempt did not
/// succeed and fewer than [`CONFIG_UPDATE_ATTEMPTS`] attempts were made.
pub open spec fn retry_config_update_spec(attempt: int, ok: bool) -> bool {
    !ok && attempt + 1 < CONFIG_UPDATE_ATTEMPTS
}

/// How many attempts the leader makes to tell a member the new membership,
/// from attempt number `attempt` on, when attempt `i` succeeds exactly when `outcomes[i]`.
pub open spec fn config_update_attempts(outcomes: Seq<bool>, attempt: int) -> int
    decreases outcomes.len() - attempt,
{
    if attempt < 0 || attempt >= outcomes.len() {
        attempt
    } else if retry_config_update_spec(attempt, outcomes[attempt]) {
        config_update_attempts(outcomes, attempt + 1)
    } else {
        attempt + 1
    }
}

/// Whether the leader tries again to tell a member the new membership after
/// attempt number `attempt` (counted from 0), which succeeded when `ok`.
pub fn retry_config_update(attempt: u32, ok: bool) -> (again: bool)
    ensures
        again == retry_config_update_spec(attempt as int, ok),
{
    !ok && attempt < CONFIG_UPDATE_ATTEMPTS - 1
}

/// The leader tells each member the new membership at least once and at most
/// [`CONFIG_UPDATE_ATTEMPTS`] times, and stops after the first attempt that succeeds.
pub proof fn lemma_config_update_attempts(outcomes: Seq<bool>)
    requires
        outcomes.len() >= CONFIG_UPDATE_ATTEMPTS,
    ensures
        1 <= config_update_attempts(outcomes, 0) <= CONFIG_UPDATE_ATTEMPTS,
        forall|i: int| 0 <= i < config_update_attempts(outcomes, 0) - 1 ==> !outcomes[i],
        config_update_attempts(outcomes, 0) < CONFIG_UPDATE_ATTEMPTS ==> outcomes[config_update_attempts(outcomes, 0) - 1],
{
    assert(config_update_attempts(outcomes, 2) == 3);
    assert(config_update_attempts(outcomes, 1) == if outcomes[1] { 2int } else { 3int });
    assert(config_update_attempts(outcomes, 0) == if outcomes[0] { 1int } else if outcomes[1] { 2int } else { 3int });
}

/// What a node does with a request to join the cluster.
#[derive(Debug, Clone)]
pub enum JoinDecision {
    /// The leader took the node in: it saves the membership if it changed, sends
    /// `addresses` to each of `notify` (trying each as [`retry_config_update`]
    /// says) and answers with success.
    Accepted { save_config: bool, notify: Vec<NodeAddress>, addresses: Vec<NodeAddress> },
    /// A follower passes the request on to the leader it knows.
    Forward(NodeAddress),
    /// No leader is known: the answer is failure.
    Refused,
}

/// What a node does with a client's request to change the queue.
#[derive(Debug, Clone, Copy, PartialEq, Eq, Structural)]
pub enum ClientDecision {
    /// The leader appended the command: it replicates its log, then answers with success.
    Replicate,
    /// A follower passes the request on to the leader it knows.
    Forward(NodeAddress),
    /// No leader is known: the answer is failure.
    Refused,
}

/// What a starting node does about the membership it loaded.
#[derive(Debug, Clone)]
pub enum StartupAction {
    /// The node is already a member.
    AlreadyMember,
    /// The node asks these members, in turn, to let it join.
    RequestJoin(Vec<NodeAddress>),
    /// No member is known: the node makes itself the only member and saves the membership.
    Bootstrap,
}

impl RaftRpcImpl {
    /// What the node does at startup: nothing if it is a member already; ask
    /// the members to let it join if there are any; otherwise found the cluster.
    pub fn startup_action(&self) -> (a: StartupAction)
        ensures
            self.config@.contains(self.node.address) ==> a is AlreadyMember,
            (!self.config@.contains(self.node.address) && self.config@.len() > 0) ==> (a matches StartupAction::RequestJoin(targets) && targets@ == self.config@),
            self.config@.len() == 0 ==> a is Bootstrap,
    {
        if self.config.contains(&self.node.address) {
            StartupAction::AlreadyMember
        } else if self.config.len() > 0 {
            StartupAction::RequestJoin(self.config_addresses())
        } else {
            StartupAction::Bootstrap
        }
    }

    /// Founds the cluster: the node becomes a member.
    pub fn bootstrap_config(&mut self)
        requires
            old(self).wf(),
            old(self).config@.len() + 1 < i32::MAX,
        ensures
            final(self).wf(),
            final(self).config@ == seq_insert(old(self).config@, old(self).node.address),
            final(self).node == old(self).node,
            final(self).state_machine == old(self).state_machine,
    {
        let me = self.node.address;
        self.config.insert(me);
    }

    /// Handles a request from `addr` to join. The leader adds `addr` to the
    /// membership if it is new, gives it a match index of -1 and a next index
    /// at the end of the log if it has none, and tells every other member the
    /// new membership. Another node passes the request to the leader it knows,
    /// or refuses when it knows none.
    pub fn join(&mut self, addr: NodeAddress) -> (d: JoinDecision)
        requires
            old(self).wf(),
            old(self).config@.len() + 1 < i32::MAX,
        ensures
            final(self).wf(),
            old(self).node.state == NodeState::Leader ==> {
                let was = old(self).config@.contains(addr);
                &&& final(self).config@ == seq_insert(old(self).config@, addr)
                &&& final(self).node.match_index@ == (if old(self).node.match_index@.contains_key(addr) { old(self).node.match_index@ } else { old(self).node.match_index@.insert(addr, -1i32) })
                &&& final(self).node.next_index@ == (if old(self).node.next_index@.contains_key(addr) { old(self).node.next_index@ } else { old(self).node.next_index@.insert(addr, old(self).node.log@.len() as i32) })
                &&& d matches JoinDecision::Accepted { save_config, notify, addresses }
                    && save_config == !was
                    && notify@ == final(self).config@.filter(|a: NodeAddress| a != old(self).node.address)
                    && addresses@ == final(self).config@
            },
            old(self).node.state != NodeState::Leader ==> {
                &&& final(self).config == old(self).config
                &&& final(self).node.match_index == old(self).node.match_index
                &&& final(self).node.next_index == old(self).node.next_index
                &&& old(self).node.leader_address is None ==> d is Refused
                &&& old(self).node.leader_address matches Some(l) ==> d == JoinDecision::Forward(l)
            },
            final(self).node.address == old(self).node.address,
            final(self).node.current_term == old(self).node.current_term,
            final(self).node.voted_for == old(self).node.voted_for,
            final(self).node.log@ == old(self).node.log@,
            final(self).node.commit_index == old(self).node.commit_index,
            final(self).node.last_applied == old(self).node.last_applied,
            final(self).node.state == old(self).node.state,
            final(self).node.leader_address == old(self).node.leader_address,
            final(self).state_machine == old(self).state_machine,
    {
        if self.node.state == NodeState::Leader {
            let mut save_config = false;
            if !self.config.contains(&addr) {
                self.config.insert(addr);
                save_config = true;
            }
            if !self.node.match_index.contains(&addr) {
                self.node.match_index.insert(addr, -1);
            }
            if !self.node.next_index.contains(&addr) {
                let loglen = self.log_len();
                self.node.next_index.insert(addr, loglen);
            }
            let notify = self.config.peers(&self.node.address);
            let addresses = self.config_addresses();
            JoinDecision::Accepted { save_config, notify, addresses }
        } else {
            match self.node.leader_address {
                None => JoinDecision::Refused,
                Some(l) => JoinDecision::Forward(l),
            }
        }
    }

    /// The members, in order.
    pub fn config_addresses(&self) -> (r: Vec<NodeAddress>)
        ensures
            r@ == self.config@,
    {
        let mut r: Vec<NodeAddress> = Vec::new();
        let mut i: usize = 0;
        while i < self.config.node_address_list.len()
            invariant
                i <= self.config@.len(),
                r@ == self.config@.subrange(0, i as int),
            decreases self.config@.len() - i,
        {
            r.push(self.config.node_address_list[i]);
            i += 1;
        }
        r
    }

    /// Handles a membership update from the leader: a node that is not the
    /// leader adds each of `addresses` it lacks and answers with success; the
    /// leader changes nothing and answers with failure.
    pub fn update_config(&mut self, addresses: &Vec<NodeAddress>) -> (r: UpdateConfigResponse)
        requires
            old(self).wf(),
            old(self).config@.len() + addresses@.len() < i32::MAX,
        ensures
            final(self).wf(),
            r.success == (old(self).node.state != NodeState::Leader),
            r.success ==> final(self).config@ == insert_all(old(self).config@, addresses@),
            !r.success ==> final(self).config == old(self).config,
            final(self).node == old(self).node,
            final(self).state_machine == old(self).state_machine,
    {
        if self.node.state != NodeState::Leader {
            let mut i: usize = 0;
            while i < addresses.len()
                invariant
                    i <= addresses@.len(),
                    self.config.wf(),
                    self.config@ == insert_all(old(self).config@, addresses@.subrange(0, i as int)),
                    self.config@.len() <= old(self).config@.len() + i,
                    old(self).config@.len() + addresses@.len() < i32::MAX,
                    self.node == old(self).node,
                    self.state_machine == old(self).state_machine,
                    old(self).wf(),
                decreases addresses@.len() - i,
            {
                self.config.insert(addresses[i]);
                assert(addresses@.subrange(0, i + 1).drop_last() =~= addresses@.subrange(0, i as int));
                i += 1;
            }
            assert(addresses@.subrange(0, addresses@.len() as int) =~= addresses@);
            UpdateConfigResponse { success: true }
        } else {
            UpdateConfigResponse { success: false }
        }
    }

    /// Appends a command from the current term to the leader's log and records
    /// the leader's own match index at the new last entry.
    fn append_command(&mut self, command: String)
        requires
            old(self).wf(),
            old(self).node.log@.len() < i32::MAX,
        ensures
            final(self).wf(),
            final(self).node.log@ == old(self).node.log@.push(LogEntry {
                term: old(self).node.current_term,
                index: old(self).node.log@.len() as i32,
                command,
            }),
            final(self).node.match_index@ == old(self).node.match_index@.insert(old(self).node.address, old(self).node.log@.len() as i32),
            final(self).node.address == old(self).node.address,
            final(self).node.current_term == old(self).node.current_term,
            final(self).node.voted_for == old(self).node.voted_for,
            final(self).node.commit_index == old(self).node.commit_index,
            final(self).node.last_applied == old(self).node.last_applied,
            final(self).node.next_index == old(self).node.next_index,
            final(self).node.state == old(self).node.state,
            final(self).node.leader_address == old(self).node.leader_address,
            final(self).state_machine == old(self).state_machine,
            final(self).config == old(self).config,
    {
        let index = self.log_len();
        let entry = LogEntry { term: self.node.current_term, command, index };
        self.node.log.push(entry);
        let last = self.last_log_index();
        self.node.match_index.insert(self.node.address, last);
    }

    /// Handles a client's enqueue of `content`. The leader appends the command
    /// `ENQUEUE <content>` from its term and then replicates; another node passes
    /// the request to the leader it knows, or refuses when it knows none.
    pub fn enqueue(&mut self, content: &str) -> (d: ClientDecision)
        requires
            old(self).wf(),
            old(self).node.state == NodeState::Leader ==> old(self).node.log@.len() < i32::MAX,
        ensures
            final(self).wf(),
            old(self).node.state == NodeState::Leader ==> {
                &&& d == ClientDecision::Replicate
                &&& final(self).node.log@.len() == old(self).node.log@.len() + 1
                &&& final(self).node.log@.drop_last() == old(self).node.log@
                &&& final(self).node.log@.last().term == old(self).node.current_term
                &&& final(self).node.log@.last().index == old(self).node.log@.len()
                &&& final(self).node.log@.last().command@ == enqueue_keyword() + seq![' '] + content@
                &&& final(self).node.match_index@ == old(self).node.match_index@.insert(old(self).node.address, old(self).node.log@.len() as i32)
            },
            old(self).node.state != NodeState::Leader ==> {
                &&& final(self).node.log@ == old(self).node.log@
                &&& final(self).node.match_index == old(self).node.match_index
                &&& old(self).node.leader_address is None ==> d == ClientDecision::Refused
                &&& old(self).node.leader_address matches Some(l) ==> d == ClientDecision::Forward(l)
            },
            final(self).node.address == old(self).node.address,
            final(self).node.current_term == old(self).node.current_term,
            final(self).node.voted_for == old(self).node.voted_for,
            final(self).node.commit_index == old(self).node.commit_index,
            final(self).node.last_applied == old(self).node.last_applied,
            final(self).node.next_index == old(self).node.next_index,
            final(self).node.state == old(self).node.state,
            final(self).node.leader_address == old(self).node.leader_address,
            final(self).state_machine == old(self).state_machine,
            final(self).config == old(self).config,
    {
        if self.node.state == NodeState::Leader {
            let command = Queue::enqueue_log(content);
            self.append_command(command);
            assert(self.node.log@.drop_last() =~= old(self).node.log@);
            ClientDecision::Replicate
        } else {
            match self.node.leader_address {
                None => ClientDecision::Refused,
                Some(l) => ClientDecision::Forward(l),
            }
        }
    }

    /// Handles a client's dequeue. The leader appends the command `DEQUEUE` from
    /// its term and then replicates (the answer carries what the commit step
    /// answers); another node passes the request to the leader it knows, or
    /// refuses when it knows none.
    pub fn dequeue(&mut self) -> (d: ClientDecision)
        requires
            old(self).wf(),
            old(self).node.state == NodeState::Leader ==> old(self).node.log@.len() < i32::MAX,
        ensures
            final(self).wf(),
            old(self).node.state == NodeState::Leader ==> {
                &&& d == ClientDecision::Replicate
                &&& final(self).node.log@.len() == old(self).node.log@.len() + 1
                &&& final(self).node.log@.drop_last() == old(self).node.log@
                &&& final(self).node.log@.last().term == old(self).node.current_term
                &&& final(self).node.log@.last().index == old(self).node.log@.len()
                &&& final(self).node.log@.last().command@ == dequeue_keyword()
                &&& final(self).node.match_index@ == old(self).node.match_index@.insert(old(self).node.address, old(self).node.log@.len() as i32)
            },
            old(self).node.state != NodeState::Leader ==> {
                &&& final(self).node.log@ == old(self).node.log@
                &&& final(self).node.match_index == old(self).node.match_index
                &&& old(self).node.leader_address is None ==> d == ClientDecision::Refused
                &&& old(self).node.leader_address matches Some(l) ==> d == ClientDecision::Forward(l)
            },
            final(self).node.address == old(self).node.address,
            final(self).node.current_term == old(self).node.current_term,
            final(self).node.voted_for == old(self).node.voted_for,
            final(self).node.commit_index == old(self).node.commit_index,
            final(self).node.last_applied == old(self).node.last_applied,
            final(self).node.next_index == old(self).node.next_index,
            final(self).node.state == old(self).node.state,
            final(self).node.leader_address == old(self).node.leader_address,
            final(self).state_machine == old(self).state_machine,
            final(self).config == old(self).config,
    {
        if self.node.state == NodeState::Leader {
            let command = Queue::dequeue_log();
            self.append_command(command);
            assert(self.node.log@.drop_last() =~= old(self).node.log@);
            ClientDecision::Replicate
        } else {
            match self.node.leader_address {
                None => ClientDecision::Refused,
                Some(l) => ClientDecision::Forward(l),
            }
        }
    }

    /// Handles a client's read: success, with the queue's items front first.
    pub fn read_queue(&self) -> (r: ReadQueueResponse)
        ensures
            r.success,
            r.contents@ == self.state_machine.queue@,
    {
        ReadQueueResponse { success: true, contents: self.state_machine.peekall_log() }
    }
}

} // verus!
