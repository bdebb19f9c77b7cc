use vstd::prelude::*;
use crate::address::NodeAddress;

verus! {

/// The map from entries (each address listed once) to the values they carry.
pub open spec fn entries_map(s: Seq<(NodeAddress, i32)>) -> Map<NodeAddress, i32> {
    Map::new(
        |k: NodeAddress| exists|i: int| 0 <= i < s.len() && s[i].0 == k,
        |k: NodeAddress| s[choose|i: int| 0 <= i < s.len() && s[i].0 == k].1,
    )
}

/// No address is listed twice.
pub open spec fn keys_unique(s: Seq<(NodeAddress, i32)>) -> bool {
    forall|i: int, j: int| 0 <= i < s.len() && 0 <= j < s.len() && i != j ==> s[i].0 != s[j].0
}

/// A per-peer log index, such as the leader's `next_index` and `match_index`.
pub struct PeerTable {
    entries: Vec<(NodeAddress, i32)>,
}

impl PeerTable {
    /// The value recorded for each peer.
    pub closed spec fn view(&self) -> Map<NodeAddress, i32> {
        entries_map(self.entries@)
    }

    /// No peer is recorded twice.
    pub closed spec fn wf(&self) -> bool {
        keys_unique(self.entries@)
    }

    /// A table with no peers.
    pub fn new() -> (t: Self)
        ensures
            t.wf(),
            t@ == Map::<NodeAddress, i32>::empty(),
    {
        let t = PeerTable { entries: Vec::new() };
        assert(t@ =~= Map::<NodeAddress, i32>::empty());
        t
    }

    fn position(&self, addr: &NodeAddress) -> (r: Option<usize>)
        requires
            self.wf(),
        ensures
            r is None ==> !self@.contains_key(*addr),
            r matches Some(i) ==> i < self.entries@.len() && self.entries@[i as int].0 == *addr,
    {
        let mut i: usize = 0;
        while i < self.entries.len()
            invariant
                i <= self.entries@.len(),
                forall|j: int| 0 <= j < i ==> self.entries@[j].0 != *addr,
            decreases self.entries@.len() - i,
        {
            if self.entries[i].0 == *addr {
                return Some(i);
            }
            i += 1;
        }
        None
    }

    /// The value recorded for `addr`, if any.
    pub fn get(&self, addr: &NodeAddress) -> (r: Option<i32>)
        requires
            self.wf(),
        ensures
            r == (if self@.contains_key(*addr) { Some(self@[*addr]) } else { None::<i32> }),
    {
        match self.position(addr) {
            None => None,
            Some(i) => {
                let ghost s = self.entries@;
                assert(exists|k: int| 0 <= k < s.len() && s[k].0 == *addr) by {
                    assert(s[i as int].0 == *addr);
                }
                Some(self.entries[i].1)
            },
        }
    }

    /// Whether a value is recorded for `addr`.
    pub fn contains(&self, addr: &NodeAddress) -> (r: bool)
        requires
            self.wf(),
        ensures
            r == self@.contains_key(*addr),
    {
        match self.position(addr) {
            None => false,
            Some(i) => {
                let ghost s = self.entries@;
                assert(s[i as int].0 == *addr);
                true
            },
        }
    }

    /// Records `value` for `addr`, replacing what was recorded.
    pub fn insert(&mut self, addr: NodeAddress, value: i32)
        requires
            old(self).wf(),
        ensures
            final(self).wf(),
            final(self)@ == old(self)@.insert(addr, value),
    {
        let ghost s0 = self.entries@;
        match self.position(&addr) {
            None => {
                self.entries.push((addr, value));
                proof {
                    let s1 = self.entries@;
                    assert forall|k: NodeAddress| #[trigger] entries_map(s1).contains_key(k) <==> entries_map(s0).insert(addr, value).contains_key(k) by {
                        if k != addr && entries_map(s1).contains_key(k) {
                            let j = choose|j: int| 0 <= j < s1.len() && s1[j].0 == k;
                            assert(s0[j].0 == k);
                        }
                        if k != addr && entries_map(s0).contains_key(k) {
                            let j = choose|j: int| 0 <= j < s0.len() && s0[j].0 == k;
                            assert(s1[j].0 == k);
                        }
                        if k == addr {
                            assert(s1[s0.len() as int].0 == k);
                        }
                    }
                    assert forall|k: NodeAddress| #[trigger] entries_map(s1).contains_key(k) implies entries_map(s1)[k] == entries_map(s0).insert(addr, value)[k] by {
                        let j = choose|j: int| 0 <= j < s1.len() && s1[j].0 == k;
                        if k == addr {
                            assert(j == s0.len());
                        } else {
                            assert(s0[j].0 == k);
                            let j0 = choose|j0: int| 0 <= j0 < s0.len() && s0[j0].0 == k;
                            assert(s1[j0].0 == k);
                        }
                    }
                    assert(entries_map(s1) =~= entries_map(s0).insert(addr, value));
                }
            },
            Some(i) => {
                self.entries.set(i, (addr, value));
                proof {
                    let s1 = self.entries@;
                    assert forall|k: NodeAddress| #[trigger] entries_map(s1).contains_key(k) <==> entries_map(s0).insert(addr, value).contains_key(k) by {
                        if entries_map(s1).contains_key(k) {
                            let j = choose|j: int| 0 <= j < s1.len() && s1[j].0 == k;
                            if j != i {
                                assert(s0[j].0 == k);
                            }
                        }
                        if k != addr && entries_map(s0).contains_key(k) {
                            let j = choose|j: int| 0 <= j < s0.len() && s0[j].0 == k;
                            assert(s1[j].0 == k);
                        }
                        if k == addr {
                            assert(s1[i as int].0 == k);
                        }
                    }
                    assert forall|k: NodeAddress| #[trigger] entries_map(s1).contains_key(k) implies entries_map(s1)[k] == entries_map(s0).insert(addr, value)[k] by {
                        let j = choose|j: int| 0 <= j < s1.len() && s1[j].0 == k;
                        if k == addr {
                            assert(j == i);
                        } else {
                            assert(s0[j].0 == k);
                            let j0 = choose|j0: int| 0 <= j0 < s0.len() && s0[j0].0 == k;
                            assert(s1[j0].0 == k);
                        }
                    }
                    assert(entries_map(s1) =~= entries_map(s0).insert(addr, value));
                }
            },
        }
    }
}

} // verus!
