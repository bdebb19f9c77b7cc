use vstd::prelude::*;
use crate::address::NodeAddress;

verus! {

/// `s` with `a` added at the end unless it is already there.
pub open spec fn seq_insert(s: Seq<NodeAddress>, a: NodeAddress) -> Seq<NodeAddress> {
    if s.contains(a) { s } else { s.push(a) }
}

/// `s` with each of `addrs` added in turn, unless already there.
pub open spec fn insert_all(s: Seq<NodeAddress>, addrs: Seq<NodeAddress>) -> Seq<NodeAddress>
    decreases addrs.len(),
{
    if addrs.len() == 0 {
        s
    } else {
        seq_insert(insert_all(s, addrs.drop_last()), addrs.last())
    }
}

/// Adding addresses one by one keeps every address once: the result holds
/// exactly the addresses of both, none twice, and keeps `s` as its front.
pub proof fn lemma_insert_all_is_union(s: Seq<NodeAddress>, addrs: Seq<NodeAddress>)
    requires
        s.no_duplicates(),
    ensures
        insert_all(s, addrs).no_duplicates(),
        forall|a: NodeAddress| #[trigger] insert_all(s, addrs).contains(a) <==> s.contains(a) || addrs.contains(a),
        insert_all(s, addrs).subrange(0, s.len() as int) == s,
        insert_all(s, addrs).len() >= s.len(),
    decreases addrs.len(),
{
    if addrs.len() > 0 {
        let rest = addrs.drop_last();
        let x = addrs.last();
        lemma_insert_all_is_union(s, rest);
        let before = insert_all(s, rest);
        assert forall|a: NodeAddress| #[trigger] addrs.contains(a) <==> rest.contains(a) || a == x by {
            if addrs.contains(a) && a != x {
                let j = choose|j: int| 0 <= j < addrs.len() && addrs[j] == a;
                assert(rest[j] == a);
            }
            if rest.contains(a) {
                let j = choose|j: int| 0 <= j < rest.len() && rest[j] == a;
                assert(addrs[j] == a);
            }
            if a == x {
                assert(addrs[addrs.len() - 1] == a);
            }
        }
        if !before.contains(x) {
            let after = before.push(x);
            assert forall|a: NodeAddress| #[trigger] after.contains(a) <==> before.contains(a) || a == x by {
                if after.contains(a) && a != x {
                    let j = choose|j: int| 0 <= j < after.len() && after[j] == a;
                    assert(before[j] == a);
                }
                if before.contains(a) {
                    let j = choose|j: int| 0 <= j < before.len() && before[j] == a;
                    assert(after[j] == a);
                }
                if a == x {
                    assert(after[before.len() as int] == a);
                }
            }
            assert forall|i: int, j: int| 0 <= i < j < after.len() implies after[i] != after[j] by {
                if j == before.len() {
                    assert(before.contains(before[i]));
                }
            }
            assert(after.subrange(0, s.len() as int) =~= before.subrange(0, s.len() as int));
        }
    }
}


/// The cluster's membership: the addresses of its nodes, each listed once.
pub struct Config {
    pub node_address_list: Vec<NodeAddress>,
}

impl Config {
    /// The members, in the order they were added.
    pub open spec fn view(&self) -> Seq<NodeAddress> {
        self.node_address_list@
    }

    /// No member is listed twice.
    pub open spec fn wf(&self) -> bool {
        self@.no_duplicates()
    }

    /// A membership with no nodes.
    pub fn new() -> (c: Self)
        ensures
            c@ == Seq::<NodeAddress>::empty(),
            c.wf(),
    {
        Config { node_address_list: Vec::new() }
    }

    /// The membership of the given addresses, each listed once, in the order of their first occurrence.
    pub fn from_addresses(addresses: &Vec<NodeAddress>) -> (c: Self)
        ensures
            c.wf(),
            c@ == insert_all(Seq::empty(), addresses@),
            forall|a: NodeAddress| c@.contains(a) <==> addresses@.contains(a),
    {
        let mut c = Config::new();
        let mut i: usize = 0;
        while i < addresses.len()
            invariant
                i <= addresses.len(),
                c.wf(),
                c@ == insert_all(Seq::empty(), addresses@.subrange(0, i as int)),
            decreases addresses.len() - i,
        {
            c.insert(addresses[i]);
            assert(addresses@.subrange(0, i + 1).drop_last() =~= addresses@.subrange(0, i as int));
            i += 1;
        }
        assert(addresses@.subrange(0, addresses.len() as int) =~= addresses@);
        proof {
            lemma_insert_all_is_union(Seq::empty(), addresses@);
        }
        c
    }

    /// The number of members.
    pub fn len(&self) -> (r: usize)
        ensures
            r == self@.len(),
    {
        self.node_address_list.len()
    }

    /// Whether `addr` is a member.
    pub fn contains(&self, addr: &NodeAddress) -> (r: bool)
        ensures
            r == self@.contains(*addr),
    {
        let mut i: usize = 0;
        while i < self.node_address_list.len()
            invariant
                i <= self@.len(),
                forall|j: int| 0 <= j < i ==> self@[j] != *addr,
            decreases self@.len() - i,
        {
            if self.node_address_list[i] == *addr {
                return true;
            }
            i += 1;
        }
        false
    }

    /// Adds `addr` unless it is already a member.
    pub fn insert(&mut self, addr: NodeAddress)
        requires
            old(self).wf(),
        ensures
            final(self).wf(),
            old(self)@.contains(addr) ==> final(self)@ == old(self)@,
            !old(self)@.contains(addr) ==> final(self)@ == old(self)@.push(addr),
    {
        if !self.contains(&addr) {
            self.node_address_list.push(addr);
            proof {
                assert forall|i: int, j: int| 0 <= i < j < self@.len() implies self@[i] != self@[j] by {
                    if j == self@.len() - 1 {
                        assert(old(self)@.contains(old(self)@[i]));
                    }
                }
            }
        }
    }

    /// The members other than `me`, in order.
    pub fn peers(&self, me: &NodeAddress) -> (r: Vec<NodeAddress>)
        ensures
            r@ == self@.filter(|a: NodeAddress| a != *me),
    {
        let mut r: Vec<NodeAddress> = Vec::new();
        let mut i: usize = 0;
        while i < self.node_address_list.len()
            invariant
                i <= self@.len(),
                r@ == self@.subrange(0, i as int).filter(|a: NodeAddress| a != *me),
            decreases self@.len() - i,
        {
            let a = self.node_address_list[i];
            proof {
                let s = self@.subrange(0, i + 1);
                assert(s.drop_last() =~= self@.subrange(0, i as int));
                reveal(Seq::filter);
            }
            if a != *me {
                r.push(a);
            }
            i += 1;
        }
        assert(self@.subrange(0, self@.len() as int) =~= self@);
        r
    }
}

} // verus!
