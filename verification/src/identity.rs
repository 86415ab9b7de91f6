//! Which player a peer is.

use vstd::prelude::*;

verus! {

/// The address a datagram came from.
#[derive(Clone, Copy, Debug, PartialEq, Eq, Structural)]
pub struct PeerAddr {
    /// Whether this is an IPv6 address; otherwise `ip` holds an IPv4
    /// address in its low 32 bits.
    pub v6: bool,
    pub ip: u128,
    pub port: u16,
    /// Flow information of an IPv6 address, 0 for IPv4.
    pub flowinfo: u32,
    /// Scope of an IPv6 address, 0 for IPv4.
    pub scope_id: u32,
}

/// One peer and the player it was given.
#[derive(Clone, Copy, Debug, PartialEq, Eq, Structural)]
pub struct Binding {
    pub addr: PeerAddr,
    pub id: u32,
}

/// Whether `addr` has been given a player.
pub open spec fn known(table: Seq<Binding>, addr: PeerAddr) -> bool {
    exists|i: int| 0 <= i < table.len() && (#[trigger] table[i]).addr == addr
}

/// The highest identity given so far, 0 if none was.
pub open spec fn max_id(table: Seq<Binding>) -> int
    decreases table.len(),
{
    if table.len() == 0 {
        0
    } else if table.last().id > max_id(table.drop_last()) {
        table.last().id as int
    } else {
        max_id(table.drop_last())
    }
}

/// Whether no address occurs twice and the identities are 1, 2, 3, ... in
/// the order they were given.
pub open spec fn table_wf(table: Seq<Binding>) -> bool {
    &&& forall|i: int, j: int|
        0 <= i < j < table.len() ==> (#[trigger] table[i]).addr != (#[trigger] table[j]).addr
    &&& forall|i: int| 0 <= i < table.len() ==> (#[trigger] table[i]).id == i + 1
}

/// Position of `addr` in `table`, where it is known.
pub open spec fn position_of_peer(table: Seq<Binding>, addr: PeerAddr) -> int {
    choose|i: int| 0 <= i < table.len() && (#[trigger] table[i]).addr == addr
}

/// The identity of `addr` after it has made contact, and the table then.
pub open spec fn assigned(table: Seq<Binding>, addr: PeerAddr) -> (Seq<Binding>, int) {
    if known(table, addr) {
        (table, table[position_of_peer(table, addr)].id as int)
    } else {
        (table.push(Binding { addr, id: (max_id(table) + 1) as u32 }), max_id(table) + 1)
    }
}

/// In a well-formed table the highest identity is the number of peers.
pub proof fn lemma_max_id(table: Seq<Binding>)
    requires
        table_wf(table),
    ensures
        max_id(table) == table.len(),
    decreases table.len(),
{
    if table.len() > 0 {
        let init = table.drop_last();
        lemma_max_id(init);
    }
}

/// Contact keeps a table well formed, leaves the identities given before
/// as they are, and makes the address known.
pub proof fn lemma_assigned(table: Seq<Binding>, addr: PeerAddr)
    requires
        table_wf(table),
        known(table, addr) || table.len() < u32::MAX,
    ensures
        table_wf(assigned(table, addr).0),
        known(assigned(table, addr).0, addr),
        1 <= assigned(table, addr).1 <= u32::MAX,
        table.len() <= assigned(table, addr).0.len(),
        assigned(table, addr).0.take(table.len() as int) == table,
        !known(table, addr) ==> assigned(table, addr).1 == table.len() + 1,
        assigned(assigned(table, addr).0, addr) == assigned(table, addr),
{
    let (after, id) = assigned(table, addr);
    lemma_max_id(table);
    if !known(table, addr) {
        assert(after[table.len() as int].addr == addr);
    }
}

/// Peers that make first contact one after the other are given strictly
/// increasing identities, the first of all the identity 1.
pub proof fn theorem_identity_monotone(table: Seq<Binding>, first: PeerAddr, second: PeerAddr)
    requires
        table_wf(table),
        table.len() + 1 < u32::MAX,
        !known(table, first),
        !known(table, second),
        first != second,
    ensures
        assigned(Seq::<Binding>::empty(), first).1 == 1,
        assigned(table, first).1 < assigned(assigned(table, first).0, second).1,
        assigned(assigned(table, first).0, second).1 == assigned(table, first).1 + 1,
        assigned(assigned(assigned(table, first).0, second).0, first).1 == assigned(table, first).1,
{
    let t1 = assigned(table, first).0;
    lemma_assigned(table, first);
    lemma_assigned(t1, second);
}

/// Looks an address up: its first position in `table`, if it has one.
pub fn find_peer(table: &Vec<Binding>, addr: &PeerAddr) -> (found: Option<usize>)
    ensures
        match found {
            Some(i) => i < table.len() && table[i as int].addr == *addr && forall|j: int|
                0 <= j < i ==> (#[trigger] table[j]).addr != *addr,
            None => !known(table@, *addr),
        },
{
    let mut i: usize = 0;
    while i < table.len()
        invariant
            i <= table.len(),
            forall|j: int| 0 <= j < i ==> (#[trigger] table[j]).addr != *addr,
        decreases table.len() - i,
    {
        if table[i].addr == *addr {
            return Some(i);
        }
        i += 1;
    }
    None
}

} // verus!
