//! Peer database
//!
//! The peer database recognizes two peer types: active peers, which the peer manager has a
//! connection with, and idle peers, which are known to the database but are not part of the
//! swarm. Idle peers are discovered through the peer discovery mechanisms, and the peer
//! manager dials them when it has fewer connections than it wants.
use crate::net::types::{AddrInfo, Address, PeerId, PeerInfo};
use crate::swarm::address_set::{text_set, AddressSet};
use std::collections::{HashMap, HashSet};
use vstd::prelude::*;
use vstd::std_specs::iter::IteratorSpec;

verus! {

/// What is known of a peer that the node has shaken hands with.
#[derive(Debug)]
pub struct PeerContext {
    /// Peer information
    pub _info: PeerInfo,
    /// Peer score
    pub score: u32,
}

/// Peer address information
struct PeerAddrInfo {
    /// Set of IPv4 addresses
    ip4: AddressSet,
    /// Set of IPv6 addresses
    ip6: AddressSet,
}

enum Peer {
    /// Known peer: its information has been received
    _Known(PeerContext),
    /// Discovered peer: its addresses have been received
    Discovered(PeerAddrInfo),
}

/// What the database holds of one peer.
pub struct PeerView {
    /// True for a known peer, false for a discovered one.
    pub known: bool,
    /// The IPv4 addresses of a discovered peer.
    pub ip4: Set<Seq<char>>,
    /// The IPv6 addresses of a discovered peer.
    pub ip6: Set<Seq<char>>,
}

/// What the database holds.
pub struct PeerDbView {
    /// The peers known to the database.
    pub peers: Map<PeerId, PeerView>,
    /// The peers that can be dialed.
    pub available: Set<PeerId>,
    /// The addresses that are being dialed, each with its peer.
    pub pending: Map<Seq<char>, PeerId>,
    /// The peers that are banned.
    pub banned: Set<PeerId>,
}

impl PeerView {
    /// True if a discovered peer has an address to dial.
    pub open spec fn dialable(self) -> bool {
        !self.known && (self.ip4 != Set::<Seq<char>>::empty() || self.ip6 != Set::<
            Seq<char>,
        >::empty())
    }

    /// True if `address` is one that the database may pick to dial the peer: an IPv6
    /// address if the peer has any, and else an IPv4 address.
    pub open spec fn may_dial(self, address: Seq<char>) -> bool {
        if self.ip6 == Set::<Seq<char>>::empty() {
            self.ip4.contains(address)
        } else {
            self.ip6.contains(address)
        }
    }
}

impl PeerDbView {
    /// The content of the database that holds nothing.
    pub open spec fn empty() -> PeerDbView {
        PeerDbView {
            peers: Map::empty(),
            available: Set::empty(),
            pending: Map::empty(),
            banned: Set::empty(),
        }
    }

    /// The content once the addresses of one peer have been discovered: a peer that the
    /// database does not hold becomes a discovered peer with these addresses and can be
    /// dialed; a discovered peer gets the addresses on top of those it has; a known peer
    /// stays as it is.
    pub open spec fn discovered(self, info: AddrInfo) -> PeerDbView {
        let id = info.peer_id;
        if !self.peers.contains_key(id) {
            PeerDbView {
                peers: self.peers.insert(
                    id,
                    PeerView { known: false, ip4: text_set(info.ip4@), ip6: text_set(info.ip6@) },
                ),
                available: self.available.insert(id),
                ..self
            }
        } else if self.peers[id].known {
            self
        } else {
            PeerDbView {
                peers: self.peers.insert(
                    id,
                    PeerView {
                        known: false,
                        ip4: self.peers[id].ip4.union(text_set(info.ip4@)),
                        ip6: self.peers[id].ip6.union(text_set(info.ip6@)),
                    },
                ),
                ..self
            }
        }
    }

    /// The content once the addresses of a list of peers have been discovered, one peer
    /// after the other.
    pub open spec fn discovered_all(self, infos: Seq<AddrInfo>) -> PeerDbView
        decreases infos.len(),
    {
        if infos.len() == 0 {
            self
        } else {
            self.discovered_all(infos.drop_last()).discovered(infos.last())
        }
    }

    /// True if the peer is a discovered peer with an address, or the database does not
    /// hold it.
    pub open spec fn dialable_if_held(self, id: PeerId) -> bool {
        self.peers.contains_key(id) ==> self.peers[id].dialable()
    }

    /// True if every peer that can be dialed and that the database holds is a discovered
    /// peer with an address.
    pub open spec fn available_are_dialable(self) -> bool {
        forall|id: PeerId| #[trigger]
            self.available.contains(id) && self.peers.contains_key(id)
                ==> self.peers[id].dialable()
    }

    /// Discovering addresses never bans a peer and never touches the addresses that are
    /// being dialed, and a peer that could be dialed still can.
    pub proof fn lemma_discovered_all_keeps(self, infos: Seq<AddrInfo>)
        ensures
            self.discovered_all(infos).banned == self.banned,
            self.discovered_all(infos).pending == self.pending,
            self.available.subset_of(self.discovered_all(infos).available),
            self.peers.dom().subset_of(self.discovered_all(infos).peers.dom()),
        decreases infos.len(),
    {
        if infos.len() > 0 {
            self.lemma_discovered_all_keeps(infos.drop_last());
        }
    }
}

impl PeerAddrInfo {
    spec fn view(&self) -> PeerView {
        PeerView { known: false, ip4: self.ip4@, ip6: self.ip6@ }
    }
}

impl Peer {
    spec fn view(&self) -> PeerView {
        match self {
            Peer::_Known(_) => PeerView { known: true, ip4: Set::empty(), ip6: Set::empty() },
            Peer::Discovered(info) => info@,
        }
    }
}

/// The addresses that are being dialed, each with the peer that it belongs to.
struct PendingDials {
    entries: Vec<(Address, PeerId)>,
}

spec fn has_dial(entries: Seq<(Address, PeerId)>, text: Seq<char>, i: int) -> bool {
    0 <= i < entries.len() && entries[i].0@ == text
}

impl PendingDials {
    #[verifier::type_invariant]
    spec fn distinct(self) -> bool {
        forall|i: int, j: int|
            0 <= i < self.entries@.len() && 0 <= j < self.entries@.len() && i != j
                ==> self.entries@[i].0@ != self.entries@[j].0@
    }

    spec fn view(&self) -> Map<Seq<char>, PeerId> {
        let entries = self.entries@;
        Map::new(
            |t: Seq<char>| exists|i: int| has_dial(entries, t, i),
            |t: Seq<char>| entries[choose|i: int| has_dial(entries, t, i)].1,
        )
    }

    fn new() -> (dials: PendingDials)
        ensures
            dials@ == Map::<Seq<char>, PeerId>::empty(),
    {
        let dials = PendingDials { entries: Vec::new() };
        proof {
            assert(dials@ =~= Map::<Seq<char>, PeerId>::empty());
        }
        dials
    }

    fn get(&self, address: &Address) -> (peer_id: Option<PeerId>)
        ensures
            peer_id == self@.get(address@),
    {
        proof {
            use_type_invariant(self);
        }
        let mut i: usize = 0;
        while i < self.entries.len()
            invariant
                0 <= i <= self.entries.len(),
                self.distinct(),
                forall|j: int| 0 <= j < i ==> self.entries@[j].0@ != address@,
            decreases self.entries.len() - i,
        {
            if self.entries[i].0 == *address {
                proof {
                    assert(has_dial(self.entries@, address@, i as int));
                    let j = choose|j: int| has_dial(self.entries@, address@, j);
                    assert(j == i);
                }
                return Some(self.entries[i].1);
            }
            i = i + 1;
        }
        None
    }

    fn insert(&mut self, address: Address, peer_id: PeerId)
        ensures
            final(self)@ == old(self)@.insert(address@, peer_id),
    {
        proof {
            use_type_invariant(&*self);
        }
        let ghost before = self.entries@;
        let ghost before_view = self@;
        let mut entries: Vec<(Address, PeerId)> = Vec::new();
        std::mem::swap(&mut entries, &mut self.entries);
        let mut i: usize = 0;
        while i < entries.len() && !(entries[i].0 == address)
            invariant
                0 <= i <= entries.len(),
                entries@ == before,
                forall|j: int| 0 <= j < i ==> before[j].0@ != address@,
            decreases entries.len() - i,
        {
            i = i + 1;
        }
        if i < entries.len() {
            entries[i] = (address, peer_id);
        } else {
            entries.push((address, peer_id));
        }
        proof {
            let after = entries@;
            assert forall|j: int| 0 <= j < before.len() implies #[trigger] after[j].0@
                == before[j].0@ by {}
            assert forall|t: Seq<char>, j: int| has_dial(before, t, j) implies has_dial(
                after,
                t,
                j,
            ) by {}
            assert(has_dial(after, address@, i as int));
        }
        self.entries = entries;
        proof {
            let after = self.entries@;
            assert forall|t: Seq<char>| #[trigger]
                self@.contains_key(t) <==> before_view.insert(address@, peer_id).contains_key(
                    t,
                ) by {
                if self@.contains_key(t) && t != address@ {
                    let j = choose|j: int| has_dial(after, t, j);
                    assert(has_dial(before, t, j));
                }
                if before_view.contains_key(t) {
                    let j = choose|j: int| has_dial(before, t, j);
                    assert(has_dial(after, t, j));
                }
            }
            assert forall|t: Seq<char>| #[trigger] self@.contains_key(t) implies self@[t]
                == before_view.insert(address@, peer_id)[t] by {
                let j = choose|j: int| has_dial(after, t, j);
                if t == address@ {
                    assert(j == i);
                } else {
                    assert(has_dial(before, t, j));
                    let k = choose|k: int| has_dial(before, t, k);
                    assert(k == j);
                }
            }
            assert(self@ =~= before_view.insert(address@, peer_id));
        }
    }
}

/// The peers that the node knows of.
pub struct PeerDb {
    /// Set of peers known to `PeerDb`
    peers: HashMap<PeerId, Peer>,
    /// Set of available (idle) peers
    available: HashSet<PeerId>,
    /// Pending connections
    pending: PendingDials,
    /// Banned peers
    banned: HashSet<PeerId>,
}

impl Default for PeerDb {
    fn default() -> (db: Self)
        ensures
            db@ == PeerDbView::empty(),
    {
        let db = PeerDb {
            peers: HashMap::new(),
            available: HashSet::new(),
            pending: PendingDials::new(),
            banned: HashSet::new(),
        };
        proof {
            assert(db@.peers =~= Map::<PeerId, PeerView>::empty());
        }
        db
    }
}

impl PeerDb {
    /// What the database holds.
    pub closed spec fn view(&self) -> PeerDbView {
        PeerDbView {
            peers: Map::new(
                |id: PeerId| self.peers@.contains_key(id),
                |id: PeerId| self.peers@[id]@,
            ),
            available: self.available@,
            pending: self.pending@,
            banned: self.banned@,
        }
    }

    /// The database that holds nothing.
    pub fn new() -> (db: Self)
        ensures
            db@ == PeerDbView::empty(),
    {
        Default::default()
    }

    /// Get the number of idle (available) peers
    pub fn idle_peer_count(&self) -> (count: usize)
        ensures
            count == self@.available.len(),
    {
        self.available.len()
    }

    /// Get the address of the next best peer: of some peer that can be dialed, an IPv6
    /// address if it has any and else an IPv4 address. The address is recorded as being
    /// dialed.
    ///
    /// Returns nothing, and changes nothing, if no peer can be dialed or if the database does
    /// not hold the peer that it picked.
    pub fn best_peer_addr(&mut self) -> (r: Option<Address>)
        requires
            old(self)@.available_are_dialable(),
        ensures
            match r {
                Some(address) => exists|id: PeerId|
                    {
                        &&& #[trigger] old(self)@.available.contains(id)
                        &&& old(self)@.peers.contains_key(id)
                        &&& old(self)@.peers[id].may_dial(address@)
                        &&& final(self)@ == (PeerDbView {
                            pending: old(self)@.pending.insert(address@, id),
                            ..old(self)@
                        })
                    },
                None => {
                    &&& final(self)@ == old(self)@
                    &&& !old(self)@.available.subset_of(old(self)@.peers.dom()) || old(
                        self,
                    )@.available == Set::<PeerId>::empty()
                },
            },
    {
        let peer_id = match self.pick_available() {
            Some(peer_id) => peer_id,
            None => {
                return None;
            },
        };
        let address = match self.peers.get(&peer_id) {
            Some(Peer::_Known(_)) => {
                proof {
                    assert(self@.peers.contains_key(peer_id));
                    assert(self@.peers[peer_id].known);
                }
                vstd::pervasive::unreached()
            },
            Some(Peer::Discovered(peer_info)) => {
                proof {
                    assert(self@.peers.contains_key(peer_id));
                    assert(self@.peers[peer_id] == peer_info@);
                }
                let picked = if peer_info.ip6.is_empty() {
                    peer_info.ip4.first()
                } else {
                    peer_info.ip6.first()
                };
                match picked {
                    Some(address) => address,
                    None => vstd::pervasive::unreached(),
                }
            },
            None => {
                proof {
                    assert(!self@.peers.contains_key(peer_id));
                }
                return None;
            },
        };
        self.pending.insert(address.clone(), peer_id);
        proof {
            assert(self@.peers =~= old(self)@.peers);
        }
        Some(address)
    }

    /// Check is the peer ID banned
    pub fn is_id_banned(&self, peer_id: &PeerId) -> (banned: bool)
        ensures
            banned == self@.banned.contains(*peer_id),
    {
        self.banned.contains(peer_id)
    }

    /// Check is the address banned; no address is.
    pub fn is_address_banned(&self, _address: &Address) -> (banned: bool)
        ensures
            !banned,
    {
        false
    }

    /// Discover new peer addresses
    pub fn discover_peers(&mut self, peers: &[AddrInfo])
        ensures
            final(self)@ == old(self)@.discovered_all(peers@),
    {
        let mut i: usize = 0;
        proof {
            assert(peers@.take(0) =~= Seq::<AddrInfo>::empty());
        }
        while i < peers.len()
            invariant
                0 <= i <= peers.len(),
                self@ == old(self)@.discovered_all(peers@.take(i as int)),
            decreases peers.len() - i,
        {
            proof {
                let next = peers@.take(i + 1);
                assert(next.drop_last() =~= peers@.take(i as int));
                assert(next.last() == peers@[i as int]);
            }
            self.discover_peer(&peers[i]);
            i = i + 1;
        }
        proof {
            assert(peers@.take(peers.len() as int) =~= peers@);
        }
    }

    /// Expire discovered peer addresses; the database keeps them all.
    pub fn expire_peers(&mut self, _peers: &[AddrInfo])
        ensures
            final(self)@ == old(self)@,
    {
    }

    /// Report outbound connection failure
    ///
    /// When the peer manager has initiated an outbound connection and the connection is
    /// refused, it reports that back. The database does not act on the report.
    pub fn report_outbound_failure(&mut self, _address: Address)
        ensures
            final(self)@ == old(self)@,
    {
    }

    /// Register peer information; the database does not keep it.
    pub fn register_peer_info(&mut self, _info: PeerInfo)
        ensures
            final(self)@ == old(self)@,
    {
    }

    /// Ban peer
    pub fn ban_peer(&mut self, peer_id: &PeerId)
        ensures
            final(self)@ == (PeerDbView {
                banned: old(self)@.banned.insert(*peer_id),
                ..old(self)@
            }),
    {
        self.banned.insert(*peer_id);
        proof {
            assert(self@.peers =~= old(self)@.peers);
        }
    }

    /// The number of peers that the database holds.
    pub fn peer_count(&self) -> (count: usize)
        ensures
            count == self@.peers.len(),
    {
        proof {
            assert(self@.peers.dom() =~= self.peers@.dom());
        }
        self.peers.len()
    }

    /// True if `peer_id` can be dialed.
    pub fn is_idle(&self, peer_id: &PeerId) -> (idle: bool)
        ensures
            idle == self@.available.contains(*peer_id),
    {
        self.available.contains(peer_id)
    }

    /// Whether the peer is a known one, if the database holds it.
    pub fn is_known(&self, peer_id: &PeerId) -> (known: Option<bool>)
        ensures
            known == (if self@.peers.contains_key(*peer_id) {
                Some(self@.peers[*peer_id].known)
            } else {
                None
            }),
    {
        match self.peers.get(peer_id) {
            Some(Peer::_Known(_)) => Some(true),
            Some(Peer::Discovered(_)) => Some(false),
            None => None,
        }
    }

    /// The IPv4 and the IPv6 addresses of a discovered peer, each once; nothing for a peer
    /// that the database does not hold or that is a known one.
    pub fn peer_addresses(&self, peer_id: &PeerId) -> (addresses: Option<
        (Vec<Address>, Vec<Address>),
    >)
        ensures
            addresses is Some <==> self@.peers.contains_key(*peer_id)
                && !self@.peers[*peer_id].known,
            addresses matches Some((ip4, ip6)) ==> text_set(ip4@) == self@.peers[*peer_id].ip4
                && text_set(ip6@) == self@.peers[*peer_id].ip6,
    {
        match self.peers.get(peer_id) {
            Some(Peer::Discovered(info)) => Some((info.ip4.to_vec(), info.ip6.to_vec())),
            _ => None,
        }
    }

    /// The peer that `address` is being dialed for, if it is being dialed.
    pub fn pending_peer(&self, address: &Address) -> (peer_id: Option<PeerId>)
        ensures
            peer_id == self@.pending.get(address@),
    {
        self.pending.get(address)
    }

    /// True if [`Self::best_peer_addr`] may be called: every peer that can be dialed and that
    /// the database holds is a discovered peer with an address.
    pub fn available_are_dialable(&self) -> (ok: bool)
        ensures
            ok == self@.available_are_dialable(),
    {
        let mut ok = true;
        let ghost all = self.available.iter().remaining();
        let ghost view = self@;
        assert(all.unref().to_set() == self.available@);
        for id in it: self.available.iter()
            invariant
                it.seq() == all,
                view == self@,
                ok <==> forall|j: int| 0 <= j < it.index() ==> #[trigger] view.dialable_if_held(*all[j]),
        {
            let dialable = match self.peers.get(id) {
                Some(Peer::Discovered(info)) => {
                    proof {
                        assert(view.peers[*id] == info@);
                    }
                    !(info.ip4.is_empty() && info.ip6.is_empty())
                },
                Some(Peer::_Known(_)) => {
                    proof {
                        assert(view.peers[*id].known);
                    }
                    false
                },
                None => true,
            };
            assert(dialable == view.dialable_if_held(*id));
            ok = ok && dialable;
        }
        assert(ok ==> view.available_are_dialable()) by {
            assert forall|id: PeerId|
                ok && #[trigger] view.available.contains(id) && view.peers.contains_key(
                    id,
                ) implies view.peers[id].dialable() by {
                assert(all.unref().to_set() == self.available@);
                assert(all.unref().to_set().contains(id));
                let j = choose|j: int| 0 <= j < all.unref().len() && all.unref()[j] == id;
                assert(*all[j] == id);
                assert(view.dialable_if_held(*all[j]));
            }
        }
        assert(view.available_are_dialable() ==> ok) by {
            assert forall|j: int|
                view.available_are_dialable() && 0 <= j < all.len()
                    implies #[trigger] view.dialable_if_held(*all[j]) by {
                assert(all.unref().to_set() == self.available@);
                assert(all.unref()[j] == *all[j]);
                assert(all.unref().to_set().contains(*all[j]));
                assert(view.available.contains(*all[j]));
            }
        }
        ok
    }

    fn pick_available(&self) -> (picked: Option<PeerId>)
        ensures
            picked is None <==> self@.available == Set::<PeerId>::empty(),
            picked matches Some(id) ==> self@.available.contains(id),
    {
        let mut picked: Option<PeerId> = None;
        let ghost all = self.available.iter().remaining();
        assert(all.unref().to_set() == self.available@);
        assert(all.len() == 0 ==> all.unref().to_set() =~= Set::<PeerId>::empty());
        assert(all.len() > 0 ==> all.unref().to_set().contains(*all[0])) by {
            assert(all.len() > 0 ==> all.unref()[0] == *all[0]);
        }
        for id in it: self.available.iter()
            invariant_except_break
                picked is None,
                it.index() == 0,
            invariant
                it.seq() == all,
            ensures
                picked is None <==> all.len() == 0,
                picked matches Some(first) ==> all.len() > 0 && first == *all[0],
        {
            picked = Some(*id);
            break;
        }
        picked
    }

    fn discover_peer(&mut self, info: &AddrInfo)
        ensures
            final(self)@ == old(self)@.discovered(*info),
    {
        let id = info.peer_id;
        match self.peers.remove(&id) {
            Some(Peer::Discovered(addr_info)) => {
                let mut addr_info = addr_info;
                addr_info.ip4.extend(&info.ip4);
                addr_info.ip6.extend(&info.ip6);
                self.peers.insert(id, Peer::Discovered(addr_info));
            },
            Some(Peer::_Known(context)) => {
                self.peers.insert(id, Peer::_Known(context));
            },
            None => {
                self.peers.insert(
                    id,
                    Peer::Discovered(
                        PeerAddrInfo {
                            ip4: AddressSet::from_list(&info.ip4),
                            ip6: AddressSet::from_list(&info.ip6),
                        },
                    ),
                );
                self.available.insert(id);
            },
        }
        proof {
            assert(self@.peers =~= old(self)@.discovered(*info).peers);
        }
    }
}

} // verus!
