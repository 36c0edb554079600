//! A mix network: packets travel a random route of available mix nodes and
//! wait at each hop for the mixing delay; expired packets are dropped.
//! Times are milliseconds since the Unix epoch, loads thousandths of full.

use vstd::prelude::*;
use crate::net::error::{NetworkError, PrivacyError};
use crate::net::types::PeerId;
use crate::net::crypto::aead::choose_multiple_ids;
use crate::text::append_decimal;
use crate::platform::{fresh_uuid_value, now_millis};

verus! {

broadcast use vstd::seq_lib::group_to_multiset_ensures;

/// A node is seen recently for this long, in milliseconds.
pub const SEEN_RECENTLY_MS: i64 = 60_000;

/// Mix network configuration.
#[derive(Debug, Clone, Copy)]
pub struct MixNetworkConfig {
    /// Number of mix nodes in a route
    pub num_nodes: usize,
    /// Mixing delay in milliseconds
    pub mix_delay_ms: u64,
    /// Batch size for mixing
    pub batch_size: usize,
    /// Cover traffic rate, in thousandths of a packet per second
    pub cover_traffic_rate_millis: u64,
    /// Maximum message age before dropping, in milliseconds
    pub max_message_age_ms: u64,
}

impl Default for MixNetworkConfig {
    fn default() -> (r: Self)
        ensures
            r.num_nodes == 3,
            r.mix_delay_ms == 100,
            r.batch_size == 10,
            r.cover_traffic_rate_millis == 1000,
            r.max_message_age_ms == 30_000,
    {
        MixNetworkConfig {
            num_nodes: 3,
            mix_delay_ms: 100,
            batch_size: 10,
            cover_traffic_rate_millis: 1000,
            max_message_age_ms: 30_000,
        }
    }
}

/// What a mix node holds, as values.
pub struct MixNodeView {
    pub id: PeerId,
    pub public_key: Seq<u8>,
    pub capacity_millis: u64,
    pub load_permille: u64,
    pub last_seen: i64,
}

/// Mix node in the network.
#[derive(Debug, Clone)]
pub struct MixNode {
    /// Node identifier
    pub id: PeerId,
    /// Public key for encryption
    pub public_key: Vec<u8>,
    /// Node capacity, in thousandths of a message per second
    pub capacity_millis: u64,
    /// Current load, in thousandths of full (0 to 1000)
    pub load_permille: u64,
    /// Last seen, in milliseconds since the Unix epoch
    pub last_seen: i64,
}

impl View for MixNode {
    type V = MixNodeView;

    open spec fn view(&self) -> MixNodeView {
        MixNodeView {
            id: self.id,
            public_key: self.public_key@,
            capacity_millis: self.capacity_millis,
            load_permille: self.load_permille,
            last_seen: self.last_seen,
        }
    }
}

/// A node is available at `now`: under 80% load and seen within the last
/// minute (not in the future).
pub open spec fn node_available(n: MixNodeView, now: i64) -> bool {
    n.load_permille < 800 && n.last_seen <= now && now - n.last_seen < SEEN_RECENTLY_MS
}

/// A load clamped to the range from empty to full.
pub open spec fn clamped_load(load: i64) -> u64 {
    if load < 0 {
        0
    } else if load > 1000 {
        1000
    } else {
        load as u64
    }
}

/// The nodes of `ns` available at `now`, in order.
pub open spec fn available_nodes(ns: Seq<MixNodeView>, now: i64) -> Seq<MixNodeView>
    decreases ns.len(),
{
    if ns.len() == 0 {
        Seq::empty()
    } else if node_available(ns.last(), now) {
        available_nodes(ns.drop_last(), now).push(ns.last())
    } else {
        available_nodes(ns.drop_last(), now)
    }
}

/// The ids of nodes.
pub open spec fn node_ids(ns: Seq<MixNodeView>) -> Seq<PeerId> {
    ns.map_values(|n: MixNodeView| n.id)
}

/// The views of a list of nodes.
pub open spec fn nodes_view(ns: Seq<MixNode>) -> Seq<MixNodeView> {
    ns.map_values(|n: MixNode| n@)
}

/// No two nodes share an id.
pub open spec fn distinct_ids(ns: Seq<MixNodeView>) -> bool {
    forall|i: int, j: int| 0 <= i < j < ns.len() ==> (#[trigger] ns[i]).id != (#[trigger] ns[j]).id
}

/// Some node has id `id`.
pub open spec fn has_node(ns: Seq<MixNodeView>, id: PeerId) -> bool {
    exists|k: int| 0 <= k < ns.len() && (#[trigger] ns[k]).id == id
}

/// The position of the node with id `id`.
pub open spec fn node_slot(ns: Seq<MixNodeView>, id: PeerId) -> int {
    choose|k: int| 0 <= k < ns.len() && (#[trigger] ns[k]).id == id
}

/// A route of `length` nodes chosen at `now` from the nodes `ns`: refused
/// when fewer are available; otherwise `length` ids of available nodes,
/// each at most as often as it occurs among them.
pub open spec fn route_outcome(ns: Seq<MixNodeView>, length: usize, now: i64, r: Result<Vec<PeerId>, NetworkError>) -> bool {
    if available_nodes(ns, now).len() < length {
        r matches Err(NetworkError::Privacy(PrivacyError::MixNetwork(_)))
    } else {
        r matches Ok(route) && {
            &&& route@.len() == length
            &&& route@.to_multiset().subset_of(node_ids(available_nodes(ns, now)).to_multiset())
        }
    }
}

/// The cover traffic made at `now` from the nodes `ns` under `config`:
/// as many packets as the cover rate gives for a tenth of a second when
/// enough nodes are available, none otherwise; each of 1024 zero bytes on
/// a route of the configured number of nodes, not yet on its way, created
/// and ready at `now`.
pub open spec fn cover_outcome(
    ns: Seq<MixNodeView>,
    config: MixNetworkConfig,
    now: i64,
    r: Result<Vec<MixPacket>, NetworkError>,
) -> bool {
    r matches Ok(ps) && {
        &&& ps@.len() == if available_nodes(ns, now).len() >= config.num_nodes {
            config.cover_traffic_rate_millis / 10_000
        } else {
            0
        }
        &&& forall|i: int| 0 <= i < ps@.len() ==> {
            &&& (#[trigger] ps@[i]).payload@ == Seq::new(1024, |j: int| 0u8)
            &&& ps@[i].route@.len() == config.num_nodes
            &&& ps@[i].current_hop == 0
            &&& ps@[i].created_at == now
            &&& ps@[i].delay_until == now
        }
    }
}

/// The nodes after the node `id`, if it is among them, reports the load
/// `load` at `now`: its load is set (clamped) and it is marked seen.
pub open spec fn nodes_after_stats(ns: Seq<MixNodeView>, id: PeerId, load: i64, now: i64) -> Seq<MixNodeView> {
    if has_node(ns, id) {
        ns.update(
            node_slot(ns, id),
            MixNodeView { load_permille: clamped_load(load), last_seen: now, ..ns[node_slot(ns, id)] },
        )
    } else {
        ns
    }
}

/// The sum of the loads of nodes.
pub open spec fn total_load(ns: Seq<MixNodeView>) -> int
    decreases ns.len(),
{
    if ns.len() == 0 {
        0
    } else {
        total_load(ns.drop_last()) + ns.last().load_permille
    }
}

impl MixNode {
    /// Creates a mix node seen at `now`, idle, with the default capacity of
    /// 100 messages per second.
    pub fn new_at(id: PeerId, public_key: Vec<u8>, now: i64) -> (r: Self)
        ensures
            r@ == (MixNodeView { id, public_key: public_key@, capacity_millis: 100_000, load_permille: 0, last_seen: now }),
    {
        MixNode { id, public_key, capacity_millis: 100_000, load_permille: 0, last_seen: now }
    }

    /// Creates a mix node seen now.
    pub fn new(id: PeerId, public_key: Vec<u8>) -> (r: Self)
        ensures
            r.id == id,
            r.public_key@ == public_key@,
            r.capacity_millis == 100_000,
            r.load_permille == 0,
    {
        Self::new_at(id, public_key, now_millis())
    }

    /// Whether the node is available at `now`.
    pub fn is_available_at(&self, now: i64) -> (r: bool)
        ensures
            r == node_available(self@, now),
    {
        self.load_permille < 800 && self.last_seen <= now && (now as i128) - (self.last_seen as i128) < 60_000
    }

    /// Whether the node is available now.
    pub fn is_available(&self) -> (r: bool)
        ensures
            exists|now: i64| r == node_available(self@, now),
    {
        self.is_available_at(now_millis())
    }

    /// Sets the load, clamped to the range from empty to full, and marks the
    /// node seen at `now`.
    pub fn update_load_at(&mut self, new_load_permille: i64, now: i64)
        ensures
            final(self)@ == (MixNodeView {
                load_permille: clamped_load(new_load_permille),
                last_seen: now,
                ..old(self)@
            }),
    {
        self.load_permille = if new_load_permille < 0 {
            0
        } else if new_load_permille > 1000 {
            1000
        } else {
            new_load_permille as u64
        };
        self.last_seen = now;
    }

    /// Sets the load and marks the node seen now.
    pub fn update_load(&mut self, new_load_permille: i64)
        ensures
            final(self)@ == (MixNodeView {
                load_permille: clamped_load(new_load_permille),
                last_seen: final(self).last_seen,
                ..old(self)@
            }),
    {
        self.update_load_at(new_load_permille, now_millis())
    }

    /// A copy of the node.
    pub fn copied(&self) -> (r: Self)
        ensures
            r@ == self@,
    {
        let mut key: Vec<u8> = Vec::new();
        let mut i: usize = 0;
        while i < self.public_key.len()
            invariant
                i <= self.public_key@.len(),
                key@ == self.public_key@.subrange(0, i as int),
            decreases self.public_key@.len() - i,
        {
            key.push(self.public_key[i]);
            i = i + 1;
            assert(key@ =~= self.public_key@.subrange(0, i as int));
        }
        assert(key@ =~= self.public_key@);
        MixNode {
            id: self.id,
            public_key: key,
            capacity_millis: self.capacity_millis,
            load_permille: self.load_permille,
            last_seen: self.last_seen,
        }
    }
}

/// What a mix packet holds, as values.
pub struct MixPacketView {
    pub id: u128,
    pub payload: Seq<u8>,
    pub route: Seq<PeerId>,
    pub current_hop: usize,
    pub created_at: i64,
    pub delay_until: i64,
}

/// Mix packet that travels through the network.
#[derive(Debug, Clone)]
pub struct MixPacket {
    /// Packet identifier
    pub id: u128,
    /// Encrypted payload
    pub payload: Vec<u8>,
    /// Route through mix nodes
    pub route: Vec<PeerId>,
    /// Current hop index
    pub current_hop: usize,
    /// Creation time, in milliseconds since the Unix epoch
    pub created_at: i64,
    /// Time until which the packet waits before its next hop
    pub delay_until: i64,
}

impl View for MixPacket {
    type V = MixPacketView;

    open spec fn view(&self) -> MixPacketView {
        MixPacketView {
            id: self.id,
            payload: self.payload@,
            route: self.route@,
            current_hop: self.current_hop,
            created_at: self.created_at,
            delay_until: self.delay_until,
        }
    }
}

/// The views of a list of packets.
pub open spec fn packets_view(ps: Seq<MixPacket>) -> Seq<MixPacketView> {
    ps.map_values(|p: MixPacket| p@)
}

/// `after` is `before` with one packet more at its end: `payload` created at
/// `now` and ready at once, not yet on its way, routed through `hops` of
/// the nodes `from` (each chosen at most as often as it occurs there) and
/// then to `destination`.
pub open spec fn packet_queued(
    before: Seq<MixPacketView>,
    after: Seq<MixPacketView>,
    payload: Seq<u8>,
    destination: PeerId,
    from: Seq<MixNodeView>,
    hops: int,
    now: i64,
) -> bool {
    &&& after.len() == before.len() + 1
    &&& after.drop_last() == before
    &&& after.last().payload == payload
    &&& after.last().current_hop == 0
    &&& after.last().created_at == now
    &&& after.last().delay_until == now
    &&& after.last().route.len() == hops + 1
    &&& after.last().route.last() == destination
    &&& after.last().route.drop_last().to_multiset().subset_of(node_ids(from).to_multiset())
}

/// A packet is older than `max_age` at `now`; one created after `now` counts
/// as expired too.
pub open spec fn packet_expired(p: MixPacketView, max_age: u64, now: i64) -> bool {
    p.created_at > now || now - p.created_at > max_age
}

/// A packet's wait is over at `now`.
pub open spec fn packet_ready(p: MixPacketView, now: i64) -> bool {
    now >= p.delay_until
}

/// The end of a wait of `delay` from `now`, at the latest representable
/// time.
pub open spec fn delay_end(now: i64, delay: u64) -> i64 {
    if now + delay > i64::MAX {
        i64::MAX
    } else {
        (now + delay) as i64
    }
}

/// A packet moved one hop on at `now`, to wait `delay` there.
pub open spec fn advanced(p: MixPacketView, delay: u64, now: i64) -> MixPacketView {
    MixPacketView { current_hop: (p.current_hop + 1) as usize, delay_until: delay_end(now, delay), ..p }
}

/// The packets of `ps` that neither expire nor are ready at `now`: they
/// keep waiting.
pub open spec fn still_pending(ps: Seq<MixPacketView>, max_age: u64, now: i64) -> Seq<MixPacketView>
    decreases ps.len(),
{
    if ps.len() == 0 {
        Seq::empty()
    } else if !packet_expired(ps.last(), max_age, now) && !packet_ready(ps.last(), now) {
        still_pending(ps.drop_last(), max_age, now).push(ps.last())
    } else {
        still_pending(ps.drop_last(), max_age, now)
    }
}

/// The packets of `ps` released at `now`: those that have not expired,
/// are ready and have a hop left, each moved one hop on.
pub open spec fn released(ps: Seq<MixPacketView>, max_age: u64, delay: u64, now: i64) -> Seq<MixPacketView>
    decreases ps.len(),
{
    if ps.len() == 0 {
        Seq::empty()
    } else if !packet_expired(ps.last(), max_age, now) && packet_ready(ps.last(), now)
        && ps.last().current_hop < ps.last().route.len() {
        released(ps.drop_last(), max_age, delay, now).push(advanced(ps.last(), delay, now))
    } else {
        released(ps.drop_last(), max_age, delay, now)
    }
}

/// A packet sent at `now` with a hop to go leaves at the next mixing at
/// `now`, moved one hop on, after the packets released before it; it does
/// not stay pending.
pub proof fn fresh_packet_is_released(ps: Seq<MixPacketView>, p: MixPacketView, max_age: u64, delay: u64, now: i64)
    requires
        p.created_at == now,
        p.delay_until == now,
        p.current_hop < p.route.len(),
    ensures
        released(ps.push(p), max_age, delay, now) == released(ps, max_age, delay, now).push(advanced(p, delay, now)),
        still_pending(ps.push(p), max_age, now) == still_pending(ps, max_age, now),
{
    assert(ps.push(p).drop_last() =~= ps);
    assert(ps.push(p).last() == p);
}

impl MixPacket {
    /// Creates a packet with id `id` at `now`, at its first hop and ready.
    pub fn new_at(payload: Vec<u8>, route: Vec<PeerId>, id: u128, now: i64) -> (r: Self)
        ensures
            r@ == (MixPacketView {
                id,
                payload: payload@,
                route: route@,
                current_hop: 0,
                created_at: now,
                delay_until: now,
            }),
    {
        MixPacket { id, payload, route, current_hop: 0, created_at: now, delay_until: now }
    }

    /// Creates a packet with a fresh random id, now.
    pub fn new(payload: Vec<u8>, route: Vec<PeerId>) -> (r: Self)
        ensures
            r.payload@ == payload@,
            r.route@ == route@,
            r.current_hop == 0,
            r.created_at == r.delay_until,
    {
        Self::new_at(payload, route, fresh_uuid_value(), now_millis())
    }

    /// Whether the packet is older than `max_age_ms` at `now`.
    pub fn is_expired_at(&self, max_age_ms: u64, now: i64) -> (r: bool)
        ensures
            r == packet_expired(self@, max_age_ms, now),
    {
        self.created_at > now || (now as i128) - (self.created_at as i128) > max_age_ms as i128
    }

    /// Whether the packet is older than `max_age_ms` now.
    pub fn is_expired(&self, max_age_ms: u64) -> (r: bool)
        ensures
            exists|now: i64| r == packet_expired(self@, max_age_ms, now),
    {
        self.is_expired_at(max_age_ms, now_millis())
    }

    /// Whether the packet's wait is over at `now`.
    pub fn is_ready_at(&self, now: i64) -> (r: bool)
        ensures
            r == packet_ready(self@, now),
    {
        now >= self.delay_until
    }

    /// Whether the packet's wait is over now.
    pub fn is_ready(&self) -> (r: bool)
        ensures
            exists|now: i64| r == packet_ready(self@, now),
    {
        self.is_ready_at(now_millis())
    }

    /// Moves the packet one hop on at `now`, to wait `delay_ms` there; a
    /// packet past the end of its route is refused.
    pub fn advance_hop_at(&mut self, delay_ms: u64, now: i64) -> (r: Result<(), NetworkError>)
        ensures
            old(self).current_hop < old(self).route@.len() ==> r is Ok && final(self)@ == advanced(old(self)@, delay_ms, now),
            old(self).current_hop >= old(self).route@.len() ==> (r matches Err(
                NetworkError::Privacy(PrivacyError::MixNetwork(_)),
            ) && final(self)@ == old(self)@),
    {
        if self.current_hop >= self.route.len() {
            return Err(NetworkError::Privacy(PrivacyError::MixNetwork(String::from_str("Packet has reached end of route"))));
        }
        self.current_hop = self.current_hop + 1;
        let end: i128 = (now as i128) + (delay_ms as i128);
        self.delay_until = if end > i64::MAX as i128 {
            i64::MAX
        } else {
            end as i64
        };
        Ok(())
    }

    /// Moves the packet one hop on now.
    pub fn advance_hop(&mut self, delay_ms: u64) -> (r: Result<(), NetworkError>)
        ensures
            old(self).current_hop < old(self).route@.len() ==> r is Ok && exists|now: i64|
                final(self)@ == #[trigger] advanced(old(self)@, delay_ms, now),
            old(self).current_hop >= old(self).route@.len() ==> r is Err && final(self)@ == old(self)@,
    {
        self.advance_hop_at(delay_ms, now_millis())
    }

    /// The node of the packet's current hop, if it has one.
    pub fn next_destination(&self) -> (r: Option<PeerId>)
        ensures
            r == (if self.current_hop < self.route@.len() {
                Some(self.route@[self.current_hop as int])
            } else {
                None
            }),
    {
        if self.current_hop < self.route.len() {
            Some(self.route[self.current_hop])
        } else {
            None
        }
    }
}

/// Mix network statistics.
#[derive(Debug, Clone, Copy)]
pub struct MixNetworkStats {
    /// Total number of nodes
    pub total_nodes: usize,
    /// Number of available nodes
    pub available_nodes: usize,
    /// Number of pending packets
    pub pending_packets: usize,
    /// Average node load, in thousandths
    pub average_load_permille: u64,
}

/// Mix network manager.
pub struct MixNetwork {
    /// Configuration
    config: MixNetworkConfig,
    /// Known mix nodes
    nodes: Vec<MixNode>,
    /// Pending packets
    pending_packets: Vec<MixPacket>,
}

impl MixNetwork {
    /// The configuration.
    pub closed spec fn config_spec(&self) -> MixNetworkConfig {
        self.config
    }

    /// The known nodes, in order of registration.
    pub closed spec fn nodes_spec(&self) -> Seq<MixNodeView> {
        nodes_view(self.nodes@)
    }

    /// The packets waiting, in order of sending.
    pub closed spec fn pending_spec(&self) -> Seq<MixPacketView> {
        packets_view(self.pending_packets@)
    }

    /// Node ids are unique.
    pub open spec fn wf(&self) -> bool {
        distinct_ids(self.nodes_spec())
    }

    /// Creates a mix network with no nodes and no packets.
    pub fn new(config: MixNetworkConfig) -> (r: Self)
        ensures
            r.wf(),
            r.config_spec() == config,
            r.nodes_spec().len() == 0,
            r.pending_spec().len() == 0,
    {
        let r = MixNetwork { config, nodes: Vec::new(), pending_packets: Vec::new() };
        assert(r.nodes_spec() =~= Seq::<MixNodeView>::empty());
        assert(r.pending_spec() =~= Seq::<MixPacketView>::empty());
        r
    }

    /// The position of the node `id`.
    fn position(&self, id: PeerId) -> (r: Option<usize>)
        ensures
            match r {
                Some(k) => k < self.nodes_spec().len() && self.nodes_spec()[k as int].id == id,
                None => !has_node(self.nodes_spec(), id),
            },
    {
        let mut i: usize = 0;
        while i < self.nodes.len()
            invariant
                i <= self.nodes@.len(),
                forall|j: int| 0 <= j < i ==> (#[trigger] self.nodes_spec()[j]).id != id,
            decreases self.nodes@.len() - i,
        {
            if self.nodes[i].id == id {
                return Some(i);
            }
            i = i + 1;
        }
        None
    }

    /// Registers a mix node, in place of a node of the same id or else
    /// after the others.
    pub fn register_node(&mut self, node: MixNode) -> (r: Result<(), NetworkError>)
        requires
            old(self).wf(),
        ensures
            r is Ok,
            final(self).wf(),
            final(self).config_spec() == old(self).config_spec(),
            final(self).pending_spec() == old(self).pending_spec(),
            final(self).nodes_spec() == if has_node(old(self).nodes_spec(), node.id) {
                old(self).nodes_spec().update(node_slot(old(self).nodes_spec(), node.id), node@)
            } else {
                old(self).nodes_spec().push(node@)
            },
    {
        let ghost ns = self.nodes_spec();
        let ghost nv = node@;
        match self.position(node.id) {
            Some(k) => {
                proof {
                    assert(ns[k as int].id == nv.id);
                    assert(node_slot(ns, nv.id) == k as int);
                }
                self.nodes.set(k, node);
                assert(self.nodes_spec() =~= ns.update(k as int, nv));
            },
            None => {
                self.nodes.push(node);
                assert(self.nodes_spec() =~= ns.push(nv));
            },
        }
        Ok(())
    }

    /// Unregisters the mix node `node_id`, if it is known.
    pub fn unregister_node(&mut self, node_id: PeerId) -> (r: Result<(), NetworkError>)
        requires
            old(self).wf(),
        ensures
            r is Ok,
            final(self).wf(),
            final(self).config_spec() == old(self).config_spec(),
            final(self).pending_spec() == old(self).pending_spec(),
            final(self).nodes_spec() == if has_node(old(self).nodes_spec(), node_id) {
                old(self).nodes_spec().remove(node_slot(old(self).nodes_spec(), node_id))
            } else {
                old(self).nodes_spec()
            },
    {
        let ghost ns = self.nodes_spec();
        match self.position(node_id) {
            Some(k) => {
                proof {
                    assert(node_slot(ns, node_id) == k as int);
                }
                self.nodes.remove(k);
                assert(self.nodes_spec() =~= ns.remove(k as int));
                assert forall|i: int, j: int| 0 <= i < j < self.nodes_spec().len() implies
                    (#[trigger] self.nodes_spec()[i]).id != (#[trigger] self.nodes_spec()[j]).id by {
                    let a = if i < k { i } else { i + 1 };
                    let b = if j < k { j } else { j + 1 };
                    assert(ns[a] == self.nodes_spec()[i]);
                    assert(ns[b] == self.nodes_spec()[j]);
                }
            },
            None => {},
        }
        Ok(())
    }

    /// The nodes available at `now`, in order of registration.
    pub fn get_available_nodes_at(&self, now: i64) -> (r: Vec<MixNode>)
        ensures
            nodes_view(r@) == available_nodes(self.nodes_spec(), now),
    {
        let mut r: Vec<MixNode> = Vec::new();
        let mut i: usize = 0;
        while i < self.nodes.len()
            invariant
                i <= self.nodes@.len(),
                nodes_view(r@) == available_nodes(self.nodes_spec().take(i as int), now),
            decreases self.nodes@.len() - i,
        {
            let ghost before = r@;
            assert(self.nodes_spec().take(i + 1).drop_last() =~= self.nodes_spec().take(i as int));
            if self.nodes[i].is_available_at(now) {
                r.push(self.nodes[i].copied());
                assert(nodes_view(r@) =~= nodes_view(before).push(self.nodes_spec()[i as int]));
            }
            i = i + 1;
        }
        assert(self.nodes_spec().take(i as int) =~= self.nodes_spec());
        r
    }

    /// The nodes available now.
    pub fn get_available_nodes(&self) -> (r: Vec<MixNode>)
        ensures
            exists|now: i64| nodes_view(r@) == #[trigger] available_nodes(self.nodes_spec(), now),
    {
        self.get_available_nodes_at(now_millis())
    }

    /// A random route of `length` distinct nodes available at `now`; refused
    /// when fewer nodes are available.
    pub fn create_route_at(&self, length: usize, now: i64) -> (r: Result<Vec<PeerId>, NetworkError>)
        requires
            self.wf(),
        ensures
            route_outcome(self.nodes_spec(), length, now, r),
    {
        let available = self.get_available_nodes_at(now);
        let ghost av = available_nodes(self.nodes_spec(), now);
        let mut ids: Vec<PeerId> = Vec::new();
        let mut i: usize = 0;
        while i < available.len()
            invariant
                nodes_view(available@) == av,
                i <= available@.len(),
                ids@ == node_ids(av).take(i as int),
            decreases available@.len() - i,
        {
            assert(av[i as int] == available@[i as int]@);
            ids.push(available[i].id);
            i = i + 1;
            assert(ids@ =~= node_ids(av).take(i as int));
        }
        assert(ids@ =~= node_ids(av));
        if available.len() < length {
            let mut reason = String::from_str("Not enough available nodes: ");
            append_decimal(&mut reason, available.len());
            reason.append(" < ");
            append_decimal(&mut reason, length);
            return Err(NetworkError::Privacy(PrivacyError::MixNetwork(reason)));
        }
        Ok(choose_multiple_ids(&ids, length))
    }

    /// A random route of `length` nodes available now.
    pub fn create_route(&self, length: usize) -> (r: Result<Vec<PeerId>, NetworkError>)
        requires
            self.wf(),
        ensures
            exists|now: i64| #[trigger] route_outcome(self.nodes_spec(), length, now, r),
    {
        let now = now_millis();
        let r = self.create_route_at(length, now);
        assert(route_outcome(self.nodes_spec(), length, now, r));
        r
    }

    /// Sends `payload` to `destination` at `now` as the packet `id`: a
    /// random route of the configured number of available nodes, then the
    /// destination; the packet waits among the pending ones. Refused when
    /// too few nodes are available.
    pub fn send_message_at(&mut self, payload: Vec<u8>, destination: PeerId, id: u128, now: i64) -> (r: Result<
        (),
        NetworkError,
    >)
        requires
            old(self).wf(),
        ensures
            final(self).wf(),
            final(self).config_spec() == old(self).config_spec(),
            final(self).nodes_spec() == old(self).nodes_spec(),
            available_nodes(old(self).nodes_spec(), now).len() < old(self).config_spec().num_nodes ==> (r is Err
                && final(self).pending_spec() == old(self).pending_spec()),
            available_nodes(old(self).nodes_spec(), now).len() >= old(self).config_spec().num_nodes ==> {
                &&& r is Ok
                &&& final(self).pending_spec().len() == old(self).pending_spec().len() + 1
                &&& final(self).pending_spec().drop_last() == old(self).pending_spec()
                &&& final(self).pending_spec().last().id == id
                &&& final(self).pending_spec().last().payload == payload@
                &&& final(self).pending_spec().last().current_hop == 0
                &&& final(self).pending_spec().last().created_at == now
                &&& final(self).pending_spec().last().delay_until == now
                &&& final(self).pending_spec().last().route.len() == old(self).config_spec().num_nodes + 1
                &&& final(self).pending_spec().last().route.last() == destination
                &&& final(self).pending_spec().last().route.drop_last().to_multiset().subset_of(
                    node_ids(available_nodes(old(self).nodes_spec(), now)).to_multiset(),
                )
            },
    {
        let mut route = match self.create_route_at(self.config.num_nodes, now) {
            Ok(route) => route,
            Err(e) => {
                return Err(e);
            },
        };
        let ghost chosen = route@;
        route.push(destination);
        assert(route@.drop_last() =~= chosen);
        let packet = MixPacket::new_at(payload, route, id, now);
        let ghost before = self.pending_spec();
        self.pending_packets.push(packet);
        assert(self.pending_spec() =~= before.push(packet@));
        Ok(())
    }

    /// Sends `payload` to `destination` now, as a packet with a fresh id.
    pub fn send_message(&mut self, payload: Vec<u8>, destination: PeerId) -> (r: Result<(), NetworkError>)
        requires
            old(self).wf(),
        ensures
            final(self).wf(),
            final(self).config_spec() == old(self).config_spec(),
            final(self).nodes_spec() == old(self).nodes_spec(),
            exists|now: i64| {
                &&& (r is Ok <==> #[trigger] available_nodes(old(self).nodes_spec(), now).len()
                    >= old(self).config_spec().num_nodes)
                &&& r is Ok ==> packet_queued(
                    old(self).pending_spec(),
                    final(self).pending_spec(),
                    payload@,
                    destination,
                    available_nodes(old(self).nodes_spec(), now),
                    old(self).config_spec().num_nodes as int,
                    now,
                )
            },
            r is Err ==> final(self).pending_spec() == old(self).pending_spec(),
    {
        let now = now_millis();
        let r = self.send_message_at(payload, destination, fresh_uuid_value(), now);
        assert(available_nodes(old(self).nodes_spec(), now).len() >= old(self).config_spec().num_nodes ==> r is Ok);
        r
    }

    /// Mixes at `now`: expired packets are dropped; ready packets with a hop
    /// left move on and are returned, in order; ready packets past their
    /// route's end are dropped; the rest keep waiting.
    pub fn process_packets_at(&mut self, now: i64) -> (r: Result<Vec<MixPacket>, NetworkError>)
        requires
            old(self).wf(),
        ensures
            final(self).wf(),
            final(self).config_spec() == old(self).config_spec(),
            final(self).nodes_spec() == old(self).nodes_spec(),
            final(self).pending_spec() == still_pending(
                old(self).pending_spec(),
                old(self).config_spec().max_message_age_ms,
                now,
            ),
            r matches Ok(out) && packets_view(out@) == released(
                old(self).pending_spec(),
                old(self).config_spec().max_message_age_ms,
                old(self).config_spec().mix_delay_ms,
                now,
            ),
    {
        let max_age = self.config.max_message_age_ms;
        let delay = self.config.mix_delay_ms;
        let mut old_packets: Vec<MixPacket> = Vec::new();
        std::mem::swap(&mut old_packets, &mut self.pending_packets);
        let ghost ps = packets_view(old_packets@);
        let mut kept: Vec<MixPacket> = Vec::new();
        let mut out: Vec<MixPacket> = Vec::new();
        let ghost mut k: int = 0;
        while old_packets.len() > 0
            invariant
                0 <= k <= ps.len(),
                packets_view(old_packets@) == ps.subrange(k, ps.len() as int),
                packets_view(kept@) == still_pending(ps.take(k), max_age, now),
                packets_view(out@) == released(ps.take(k), max_age, delay, now),
            decreases old_packets@.len(),
        {
            let ghost rest = old_packets@;
            let mut p = old_packets.remove(0);
            proof {
                assert(rest.len() > 0);
                assert(packets_view(rest).len() == rest.len());
                assert(k < ps.len());
                assert(p@ == packets_view(rest)[0]);
                assert(ps.subrange(k, ps.len() as int)[0] == ps[k]);
                assert(ps[k] == p@);
                assert(old_packets@ =~= rest.subrange(1, rest.len() as int));
                assert forall|j: int| 0 <= j < old_packets@.len() implies #[trigger] packets_view(old_packets@)[j]
                    == ps.subrange(k + 1, ps.len() as int)[j] by {
                    assert(old_packets@[j] == rest[j + 1]);
                    assert(packets_view(rest)[j + 1] == rest[j + 1]@);
                    assert(packets_view(rest)[j + 1] == ps.subrange(k, ps.len() as int)[j + 1]);
                    assert(ps.subrange(k, ps.len() as int)[j + 1] == ps[k + j + 1]);
                }
                assert(packets_view(old_packets@) =~= ps.subrange(k + 1, ps.len() as int));
                assert(ps.take(k + 1).drop_last() =~= ps.take(k));
                assert(ps.take(k + 1).last() == ps[k]);
            }
            if p.is_expired_at(max_age, now) {
            } else if p.is_ready_at(now) {
                let ghost before = p@;
                match p.advance_hop_at(delay, now) {
                    Ok(()) => {
                        let ghost o = packets_view(out@);
                        out.push(p);
                        assert(packets_view(out@) =~= o.push(advanced(before, delay, now)));
                    },
                    Err(_) => {},
                }
            } else {
                let ghost kv = packets_view(kept@);
                kept.push(p);
                assert(packets_view(kept@) =~= kv.push(ps[k]));
            }
            proof {
                k = k + 1;
            }
        }
        assert(ps.take(k) =~= ps);
        self.pending_packets = kept;
        Ok(out)
    }

    /// Mixes now.
    pub fn process_packets(&mut self) -> (r: Result<Vec<MixPacket>, NetworkError>)
        requires
            old(self).wf(),
        ensures
            final(self).wf(),
            final(self).nodes_spec() == old(self).nodes_spec(),
            final(self).config_spec() == old(self).config_spec(),
            exists|now: i64| {
                &&& #[trigger] still_pending(old(self).pending_spec(), old(self).config_spec().max_message_age_ms, now)
                    == final(self).pending_spec()
                &&& r matches Ok(out) && packets_view(out@) == released(
                    old(self).pending_spec(),
                    old(self).config_spec().max_message_age_ms,
                    old(self).config_spec().mix_delay_ms,
                    now,
                )
            },
    {
        let now = now_millis();
        let r = self.process_packets_at(now);
        assert(still_pending(old(self).pending_spec(), old(self).config_spec().max_message_age_ms, now)
            == self.pending_spec());
        r
    }

    /// Cover traffic for the next tenth of a second at `now`: as many
    /// packets as the cover rate gives for that time, each of 1024 zero
    /// bytes on a random route of the configured number of available nodes;
    /// none when too few nodes are available.
    pub fn generate_cover_traffic_at(&self, now: i64) -> (r: Result<Vec<MixPacket>, NetworkError>)
        requires
            self.wf(),
        ensures
            cover_outcome(self.nodes_spec(), self.config_spec(), now, r),
    {
        let count = self.config.cover_traffic_rate_millis / 10_000;
        let mut packets: Vec<MixPacket> = Vec::new();
        let mut n: u64 = 0;
        while n < count
            invariant
                self.wf(),
                n <= count,
                count == self.config_spec().cover_traffic_rate_millis / 10_000,
                packets@.len() == if available_nodes(self.nodes_spec(), now).len() >= self.config_spec().num_nodes {
                    n as int
                } else {
                    0
                },
                forall|i: int| 0 <= i < packets@.len() ==> {
                    &&& (#[trigger] packets@[i]).payload@ == Seq::new(1024, |j: int| 0u8)
                    &&& packets@[i].route@.len() == self.config_spec().num_nodes
                    &&& packets@[i].current_hop == 0
                    &&& packets@[i].created_at == now
                    &&& packets@[i].delay_until == now
                },
            decreases count - n,
        {
            match self.create_route_at(self.config.num_nodes, now) {
                Ok(route) => {
                    let payload = vec![0u8; 1024];
                    assert(payload@ =~= Seq::new(1024, |j: int| 0u8));
                    packets.push(MixPacket::new_at(payload, route, fresh_uuid_value(), now));
                },
                Err(_) => {},
            }
            n = n + 1;
        }
        Ok(packets)
    }

    /// Cover traffic now.
    pub fn generate_cover_traffic(&self) -> (r: Result<Vec<MixPacket>, NetworkError>)
        requires
            self.wf(),
        ensures
            exists|now: i64| #[trigger] cover_outcome(self.nodes_spec(), self.config_spec(), now, r),
    {
        let now = now_millis();
        let r = self.generate_cover_traffic_at(now);
        assert(cover_outcome(self.nodes_spec(), self.config_spec(), now, r));
        r
    }

    /// Sets the load of the node `node_id`, if it is known, and marks it
    /// seen at `now`.
    pub fn update_node_stats_at(&mut self, node_id: PeerId, load_permille: i64, now: i64) -> (r: Result<
        (),
        NetworkError,
    >)
        requires
            old(self).wf(),
        ensures
            r is Ok,
            final(self).wf(),
            final(self).config_spec() == old(self).config_spec(),
            final(self).pending_spec() == old(self).pending_spec(),
            final(self).nodes_spec() == nodes_after_stats(old(self).nodes_spec(), node_id, load_permille, now),
    {
        let ghost ns = self.nodes_spec();
        match self.position(node_id) {
            Some(k) => {
                proof {
                    assert(node_slot(ns, node_id) == k as int);
                }
                let mut node = self.nodes[k].copied();
                node.update_load_at(load_permille, now);
                let ghost nv = node@;
                self.nodes.set(k, node);
                assert(self.nodes_spec() =~= ns.update(k as int, nv));
            },
            None => {},
        }
        Ok(())
    }

    /// Sets the load of the node `node_id` and marks it seen now.
    pub fn update_node_stats(&mut self, node_id: PeerId, load_permille: i64) -> (r: Result<(), NetworkError>)
        requires
            old(self).wf(),
        ensures
            r is Ok,
            final(self).wf(),
            final(self).config_spec() == old(self).config_spec(),
            final(self).pending_spec() == old(self).pending_spec(),
            exists|now: i64| final(self).nodes_spec() == #[trigger] nodes_after_stats(
                old(self).nodes_spec(),
                node_id,
                load_permille,
                now,
            ),
    {
        self.update_node_stats_at(node_id, load_permille, now_millis())
    }

    /// Statistics at `now`: node counts, pending packets and the mean load
    /// (rounded down).
    pub fn get_stats_at(&self, now: i64) -> (r: MixNetworkStats)
        ensures
            r.total_nodes == self.nodes_spec().len(),
            r.available_nodes == available_nodes(self.nodes_spec(), now).len(),
            r.pending_packets == self.pending_spec().len(),
            r.average_load_permille == if self.nodes_spec().len() > 0 {
                total_load(self.nodes_spec()) / (self.nodes_spec().len() as int)
            } else {
                0
            },
    {
        let mut available: usize = 0;
        let mut sum: u128 = 0;
        let mut i: usize = 0;
        while i < self.nodes.len()
            invariant
                i <= self.nodes@.len(),
                available == available_nodes(self.nodes_spec().take(i as int), now).len(),
                sum == total_load(self.nodes_spec().take(i as int)),
                sum <= i * 0xffff_ffff_ffff_ffffu128,
                available <= i,
            decreases self.nodes@.len() - i,
        {
            assert(self.nodes_spec().take(i + 1).drop_last() =~= self.nodes_spec().take(i as int));
            assert(self.nodes_spec()[i as int] == self.nodes@[i as int]@);
            if self.nodes[i].is_available_at(now) {
                available = available + 1;
            }
            sum = sum + self.nodes[i].load_permille as u128;
            i = i + 1;
        }
        assert(self.nodes_spec().take(i as int) =~= self.nodes_spec());
        let total = self.nodes.len();
        let average: u64 = if total > 0 {
            let a = sum / (total as u128);
            assert(a <= 0xffff_ffff_ffff_ffffu128) by (nonlinear_arith)
                requires
                    a == sum / (total as u128),
                    sum <= total * 0xffff_ffff_ffff_ffffu128,
                    total > 0,
            ;
            a as u64
        } else {
            0
        };
        MixNetworkStats {
            total_nodes: total,
            available_nodes: available,
            pending_packets: self.pending_packets.len(),
            average_load_permille: average,
        }
    }

    /// Statistics now.
    pub fn get_stats(&self) -> (r: MixNetworkStats)
        ensures
            r.total_nodes == self.nodes_spec().len(),
            exists|now: i64| r.available_nodes == #[trigger] available_nodes(self.nodes_spec(), now).len(),
            r.pending_packets == self.pending_spec().len(),
            r.average_load_permille == if self.nodes_spec().len() > 0 {
                total_load(self.nodes_spec()) / (self.nodes_spec().len() as int)
            } else {
                0
            },
    {
        let now = now_millis();
        let r = self.get_stats_at(now);
        assert(r.available_nodes == available_nodes(self.nodes_spec(), now).len());
        r
    }
}

impl Default for MixNetwork {
    fn default() -> (r: Self)
        ensures
            r.wf(),
            r.nodes_spec().len() == 0,
            r.pending_spec().len() == 0,
            r.config_spec().num_nodes == 3,
    {
        Self::new(MixNetworkConfig::default())
    }
}

} // verus!
