//! Onion routing: circuits of registered nodes, each hop with its own key;
//! a message is wrapped in one layer per hop and each hop peels its layer.
//! Times are milliseconds since the Unix epoch.

use vstd::prelude::*;
use crate::net::error::{NetworkError, PrivacyError};
use crate::net::types::PeerId;
use crate::net::privacy::{OnionConfig, OnionNode, CircuitState, OnionStats};
use crate::net::crypto::aead::{random_bytes, shuffle};
use crate::text::append_decimal;
use crate::platform::{fresh_uuid_value, now_millis};

verus! {

/// One layer of a message: each byte combined by exclusive or with the
/// key's byte at the same position, the key repeated as needed.
pub open spec fn xor_layer(data: Seq<u8>, key: Seq<u8>) -> Seq<u8> {
    Seq::new(data.len(), |i: int| data[i] ^ key[i % (key.len() as int)])
}

/// A layer applied twice under the same key comes off again.
pub proof fn xor_layer_twice(data: Seq<u8>, key: Seq<u8>)
    requires
        key.len() > 0,
    ensures
        xor_layer(xor_layer(data, key), key) == data,
{
    assert forall|i: int| 0 <= i < data.len() implies #[trigger] xor_layer(xor_layer(data, key), key)[i] == data[i] by {
        let a: u8 = data[i];
        let b: u8 = key[i % (key.len() as int)];
        assert((a ^ b) ^ b == a) by (bit_vector);
    }
    assert(xor_layer(xor_layer(data, key), key) =~= data);
}

/// A message wrapped for hops keyed `keys`: the first hop's layer
/// outermost, the last hop's innermost.
pub open spec fn onion_wrap(data: Seq<u8>, keys: Seq<Seq<u8>>) -> Seq<u8>
    decreases keys.len(),
{
    if keys.len() == 0 {
        data
    } else {
        xor_layer(onion_wrap(data, keys.drop_first()), keys[0])
    }
}

/// What remains of a payload once hops keyed `keys` have each peeled their
/// layer, in order.
pub open spec fn onion_peel(payload: Seq<u8>, keys: Seq<Seq<u8>>) -> Seq<u8>
    decreases keys.len(),
{
    if keys.len() == 0 {
        payload
    } else {
        onion_peel(xor_layer(payload, keys[0]), keys.drop_first())
    }
}

/// Whether every key has at least one byte.
pub open spec fn keys_nonempty(keys: Seq<Seq<u8>>) -> bool {
    forall|k: int| 0 <= k < keys.len() ==> (#[trigger] keys[k]).len() > 0
}

/// The first hop's peeling of a wrapped message leaves the message wrapped
/// for the remaining hops.
pub proof fn peeling_a_layer(data: Seq<u8>, keys: Seq<Seq<u8>>)
    requires
        keys.len() > 0,
        keys[0].len() > 0,
    ensures
        xor_layer(onion_wrap(data, keys), keys[0]) == onion_wrap(data, keys.drop_first()),
{
    xor_layer_twice(onion_wrap(data, keys.drop_first()), keys[0]);
}

/// A message wrapped for a circuit's hops comes out whole once every hop
/// has peeled its layer, in order.
pub proof fn peeling_every_layer(data: Seq<u8>, keys: Seq<Seq<u8>>)
    requires
        keys_nonempty(keys),
    ensures
        onion_peel(onion_wrap(data, keys), keys) == data,
    decreases keys.len(),
{
    if keys.len() > 0 {
        assert(keys[0].len() > 0);
        peeling_a_layer(data, keys);
        assert forall|k: int| 0 <= k < keys.drop_first().len() implies (#[trigger] keys.drop_first()[k]).len() > 0 by {
            assert(keys.drop_first()[k] == keys[k + 1]);
        }
        peeling_every_layer(data, keys.drop_first());
    }
}

/// One layer of `data` under `key` (see `xor_layer`).
fn xor_with(data: &[u8], key: &[u8]) -> (r: Vec<u8>)
    requires
        key@.len() > 0,
    ensures
        r@ == xor_layer(data@, key@),
{
    let mut r: Vec<u8> = Vec::new();
    let n = data.len();
    let m = key.len();
    let mut i: usize = 0;
    while i < n
        invariant
            n == data@.len(),
            m == key@.len(),
            m > 0,
            i <= n,
            r@ == xor_layer(data@, key@).take(i as int),
        decreases n - i,
    {
        r.push(data[i] ^ key[i % m]);
        i = i + 1;
        assert(r@ =~= xor_layer(data@, key@).take(i as int));
    }
    assert(r@ =~= xor_layer(data@, key@));
    r
}

/// An onion routing circuit.
#[derive(Debug, Clone)]
pub struct OnionCircuit {
    pub id: u128,
    pub nodes: Vec<OnionNode>,
    pub state: CircuitState,
    pub created_at: i64,
    pub last_used: i64,
    pub encryption_keys: Vec<Vec<u8>>,
}

impl OnionCircuit {
    /// The circuit's hop keys.
    pub open spec fn keys(&self) -> Seq<Seq<u8>> {
        self.encryption_keys@.map_values(|k: Vec<u8>| k@)
    }

    /// One key of 32 bytes per hop.
    pub open spec fn wf(&self) -> bool {
        &&& self.encryption_keys@.len() == self.nodes@.len()
        &&& forall|k: int| 0 <= k < self.encryption_keys@.len() ==> (#[trigger] self.encryption_keys@[k])@.len() == 32
    }
}

/// A packet travelling through a circuit.
#[derive(Debug, Clone)]
pub struct OnionPacket {
    pub id: u128,
    pub circuit_id: u128,
    pub current_hop: usize,
    pub payload: Vec<u8>,
    pub next_hop: Option<PeerId>,
}

/// What a hop does with a packet.
#[derive(Debug)]
pub enum ProcessedPacket {
    /// Forward the packet to its next hop
    Forward(OnionPacket),
    /// The packet has reached the end of its circuit
    Final(Vec<u8>),
}

/// The position of the first circuit with id `id` in `cs`, from `i` on.
pub open spec fn find_circuit(cs: Seq<OnionCircuit>, id: u128, i: int) -> Option<int>
    decreases cs.len() - i,
{
    if i < 0 || i >= cs.len() {
        None
    } else if cs[i].id == id {
        Some(i)
    } else {
        find_circuit(cs, id, i + 1)
    }
}

proof fn lemma_find_circuit(cs: Seq<OnionCircuit>, id: u128, i: int)
    requires
        0 <= i,
    ensures
        find_circuit(cs, id, i) matches Some(j) ==> i <= j < cs.len() && cs[j].id == id,
        find_circuit(cs, id, i) is None ==> forall|j: int| i <= j < cs.len() ==> cs[j].id != id,
        forall|j: int| i <= j < cs.len() && cs[j].id == id ==> find_circuit(cs, id, i) is Some,
    decreases cs.len() - i,
{
    if i < cs.len() {
        lemma_find_circuit(cs, id, i + 1);
    }
}

/// The position of the first node of peer `p` in `ns`, from `i` on.
pub open spec fn find_node(ns: Seq<OnionNode>, p: PeerId, i: int) -> Option<int>
    decreases ns.len() - i,
{
    if i < 0 || i >= ns.len() {
        None
    } else if ns[i].peer_id == p {
        Some(i)
    } else {
        find_node(ns, p, i + 1)
    }
}

proof fn lemma_find_node(ns: Seq<OnionNode>, p: PeerId, i: int)
    requires
        0 <= i,
    ensures
        find_node(ns, p, i) matches Some(j) ==> i <= j < ns.len() && ns[j].peer_id == p,
        find_node(ns, p, i) is None ==> forall|j: int| i <= j < ns.len() ==> ns[j].peer_id != p,
        forall|j: int| i <= j < ns.len() && ns[j].peer_id == p ==> find_node(ns, p, i) is Some,
    decreases ns.len() - i,
{
    if i < ns.len() {
        lemma_find_node(ns, p, i + 1);
    }
}

/// Whether a circuit passes through the node of peer `p`.
pub open spec fn uses_node(c: OnionCircuit, p: PeerId) -> bool {
    exists|k: int| 0 <= k < c.nodes@.len() && (#[trigger] c.nodes@[k]).peer_id == p
}

/// Onion router managing circuits and nodes.
pub struct OnionRouter {
    config: OnionConfig,
    circuits: Vec<OnionCircuit>,
    nodes: Vec<OnionNode>,
    stats: OnionStats,
}

/// `after` is `before` once the circuits created more than the refresh
/// interval before `now` are torn down.
pub open spec fn maintained_at(before: OnionRouter, after: OnionRouter, now: i64) -> bool {
    forall|q: u128| #[trigger] after.circuit(q) == (if before.circuit(q) matches Some(c) && now - c.created_at
        > before.config_spec().refresh_interval {
        None::<OnionCircuit>
    } else {
        before.circuit(q)
    })
}

impl OnionRouter {
    pub closed spec fn config_spec(&self) -> OnionConfig {
        self.config
    }

    pub closed spec fn circuits_spec(&self) -> Seq<OnionCircuit> {
        self.circuits@
    }

    pub closed spec fn nodes_spec(&self) -> Seq<OnionNode> {
        self.nodes@
    }

    pub closed spec fn stats_spec(&self) -> OnionStats {
        self.stats
    }

    /// The circuit with id `id`, if any.
    pub open spec fn circuit(&self, id: u128) -> Option<OnionCircuit> {
        match find_circuit(self.circuits_spec(), id, 0) {
            Some(j) => Some(self.circuits_spec()[j]),
            None => None,
        }
    }

    /// The node of peer `p`, if registered.
    pub open spec fn node(&self, p: PeerId) -> Option<OnionNode> {
        match find_node(self.nodes_spec(), p, 0) {
            Some(j) => Some(self.nodes_spec()[j]),
            None => None,
        }
    }

    /// The router's invariant: circuits have distinct ids and a key of 32
    /// bytes per hop; nodes have distinct peers.
    pub open spec fn wf(&self) -> bool {
        &&& forall|i: int, j: int|
            0 <= i < j < self.circuits_spec().len() ==> (#[trigger] self.circuits_spec()[i]).id
                != (#[trigger] self.circuits_spec()[j]).id
        &&& forall|i: int| 0 <= i < self.circuits_spec().len() ==> (#[trigger] self.circuits_spec()[i]).wf()
        &&& forall|i: int, j: int|
            0 <= i < j < self.nodes_spec().len() ==> (#[trigger] self.nodes_spec()[i]).peer_id
                != (#[trigger] self.nodes_spec()[j]).peer_id
    }

    /// Every hop of a circuit of a well-formed router has a key of 32
    /// bytes, so each of its layers can be peeled.
    pub proof fn circuit_keys_nonempty(&self, id: u128)
        requires
            self.wf(),
        ensures
            self.circuit(id) matches Some(c) ==> keys_nonempty(c.keys()) && c.keys().len() == c.nodes@.len(),
    {
        lemma_find_circuit(self.circuits_spec(), id, 0);
        if let Some(c) = self.circuit(id) {
            assert(c.wf());
            assert forall|k: int| 0 <= k < c.keys().len() implies (#[trigger] c.keys()[k]).len() > 0 by {
                assert(c.keys()[k] == c.encryption_keys@[k]@);
            }
        }
    }

    /// A router with no nodes and no circuits.
    pub fn new(config: OnionConfig) -> (r: Self)
        ensures
            r.wf(),
            r.config_spec() == config,
            r.circuits_spec().len() == 0,
            r.nodes_spec().len() == 0,
            r.stats_spec() == OnionStats::default_spec(),
    {
        OnionRouter { config, circuits: Vec::new(), nodes: Vec::new(), stats: OnionStats::default() }
    }

    fn circuit_position(&self, id: u128) -> (r: Option<usize>)
        ensures
            match r {
                Some(k) => find_circuit(self.circuits_spec(), id, 0) == Some(k as int),
                None => find_circuit(self.circuits_spec(), id, 0) is None,
            },
    {
        let n = self.circuits.len();
        let mut i: usize = 0;
        while i < n
            invariant
                n == self.circuits@.len(),
                i <= n,
                find_circuit(self.circuits_spec(), id, 0) == find_circuit(self.circuits_spec(), id, i as int),
            decreases n - i,
        {
            if self.circuits[i].id == id {
                return Some(i);
            }
            i = i + 1;
        }
        None
    }

    fn node_position(&self, p: PeerId) -> (r: Option<usize>)
        ensures
            match r {
                Some(k) => find_node(self.nodes_spec(), p, 0) == Some(k as int),
                None => find_node(self.nodes_spec(), p, 0) is None,
            },
    {
        let n = self.nodes.len();
        let mut i: usize = 0;
        while i < n
            invariant
                n == self.nodes@.len(),
                i <= n,
                find_node(self.nodes_spec(), p, 0) == find_node(self.nodes_spec(), p, i as int),
            decreases n - i,
        {
            if self.nodes[i].peer_id == p {
                return Some(i);
            }
            i = i + 1;
        }
        None
    }

    /// Registers the node of `peer_id` with its public key, in place of an
    /// earlier registration of the same peer.
    pub fn register_node(&mut self, peer_id: PeerId, public_key: Vec<u8>) -> (r: Result<(), NetworkError>)
        requires
            old(self).wf(),
        ensures
            final(self).wf(),
            r is Ok,
            final(self).node(peer_id) matches Some(n) && n.peer_id == peer_id && n.public_key@ == public_key@
                && n.position == 0,
            forall|q: PeerId| q != peer_id ==> #[trigger] final(self).node(q) == old(self).node(q),
            final(self).nodes_spec().len() == old(self).nodes_spec().len() + (if old(self).node(peer_id) is Some {
                0int
            } else {
                1int
            }),
            final(self).circuits_spec() == old(self).circuits_spec(),
            final(self).stats_spec() == old(self).stats_spec(),
            final(self).config_spec() == old(self).config_spec(),
    {
        let ghost ns = self.nodes@;
        let node = OnionNode { peer_id, public_key, position: 0 };
        let ghost nv = node;
        proof {
            lemma_find_node(ns, peer_id, 0);
        }
        match self.node_position(peer_id) {
            Some(k) => {
                self.nodes.set(k, node);
                assert(self.nodes@ == ns.update(k as int, nv));
                proof {
                    assert forall|q: PeerId| #[trigger] find_node(ns.update(k as int, nv), q, 0) == find_node(ns, q, 0) by {
                        lemma_find_node_update(ns, k as int, nv, q, 0);
                    }
                    assert forall|q: PeerId| q != peer_id implies #[trigger] self.node(q) == old(self).node(q) by {
                        lemma_find_node(ns, q, 0);
                    }
                }
            },
            None => {
                self.nodes.push(node);
                assert(self.nodes@ == ns.push(nv));
                proof {
                    lemma_find_node_push(ns, nv, peer_id, 0);
                    assert(ns.push(nv)[ns.len() as int] == nv);
                    assert forall|q: PeerId| q != peer_id implies #[trigger] self.node(q) == old(self).node(q) by {
                        lemma_find_node_push(ns, nv, q, 0);
                        lemma_find_node(ns, q, 0);
                        if let Some(j) = find_node(ns, q, 0) {
                            assert(ns.push(nv)[j] == ns[j]);
                        }
                    }
                }
            },
        }
        Ok(())
    }

    /// Tears down the circuit `circuit_id`, if there is one, and counts it.
    pub fn tear_down_circuit(&mut self, circuit_id: u128) -> (r: Result<(), NetworkError>)
        requires
            old(self).wf(),
            old(self).stats_spec().circuits_torn_down < u64::MAX,
        ensures
            final(self).wf(),
            r is Ok,
            final(self).circuit(circuit_id) is None,
            forall|q: u128| q != circuit_id ==> #[trigger] final(self).circuit(q) == old(self).circuit(q),
            final(self).nodes_spec() == old(self).nodes_spec(),
            final(self).config_spec() == old(self).config_spec(),
            final(self).stats_spec() == (OnionStats {
                circuits_torn_down: if old(self).circuit(circuit_id) is Some {
                    (old(self).stats_spec().circuits_torn_down + 1) as u64
                } else {
                    old(self).stats_spec().circuits_torn_down
                },
                ..old(self).stats_spec()
            }),
            final(self).circuits_spec().len() == old(self).circuits_spec().len() - (if old(self).circuit(circuit_id) is Some {
                1int
            } else {
                0int
            }),
    {
        let ghost cs = self.circuits@;
        proof {
            lemma_find_circuit(cs, circuit_id, 0);
        }
        match self.circuit_position(circuit_id) {
            Some(k) => {
                let _gone = self.circuits.remove(k);
                assert(self.circuits@ == cs.remove(k as int));
                proof {
                    lemma_circuits_remove(cs, k as int);
                    let rs = cs.remove(k as int);
                    assert forall|i: int, j: int| 0 <= i < j < rs.len() implies (#[trigger] rs[i]).id != (#[trigger] rs[j]).id by {
                        let oi = if i < k { i } else { i + 1 };
                        let oj = if j < k { j } else { j + 1 };
                        assert(rs[i] == cs[oi]);
                        assert(rs[j] == cs[oj]);
                    }
                    assert forall|i: int| 0 <= i < rs.len() implies (#[trigger] rs[i]).wf() by {
                        let oi = if i < k { i } else { i + 1 };
                        assert(rs[i] == cs[oi]);
                    }
                }
                self.stats.circuits_torn_down = self.stats.circuits_torn_down + 1;
            },
            None => {},
        }
        assert(self.nodes_spec() == old(self).nodes_spec());
        Ok(())
    }

    /// Sends `data` through the ready circuit `circuit_id`: the data is
    /// wrapped in one layer per hop, the packet starts at the first hop,
    /// the circuit is marked used now, and the packet is counted.
    pub fn send_through_circuit(&mut self, circuit_id: u128, data: &[u8]) -> (r: Result<OnionPacket, NetworkError>)
        requires
            old(self).wf(),
            old(self).stats_spec().packets_sent < u64::MAX,
        ensures
            final(self).wf(),
            final(self).nodes_spec() == old(self).nodes_spec(),
            final(self).config_spec() == old(self).config_spec(),
            match old(self).circuit(circuit_id) {
                None => r matches Err(NetworkError::Privacy(PrivacyError::AnonymizationFailed(_)))
                    && final(self).circuits_spec() == old(self).circuits_spec() && final(self).stats_spec() == old(
                    self,
                ).stats_spec(),
                Some(c) => if c.state != CircuitState::Ready {
                    r matches Err(NetworkError::Privacy(PrivacyError::AnonymizationFailed(_)))
                        && final(self).circuits_spec() == old(self).circuits_spec() && final(self).stats_spec() == old(
                        self,
                    ).stats_spec()
                } else {
                    &&& r matches Ok(p) && p.circuit_id == circuit_id && p.current_hop == 0 && p.payload@ == onion_wrap(
                        data@,
                        c.keys(),
                    ) && p.next_hop == (if c.nodes@.len() > 0 {
                        Some(c.nodes@[0].peer_id)
                    } else {
                        None::<PeerId>
                    })
                    &&& final(self).circuit(circuit_id) matches Some(d) && d == (OnionCircuit {
                        last_used: d.last_used,
                        ..c
                    })
                    &&& forall|q: u128| q != circuit_id ==> #[trigger] final(self).circuit(q) == old(self).circuit(q)
                    &&& final(self).circuits_spec().len() == old(self).circuits_spec().len()
                    &&& final(self).stats_spec() == (OnionStats {
                        packets_sent: (old(self).stats_spec().packets_sent + 1) as u64,
                        ..old(self).stats_spec()
                    })
                },
            },
    {
        let ghost cs = self.circuits@;
        proof {
            lemma_find_circuit(cs, circuit_id, 0);
        }
        let k = match self.circuit_position(circuit_id) {
            Some(k) => k,
            None => {
                return Err(NetworkError::Privacy(PrivacyError::AnonymizationFailed(String::from_str("Circuit not found"))));
            },
        };
        if self.circuits[k].state != CircuitState::Ready {
            return Err(NetworkError::Privacy(PrivacyError::AnonymizationFailed(String::from_str("Circuit not ready"))));
        }
        assert(self.circuits@[k as int].wf());
        let payload = self.wrap(k, data);
        let next_hop = if self.circuits[k].nodes.len() > 0 {
            Some(self.circuits[k].nodes[0].peer_id)
        } else {
            None
        };
        let packet = OnionPacket { id: fresh_uuid_value(), circuit_id, current_hop: 0, payload, next_hop };
        self.stats.packets_sent = self.stats.packets_sent + 1;
        let now = now_millis();
        let mut c = self.circuits.remove(k);
        c.last_used = now;
        self.circuits.insert(k, c);
        proof {
            let cv = self.circuits@[k as int];
            assert(cv == (OnionCircuit { last_used: now, ..cs[k as int] }));
            assert(self.circuits@ =~= cs.update(k as int, cv));
            lemma_circuits_update(cs, k as int, cv);
            let us = cs.update(k as int, cv);
            assert forall|i: int, j: int| 0 <= i < j < us.len() implies (#[trigger] us[i]).id != (#[trigger] us[j]).id by {
                assert(us[i].id == cs[i].id);
                assert(us[j].id == cs[j].id);
            }
            assert forall|i: int| 0 <= i < us.len() implies (#[trigger] us[i]).wf() by {
                if i != k {
                    assert(us[i] == cs[i]);
                } else {
                    assert(cs[k as int].wf());
                }
            }
            assert forall|q: u128| q != circuit_id implies #[trigger] self.circuit(q) == old(self).circuit(q) by {
                lemma_find_circuit(cs, q, 0);
                if let Some(j) = find_circuit(cs, q, 0) {
                    assert(j != k);
                    assert(us[j] == cs[j]);
                }
            }
        }
        assert(self.nodes_spec() == old(self).nodes_spec());
        Ok(packet)
    }

    /// The message `data` wrapped for the hops of the circuit at position
    /// `k`.
    fn wrap(&self, k: usize, data: &[u8]) -> (r: Vec<u8>)
        requires
            k < self.circuits_spec().len(),
            self.circuits_spec()[k as int].wf(),
        ensures
            r@ == onion_wrap(data@, self.circuits_spec()[k as int].keys()),
    {
        let keys = &self.circuits[k].encryption_keys;
        let ghost kv = self.circuits_spec()[k as int].keys();
        let mut payload: Vec<u8> = Vec::new();
        let n = data.len();
        let mut i: usize = 0;
        while i < n
            invariant
                n == data@.len(),
                i <= n,
                payload@ == data@.subrange(0, i as int),
            decreases n - i,
        {
            payload.push(data[i]);
            i = i + 1;
            assert(payload@ =~= data@.subrange(0, i as int));
        }
        assert(payload@ =~= data@);
        assert(kv.skip(kv.len() as int) =~= Seq::<Seq<u8>>::empty());
        let mut j = keys.len();
        while j > 0
            invariant
                kv == keys@.map_values(|x: Vec<u8>| x@),
                j <= keys@.len(),
                forall|x: int| 0 <= x < keys@.len() ==> (#[trigger] keys@[x])@.len() == 32,
                payload@ == onion_wrap(data@, kv.skip(j as int)),
            decreases j,
        {
            j = j - 1;
            assert(kv.skip(j as int).drop_first() =~= kv.skip(j + 1));
            assert(kv.skip(j as int)[0] == keys@[j as int]@);
            payload = xor_with(payload.as_slice(), keys[j].as_slice());
        }
        assert(kv.skip(0) =~= kv);
        payload
    }

    /// A hop's processing of `packet`: its layer is peeled with the key of
    /// its position in the circuit; past the last hop the payload is final,
    /// otherwise the packet goes on to the next hop.
    pub fn process_packet(&mut self, packet: OnionPacket) -> (r: Result<ProcessedPacket, NetworkError>)
        requires
            old(self).wf(),
        ensures
            *final(self) == *old(self),
            match old(self).circuit(packet.circuit_id) {
                None => r matches Err(NetworkError::Privacy(PrivacyError::AnonymizationFailed(_))),
                Some(c) => if packet.current_hop >= c.nodes@.len() {
                    r matches Err(NetworkError::Privacy(PrivacyError::AnonymizationFailed(_)))
                } else {
                    let peeled = xor_layer(packet.payload@, c.keys()[packet.current_hop as int]);
                    if packet.current_hop + 1 >= c.nodes@.len() {
                        r matches Ok(ProcessedPacket::Final(v)) && v@ == peeled
                    } else {
                        r matches Ok(ProcessedPacket::Forward(p)) && p.id == packet.id && p.circuit_id
                            == packet.circuit_id && p.current_hop == packet.current_hop + 1 && p.payload@ == peeled
                            && p.next_hop == Some(c.nodes@[packet.current_hop + 1].peer_id)
                    }
                },
            },
    {
        proof {
            lemma_find_circuit(self.circuits@, packet.circuit_id, 0);
        }
        let k = match self.circuit_position(packet.circuit_id) {
            Some(k) => k,
            None => {
                return Err(
                    NetworkError::Privacy(PrivacyError::AnonymizationFailed(String::from_str("Circuit not found for packet"))),
                );
            },
        };
        let nodes_len = self.circuits[k].nodes.len();
        if packet.current_hop >= nodes_len {
            return Err(
                NetworkError::Privacy(
                    PrivacyError::AnonymizationFailed(String::from_str("Packet hop count exceeded circuit length")),
                ),
            );
        }
        assert(self.circuits@[k as int].wf());
        let hop = packet.current_hop;
        assert(self.circuits@[k as int].keys()[hop as int] == self.circuits@[k as int].encryption_keys@[hop as int]@);
        let payload = xor_with(packet.payload.as_slice(), self.circuits[k].encryption_keys[hop].as_slice());
        let next = hop + 1;
        if next >= nodes_len {
            Ok(ProcessedPacket::Final(payload))
        } else {
            let next_hop = Some(self.circuits[k].nodes[next].peer_id);
            Ok(
                ProcessedPacket::Forward(
                    OnionPacket { id: packet.id, circuit_id: packet.circuit_id, current_hop: next, payload, next_hop },
                ),
            )
        }
    }

    /// Tears down each circuit whose id is in `ids`.
    fn tear_down_all(&mut self, ids: &Vec<u128>)
        requires
            old(self).wf(),
            old(self).stats_spec().circuits_torn_down + old(self).circuits_spec().len() < u64::MAX,
        ensures
            final(self).wf(),
            forall|q: u128| #[trigger] final(self).circuit(q) == (if ids@.contains(q) {
                None::<OnionCircuit>
            } else {
                old(self).circuit(q)
            }),
            final(self).stats_spec() == (OnionStats {
                circuits_torn_down: (old(self).stats_spec().circuits_torn_down + old(self).circuits_spec().len()
                    - final(self).circuits_spec().len()) as u64,
                ..old(self).stats_spec()
            }),
            final(self).circuits_spec().len() <= old(self).circuits_spec().len(),
            final(self).nodes_spec() == old(self).nodes_spec(),
            final(self).config_spec() == old(self).config_spec(),
    {
        let n = ids.len();
        let mut i: usize = 0;
        while i < n
            invariant
                n == ids@.len(),
                i <= n,
                self.wf(),
                forall|q: u128| #[trigger] self.circuit(q) == (if ids@.take(i as int).contains(q) {
                    None::<OnionCircuit>
                } else {
                    old(self).circuit(q)
                }),
                self.stats_spec() == (OnionStats {
                    circuits_torn_down: (old(self).stats_spec().circuits_torn_down + old(self).circuits_spec().len()
                        - self.circuits_spec().len()) as u64,
                    ..old(self).stats_spec()
                }),
                self.circuits_spec().len() <= old(self).circuits_spec().len(),
                old(self).stats_spec().circuits_torn_down + old(self).circuits_spec().len() < u64::MAX,
                self.nodes_spec() == old(self).nodes_spec(),
                self.config_spec() == old(self).config_spec(),
            decreases n - i,
        {
            let id = ids[i];
            self.tear_down_circuit(id);
            proof {
                assert forall|q: u128| #[trigger] self.circuit(q) == (if ids@.take(i + 1).contains(q) {
                    None::<OnionCircuit>
                } else {
                    old(self).circuit(q)
                }) by {
                    assert(ids@.take(i + 1) =~= ids@.take(i as int).push(id));
                    if q != id {
                        assert(ids@.take(i + 1).contains(q) == ids@.take(i as int).contains(q)) by {
                            if ids@.take(i + 1).contains(q) {
                                let w = choose|w: int| 0 <= w < i + 1 && #[trigger] ids@.take(i + 1)[w] == q;
                                assert(w < i);
                                assert(ids@.take(i as int)[w] == q);
                            }
                            if ids@.take(i as int).contains(q) {
                                let w = choose|w: int| 0 <= w < i && #[trigger] ids@.take(i as int)[w] == q;
                                assert(ids@.take(i + 1)[w] == q);
                            }
                        }
                    } else {
                        assert(ids@.take(i + 1)[i as int] == q);
                    }
                }
            }
            i = i + 1;
        }
        assert(ids@.take(n as int) =~= ids@);
    }

    /// The ids of the circuits `sel` selects.
    fn circuit_ids_where(&self, sel: Selection) -> (r: Vec<u128>)
        requires
            self.wf(),
        ensures
            forall|q: u128| #[trigger] r@.contains(q) <==> (self.circuit(q) matches Some(c) && selects(sel, c)),
    {
        let ghost cs = self.circuits@;
        let mut r: Vec<u128> = Vec::new();
        let n = self.circuits.len();
        let mut i: usize = 0;
        while i < n
            invariant
                cs == self.circuits@,
                n == cs.len(),
                i <= n,
                forall|q: u128| #[trigger] r@.contains(q) <==> exists|j: int| 0 <= j < i && #[trigger] cs[j].id == q && selects(sel, cs[j]),
            decreases n - i,
        {
            if circuit_selected(&self.circuits[i], sel) {
                let ghost before = r@;
                r.push(self.circuits[i].id);
                proof {
                    assert forall|q: u128| #[trigger] r@.contains(q) <==> exists|j: int| 0 <= j < i + 1 && #[trigger] cs[j].id == q && selects(sel, cs[j]) by {
                        if r@.contains(q) {
                            let w = choose|w: int| 0 <= w < r@.len() && #[trigger] r@[w] == q;
                            if w < before.len() {
                                assert(before[w] == q);
                                assert(before.contains(q));
                            }
                        }
                        if exists|j: int| 0 <= j < i + 1 && #[trigger] cs[j].id == q && selects(sel, cs[j]) {
                            let j = choose|j: int| 0 <= j < i + 1 && #[trigger] cs[j].id == q && selects(sel, cs[j]);
                            if j < i {
                                assert(before.contains(q));
                                let w = choose|w: int| 0 <= w < before.len() && #[trigger] before[w] == q;
                                assert(r@[w] == q);
                            } else {
                                assert(r@[before.len() as int] == q);
                            }
                        }
                    }
                }
            } else {
                proof {
                    assert forall|q: u128| #[trigger] r@.contains(q) <==> exists|j: int| 0 <= j < i + 1 && #[trigger] cs[j].id == q && selects(sel, cs[j]) by {
                        if exists|j: int| 0 <= j < i + 1 && #[trigger] cs[j].id == q && selects(sel, cs[j]) {
                            let j = choose|j: int| 0 <= j < i + 1 && #[trigger] cs[j].id == q && selects(sel, cs[j]);
                            assert(j != i);
                        }
                    }
                }
            }
            i = i + 1;
        }
        proof {
            assert forall|q: u128| #[trigger] r@.contains(q) <==> (self.circuit(q) matches Some(c) && selects(sel, c)) by {
                lemma_find_circuit(cs, q, 0);
                if exists|j: int| 0 <= j < n && #[trigger] cs[j].id == q && selects(sel, cs[j]) {
                    let j = choose|j: int| 0 <= j < n && #[trigger] cs[j].id == q && selects(sel, cs[j]);
                    let f = find_circuit(cs, q, 0)->0;
                    assert(f == j) by {
                        if f != j {
                            if f < j {
                                assert(cs[f].id != cs[j].id);
                            } else {
                                assert(cs[j].id != cs[f].id);
                            }
                        }
                    }
                }
            }
        }
        r
    }

    /// Removes the node of `peer_id` and tears down every circuit through
    /// it.
    pub fn unregister_node(&mut self, peer_id: PeerId) -> (r: Result<(), NetworkError>)
        requires
            old(self).wf(),
            old(self).stats_spec().circuits_torn_down + old(self).circuits_spec().len() < u64::MAX,
        ensures
            final(self).wf(),
            r is Ok,
            final(self).node(peer_id) is None,
            forall|q: PeerId| q != peer_id ==> #[trigger] final(self).node(q) == old(self).node(q),
            forall|q: u128| #[trigger] final(self).circuit(q) == (if old(self).circuit(q) matches Some(c) && uses_node(c, peer_id) {
                None::<OnionCircuit>
            } else {
                old(self).circuit(q)
            }),
            final(self).stats_spec() == (OnionStats {
                circuits_torn_down: (old(self).stats_spec().circuits_torn_down + old(self).circuits_spec().len()
                    - final(self).circuits_spec().len()) as u64,
                ..old(self).stats_spec()
            }),
            final(self).config_spec() == old(self).config_spec(),
    {
        let ghost ns = self.nodes@;
        match self.node_position(peer_id) {
            Some(k) => {
                proof {
                    lemma_find_node(ns, peer_id, 0);
                }
                let _gone = self.nodes.remove(k);
                proof {
                    lemma_nodes_remove(ns, k as int);
                    let rs = ns.remove(k as int);
                    assert(self.nodes@ == rs);
                    assert forall|i: int, j: int| 0 <= i < j < rs.len() implies (#[trigger] rs[i]).peer_id != (#[trigger] rs[j]).peer_id by {
                        let oi = if i < k { i } else { i + 1 };
                        let oj = if j < k { j } else { j + 1 };
                        assert(rs[i] == ns[oi]);
                        assert(rs[j] == ns[oj]);
                    }
                }
            },
            None => {
                proof {
                    lemma_find_node(ns, peer_id, 0);
                }
            },
        }
        let ids = self.circuit_ids_where(Selection::Through(peer_id));
        self.tear_down_all(&ids);
        Ok(())
    }

    /// Creates a circuit through `circuit_length` of the registered nodes,
    /// taken in a random order, each hop with a fresh random 32-byte key;
    /// the circuit is ready at once and is counted. Refused when the
    /// maximum number of circuits is reached or too few nodes are
    /// registered.
    pub fn create_circuit(&mut self) -> (r: Result<u128, NetworkError>)
        requires
            old(self).wf(),
            old(self).stats_spec().circuits_created < u64::MAX,
        ensures
            final(self).wf(),
            final(self).nodes_spec() == old(self).nodes_spec(),
            final(self).config_spec() == old(self).config_spec(),
            r is Err ==> final(self).circuits_spec() == old(self).circuits_spec() && final(self).stats_spec() == old(
                self,
            ).stats_spec() && r matches Err(NetworkError::Privacy(PrivacyError::AnonymizationFailed(_))),
            old(self).circuits_spec().len() >= old(self).config_spec().max_circuits ==> r is Err,
            old(self).nodes_spec().len() < old(self).config_spec().circuit_length ==> r is Err,
            old(self).circuits_spec().len() < old(self).config_spec().max_circuits && old(self).nodes_spec().len()
                >= old(self).config_spec().circuit_length ==> r is Ok,
            r matches Ok(id) ==> {
                &&& final(self).circuit(id) matches Some(c) && {
                    &&& c.id == id
                    &&& c.state == CircuitState::Ready
                    &&& c.wf()
                    &&& c.nodes@.len() == old(self).config_spec().circuit_length
                    &&& c.created_at == c.last_used
                    &&& forall|k: int| 0 <= k < c.nodes@.len() ==> (old(self).node((#[trigger] c.nodes@[k]).peer_id) matches Some(
                        n,
                    ) && c.nodes@[k].public_key@ == n.public_key@ && c.nodes@[k].position == k)
                    &&& forall|a: int, b: int|
                        0 <= a < b < c.nodes@.len() ==> (#[trigger] c.nodes@[a]).peer_id != (#[trigger] c.nodes@[b]).peer_id
                }
                &&& forall|q: u128| q != id ==> #[trigger] final(self).circuit(q) == old(self).circuit(q)
                &&& final(self).stats_spec() == (OnionStats {
                    circuits_created: (old(self).stats_spec().circuits_created + 1) as u64,
                    ..old(self).stats_spec()
                })
            },
    {
        if self.circuits.len() >= self.config.max_circuits {
            return Err(
                NetworkError::Privacy(PrivacyError::AnonymizationFailed(String::from_str("Maximum number of circuits reached"))),
            );
        }
        let available = self.nodes.len();
        let length = self.config.circuit_length;
        if available < length {
            let mut reason = String::from_str("Not enough nodes for circuit: ");
            append_decimal(&mut reason, available);
            reason.append(" < ");
            append_decimal(&mut reason, length);
            return Err(NetworkError::Privacy(PrivacyError::AnonymizationFailed(reason)));
        }
        let ghost ns = self.nodes@;
        let order = random_order(available);
        let mut selected: Vec<OnionNode> = Vec::new();
        let mut position: usize = 0;
        while position < length
            invariant
                ns == self.nodes@,
                ns.len() == available,
                length <= available,
                order@.len() == available,
                order@.no_duplicates(),
                forall|x: int| 0 <= x < available ==> (#[trigger] order@[x]) < available,
                position <= length,
                selected@.len() == position,
                forall|k: int| 0 <= k < position ==> (#[trigger] selected@[k]).peer_id == ns[order@[k] as int].peer_id
                    && selected@[k].public_key@ == ns[order@[k] as int].public_key@ && selected@[k].position == k,
            decreases length - position,
        {
            let n = &self.nodes[order[position]];
            selected.push(OnionNode { peer_id: n.peer_id, public_key: copy_key(&n.public_key), position });
            position = position + 1;
        }
        let mut encryption_keys: Vec<Vec<u8>> = Vec::new();
        let mut k: usize = 0;
        while k < length
            invariant
                k <= length,
                encryption_keys@.len() == k,
                forall|x: int| 0 <= x < k ==> (#[trigger] encryption_keys@[x])@.len() == 32,
            decreases length - k,
        {
            encryption_keys.push(random_bytes(32));
            k = k + 1;
        }
        let id = fresh_uuid_value();
        let now = now_millis();
        let circuit = OnionCircuit {
            id,
            nodes: selected,
            state: CircuitState::Ready,
            created_at: now,
            last_used: now,
            encryption_keys,
        };
        proof {
            assert forall|k: int| 0 <= k < circuit.nodes@.len() implies (old(self).node((#[trigger] circuit.nodes@[k]).peer_id) matches Some(
                n,
            ) && circuit.nodes@[k].public_key@ == n.public_key@ && circuit.nodes@[k].position == k) by {
                let j = order@[k] as int;
                lemma_find_node(ns, ns[j].peer_id, 0);
                let f = find_node(ns, ns[j].peer_id, 0)->0;
                assert(f == j) by {
                    if f != j {
                        if f < j {
                            assert(ns[f].peer_id != ns[j].peer_id);
                        } else {
                            assert(ns[j].peer_id != ns[f].peer_id);
                        }
                    }
                }
            }
            assert forall|a: int, b: int| 0 <= a < b < circuit.nodes@.len() implies (#[trigger] circuit.nodes@[a]).peer_id
                != (#[trigger] circuit.nodes@[b]).peer_id by {
                let ja = order@[a] as int;
                let jb = order@[b] as int;
                assert(ja != jb);
                if ja < jb {
                    assert(ns[ja].peer_id != ns[jb].peer_id);
                } else {
                    assert(ns[jb].peer_id != ns[ja].peer_id);
                }
            }
        }
        self.stats.circuits_created = self.stats.circuits_created + 1;
        self.insert_circuit(circuit);
        Ok(id)
    }

    /// Puts `circuit` in place of the circuit of its id, or adds it.
    fn insert_circuit(&mut self, circuit: OnionCircuit)
        requires
            old(self).wf(),
            circuit.wf(),
        ensures
            final(self).wf(),
            final(self).circuit(circuit.id) == Some(circuit),
            forall|q: u128| q != circuit.id ==> #[trigger] final(self).circuit(q) == old(self).circuit(q),
            final(self).nodes_spec() == old(self).nodes_spec(),
            final(self).config_spec() == old(self).config_spec(),
            final(self).stats_spec() == old(self).stats_spec(),
    {
        let ghost cs = self.circuits@;
        let ghost cv = circuit;
        proof {
            lemma_find_circuit(cs, cv.id, 0);
        }
        match self.circuit_position(circuit.id) {
            Some(k) => {
                self.circuits.set(k, circuit);
                assert(self.circuits@ == cs.update(k as int, cv));
                proof {
                    lemma_circuits_update(cs, k as int, cv);
                    let us = cs.update(k as int, cv);
                    assert forall|i: int, j: int| 0 <= i < j < us.len() implies (#[trigger] us[i]).id != (#[trigger] us[j]).id by {
                        assert(us[i].id == cs[i].id);
                        assert(us[j].id == cs[j].id);
                    }
                    assert forall|i: int| 0 <= i < us.len() implies (#[trigger] us[i]).wf() by {
                        if i != k {
                            assert(us[i] == cs[i]);
                        }
                    }
                    assert forall|q: u128| q != cv.id implies #[trigger] self.circuit(q) == old(self).circuit(q) by {
                        lemma_find_circuit(cs, q, 0);
                        if let Some(j) = find_circuit(cs, q, 0) {
                            assert(j != k);
                            assert(us[j] == cs[j]);
                        }
                    }
                }
            },
            None => {
                self.circuits.push(circuit);
                assert(self.circuits@ == cs.push(cv));
                proof {
                    let ps = cs.push(cv);
                    assert forall|i: int, j: int| 0 <= i < j < ps.len() implies (#[trigger] ps[i]).id != (#[trigger] ps[j]).id by {
                        if j < cs.len() {
                            assert(ps[i] == cs[i]);
                            assert(ps[j] == cs[j]);
                        } else {
                            assert(ps[i] == cs[i]);
                            assert(ps[j] == cv);
                        }
                    }
                    assert forall|i: int| 0 <= i < ps.len() implies (#[trigger] ps[i]).wf() by {
                        if i < cs.len() {
                            assert(ps[i] == cs[i]);
                        }
                    }
                    lemma_find_circuit_push(cs, cv, cv.id, 0);
                    assert(ps[cs.len() as int] == cv);
                    assert forall|q: u128| q != cv.id implies #[trigger] self.circuit(q) == old(self).circuit(q) by {
                        lemma_find_circuit_push(cs, cv, q, 0);
                        lemma_find_circuit(cs, q, 0);
                        if let Some(j) = find_circuit(cs, q, 0) {
                            assert(ps[j] == cs[j]);
                        }
                    }
                }
            },
        }
        assert(self.nodes_spec() == old(self).nodes_spec());
    }

    /// Tears down the circuits created more than the refresh interval
    /// before `now`; new circuits are made on demand.
    pub fn maintenance_at(&mut self, now: i64) -> (r: Result<(), NetworkError>)
        requires
            old(self).wf(),
            old(self).stats_spec().circuits_torn_down + old(self).circuits_spec().len() < u64::MAX,
        ensures
            final(self).wf(),
            r is Ok,
            maintained_at(*old(self), *final(self), now),
            final(self).stats_spec() == (OnionStats {
                circuits_torn_down: (old(self).stats_spec().circuits_torn_down + old(self).circuits_spec().len()
                    - final(self).circuits_spec().len()) as u64,
                ..old(self).stats_spec()
            }),
            final(self).nodes_spec() == old(self).nodes_spec(),
            final(self).config_spec() == old(self).config_spec(),
    {
        let ids = self.circuit_ids_where(Selection::Stale { now, refresh: self.config.refresh_interval });
        self.tear_down_all(&ids);
        Ok(())
    }

    /// Tears down the circuits older than the refresh interval, now (see
    /// `maintenance_at`).
    pub fn maintenance(&mut self) -> (r: Result<(), NetworkError>)
        requires
            old(self).wf(),
            old(self).stats_spec().circuits_torn_down + old(self).circuits_spec().len() < u64::MAX,
        ensures
            final(self).wf(),
            r is Ok,
            exists|now: i64| #[trigger] maintained_at(*old(self), *final(self), now),
            final(self).stats_spec() == (OnionStats {
                circuits_torn_down: (old(self).stats_spec().circuits_torn_down + old(self).circuits_spec().len()
                    - final(self).circuits_spec().len()) as u64,
                ..old(self).stats_spec()
            }),
            final(self).nodes_spec() == old(self).nodes_spec(),
            final(self).config_spec() == old(self).config_spec(),
    {
        let now = now_millis();
        let r = self.maintenance_at(now);
        assert(maintained_at(*old(self), *self, now));
        r
    }

    /// The ready circuit used least recently (the first of them on a tie),
    /// if any circuit is ready.
    pub fn select_best_circuit(&self) -> (r: Option<&OnionCircuit>)
        ensures
            match r {
                Some(c) => {
                    &&& self.circuits_spec().contains(*c)
                    &&& c.state == CircuitState::Ready
                    &&& forall|j: int|
                        0 <= j < self.circuits_spec().len() && (#[trigger] self.circuits_spec()[j]).state
                            == CircuitState::Ready ==> c.last_used <= self.circuits_spec()[j].last_used
                },
                None => forall|j: int|
                    0 <= j < self.circuits_spec().len() ==> (#[trigger] self.circuits_spec()[j]).state != CircuitState::Ready,
            },
    {
        let ghost cs = self.circuits@;
        let n = self.circuits.len();
        let mut best: Option<usize> = None;
        let mut i: usize = 0;
        while i < n
            invariant
                cs == self.circuits@,
                n == cs.len(),
                i <= n,
                match best {
                    Some(b) => b < i && cs[b as int].state == CircuitState::Ready && forall|j: int|
                        0 <= j < i && (#[trigger] cs[j]).state == CircuitState::Ready ==> cs[b as int].last_used
                            <= cs[j].last_used,
                    None => forall|j: int| 0 <= j < i ==> (#[trigger] cs[j]).state != CircuitState::Ready,
                },
            decreases n - i,
        {
            if self.circuits[i].state == CircuitState::Ready {
                match best {
                    Some(b) => {
                        if self.circuits[i].last_used < self.circuits[b].last_used {
                            best = Some(i);
                        }
                    },
                    None => {
                        best = Some(i);
                    },
                }
            }
            i = i + 1;
        }
        match best {
            Some(b) => {
                assert(cs[b as int] == cs[b as int]);
                assert(cs.contains(cs[b as int]));
                Some(&self.circuits[b])
            },
            None => None,
        }
    }

    /// Statistics.
    pub fn get_stats(&self) -> (r: &OnionStats)
        ensures
            *r == self.stats_spec(),
    {
        &self.stats
    }

    /// The number of circuits.
    pub fn active_circuit_count(&self) -> (r: usize)
        ensures
            r == self.circuits_spec().len(),
    {
        self.circuits.len()
    }

    /// The number of registered nodes.
    pub fn available_node_count(&self) -> (r: usize)
        ensures
            r == self.nodes_spec().len(),
    {
        self.nodes.len()
    }
}

proof fn lemma_find_node_update(ns: Seq<OnionNode>, k: int, n: OnionNode, p: PeerId, i: int)
    requires
        0 <= i,
        0 <= k < ns.len(),
        n.peer_id == ns[k].peer_id,
    ensures
        find_node(ns.update(k, n), p, i) == find_node(ns, p, i),
    decreases ns.len() - i,
{
    if i < ns.len() {
        lemma_find_node_update(ns, k, n, p, i + 1);
    }
}

proof fn lemma_find_node_push(ns: Seq<OnionNode>, n: OnionNode, p: PeerId, i: int)
    requires
        0 <= i <= ns.len(),
    ensures
        find_node(ns, p, i) is Some ==> find_node(ns.push(n), p, i) == find_node(ns, p, i),
        find_node(ns, p, i) is None ==> find_node(ns.push(n), p, i) == (if n.peer_id == p {
            Some(ns.len() as int)
        } else {
            None::<int>
        }),
    decreases ns.len() - i,
{
    if i < ns.len() {
        lemma_find_node_push(ns, n, p, i + 1);
        assert(ns.push(n)[i] == ns[i]);
    } else {
        assert(ns.push(n)[i] == n);
        assert(find_node(ns.push(n), p, i + 1) is None);
    }
}

/// Removing the circuit at `k` (of distinct ids) leaves every other id's
/// lookup as it was and its own id unfound.
proof fn lemma_circuits_remove(cs: Seq<OnionCircuit>, k: int)
    requires
        0 <= k < cs.len(),
        forall|i: int, j: int| 0 <= i < j < cs.len() ==> (#[trigger] cs[i]).id != (#[trigger] cs[j]).id,
    ensures
        find_circuit(cs.remove(k), cs[k].id, 0) is None,
        forall|q: u128| q != cs[k].id ==> match #[trigger] find_circuit(cs, q, 0) {
            Some(j) => find_circuit(cs.remove(k), q, 0) matches Some(j2) && cs.remove(k)[j2] == cs[j],
            None => find_circuit(cs.remove(k), q, 0) is None,
        },
{
    let rs = cs.remove(k);
    lemma_find_circuit(rs, cs[k].id, 0);
    assert forall|j: int| 0 <= j < rs.len() implies rs[j].id != cs[k].id by {
        if j < k {
            assert(rs[j] == cs[j]);
        } else {
            assert(rs[j] == cs[j + 1]);
        }
    }
    assert forall|q: u128| q != cs[k].id implies match #[trigger] find_circuit(cs, q, 0) {
        Some(j) => find_circuit(rs, q, 0) matches Some(j2) && rs[j2] == cs[j],
        None => find_circuit(rs, q, 0) is None,
    } by {
        lemma_find_circuit(cs, q, 0);
        lemma_find_circuit(rs, q, 0);
        match find_circuit(cs, q, 0) {
            Some(j) => {
                let j2 = if j < k { j } else { j - 1 };
                assert(rs[j2] == cs[j]);
                assert(find_circuit(rs, q, 0) is Some);
                let f = find_circuit(rs, q, 0)->0;
                let fo = if f < k { f } else { f + 1 };
                assert(rs[f] == cs[fo]);
                assert(fo == j);
            },
            None => {
                assert forall|j: int| 0 <= j < rs.len() implies rs[j].id != q by {
                    if j < k {
                        assert(rs[j] == cs[j]);
                    } else {
                        assert(rs[j] == cs[j + 1]);
                    }
                }
            },
        }
    }
}

/// Replacing the circuit at `k` by one of the same id leaves every lookup
/// where it was.
proof fn lemma_circuits_update(cs: Seq<OnionCircuit>, k: int, c: OnionCircuit)
    requires
        0 <= k < cs.len(),
        c.id == cs[k].id,
    ensures
        forall|q: u128| #[trigger] find_circuit(cs.update(k, c), q, 0) == find_circuit(cs, q, 0),
{
    assert forall|q: u128| #[trigger] find_circuit(cs.update(k, c), q, 0) == find_circuit(cs, q, 0) by {
        lemma_find_circuit_update(cs, k, c, q, 0);
    }
}

proof fn lemma_find_circuit_update(cs: Seq<OnionCircuit>, k: int, c: OnionCircuit, id: u128, i: int)
    requires
        0 <= i,
        0 <= k < cs.len(),
        c.id == cs[k].id,
    ensures
        find_circuit(cs.update(k, c), id, i) == find_circuit(cs, id, i),
    decreases cs.len() - i,
{
    if i < cs.len() {
        lemma_find_circuit_update(cs, k, c, id, i + 1);
    }
}

/// Which circuits a teardown takes.
#[derive(Clone, Copy)]
enum Selection {
    /// The circuits through a peer's node
    Through(PeerId),
    /// The circuits created more than `refresh` milliseconds before `now`
    Stale { now: i64, refresh: u64 },
}

/// Whether `sel` takes the circuit `c`.
spec fn selects(sel: Selection, c: OnionCircuit) -> bool {
    match sel {
        Selection::Through(p) => uses_node(c, p),
        Selection::Stale { now, refresh } => now - c.created_at > refresh,
    }
}

fn circuit_selected(c: &OnionCircuit, sel: Selection) -> (r: bool)
    ensures
        r == selects(sel, *c),
{
    match sel {
        Selection::Through(p) => circuit_uses(c, p),
        Selection::Stale { now, refresh } => now as i128 - c.created_at as i128 > refresh as i128,
    }
}

/// Whether `c` passes through the node of `p`.
fn circuit_uses(c: &OnionCircuit, p: PeerId) -> (r: bool)
    ensures
        r == uses_node(*c, p),
{
    let n = c.nodes.len();
    let mut i: usize = 0;
    while i < n
        invariant
            n == c.nodes@.len(),
            i <= n,
            forall|k: int| 0 <= k < i ==> (#[trigger] c.nodes@[k]).peer_id != p,
        decreases n - i,
    {
        if c.nodes[i].peer_id == p {
            return true;
        }
        i = i + 1;
    }
    false
}

/// A copy of a key.
fn copy_key(v: &Vec<u8>) -> (r: Vec<u8>)
    ensures
        r@ == v@,
{
    let mut r: Vec<u8> = Vec::new();
    let n = v.len();
    let mut i: usize = 0;
    while i < n
        invariant
            n == v@.len(),
            i <= n,
            r@ == v@.subrange(0, i as int),
        decreases n - i,
    {
        r.push(v[i]);
        i = i + 1;
        assert(r@ =~= v@.subrange(0, i as int));
    }
    assert(v@.subrange(0, n as int) =~= v@);
    r
}

/// The positions `0..n` in a random order.
fn random_order(n: usize) -> (r: Vec<usize>)
    ensures
        r@.len() == n,
        r@.no_duplicates(),
        forall|x: int| 0 <= x < n ==> (#[trigger] r@[x]) < n,
{
    let mut v: Vec<usize> = Vec::new();
    let mut i: usize = 0;
    while i < n
        invariant
            i <= n,
            v@.len() == i,
            forall|x: int| 0 <= x < i ==> (#[trigger] v@[x]) == x,
        decreases n - i,
    {
        v.push(i);
        i = i + 1;
    }
    let ghost before = v@;
    assert(before.no_duplicates());
    shuffle(&mut v);
    proof {
        broadcast use vstd::seq_lib::group_to_multiset_ensures;
        before.lemma_multiset_has_no_duplicates();
        v@.lemma_multiset_has_no_duplicates_conv();
        assert forall|x: int| 0 <= x < v@.len() implies (#[trigger] v@[x]) < n by {
            assert(v@.contains(v@[x]));
            assert(v@.to_multiset().count(v@[x]) > 0);
            assert(before.to_multiset().count(v@[x]) > 0);
            assert(before.contains(v@[x]));
        }
        assert(v@.len() == v@.to_multiset().len());
        assert(before.len() == before.to_multiset().len());
    }
    v
}

proof fn lemma_find_circuit_push(cs: Seq<OnionCircuit>, c: OnionCircuit, id: u128, i: int)
    requires
        0 <= i <= cs.len(),
    ensures
        find_circuit(cs, id, i) is Some ==> find_circuit(cs.push(c), id, i) == find_circuit(cs, id, i),
        find_circuit(cs, id, i) is None ==> find_circuit(cs.push(c), id, i) == (if c.id == id {
            Some(cs.len() as int)
        } else {
            None::<int>
        }),
    decreases cs.len() - i,
{
    if i < cs.len() {
        lemma_find_circuit_push(cs, c, id, i + 1);
        assert(cs.push(c)[i] == cs[i]);
    } else {
        assert(cs.push(c)[i] == c);
        assert(find_circuit(cs.push(c), id, i + 1) is None);
    }
}

/// Removing the node at `k` (of distinct peers) leaves every other peer's
/// lookup as it was and its own peer unfound.
proof fn lemma_nodes_remove(ns: Seq<OnionNode>, k: int)
    requires
        0 <= k < ns.len(),
        forall|i: int, j: int| 0 <= i < j < ns.len() ==> (#[trigger] ns[i]).peer_id != (#[trigger] ns[j]).peer_id,
    ensures
        find_node(ns.remove(k), ns[k].peer_id, 0) is None,
        forall|q: PeerId| q != ns[k].peer_id ==> match #[trigger] find_node(ns, q, 0) {
            Some(j) => find_node(ns.remove(k), q, 0) matches Some(j2) && ns.remove(k)[j2] == ns[j],
            None => find_node(ns.remove(k), q, 0) is None,
        },
{
    let rs = ns.remove(k);
    lemma_find_node(rs, ns[k].peer_id, 0);
    assert forall|j: int| 0 <= j < rs.len() implies rs[j].peer_id != ns[k].peer_id by {
        if j < k {
            assert(rs[j] == ns[j]);
        } else {
            assert(rs[j] == ns[j + 1]);
        }
    }
    assert forall|q: PeerId| q != ns[k].peer_id implies match #[trigger] find_node(ns, q, 0) {
        Some(j) => find_node(rs, q, 0) matches Some(j2) && rs[j2] == ns[j],
        None => find_node(rs, q, 0) is None,
    } by {
        lemma_find_node(ns, q, 0);
        lemma_find_node(rs, q, 0);
        match find_node(ns, q, 0) {
            Some(j) => {
                let j2 = if j < k { j } else { j - 1 };
                assert(rs[j2] == ns[j]);
                assert(find_node(rs, q, 0) is Some);
                let f = find_node(rs, q, 0)->0;
                let fo = if f < k { f } else { f + 1 };
                assert(rs[f] == ns[fo]);
                assert(fo == j);
            },
            None => {
                assert forall|j: int| 0 <= j < rs.len() implies rs[j].peer_id != q by {
                    if j < k {
                        assert(rs[j] == ns[j]);
                    } else {
                        assert(rs[j] == ns[j + 1]);
                    }
                }
            },
        }
    }
}

} // verus!
