//! Leader election strategies: round robin, hash based and weighted.

use vstd::prelude::*;
use vstd::bytes::{spec_u64_to_le_bytes, u64_to_le_bytes};
use vstd::utf8::encode_utf8;
use vstd::std_specs::hash::DefaultHasherAdditionalSpecFns;
use std::collections::hash_map::DefaultHasher;
use std::hash::Hasher;
use crate::consensus::types::{NodeId, ViewNumber};

verus! {

/// Leader election strategy.
pub trait LeaderElection {
    /// Whether a leader can be elected for `view` among `validators`.
    spec fn can_elect(&self, view: u64, validators: Seq<NodeId>) -> bool;

    /// The leader elected for `view` among `validators`.
    spec fn elected(&self, view: u64, validators: Seq<NodeId>) -> NodeId;

    /// Every elected leader is one of the validators.
    proof fn lemma_elected_is_validator(&self, view: u64, validators: Seq<NodeId>)
        requires
            self.can_elect(view, validators),
        ensures
            validators.contains(self.elected(view, validators)),
    ;

    /// The leader for `view`.
    fn get_leader(&self, view: ViewNumber, validators: &[NodeId]) -> (r: NodeId)
        requires
            self.can_elect(view.0, validators@),
        ensures
            r == self.elected(view.0, validators@),
    ;

    /// Whether `node` is the leader for `view`.
    fn is_leader(&self, node: &NodeId, view: ViewNumber, validators: &[NodeId]) -> (r: bool)
        requires
            self.can_elect(view.0, validators@),
        ensures
            r == (self.elected(view.0, validators@) == *node),
    ;
}

/// Round-robin leader election: view `v` goes to validator `(v + seed) mod n`.
#[derive(Debug, Clone)]
pub struct RoundRobinLeaderElection {
    /// Offset added to the view before rotation.
    seed: u64,
}

impl RoundRobinLeaderElection {
    pub closed spec fn seed_value(&self) -> u64 {
        self.seed
    }

    pub fn new() -> (r: Self)
        ensures
            r.seed_value() == 0,
    {
        RoundRobinLeaderElection { seed: 0 }
    }

    pub fn with_seed(seed: u64) -> (r: Self)
        ensures
            r.seed_value() == seed,
    {
        RoundRobinLeaderElection { seed }
    }

    /// The validator position that view `view` goes to.
    pub open spec fn position(&self, view: u64, n: nat) -> int {
        (((view + self.seed_value()) as u64) as usize) as int % (n as int)
    }
}

impl LeaderElection for RoundRobinLeaderElection {
    open spec fn can_elect(&self, view: u64, validators: Seq<NodeId>) -> bool {
        validators.len() > 0 && view + self.seed_value() <= u64::MAX
    }

    open spec fn elected(&self, view: u64, validators: Seq<NodeId>) -> NodeId {
        validators[self.position(view, validators.len())]
    }

    proof fn lemma_elected_is_validator(&self, view: u64, validators: Seq<NodeId>) {
        let i = self.position(view, validators.len());
        assert(validators[i] == self.elected(view, validators));
    }

    fn get_leader(&self, view: ViewNumber, validators: &[NodeId]) -> (r: NodeId) {
        let index = (view.as_u64() + self.seed) as usize % validators.len();
        validators[index]
    }

    fn is_leader(&self, node: &NodeId, view: ViewNumber, validators: &[NodeId]) -> (r: bool) {
        let leader = self.get_leader(view, validators);
        leader == *node
    }
}

/// Round-robin election visits the validators in order: the view after `v`
/// goes to the next validator (cyclically), and `n` views later the same
/// validator leads again.
pub proof fn round_robin_rotates(e: RoundRobinLeaderElection, view: u64, validators: Seq<NodeId>)
    requires
        validators.len() > 0,
        view + e.seed_value() + validators.len() <= usize::MAX,
        usize::MAX <= u64::MAX,
    ensures
        e.elected((view + validators.len()) as u64, validators) == e.elected(view, validators),
        e.position((view + 1) as u64, validators.len()) == (e.position(view, validators.len()) + 1)
            % (validators.len() as int),
{
    let n = validators.len() as int;
    let a = view + e.seed_value();
    assert(((a as u64) as usize) as int == a);
    assert((((view + n) as u64 + e.seed_value()) as u64 as usize) as int == a + n);
    assert((((view + 1) as u64 + e.seed_value()) as u64 as usize) as int == a + 1);
    assert((a + n) % n == a % n) by {
        vstd::arithmetic::div_mod::lemma_mod_add_multiples_vanish(a, n);
    }
    assert((a + 1) % n == (a % n + 1) % n) by {
        vstd::arithmetic::div_mod::lemma_add_mod_noop(a, 1, n);
        if n > 1 {
            vstd::arithmetic::div_mod::lemma_small_mod(1, n as nat);
        }
    }
}

/// The bytes a `DefaultHasher` is fed for a network id and a view: the id's
/// UTF-8 bytes, the string terminator 0xff, then the view's 8 bytes.
pub open spec fn view_hash_input(network_id: Seq<char>, view: u64) -> Seq<Seq<u8>> {
    seq![encode_utf8(network_id), seq![0xffu8], spec_u64_to_le_bytes(view)]
}

/// Hash-based leader election: the view, hashed together with the network
/// id, picks the validator.
#[derive(Debug, Clone)]
pub struct HashBasedLeaderElection {
    /// Network identifier for consistent hashing.
    network_id: String,
}

impl HashBasedLeaderElection {
    pub closed spec fn network(&self) -> Seq<char> {
        self.network_id@
    }

    pub fn new(network_id: String) -> (r: Self)
        ensures
            r.network() == network_id@,
    {
        HashBasedLeaderElection { network_id }
    }

    /// The hash of `view` under this network id.
    pub open spec fn view_hash(&self, view: u64) -> u64 {
        DefaultHasher::spec_finish(view_hash_input(self.network(), view))
    }

    fn hash_view(&self, view: u64) -> (r: u64)
        ensures
            r == self.view_hash(view),
    {
        let mut hasher = DefaultHasher::new();
        hasher.write(self.network_id.as_str().as_bytes());
        let terminator: [u8; 1] = [0xffu8];
        assert(terminator@ =~= seq![0xffu8]);
        hasher.write(terminator.as_slice());
        let view_bytes = u64_to_le_bytes(view);
        hasher.write(view_bytes.as_slice());
        assert(hasher@ =~= view_hash_input(self.network_id@, view));
        hasher.finish()
    }
}

impl LeaderElection for HashBasedLeaderElection {
    open spec fn can_elect(&self, view: u64, validators: Seq<NodeId>) -> bool {
        validators.len() > 0
    }

    open spec fn elected(&self, view: u64, validators: Seq<NodeId>) -> NodeId {
        validators[(self.view_hash(view) as usize) as int % (validators.len() as int)]
    }

    proof fn lemma_elected_is_validator(&self, view: u64, validators: Seq<NodeId>) {
        let i = (self.view_hash(view) as usize) as int % (validators.len() as int);
        assert(validators[i] == self.elected(view, validators));
    }

    fn get_leader(&self, view: ViewNumber, validators: &[NodeId]) -> (r: NodeId) {
        let hash = self.hash_view(view.as_u64());
        let index = hash as usize % validators.len();
        validators[index]
    }

    fn is_leader(&self, node: &NodeId, view: ViewNumber, validators: &[NodeId]) -> (r: bool) {
        let leader = self.get_leader(view, validators);
        leader == *node
    }
}

/// The weight recorded for `node`, if any.
pub open spec fn weight_of(weights: Seq<(NodeId, u64)>, node: NodeId) -> Option<u64>
    decreases weights.len(),
{
    if weights.len() == 0 {
        None
    } else if weights[0].0 == node {
        Some(weights[0].1)
    } else {
        weight_of(weights.drop_first(), node)
    }
}

/// The sum of all recorded weights.
pub open spec fn total_of(weights: Seq<(NodeId, u64)>) -> int
    decreases weights.len(),
{
    if weights.len() == 0 {
        0
    } else {
        total_of(weights.drop_last()) + weights.last().1
    }
}

/// The summed weight of the first `i` validators (validators without a
/// weight count for nothing).
pub open spec fn prefix_weight(validators: Seq<NodeId>, weights: Seq<(NodeId, u64)>, i: int) -> int
    decreases i,
{
    if i <= 0 {
        0
    } else {
        prefix_weight(validators, weights, i - 1) + match weight_of(weights, validators[i - 1]) {
            Some(w) => w as int,
            None => 0,
        }
    }
}

/// The first position, from `i` on, of a weighted validator at which the
/// running weight passes `target`; position 0 when there is none.
pub open spec fn first_past(validators: Seq<NodeId>, weights: Seq<(NodeId, u64)>, target: int, i: int) -> int
    decreases validators.len() - i,
{
    if i >= validators.len() || i < 0 {
        0
    } else if weight_of(weights, validators[i]) is Some && prefix_weight(validators, weights, i + 1)
        > target {
        i
    } else {
        first_past(validators, weights, target, i + 1)
    }
}

/// Whether no node has two recorded weights.
pub open spec fn distinct_nodes(weights: Seq<(NodeId, u64)>) -> bool {
    forall|i: int, j: int| 0 <= i < j < weights.len() ==> weights[i].0 != weights[j].0
}

/// Weighted leader election, by stake or reputation.
#[derive(Debug, Clone)]
pub struct WeightedLeaderElection {
    /// Weight of each validator.
    weights: Vec<(NodeId, u64)>,
    /// Total weight.
    total_weight: u64,
}

impl WeightedLeaderElection {
    pub closed spec fn weight_list(&self) -> Seq<(NodeId, u64)> {
        self.weights@
    }

    pub closed spec fn total(&self) -> u64 {
        self.total_weight
    }

    pub open spec fn wf(&self) -> bool {
        &&& distinct_nodes(self.weight_list())
        &&& self.total() == total_of(self.weight_list())
    }

    fn sum_weights(weights: &Vec<(NodeId, u64)>) -> (r: u64)
        requires
            total_of(weights@) <= u64::MAX,
        ensures
            r == total_of(weights@),
    {
        let n = weights.len();
        let mut sum: u64 = 0;
        let mut i: usize = 0;
        while i < n
            invariant
                n == weights@.len(),
                i <= n,
                total_of(weights@) <= u64::MAX,
                sum == total_of(weights@.subrange(0, i as int)),
            decreases n - i,
        {
            proof {
                lemma_total_prefix_bounded(weights@, i as int + 1);
                assert(weights@.subrange(0, i + 1).drop_last() =~= weights@.subrange(0, i as int));
            }
            sum = sum + weights[i].1;
            i = i + 1;
        }
        assert(weights@.subrange(0, n as int) =~= weights@);
        sum
    }

    /// An election over the given weights (one entry per node).
    pub fn new(weights: Vec<(NodeId, u64)>) -> (r: Self)
        requires
            distinct_nodes(weights@),
            total_of(weights@) <= u64::MAX,
        ensures
            r.wf(),
            r.weight_list() == weights@,
            r.total() == total_of(weights@),
    {
        let total_weight = Self::sum_weights(&weights);
        WeightedLeaderElection { weights, total_weight }
    }

    /// Replaces the weights (one entry per node).
    pub fn update_weights(&mut self, weights: Vec<(NodeId, u64)>)
        requires
            distinct_nodes(weights@),
            total_of(weights@) <= u64::MAX,
        ensures
            final(self).wf(),
            final(self).weight_list() == weights@,
            final(self).total() == total_of(weights@),
    {
        self.total_weight = Self::sum_weights(&weights);
        self.weights = weights;
    }

    fn lookup(&self, node: NodeId) -> (r: Option<u64>)
        ensures
            r == weight_of(self.weights@, node),
    {
        let n = self.weights.len();
        let mut i: usize = 0;
        assert(self.weights@.subrange(0, n as int) =~= self.weights@);
        while i < n
            invariant
                n == self.weights@.len(),
                i <= n,
                weight_of(self.weights@, node) == weight_of(self.weights@.subrange(i as int, n as int), node),
            decreases n - i,
        {
            proof {
                let sub = self.weights@.subrange(i as int, n as int);
                assert(sub.drop_first() =~= self.weights@.subrange(i + 1, n as int));
            }
            if self.weights[i].0 == node {
                return Some(self.weights[i].1);
            }
            i = i + 1;
        }
        None
    }

    /// The point the view selects on the weight line.
    pub open spec fn target(&self, view: u64) -> int {
        (view * 7919) % (self.total() as int)
    }
}

impl LeaderElection for WeightedLeaderElection {
    open spec fn can_elect(&self, view: u64, validators: Seq<NodeId>) -> bool {
        &&& self.wf()
        &&& validators.len() > 0
        &&& self.total() > 0
        &&& view * 7919 <= u64::MAX
    }

    open spec fn elected(&self, view: u64, validators: Seq<NodeId>) -> NodeId {
        validators[first_past(validators, self.weight_list(), self.target(view), 0)]
    }

    proof fn lemma_elected_is_validator(&self, view: u64, validators: Seq<NodeId>) {
        lemma_first_past_in_range(validators, self.weight_list(), self.target(view), 0);
        let i = first_past(validators, self.weight_list(), self.target(view), 0);
        assert(validators[i] == self.elected(view, validators));
    }

    fn get_leader(&self, view: ViewNumber, validators: &[NodeId]) -> (r: NodeId) {
        let target = (view.as_u64() * 7919) % self.total_weight;
        let mut cumulative: u64 = 0;
        let n = validators.len();
        let mut i: usize = 0;
        while i < n
            invariant
                n == validators@.len(),
                i <= n,
                cumulative == prefix_weight(validators@, self.weights@, i as int),
                cumulative <= target,
                target == self.target(view.0),
                first_past(validators@, self.weights@, target as int, 0) == first_past(
                    validators@,
                    self.weights@,
                    target as int,
                    i as int,
                ),
            decreases n - i,
        {
            let v = validators[i];
            match self.lookup(v) {
                Some(weight) => {
                    if weight > target - cumulative {
                        return v;
                    }
                    cumulative = cumulative + weight;
                },
                None => {},
            }
            i = i + 1;
        }
        validators[0]
    }

    fn is_leader(&self, node: &NodeId, view: ViewNumber, validators: &[NodeId]) -> (r: bool) {
        let leader = self.get_leader(view, validators);
        leader == *node
    }
}

proof fn lemma_total_prefix_bounded(weights: Seq<(NodeId, u64)>, i: int)
    requires
        0 <= i <= weights.len(),
    ensures
        total_of(weights.subrange(0, i)) <= total_of(weights),
        total_of(weights.subrange(0, i)) >= 0,
    decreases weights.len() - i,
{
    if i < weights.len() {
        lemma_total_prefix_bounded(weights, i + 1);
        assert(weights.subrange(0, i + 1).drop_last() =~= weights.subrange(0, i));
        lemma_total_nonneg(weights.subrange(0, i));
    } else {
        assert(weights.subrange(0, i) =~= weights);
        lemma_total_nonneg(weights);
    }
}

proof fn lemma_total_nonneg(weights: Seq<(NodeId, u64)>)
    ensures
        total_of(weights) >= 0,
    decreases weights.len(),
{
    if weights.len() > 0 {
        lemma_total_nonneg(weights.drop_last());
    }
}

proof fn lemma_first_past_in_range(validators: Seq<NodeId>, weights: Seq<(NodeId, u64)>, target: int, i: int)
    requires
        validators.len() > 0,
    ensures
        0 <= first_past(validators, weights, target, i) < validators.len(),
    decreases validators.len() - i,
{
    if 0 <= i < validators.len() {
        lemma_first_past_in_range(validators, weights, target, i + 1);
    }
}

} // verus!
