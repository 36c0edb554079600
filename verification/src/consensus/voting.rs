//! Vote collection into quorum certificates, and vote/certificate validation.

use vstd::prelude::*;
use crate::consensus::types::{NodeId, ViewNumber, Vote, VoteType, VoteView, QuorumCertificate, QcView, votes_view, vote_key, copy_votes};
use crate::consensus::error::ConsensusError;
use crate::consensus::config::contains_node;
use crate::platform::now_millis;

verus! {

/// What a collection of votes is about: view, vote type and block.
pub type VoteKey = (u64, VoteType, u128);

/// Votes gathered for one (view, vote type, block).
#[derive(Debug)]
pub struct VoteCollection {
    view: ViewNumber,
    vote_type: VoteType,
    block_id: u128,
    votes: Vec<Vote>,
    /// Creation time, milliseconds since the Unix epoch.
    created_at: i64,
}

/// The value of a vote collection.
pub struct CollectionView {
    pub key: VoteKey,
    pub votes: Seq<VoteView>,
    pub created_at: i64,
}

impl View for VoteCollection {
    type V = CollectionView;

    closed spec fn view(&self) -> CollectionView {
        CollectionView {
            key: (self.view.0, self.vote_type, self.block_id),
            votes: votes_view(self.votes@),
            created_at: self.created_at,
        }
    }
}

/// Whether the voters of `votes` are pairwise distinct.
pub open spec fn distinct_voters(votes: Seq<VoteView>) -> bool {
    forall|i: int, j: int| 0 <= i < j < votes.len() ==> votes[i].voter != votes[j].voter
}

/// Whether some vote of `votes` was cast by `voter`.
pub open spec fn has_voter(votes: Seq<VoteView>, voter: NodeId) -> bool {
    exists|i: int| 0 <= i < votes.len() && votes[i].voter == voter
}

/// A collection is consistent when all its votes are about its key and come
/// from distinct voters.
pub open spec fn collection_wf(c: CollectionView) -> bool {
    &&& forall|i: int| 0 <= i < c.votes.len() ==> vote_key(#[trigger] c.votes[i]) == c.key
    &&& distinct_voters(c.votes)
}

/// The position of the collection with key `k`, if any.
pub open spec fn position_of(cs: Seq<CollectionView>, k: VoteKey) -> Option<int> {
    if exists|i: int| 0 <= i < cs.len() && cs[i].key == k {
        Some(choose|i: int| 0 <= i < cs.len() && cs[i].key == k)
    } else {
        None
    }
}

/// A quorum certificate is sound for a quorum size when it holds at least
/// that many votes, all about its view and block and of one type, cast by
/// distinct voters.
pub open spec fn qc_sound(qc: QcView, quorum: nat) -> bool {
    &&& qc.votes.len() >= quorum
    &&& qc.votes.len() > 0
    &&& forall|i: int|
        0 <= i < qc.votes.len() ==> vote_key(#[trigger] qc.votes[i]) == vote_key(qc.votes[0])
    &&& qc.view == qc.votes[0].view
    &&& qc.block_id == qc.votes[0].block_id
    &&& distinct_voters(qc.votes)
}

/// The collections younger than `max_age` at time `now`.
pub open spec fn young_at(cs: Seq<CollectionView>, now: i64, max_age: i64) -> Seq<CollectionView> {
    cs.filter(|c: CollectionView| (now as int) - (c.created_at as int) < max_age as int)
}

/// Vote statistics for monitoring.
#[derive(Debug, Clone, Copy)]
pub struct VoteStats {
    pub total_collections: usize,
    pub total_votes: usize,
    pub collections_near_quorum: usize,
}

/// The number of votes held by a sequence of collections.
pub open spec fn votes_in(cs: Seq<CollectionView>) -> int
    decreases cs.len(),
{
    if cs.len() == 0 {
        0
    } else {
        votes_in(cs.drop_last()) + cs.last().votes.len()
    }
}

/// The number of collections holding at least `bar` votes.
pub open spec fn count_at_least(cs: Seq<CollectionView>, bar: int) -> int
    decreases cs.len(),
{
    if cs.len() == 0 {
        0
    } else {
        count_at_least(cs.drop_last(), bar) + if cs.last().votes.len() >= bar {
            1int
        } else {
            0
        }
    }
}

/// Collector that aggregates votes into quorum certificates.
#[derive(Debug)]
pub struct VoteCollector {
    /// Required quorum size.
    quorum_size: usize,
    /// Collections, one per (view, vote type, block).
    collections: Vec<VoteCollection>,
    /// Maximum age of a collection, in milliseconds.
    max_age_ms: i64,
}

impl VoteCollector {
    /// The collections, oldest first.
    pub closed spec fn entries(&self) -> Seq<CollectionView> {
        self.collections@.map_values(|c: VoteCollection| c@)
    }

    pub closed spec fn quorum(&self) -> usize {
        self.quorum_size
    }

    pub closed spec fn max_age(&self) -> i64 {
        self.max_age_ms
    }

    /// The votes gathered so far about `k`.
    pub open spec fn votes_for(&self, k: VoteKey) -> Seq<VoteView> {
        match position_of(self.entries(), k) {
            Some(i) => self.entries()[i].votes,
            None => Seq::empty(),
        }
    }

    /// Well-formedness: one collection per key, each consistent.
    pub open spec fn wf(&self) -> bool {
        &&& forall|i: int, j: int|
            0 <= i < j < self.entries().len() ==> self.entries()[i].key != self.entries()[j].key
        &&& forall|i: int| 0 <= i < self.entries().len() ==> collection_wf(#[trigger] self.entries()[i])
    }

    /// A collector forming certificates at `quorum_size` votes, keeping
    /// collections for 30 seconds.
    pub fn new(quorum_size: usize) -> (r: Self)
        ensures
            r.wf(),
            r.quorum() == quorum_size,
            r.max_age() == 30000,
            r.entries().len() == 0,
    {
        let r = VoteCollector { quorum_size, collections: Vec::new(), max_age_ms: 30000 };
        assert(r.entries() =~= Seq::<CollectionView>::empty());
        r
    }

    fn find(&self, k: VoteKey) -> (r: Option<usize>)
        requires
            self.wf(),
        ensures
            r matches Some(i) ==> i < self.entries().len() && self.entries()[i as int].key == k
                && position_of(self.entries(), k) == Some(i as int),
            r is None ==> position_of(self.entries(), k) is None,
    {
        let n = self.collections.len();
        let mut i: usize = 0;
        while i < n
            invariant
                n == self.collections@.len(),
                self.wf(),
                i <= n,
                forall|m: int| 0 <= m < i ==> (#[trigger] self.entries()[m]).key != k,
            decreases n - i,
        {
            let c = &self.collections[i];
            proof {
                assert(self.entries()[i as int] == c@);
            }
            if c.view.0 == k.0 && c.vote_type == k.1 && c.block_id == k.2 {
                proof {
                    assert(self.entries()[i as int].key == k);
                    let j = choose|j: int| 0 <= j < self.entries().len() && self.entries()[j].key == k;
                    if j < i {
                        assert(self.entries()[j].key != self.entries()[i as int].key);
                    } else if j > i {
                        assert(self.entries()[i as int].key != self.entries()[j].key);
                    }
                }
                return Some(i);
            }
            i = i + 1;
        }
        None
    }

    /// Adds a vote; returns a certificate when the vote's collection reaches
    /// the quorum. A second vote from the same voter about the same view,
    /// type and block is ignored.
    pub fn add_vote(&mut self, vote: Vote) -> (r: Result<Option<QuorumCertificate>, ConsensusError>)
        requires
            old(self).wf(),
        ensures
            final(self).wf(),
            final(self).quorum() == old(self).quorum(),
            final(self).max_age() == old(self).max_age(),
            ({
                let k = vote_key(vote@);
                let prev = old(self).votes_for(k);
                if has_voter(prev, vote.voter) {
                    &&& final(self).entries() == old(self).entries()
                    &&& r == Ok::<Option<QuorumCertificate>, ConsensusError>(None)
                } else {
                    &&& final(self).votes_for(k) == prev.push(vote@)
                    &&& forall|k2: VoteKey| k2 != k ==> final(self).votes_for(k2) == old(self).votes_for(k2)
                    &&& r is Ok
                    &&& (r->Ok_0 is Some <==> prev.len() + 1 >= old(self).quorum())
                    &&& (r->Ok_0 matches Some(qc) ==> qc@ == QcView {
                        view: k.0,
                        block_id: k.2,
                        votes: prev.push(vote@),
                        aggregate_signature: None,
                    })
                }
            }),
            r matches Ok(Some(qc)) ==> qc_sound(qc@, old(self).quorum() as nat),
    {
        let k: VoteKey = (vote.view.0, vote.vote_type, vote.block_id);
        let ghost k_spec = vote_key(vote@);
        assert(k == k_spec);
        let ghost old_entries = self.entries();
        match self.find(k) {
            Some(i) => {
                let ghost c_old = old_entries[i as int];
                let dup = has_vote_from(&self.collections[i].votes, vote.voter);
                proof {
                    assert(self.collections@[i as int]@ == c_old);
                }
                if dup {
                    return Ok(None);
                }
                let mut c = self.collections.remove(i);
                c.votes.push(vote);
                let count = c.votes.len();
                let qc_opt = if count >= self.quorum_size {
                    Some(QuorumCertificate::new(copy_votes(&c.votes)))
                } else {
                    None
                };
                self.collections.insert(i, c);
                proof {
                    let c_new = self.entries()[i as int];
                    assert(c_new.votes =~= c_old.votes.push(vote@));
                    assert(c_new.key == k);
                    assert(self.entries() =~= old_entries.update(i as int, c_new));
                    assert(collection_wf(c_new)) by {
                        assert forall|a: int, b: int| 0 <= a < b < c_new.votes.len() implies c_new.votes[a].voter
                            != c_new.votes[b].voter by {
                            if b == c_new.votes.len() - 1 {
                                assert(c_new.votes[a] == c_old.votes[a]);
                            }
                        }
                    }
                    lemma_position_after_update(old_entries, i as int, c_new);
                    if qc_opt is Some {
                        let qv = qc_opt->0@;
                        assert(qv.votes =~= c_new.votes);
                        assert(vote_key(c_new.votes[0]) == k);
                    }
                }
                Ok(qc_opt)
            },
            None => {
                let mut votes: Vec<Vote> = Vec::new();
                votes.push(vote);
                let count = votes.len();
                let qc_opt = if count >= self.quorum_size {
                    Some(QuorumCertificate::new(copy_votes(&votes)))
                } else {
                    None
                };
                let c = VoteCollection {
                    view: ViewNumber(k.0),
                    vote_type: k.1,
                    block_id: k.2,
                    votes,
                    created_at: now_millis(),
                };
                self.collections.push(c);
                proof {
                    let c_new = self.entries().last();
                    assert(c_new.votes =~= seq![vote@]);
                    assert(self.entries() =~= old_entries.push(c_new));
                    lemma_position_after_push(old_entries, c_new);
                    assert(old_entries.push(c_new).last() == c_new);
                    if qc_opt is Some {
                        let qv = qc_opt->0@;
                        assert(qv.votes =~= c_new.votes);
                        assert(c_new.votes[0] == vote@);
                    }
                }
                Ok(qc_opt)
            },
        }
    }

    /// Drops the collections that are at least the maximum age old at time
    /// `now` (milliseconds since the Unix epoch).
    pub fn cleanup_collections_at(&mut self, now: i64)
        requires
            old(self).wf(),
        ensures
            final(self).wf(),
            final(self).quorum() == old(self).quorum(),
            final(self).max_age() == old(self).max_age(),
            final(self).entries() == young_at(old(self).entries(), now, old(self).max_age()),
    {
        let max_age = self.max_age_ms;
        let ghost pred = |c: CollectionView| (now as int) - (c.created_at as int) < max_age as int;
        let ghost old_entries = self.entries();
        let mut old_collections: Vec<VoteCollection> = Vec::new();
        std::mem::swap(&mut old_collections, &mut self.collections);
        let mut kept: Vec<VoteCollection> = Vec::new();
        let n = old_collections.len();
        let mut idx: usize = 0;
        proof {
            assert(old_collections@.map_values(|c: VoteCollection| c@) =~= old_entries);
        }
        while idx < n
            invariant
                n == old_collections@.len(),
                idx <= n,
                old_entries == old_collections@.map_values(|c: VoteCollection| c@),
                kept@.map_values(|c: VoteCollection| c@) == old_entries.take(idx as int).filter(pred),
                pred == (|c: CollectionView| (now as int) - (c.created_at as int) < max_age as int),
            decreases n - idx,
        {
            proof {
                reveal_with_fuel(Seq::<_>::filter, 1);
                assert(old_entries.take(idx + 1).drop_last() =~= old_entries.take(idx as int));
            }
            let c = &old_collections[idx];
            let age = (now as i128) - (c.created_at as i128);
            if age < max_age as i128 {
                let copy = VoteCollection {
                    view: c.view,
                    vote_type: c.vote_type,
                    block_id: c.block_id,
                    votes: copy_votes(&c.votes),
                    created_at: c.created_at,
                };
                let ghost before = kept@;
                kept.push(copy);
                proof {
                    assert(copy@ == c@);
                    assert(kept@.map_values(|c: VoteCollection| c@) =~= before.map_values(
                        |c: VoteCollection| c@,
                    ).push(c@));
                }
            }
            idx = idx + 1;
        }
        proof {
            assert(old_entries.take(n as int) =~= old_entries);
        }
        self.collections = kept;
        proof {
            lemma_filter_keeps_wf(old_entries, pred);
        }
    }

    /// Drops the collections that are at least 30 seconds old by the clock.
    pub fn cleanup_old_collections(&mut self)
        requires
            old(self).wf(),
        ensures
            final(self).wf(),
            final(self).quorum() == old(self).quorum(),
            final(self).max_age() == old(self).max_age(),
            exists|now: i64|
                final(self).entries() == #[trigger] young_at(old(self).entries(), now, old(self).max_age()),
    {
        let now = now_millis();
        self.cleanup_collections_at(now);
    }

    /// Drops the collections of views before `min_view`.
    pub fn clear_old_views(&mut self, min_view: ViewNumber)
        requires
            old(self).wf(),
        ensures
            final(self).wf(),
            final(self).quorum() == old(self).quorum(),
            final(self).max_age() == old(self).max_age(),
            final(self).entries() == old(self).entries().filter(|c: CollectionView| c.key.0 >= min_view.0),
    {
        let ghost pred = |c: CollectionView| c.key.0 >= min_view.0;
        let ghost old_entries = self.entries();
        let mut old_collections: Vec<VoteCollection> = Vec::new();
        std::mem::swap(&mut old_collections, &mut self.collections);
        let mut kept: Vec<VoteCollection> = Vec::new();
        let n = old_collections.len();
        let mut idx: usize = 0;
        proof {
            assert(old_collections@.map_values(|c: VoteCollection| c@) =~= old_entries);
        }
        while idx < n
            invariant
                n == old_collections@.len(),
                idx <= n,
                old_entries == old_collections@.map_values(|c: VoteCollection| c@),
                kept@.map_values(|c: VoteCollection| c@) == old_entries.take(idx as int).filter(pred),
                pred == (|c: CollectionView| c.key.0 >= min_view.0),
            decreases n - idx,
        {
            proof {
                reveal_with_fuel(Seq::<_>::filter, 1);
                assert(old_entries.take(idx + 1).drop_last() =~= old_entries.take(idx as int));
            }
            let c = &old_collections[idx];
            if c.view.0 >= min_view.0 {
                let copy = VoteCollection {
                    view: c.view,
                    vote_type: c.vote_type,
                    block_id: c.block_id,
                    votes: copy_votes(&c.votes),
                    created_at: c.created_at,
                };
                let ghost before = kept@;
                kept.push(copy);
                proof {
                    assert(copy@ == c@);
                    assert(kept@.map_values(|c: VoteCollection| c@) =~= before.map_values(
                        |c: VoteCollection| c@,
                    ).push(c@));
                }
            }
            idx = idx + 1;
        }
        proof {
            assert(old_entries.take(n as int) =~= old_entries);
        }
        self.collections = kept;
        proof {
            lemma_filter_keeps_wf(old_entries, pred);
        }
    }

    /// Statistics: the number of collections, of votes, and of collections
    /// holding at least two thirds of the quorum.
    pub fn get_vote_stats(&self) -> (r: VoteStats)
        requires
            votes_in(self.entries()) <= usize::MAX,
            self.quorum() * 2 <= usize::MAX,
        ensures
            r.total_collections == self.entries().len(),
            r.total_votes == votes_in(self.entries()),
            r.collections_near_quorum == count_at_least(self.entries(), (self.quorum() * 2) as int / 3),
    {
        let bar = (self.quorum_size * 2) / 3;
        let n = self.collections.len();
        let mut total: usize = 0;
        let mut near: usize = 0;
        let mut i: usize = 0;
        while i < n
            invariant
                n == self.collections@.len(),
                i <= n,
                bar == (self.quorum() * 2) as int / 3,
                votes_in(self.entries()) <= usize::MAX,
                total == votes_in(self.entries().take(i as int)),
                near == count_at_least(self.entries().take(i as int), bar as int),
                near <= i,
            decreases n - i,
        {
            proof {
                assert(self.entries().take(i + 1).drop_last() =~= self.entries().take(i as int));
                lemma_votes_in_prefix(self.entries(), i + 1);
            }
            let c = &self.collections[i];
            proof {
                assert(self.entries()[i as int] == c@);
                assert(self.entries().take(i + 1).last() == c@);
            }
            total = total + c.votes.len();
            if c.votes.len() >= bar {
                near = near + 1;
            }
            i = i + 1;
        }
        proof {
            assert(self.entries().take(n as int) =~= self.entries());
        }
        VoteStats { total_collections: n, total_votes: total, collections_near_quorum: near }
    }
}

/// Whether `votes` holds a vote from `voter`.
fn has_vote_from(votes: &Vec<Vote>, voter: NodeId) -> (r: bool)
    ensures
        r == has_voter(votes_view(votes@), voter),
{
    let n = votes.len();
    let mut i: usize = 0;
    while i < n
        invariant
            n == votes@.len(),
            i <= n,
            forall|k: int| 0 <= k < i ==> votes@[k].voter != voter,
        decreases n - i,
    {
        if votes[i].voter == voter {
            assert(votes_view(votes@)[i as int].voter == voter);
            return true;
        }
        i = i + 1;
    }
    proof {
        if has_voter(votes_view(votes@), voter) {
            let j = choose|j: int| 0 <= j < votes@.len() && votes_view(votes@)[j].voter == voter;
            assert(votes@[j].voter == voter);
        }
    }
    false
}

proof fn lemma_votes_in_prefix(cs: Seq<CollectionView>, i: int)
    requires
        0 <= i <= cs.len(),
    ensures
        votes_in(cs.take(i)) <= votes_in(cs),
    decreases cs.len() - i,
{
    if i < cs.len() {
        lemma_votes_in_prefix(cs, i + 1);
        assert(cs.take(i + 1).drop_last() =~= cs.take(i));
    } else {
        assert(cs.take(i) =~= cs);
    }
}

proof fn lemma_position_after_update(cs: Seq<CollectionView>, i: int, c: CollectionView)
    requires
        0 <= i < cs.len(),
        cs[i].key == c.key,
        forall|a: int, b: int| 0 <= a < b < cs.len() ==> cs[a].key != cs[b].key,
    ensures
        forall|a: int, b: int|
            0 <= a < b < cs.len() ==> cs.update(i, c)[a].key != cs.update(i, c)[b].key,
        position_of(cs.update(i, c), c.key) == Some(i),
        position_of(cs, c.key) == Some(i),
        forall|k2: VoteKey|
            k2 != c.key ==> #[trigger] position_of(cs.update(i, c), k2) == position_of(cs, k2),
{
    let ns = cs.update(i, c);
    assert(ns[i].key == c.key);
    assert(cs[i].key == c.key);
    assert forall|k2: VoteKey| k2 != c.key implies #[trigger] position_of(ns, k2) == position_of(cs, k2) by {
        assert forall|m: int| 0 <= m < cs.len() implies (ns[m].key == k2) == (cs[m].key == k2) by {
            if m == i {
            }
        }
    }
}

proof fn lemma_position_after_push(cs: Seq<CollectionView>, c: CollectionView)
    requires
        position_of(cs, c.key) is None,
        forall|a: int, b: int| 0 <= a < b < cs.len() ==> cs[a].key != cs[b].key,
    ensures
        forall|a: int, b: int|
            0 <= a < b < cs.push(c).len() ==> cs.push(c)[a].key != cs.push(c)[b].key,
        position_of(cs.push(c), c.key) == Some(cs.len() as int),
        forall|k2: VoteKey|
            k2 != c.key ==> #[trigger] position_of(cs.push(c), k2) == position_of(cs, k2),
{
    let ns = cs.push(c);
    assert(ns[cs.len() as int].key == c.key);
    assert forall|k2: VoteKey| k2 != c.key implies #[trigger] position_of(ns, k2) == position_of(cs, k2) by {
        assert forall|m: int| 0 <= m < cs.len() implies ns[m] == cs[m] by {}
    }
}

proof fn lemma_filter_keeps_wf(cs: Seq<CollectionView>, pred: spec_fn(CollectionView) -> bool)
    requires
        forall|a: int, b: int| 0 <= a < b < cs.len() ==> cs[a].key != cs[b].key,
        forall|a: int| 0 <= a < cs.len() ==> collection_wf(#[trigger] cs[a]),
    ensures
        forall|a: int, b: int|
            0 <= a < b < cs.filter(pred).len() ==> cs.filter(pred)[a].key != cs.filter(pred)[b].key,
        forall|a: int| 0 <= a < cs.filter(pred).len() ==> collection_wf(#[trigger] cs.filter(pred)[a]),
    decreases cs.len(),
{
    reveal_with_fuel(Seq::<_>::filter, 1);
    if cs.len() > 0 {
        let init = cs.drop_last();
        lemma_filter_keeps_wf(init, pred);
        broadcast use vstd::seq_lib::group_filter_ensures;
        let f = cs.filter(pred);
        if pred(cs.last()) {
            assert(f == init.filter(pred).push(cs.last()));
            assert forall|a: int, b: int| 0 <= a < b < f.len() implies f[a].key != f[b].key by {
                if b == f.len() - 1 {
                    assert(init.filter(pred)[a] == f[a]);
                    assert(init.filter(pred).contains(f[a]));
                    init.lemma_filter_contains_rev(pred, f[a]);
                    assert(init.contains(f[a]));
                    let m = choose|m: int| 0 <= m < init.len() && init[m] == f[a];
                    assert(init[m] == cs[m]);
                    assert(cs[cs.len() - 1] == f[b]);
                }
            }
            assert forall|a: int| 0 <= a < f.len() implies collection_wf(#[trigger] f[a]) by {
                if a == f.len() - 1 {
                    assert(f[a] == cs[cs.len() - 1]);
                }
            }
        }
    }
}

/// Whether a vote value is about the same view, block and type as `first`.
pub open spec fn consistent_with(v: VoteView, first: VoteView) -> bool {
    v.view == first.view && v.block_id == first.block_id && v.vote_type == first.vote_type
}

/// Validator of vote integrity and certificate safety.
#[derive(Debug)]
pub struct VoteValidator {
    /// Known validators.
    validators: Vec<NodeId>,
    /// Byzantine fault threshold.
    byzantine_threshold: usize,
}

impl VoteValidator {
    /// The known validators.
    pub closed spec fn known(&self) -> Set<NodeId> {
        self.validators@.to_set()
    }

    pub closed spec fn threshold(&self) -> usize {
        self.byzantine_threshold
    }

    pub fn new(validators: Vec<NodeId>, byzantine_threshold: usize) -> (r: Self)
        ensures
            r.known() == validators@.to_set(),
            r.threshold() == byzantine_threshold,
    {
        VoteValidator { validators, byzantine_threshold }
    }

    /// Replaces the validator set.
    pub fn update_validators(&mut self, validators: Vec<NodeId>)
        ensures
            final(self).known() == validators@.to_set(),
            final(self).threshold() == old(self).threshold(),
    {
        self.validators = validators;
    }

    /// The outcome of checking a vote at time `now` (milliseconds since the
    /// Unix epoch): its voter must be a known validator, and it must be at
    /// most five minutes old.
    pub open spec fn vote_check(&self, v: VoteView, now: i64) -> Result<(), ConsensusError> {
        if !self.known().contains(v.voter) {
            Err(ConsensusError::UnknownValidator(v.voter))
        } else if (now as int) - (v.timestamp as int) > 300_000 {
            Err(ConsensusError::InvalidTimestamp)
        } else {
            Ok(())
        }
    }

    /// Checks a vote for basic correctness at time `now`.
    pub fn validate_vote_at(&self, vote: &Vote, now: i64) -> (r: Result<(), ConsensusError>)
        ensures
            r == self.vote_check(vote@, now),
            self.known().contains(vote.voter) && now - vote.timestamp > 300_000 ==> r == Err::<(), ConsensusError>(
                ConsensusError::InvalidTimestamp,
            ),
            self.known().contains(vote.voter) && now - vote.timestamp <= 300_000 ==> r is Ok,
    {
        proof {
            vote_check_rules(*self, vote@, now);
        }
        if !contains_node(&self.validators, vote.voter) {
            proof {
                assert(!self.validators@.contains(vote.voter));
            }
            return Err(ConsensusError::UnknownValidator(vote.voter));
        }
        let age = (now as i128) - (vote.timestamp as i128);
        if age > 300_000 {
            return Err(ConsensusError::InvalidTimestamp);
        }
        Ok(())
    }

    /// Checks a vote for basic correctness now, by the clock.
    pub fn validate_vote(&self, vote: &Vote) -> (r: Result<(), ConsensusError>)
        ensures
            exists|now: i64| r == self.vote_check(vote@, now),
            !self.known().contains(vote.voter) ==> r == Err::<(), ConsensusError>(
                ConsensusError::UnknownValidator(vote.voter),
            ),
    {
        let now = now_millis();
        self.validate_vote_at(vote, now)
    }

    /// The outcome of scanning the votes from position `i` on: the first
    /// vote inconsistent with `first`, or failing its own check, decides.
    pub open spec fn scan_votes(&self, votes: Seq<VoteView>, first: VoteView, i: int, now: i64) -> Result<
        (),
        ConsensusError,
    >
        decreases votes.len() - i,
    {
        if i >= votes.len() || i < 0 {
            Ok(())
        } else if !consistent_with(votes[i], first) {
            Err(ConsensusError::InconsistentVotes)
        } else if self.vote_check(votes[i], now) is Err {
            self.vote_check(votes[i], now)
        } else {
            self.scan_votes(votes, first, i + 1, now)
        }
    }

    /// The outcome of checking a quorum certificate at time `now`.
    pub open spec fn qc_check(&self, qc: QcView, now: i64) -> Result<(), ConsensusError> {
        let required = 2 * self.threshold() + 1;
        if qc.votes.len() < required {
            Err(ConsensusError::InsufficientVotes { required: required as usize, received: qc.votes.len() as usize })
        } else if qc.votes.len() == 0 {
            Err(ConsensusError::EmptyQuorumCertificate)
        } else if self.scan_votes(qc.votes, qc.votes[0], 0, now) is Err {
            self.scan_votes(qc.votes, qc.votes[0], 0, now)
        } else {
            first_duplicate(qc.votes, 0)
        }
    }

    fn scan(&self, votes: &Vec<Vote>, now: i64) -> (r: Result<(), ConsensusError>)
        requires
            votes@.len() > 0,
        ensures
            r == self.scan_votes(votes_view(votes@), votes_view(votes@)[0], 0, now),
    {
        let ghost vs = votes_view(votes@);
        let first = &votes[0];
        let n = votes.len();
        let mut i: usize = 0;
        while i < n
            invariant
                n == votes@.len(),
                vs == votes_view(votes@),
                *first == votes@[0],
                i <= n,
                self.scan_votes(vs, vs[0], 0, now) == self.scan_votes(vs, vs[0], i as int, now),
            decreases n - i,
        {
            let v = &votes[i];
            proof {
                assert(vs[i as int] == v@);
                assert(vs[0] == first@);
            }
            if v.view != first.view || v.block_id != first.block_id || v.vote_type != first.vote_type {
                return Err(ConsensusError::InconsistentVotes);
            }
            let c = self.validate_vote_at(v, now);
            if c.is_err() {
                return c;
            }
            i = i + 1;
        }
        Ok(())
    }

    /// Checks a quorum certificate at time `now`: enough votes (`2f + 1`),
    /// all about one view, block and type, each from a known validator and
    /// recent, and no voter twice.
    pub fn validate_qc_at(&self, qc: &QuorumCertificate, now: i64) -> (r: Result<(), ConsensusError>)
        requires
            2 * self.threshold() + 1 <= usize::MAX,
        ensures
            r == self.qc_check(qc@, now),
            r is Ok ==> qc.votes@.len() >= 2 * self.threshold() + 1,
            r is Ok ==> distinct_voters(qc@.votes),
            r is Ok ==> forall|i: int|
                0 <= i < qc@.votes.len() ==> self.known().contains(#[trigger] qc@.votes[i].voter)
                    && consistent_with(qc@.votes[i], qc@.votes[0]),
    {
        let required = 2 * self.byzantine_threshold + 1;
        let ghost vs = qc@.votes;
        if qc.votes.len() < required {
            return Err(ConsensusError::InsufficientVotes { required, received: qc.votes.len() });
        }
        if qc.votes.len() == 0 {
            return Err(ConsensusError::EmptyQuorumCertificate);
        }
        let s = self.scan(&qc.votes, now);
        if s.is_err() {
            return s;
        }
        let d = find_duplicate(&qc.votes);
        proof {
            if d is Ok {
                lemma_scan_ok_all(self, vs, vs[0], 0, now);
                lemma_no_duplicate_distinct(vs, 0);
            }
        }
        d
    }

    /// Checks a quorum certificate now, by the clock.
    pub fn validate_qc(&self, qc: &QuorumCertificate) -> (r: Result<(), ConsensusError>)
        requires
            2 * self.threshold() + 1 <= usize::MAX,
        ensures
            exists|now: i64| r == self.qc_check(qc@, now),
            r is Ok ==> qc.votes@.len() >= 2 * self.threshold() + 1,
            r is Ok ==> distinct_voters(qc@.votes),
            r is Ok ==> forall|i: int|
                0 <= i < qc@.votes.len() ==> self.known().contains(#[trigger] qc@.votes[i].voter)
                    && consistent_with(qc@.votes[i], qc@.votes[0]),
    {
        let now = now_millis();
        self.validate_qc_at(qc, now)
    }
}

/// The outcome of the duplicate scan from position `i` on: the first vote
/// whose voter already voted earlier in the sequence decides.
pub open spec fn first_duplicate(votes: Seq<VoteView>, i: int) -> Result<(), ConsensusError>
    decreases votes.len() - i,
{
    if i >= votes.len() || i < 0 {
        Ok(())
    } else if exists|j: int| 0 <= j < i && votes[j].voter == votes[i].voter {
        Err(ConsensusError::DuplicateVoter(votes[i].voter))
    } else {
        first_duplicate(votes, i + 1)
    }
}

fn find_duplicate(votes: &Vec<Vote>) -> (r: Result<(), ConsensusError>)
    ensures
        r == first_duplicate(votes_view(votes@), 0),
{
    let ghost vs = votes_view(votes@);
    let n = votes.len();
    let mut seen: Vec<NodeId> = Vec::new();
    let mut i: usize = 0;
    while i < n
        invariant
            n == votes@.len(),
            vs == votes_view(votes@),
            i <= n,
            seen@.len() == i,
            forall|k: int| 0 <= k < i ==> seen@[k] == vs[k].voter,
            first_duplicate(vs, 0) == first_duplicate(vs, i as int),
        decreases n - i,
    {
        let voter = votes[i].voter;
        proof {
            assert(vs[i as int].voter == voter);
        }
        if contains_node(&seen, voter) {
            proof {
                let j = choose|j: int| 0 <= j < seen@.len() && seen@[j] == voter;
                assert(vs[j].voter == vs[i as int].voter);
            }
            return Err(ConsensusError::DuplicateVoter(voter));
        }
        proof {
            assert forall|j: int| 0 <= j < i implies vs[j].voter != vs[i as int].voter by {
                assert(seen@[j] == vs[j].voter);
                if vs[j].voter == voter {
                    assert(seen@.contains(voter));
                }
            }
        }
        seen.push(voter);
        i = i + 1;
    }
    Ok(())
}

/// Votes are checked as the protocol says: a vote of an unknown voter is
/// refused as such; a known voter's vote cast more than five minutes
/// (300 000 ms) before `now` is refused as stale; every other vote of a
/// known voter, one cast at `now` or later included, is accepted. So a vote
/// accepted at some time is accepted at every earlier time, and a vote
/// refused as stale stays refused later on.
pub proof fn vote_check_rules(vv: VoteValidator, v: VoteView, now: i64)
    ensures
        !vv.known().contains(v.voter) ==> vv.vote_check(v, now) == Err::<(), ConsensusError>(
            ConsensusError::UnknownValidator(v.voter),
        ),
        vv.known().contains(v.voter) && now - v.timestamp > 300_000 ==> vv.vote_check(v, now) == Err::<
            (),
            ConsensusError,
        >(ConsensusError::InvalidTimestamp),
        vv.known().contains(v.voter) && now - v.timestamp <= 300_000 ==> vv.vote_check(v, now) == Ok::<
            (),
            ConsensusError,
        >(()),
        vv.known().contains(v.voter) && v.timestamp >= now ==> vv.vote_check(v, now) is Ok,
        forall|earlier: i64| earlier <= now && vv.vote_check(v, now) is Ok ==> (#[trigger] vv.vote_check(v, earlier)) is Ok,
        forall|later: i64|
            later >= now && vv.vote_check(v, now) == Err::<(), ConsensusError>(ConsensusError::InvalidTimestamp)
                ==> #[trigger] vv.vote_check(v, later) == Err::<(), ConsensusError>(ConsensusError::InvalidTimestamp),
{
}

proof fn lemma_scan_ok_all(v: &VoteValidator, votes: Seq<VoteView>, first: VoteView, i: int, now: i64)
    requires
        0 <= i <= votes.len(),
        v.scan_votes(votes, first, i, now) is Ok,
    ensures
        forall|k: int|
            i <= k < votes.len() ==> v.known().contains(#[trigger] votes[k].voter) && consistent_with(
                votes[k],
                first,
            ),
    decreases votes.len() - i,
{
    if i < votes.len() {
        lemma_scan_ok_all(v, votes, first, i + 1, now);
        assert forall|k: int| i <= k < votes.len() implies v.known().contains(#[trigger] votes[k].voter)
            && consistent_with(votes[k], first) by {
            if k == i {
                assert(v.vote_check(votes[i], now) is Ok);
            }
        }
    }
}

proof fn lemma_no_duplicate_distinct(votes: Seq<VoteView>, i: int)
    requires
        0 <= i <= votes.len(),
        first_duplicate(votes, i) is Ok,
    ensures
        forall|a: int, b: int| 0 <= a < b < votes.len() && i <= b ==> votes[a].voter != votes[b].voter,
    decreases votes.len() - i,
{
    if i < votes.len() {
        lemma_no_duplicate_distinct(votes, i + 1);
        assert(!(exists|j: int| 0 <= j < i && votes[j].voter == votes[i].voter));
    }
}

/// Strategy for aggregating votes into certificates.
pub trait VoteAggregationStrategy {
    /// Whether the votes should be aggregated into a certificate.
    fn should_aggregate(&self, votes: &[Vote], required_count: usize) -> bool;

    /// An aggregated signature, where the strategy makes one.
    fn aggregate_signatures(&self, votes: &[Vote]) -> Option<Vec<u8>>;
}

/// Threshold aggregation: aggregate once enough votes are in; no signature
/// aggregation.
#[derive(Debug, Clone, Copy)]
pub struct ThresholdAggregation;

impl VoteAggregationStrategy for ThresholdAggregation {
    fn should_aggregate(&self, votes: &[Vote], required_count: usize) -> (r: bool)
        ensures
            r == (votes@.len() >= required_count),
    {
        votes.len() >= required_count
    }

    fn aggregate_signatures(&self, votes: &[Vote]) -> (r: Option<Vec<u8>>)
        ensures
            r is None,
    {
        None
    }
}

/// The concatenation of the signatures of `votes`.
pub open spec fn concat_signatures(votes: Seq<VoteView>) -> Seq<u8>
    decreases votes.len(),
{
    if votes.len() == 0 {
        Seq::empty()
    } else {
        concat_signatures(votes.drop_last()) + votes.last().signature
    }
}

/// Signature aggregation by concatenation, standing in for BLS aggregation.
#[derive(Debug, Clone, Copy)]
pub struct BlsAggregation {
    enabled: bool,
}

impl BlsAggregation {
    /// Whether BLS aggregation proper is switched on.
    pub closed spec fn is_enabled(&self) -> bool {
        self.enabled
    }

    pub fn new() -> (r: Self)
        ensures
            !r.is_enabled(),
    {
        BlsAggregation { enabled: false }
    }
}

impl VoteAggregationStrategy for BlsAggregation {
    fn should_aggregate(&self, votes: &[Vote], required_count: usize) -> (r: bool)
        ensures
            r == (votes@.len() >= required_count),
    {
        votes.len() >= required_count
    }

    fn aggregate_signatures(&self, votes: &[Vote]) -> (r: Option<Vec<u8>>)
        ensures
            votes@.len() == 0 ==> r is None,
            votes@.len() > 0 ==> (r matches Some(s) && s@ == concat_signatures(votes_view(votes@))),
    {
        if votes.len() == 0 {
            return None;
        }
        let mut aggregated: Vec<u8> = Vec::new();
        let ghost vs = votes_view(votes@);
        let n = votes.len();
        let mut i: usize = 0;
        while i < n
            invariant
                n == votes@.len(),
                vs == votes_view(votes@),
                i <= n,
                aggregated@ == concat_signatures(vs.take(i as int)),
            decreases n - i,
        {
            let sig = &votes[i].signature;
            let mut j: usize = 0;
            let m = sig.len();
            let ghost before = aggregated@;
            while j < m
                invariant
                    m == sig@.len(),
                    j <= m,
                    aggregated@ == before + sig@.take(j as int),
                decreases m - j,
            {
                aggregated.push(sig[j]);
                j = j + 1;
                assert(aggregated@ =~= before + sig@.take(j as int));
            }
            proof {
                assert(sig@.take(m as int) =~= sig@);
                assert(vs.take(i + 1).drop_last() =~= vs.take(i as int));
                assert(vs.take(i + 1).last() == votes@[i as int]@);
            }
            i = i + 1;
        }
        assert(vs.take(n as int) =~= vs);
        Some(aggregated)
    }
}

} // verus!
