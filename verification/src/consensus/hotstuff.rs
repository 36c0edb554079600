//! HotStuff-specific state: phases, the block tree with its ancestry and
//! three-chain rules, the protocol state with its locking and commit rules,
//! timeouts, messages and vote aggregation.

use vstd::prelude::*;
use crate::consensus::types::{
    NodeId, ViewNumber, Vote, VoteType, VoteView, Block, BlockView, QuorumCertificate, QcView,
    block_hash, votes_view,
};
use crate::platform::{fresh_uuid_value, now_millis};
use crate::assoc::{assoc_get, lemma_assoc_skip, lemma_assoc_update, lemma_assoc_push};

verus! {

/// HotStuff consensus protocol phases.
#[derive(Debug, Clone, Copy, PartialEq, Eq, Structural, Hash)]
pub enum HotStuffPhase {
    /// Prepare phase: the leader proposes a block.
    Prepare,
    /// Pre-commit phase: validators vote on prepare.
    PreCommit,
    /// Commit phase: validators vote on pre-commit.
    Commit,
    /// Decide phase: the commitment is final.
    Decide,
    /// View change in progress.
    ViewChange,
}

/// The position of the first block with id `id` from position `i` on.
pub open spec fn first_with_id(bs: Seq<BlockView>, id: u128, i: int) -> Option<int>
    decreases bs.len() - i,
{
    if i < 0 || i >= bs.len() {
        None
    } else if bs[i].id == id {
        Some(i)
    } else {
        first_with_id(bs, id, i + 1)
    }
}

/// The position of the first block with id `id`, if any.
pub open spec fn index_of_id(bs: Seq<BlockView>, id: u128) -> Option<int> {
    first_with_id(bs, id, 0)
}

/// The position of the first block with hash `h` from position `i` on.
pub open spec fn first_with_hash(bs: Seq<BlockView>, h: Seq<u8>, i: int) -> Option<int>
    decreases bs.len() - i,
{
    if i < 0 || i >= bs.len() {
        None
    } else if block_hash(bs[i]) == h {
        Some(i)
    } else {
        first_with_hash(bs, h, i + 1)
    }
}

/// The position of the first block whose hash is `h`, if any.
pub open spec fn index_of_hash(bs: Seq<BlockView>, h: Seq<u8>) -> Option<int> {
    first_with_hash(bs, h, 0)
}

proof fn lemma_first_with_id(bs: Seq<BlockView>, id: u128, i: int)
    requires
        0 <= i,
    ensures
        first_with_id(bs, id, i) matches Some(j) ==> i <= j < bs.len() && bs[j].id == id,
        first_with_id(bs, id, i) is None ==> forall|k: int| i <= k < bs.len() ==> bs[k].id != id,
    decreases bs.len() - i,
{
    if i < bs.len() {
        lemma_first_with_id(bs, id, i + 1);
    }
}

proof fn lemma_first_with_hash(bs: Seq<BlockView>, h: Seq<u8>, i: int)
    requires
        0 <= i,
    ensures
        first_with_hash(bs, h, i) matches Some(j) ==> i <= j < bs.len() && block_hash(bs[j]) == h,
    decreases bs.len() - i,
{
    if i < bs.len() {
        lemma_first_with_hash(bs, h, i + 1);
    }
}

/// Whether `b` is reached from `a` by following parent links (parents
/// found by hash) at most `fuel` times.
pub open spec fn reaches(bs: Seq<BlockView>, a: u128, b: u128, fuel: nat) -> bool
    decreases fuel,
{
    if a == b {
        true
    } else if fuel == 0 {
        false
    } else {
        match index_of_id(bs, a) {
            None => false,
            Some(i) => match index_of_hash(bs, bs[i].parent_hash) {
                None => false,
                Some(j) => reaches(bs, bs[j].id, b, (fuel - 1) as nat),
            },
        }
    }
}

/// Whether the block `id`, its parent and its grandparent are all in the
/// tree (parents found by hash).
pub open spec fn three_chain(bs: Seq<BlockView>, id: u128) -> bool {
    match index_of_id(bs, id) {
        None => false,
        Some(i) => match index_of_hash(bs, bs[i].parent_hash) {
            None => false,
            Some(j) => match index_of_id(bs, bs[j].id) {
                None => false,
                Some(j2) => match index_of_hash(bs, bs[j2].parent_hash) {
                    None => false,
                    Some(k) => index_of_id(bs, bs[k].id) is Some,
                },
            },
        },
    }
}

/// Positions `i`, `j`, `k` of `bs` hold three linked blocks: the block
/// `id`, a block whose hash is its parent hash, and a block whose hash is
/// that parent's parent hash.
pub open spec fn linked_three(bs: Seq<BlockView>, id: u128, i: int, j: int, k: int) -> bool {
    &&& 0 <= i < bs.len()
    &&& 0 <= j < bs.len()
    &&& 0 <= k < bs.len()
    &&& bs[i].id == id
    &&& block_hash(bs[j]) == bs[i].parent_hash
    &&& block_hash(bs[k]) == bs[j].parent_hash
}

/// No two blocks of `bs` share an id (a tree holds one block per id).
pub open spec fn distinct_ids(bs: Seq<BlockView>) -> bool {
    forall|a: int, b: int| 0 <= a < b < bs.len() ==> (#[trigger] bs[a]).id != (#[trigger] bs[b]).id
}

/// No two blocks of `bs` share a hash.
pub open spec fn distinct_hashes(bs: Seq<BlockView>) -> bool {
    forall|a: int, b: int| 0 <= a < b < bs.len() ==> block_hash(#[trigger] bs[a]) != block_hash(#[trigger] bs[b])
}

proof fn lemma_first_with_hash_found(bs: Seq<BlockView>, h: Seq<u8>, i: int, j: int)
    requires
        0 <= i <= j < bs.len(),
        block_hash(bs[j]) == h,
    ensures
        first_with_hash(bs, h, i) is Some,
    decreases j - i,
{
    if block_hash(bs[i]) != h {
        lemma_first_with_hash_found(bs, h, i + 1, j);
    }
}

proof fn lemma_first_with_id_found(bs: Seq<BlockView>, id: u128, i: int, j: int)
    requires
        0 <= i <= j < bs.len(),
        bs[j].id == id,
    ensures
        first_with_id(bs, id, i) is Some,
    decreases j - i,
{
    if bs[i].id != id {
        lemma_first_with_id_found(bs, id, i + 1, j);
    }
}

/// The three-chain rule takes three linked blocks: in a tree holding one
/// block per id, a block is in a three-chain only when the tree holds the
/// block, a parent of it (found by its parent hash) and a parent of that
/// parent; a block with only its parent present, such as the child of a
/// genesis block, is not. Conversely, when the blocks' hashes are distinct
/// too, any three linked blocks make a three-chain.
pub proof fn three_chain_is_three_linked_blocks(bs: Seq<BlockView>, id: u128)
    requires
        distinct_ids(bs),
    ensures
        three_chain(bs, id) ==> exists|i: int, j: int, k: int| #[trigger] linked_three(bs, id, i, j, k),
        distinct_hashes(bs) && (exists|i: int, j: int, k: int| #[trigger] linked_three(bs, id, i, j, k)) ==> three_chain(
            bs,
            id,
        ),
{
    if three_chain(bs, id) {
        lemma_first_with_id(bs, id, 0);
        let i = index_of_id(bs, id)->0;
        lemma_first_with_hash(bs, bs[i].parent_hash, 0);
        let j = index_of_hash(bs, bs[i].parent_hash)->0;
        lemma_first_with_id(bs, bs[j].id, 0);
        let j2 = index_of_id(bs, bs[j].id)->0;
        assert(j2 == j) by {
            if j2 < j {
                assert(bs[j2].id != bs[j].id);
            } else if j < j2 {
                assert(bs[j].id != bs[j2].id);
            }
        }
        lemma_first_with_hash(bs, bs[j2].parent_hash, 0);
        let k = index_of_hash(bs, bs[j2].parent_hash)->0;
        assert(linked_three(bs, id, i, j, k));
    }
    if distinct_hashes(bs) && (exists|i: int, j: int, k: int| #[trigger] linked_three(bs, id, i, j, k)) {
        let (i, j, k) = choose|i: int, j: int, k: int| #[trigger] linked_three(bs, id, i, j, k);
        lemma_first_with_id_found(bs, id, 0, i);
        lemma_first_with_id(bs, id, 0);
        let i1 = index_of_id(bs, id)->0;
        assert(i1 == i) by {
            if i1 < i {
                assert(bs[i1].id != bs[i].id);
            } else if i < i1 {
                assert(bs[i].id != bs[i1].id);
            }
        }
        lemma_first_with_hash_found(bs, bs[i].parent_hash, 0, j);
        lemma_first_with_hash(bs, bs[i].parent_hash, 0);
        let j1 = index_of_hash(bs, bs[i].parent_hash)->0;
        assert(j1 == j) by {
            if j1 < j {
                assert(block_hash(bs[j1]) != block_hash(bs[j]));
            } else if j < j1 {
                assert(block_hash(bs[j]) != block_hash(bs[j1]));
            }
        }
        lemma_first_with_id_found(bs, bs[j].id, 0, j);
        lemma_first_with_id(bs, bs[j].id, 0);
        let j2 = index_of_id(bs, bs[j].id)->0;
        assert(j2 == j) by {
            if j2 < j {
                assert(bs[j2].id != bs[j].id);
            } else if j < j2 {
                assert(bs[j].id != bs[j2].id);
            }
        }
        lemma_first_with_hash_found(bs, bs[j].parent_hash, 0, k);
        lemma_first_with_hash(bs, bs[j].parent_hash, 0);
        let k1 = index_of_hash(bs, bs[j].parent_hash)->0;
        lemma_first_with_id_found(bs, bs[k1].id, 0, k1);
    }
}

/// The children recorded for `parent` from entry `i` on.
pub open spec fn children_from(cs: Seq<(u128, Seq<u128>)>, parent: u128, i: int) -> Seq<u128>
    decreases cs.len() - i,
{
    if i < 0 || i >= cs.len() {
        Seq::empty()
    } else if cs[i].0 == parent {
        cs[i].1
    } else {
        children_from(cs, parent, i + 1)
    }
}

/// The children recorded for `parent` in a (parent, children) list.
pub open spec fn children_of(cs: Seq<(u128, Seq<u128>)>, parent: u128) -> Seq<u128> {
    children_from(cs, parent, 0)
}

/// Block tree tracking block relationships for the safety rules.
#[derive(Debug, Clone)]
pub struct BlockTree {
    /// Blocks, in order of first insertion.
    blocks: Vec<Block>,
    /// Children of each parent block.
    children: Vec<(u128, Vec<u128>)>,
    /// Id of the genesis block, once one was added.
    genesis_id: Option<u128>,
}

impl BlockTree {
    /// The blocks held, in order of first insertion.
    pub closed spec fn blocks_view(&self) -> Seq<BlockView> {
        self.blocks@.map_values(|b: Block| b@)
    }

    /// The children recorded for each parent.
    pub closed spec fn children_view(&self) -> Seq<(u128, Seq<u128>)> {
        self.children@.map_values(|e: (u128, Vec<u128>)| (e.0, e.1@))
    }

    pub closed spec fn genesis(&self) -> Option<u128> {
        self.genesis_id
    }

    pub fn new() -> (r: Self)
        ensures
            r.blocks_view().len() == 0,
            distinct_ids(r.blocks_view()),
            r.children_view().len() == 0,
            r.genesis() is None,
    {
        let r = BlockTree { blocks: Vec::new(), children: Vec::new(), genesis_id: None };
        assert(r.blocks_view() =~= Seq::<BlockView>::empty());
        assert(r.children_view() =~= Seq::<(u128, Seq<u128>)>::empty());
        r
    }

    fn find_by_id(&self, id: u128) -> (r: Option<usize>)
        ensures
            r matches Some(i) ==> Some(i as int) == index_of_id(self.blocks_view(), id) && i < self.blocks@.len(),
            r is None ==> index_of_id(self.blocks_view(), id) is None,
    {
        let ghost bs = self.blocks_view();
        let n = self.blocks.len();
        let mut i: usize = 0;
        while i < n
            invariant
                n == self.blocks@.len(),
                bs == self.blocks_view(),
                i <= n,
                index_of_id(bs, id) == first_with_id(bs, id, i as int),
            decreases n - i,
        {
            proof {
                assert(bs[i as int] == self.blocks@[i as int]@);
            }
            if self.blocks[i].id == id {
                return Some(i);
            }
            i = i + 1;
        }
        None
    }

    fn find_by_hash(&self, h: &Vec<u8>) -> (r: Option<usize>)
        ensures
            r matches Some(i) ==> Some(i as int) == index_of_hash(self.blocks_view(), h@) && i < self.blocks@.len(),
            r is None ==> index_of_hash(self.blocks_view(), h@) is None,
    {
        let ghost bs = self.blocks_view();
        let n = self.blocks.len();
        let mut i: usize = 0;
        while i < n
            invariant
                n == self.blocks@.len(),
                bs == self.blocks_view(),
                i <= n,
                index_of_hash(bs, h@) == first_with_hash(bs, h@, i as int),
            decreases n - i,
        {
            let hi = self.blocks[i].hash();
            proof {
                assert(bs[i as int] == self.blocks@[i as int]@);
            }
            if bytes_equal(&hi, h) {
                return Some(i);
            }
            i = i + 1;
        }
        None
    }

    /// Adds a block. A block with an empty parent hash becomes the genesis
    /// block; otherwise the first block whose hash is the parent hash, if
    /// any, records it as a child. A block with the id of a block already
    /// held replaces it in place.
    pub fn add_block(&mut self, block: Block)
        ensures
            ({
                let bs = old(self).blocks_view();
                match index_of_id(bs, block.id) {
                    Some(i) => final(self).blocks_view() == bs.update(i, block@),
                    None => final(self).blocks_view() == bs.push(block@),
                }
            }),
            distinct_ids(old(self).blocks_view()) ==> distinct_ids(final(self).blocks_view()),
            block@.parent_hash.len() == 0 ==> final(self).genesis() == Some(block.id)
                && final(self).children_view() == old(self).children_view(),
            block@.parent_hash.len() != 0 ==> final(self).genesis() == old(self).genesis(),
            block@.parent_hash.len() != 0 ==> match index_of_hash(old(self).blocks_view(), block@.parent_hash) {
                None => final(self).children_view() == old(self).children_view(),
                Some(p) => {
                    let pid = old(self).blocks_view()[p].id;
                    &&& children_of(final(self).children_view(), pid) == children_of(old(self).children_view(), pid).push(block.id)
                    &&& forall|q: u128| q != pid ==> #[trigger] children_of(final(self).children_view(), q)
                        == children_of(old(self).children_view(), q)
                },
            },
    {
        if block.parent_hash.len() == 0 {
            self.genesis_id = Some(block.id);
        } else {
            match self.find_by_hash(&block.parent_hash) {
                Some(p) => {
                    let pid = self.blocks[p].id;
                    self.add_child(pid, block.id);
                },
                None => {},
            }
        }
        let ghost bs = self.blocks_view();
        proof {
            lemma_first_with_id(bs, block.id, 0);
        }
        match self.find_by_id(block.id) {
            Some(i) => {
                self.blocks.set(i, block);
                assert(self.blocks_view() =~= bs.update(i as int, block@));
                assert(distinct_ids(bs) ==> distinct_ids(self.blocks_view())) by {
                    let ns = self.blocks_view();
                    if distinct_ids(bs) {
                        assert forall|a: int, b: int| 0 <= a < b < ns.len() implies (#[trigger] ns[a]).id != (#[trigger] ns[b]).id by {
                            if a != i && b != i {
                                assert(ns[a] == bs[a] && ns[b] == bs[b]);
                            } else if a == i {
                                assert(ns[b] == bs[b] && bs[i as int].id == block.id);
                                assert(bs[a].id != bs[b].id);
                            } else {
                                assert(ns[a] == bs[a] && bs[i as int].id == block.id);
                                assert(bs[a].id != bs[b].id);
                            }
                        }
                    }
                }
            },
            None => {
                self.blocks.push(block);
                assert(self.blocks_view() =~= bs.push(block@));
                assert(distinct_ids(bs) ==> distinct_ids(self.blocks_view())) by {
                    let ns = self.blocks_view();
                    if distinct_ids(bs) {
                        assert forall|a: int, b: int| 0 <= a < b < ns.len() implies (#[trigger] ns[a]).id != (#[trigger] ns[b]).id by {
                            assert(ns[a] == bs[a]);
                            if b < bs.len() {
                                assert(ns[b] == bs[b]);
                            } else {
                                assert(ns[b] == block@);
                            }
                        }
                    }
                }
            },
        }
    }

    fn add_child(&mut self, parent: u128, child: u128)
        ensures
            final(self).blocks_view() == old(self).blocks_view(),
            final(self).genesis() == old(self).genesis(),
            children_of(final(self).children_view(), parent) == children_of(old(self).children_view(), parent).push(child),
            forall|q: u128| q != parent ==> #[trigger] children_of(final(self).children_view(), q)
                == children_of(old(self).children_view(), q),
    {
        let ghost cv = self.children_view();
        let n = self.children.len();
        let mut i: usize = 0;
        while i < n
            invariant
                n == self.children@.len(),
                cv == self.children_view(),
                *self == *old(self),
                i <= n,
                forall|k: int| 0 <= k < i ==> cv[k].0 != parent,
                children_of(cv, parent) == children_from(cv, parent, i as int),
            decreases n - i,
        {
            proof {
                assert(cv[i as int] == (self.children@[i as int].0, self.children@[i as int].1@));
            }
            if self.children[i].0 == parent {
                let mut entry = self.children.remove(i);
                entry.1.push(child);
                self.children.insert(i, entry);
                proof {
                    let ncv = self.children_view();
                    assert(ncv =~= cv.update(i as int, (parent, cv[i as int].1.push(child))));
                    lemma_children_update(cv, i as int, parent, child);
                }
                return;
            }
            i = i + 1;
        }
        let mut fresh: Vec<u128> = Vec::new();
        fresh.push(child);
        self.children.push((parent, fresh));
        proof {
            let ncv = self.children_view();
            assert(ncv =~= cv.push((parent, seq![child])));
            lemma_children_push(cv, parent, child);
        }
    }

    /// The block with id `id`, if held.
    pub fn get_block(&self, id: &u128) -> (r: Option<&Block>)
        ensures
            match index_of_id(self.blocks_view(), *id) {
                Some(i) => r matches Some(b) && b@ == self.blocks_view()[i],
                None => r is None,
            },
    {
        match self.find_by_id(*id) {
            Some(i) => {
                assert(self.blocks_view()[i as int] == self.blocks@[i as int]@);
                Some(&self.blocks[i])
            },
            None => None,
        }
    }

    /// Whether block `block_b` is `block_a` or one of its ancestors. A walk
    /// is cut off after as many parent steps as there are blocks held, which
    /// only a cycle of parent hashes could need.
    pub fn extends(&self, block_a: &u128, block_b: &u128) -> (r: bool)
        ensures
            r == reaches(self.blocks_view(), *block_a, *block_b, self.blocks_view().len()),
    {
        let ghost bs = self.blocks_view();
        let n = self.blocks.len();
        let mut current: u128 = *block_a;
        let mut fuel: usize = n;
        loop
            invariant
                bs == self.blocks_view(),
                n == bs.len(),
                fuel <= n,
                reaches(bs, *block_a, *block_b, n as nat) == reaches(bs, current, *block_b, fuel as nat),
            decreases fuel,
        {
            if current == *block_b {
                return true;
            }
            if fuel == 0 {
                return false;
            }
            match self.find_by_id(current) {
                None => {
                    return false;
                },
                Some(i) => {
                    match self.find_by_hash(&self.blocks[i].parent_hash) {
                        None => {
                            return false;
                        },
                        Some(j) => {
                            current = self.blocks[j].id;
                            fuel = fuel - 1;
                        },
                    }
                },
            }
        }
    }

    /// Whether the block `block_id`, its parent and its grandparent are all
    /// held: the chain the commit rule asks for.
    pub fn has_three_chain(&self, block_id: &u128) -> (r: bool)
        ensures
            r == three_chain(self.blocks_view(), *block_id),
            r && distinct_ids(self.blocks_view()) ==> exists|i: int, j: int, k: int| #[trigger] linked_three(
                self.blocks_view(),
                *block_id,
                i,
                j,
                k,
            ),
    {
        proof {
            if distinct_ids(self.blocks_view()) {
                three_chain_is_three_linked_blocks(self.blocks_view(), *block_id);
            }
        }
        match self.find_by_id(*block_id) {
            None => false,
            Some(i) => match self.find_by_hash(&self.blocks[i].parent_hash) {
                None => false,
                Some(j) => match self.find_by_id(self.blocks[j].id) {
                    None => false,
                    Some(j2) => match self.find_by_hash(&self.blocks[j2].parent_hash) {
                        None => false,
                        Some(k) => self.find_by_id(self.blocks[k].id).is_some(),
                    },
                },
            },
        }
    }
}

/// Timeout state management.
#[derive(Debug, Clone, Copy)]
pub struct TimeoutState {
    /// Time of the last timeout, milliseconds since the Unix epoch.
    pub last_timeout: Option<i64>,
    /// Current timeout duration, milliseconds.
    pub current_timeout_ms: u64,
    /// Number of consecutive timeouts.
    pub timeout_count: u32,
}

/// The timeout after a backoff step: half as long again, at most
/// `u64::MAX` milliseconds.
pub open spec fn backoff(current: u64) -> u64 {
    if current + current / 2 > u64::MAX {
        u64::MAX
    } else {
        (current + current / 2) as u64
    }
}

impl TimeoutState {
    /// No timeout yet; a one second timeout.
    pub fn new() -> (r: Self)
        ensures
            r.last_timeout is None,
            r.current_timeout_ms == 1000,
            r.timeout_count == 0,
    {
        TimeoutState { last_timeout: None, current_timeout_ms: 1000, timeout_count: 0 }
    }

    /// Back to the initial state.
    pub fn reset(&mut self)
        ensures
            final(self).last_timeout is None,
            final(self).current_timeout_ms == 1000,
            final(self).timeout_count == 0,
    {
        self.last_timeout = None;
        self.current_timeout_ms = 1000;
        self.timeout_count = 0;
    }

    /// Records a timeout at time `now` and backs off.
    pub fn record_timeout_at(&mut self, now: i64)
        requires
            old(self).timeout_count < u32::MAX,
        ensures
            final(self).last_timeout == Some(now),
            final(self).timeout_count == old(self).timeout_count + 1,
            final(self).current_timeout_ms == backoff(old(self).current_timeout_ms),
    {
        self.last_timeout = Some(now);
        self.timeout_count = self.timeout_count + 1;
        let half = self.current_timeout_ms / 2;
        if self.current_timeout_ms > u64::MAX - half {
            self.current_timeout_ms = u64::MAX;
        } else {
            self.current_timeout_ms = self.current_timeout_ms + half;
        }
    }

    /// Records a timeout now, by the clock, and backs off.
    pub fn record_timeout(&mut self)
        requires
            old(self).timeout_count < u32::MAX,
        ensures
            final(self).last_timeout is Some,
            final(self).timeout_count == old(self).timeout_count + 1,
            final(self).current_timeout_ms == backoff(old(self).current_timeout_ms),
    {
        self.record_timeout_at(now_millis());
    }

    /// Whether more than `timeout_ms` milliseconds passed between the last
    /// timeout and `now` (the elapsed time read as an unsigned number).
    pub open spec fn timed_out_at(&self, now: i64, timeout_ms: u64) -> bool {
        match self.last_timeout {
            None => false,
            Some(t) => ((now as int - t as int) as u64) > timeout_ms,
        }
    }

    pub fn should_timeout_at(&self, now: i64, timeout_ms: u64) -> (r: bool)
        ensures
            r == self.timed_out_at(now, timeout_ms),
    {
        match self.last_timeout {
            None => false,
            Some(t) => {
                let elapsed = (now as i128) - (t as i128);
                (elapsed as u64) > timeout_ms
            },
        }
    }

    /// Whether the timeout passed, by the clock.
    pub fn should_timeout(&self, timeout_ms: u64) -> (r: bool)
        ensures
            self.last_timeout is None ==> !r,
            exists|now: i64| r == #[trigger] self.timed_out_at(now, timeout_ms),
    {
        self.should_timeout_at(now_millis(), timeout_ms)
    }
}

/// HotStuff consensus state.
#[derive(Debug, Clone)]
pub struct HotStuffState {
    /// Current view number.
    pub view: ViewNumber,
    /// Current consensus phase.
    pub phase: HotStuffPhase,
    /// Highest quorum certificate seen.
    pub high_qc: Option<QuorumCertificate>,
    /// Locked quorum certificate (for safety).
    pub locked_qc: Option<QuorumCertificate>,
    /// Last committed block.
    pub last_committed_block: Option<Block>,
    /// Current pending block.
    pub pending_block: Option<Block>,
    /// Generic quorum certificate of the current view.
    pub generic_qc: Option<QuorumCertificate>,
    /// Block tree for safety checks.
    pub block_tree: BlockTree,
    /// Timeout state.
    pub timeout_state: TimeoutState,
}

/// The view of an optional certificate.
pub open spec fn opt_qc_view(q: Option<QuorumCertificate>) -> Option<u64> {
    match q {
        Some(qc) => Some(qc.view.0),
        None => None,
    }
}

impl HotStuffState {
    pub fn new(initial_view: ViewNumber) -> (r: Self)
        ensures
            r.view == initial_view,
            r.phase == HotStuffPhase::Prepare,
            r.high_qc is None,
            r.locked_qc is None,
            r.last_committed_block is None,
            r.pending_block is None,
            r.generic_qc is None,
            r.block_tree.blocks_view().len() == 0,
            r.timeout_state.last_timeout is None,
            r.timeout_state.current_timeout_ms == 1000,
            r.timeout_state.timeout_count == 0,
    {
        HotStuffState {
            view: initial_view,
            phase: HotStuffPhase::Prepare,
            high_qc: None,
            locked_qc: None,
            last_committed_block: None,
            pending_block: None,
            generic_qc: None,
            block_tree: BlockTree::new(),
            timeout_state: TimeoutState::new(),
        }
    }

    /// Moves to `new_view` if it is later than the current view: phase back
    /// to prepare, pending block dropped, timeouts reset. Never moves back.
    pub fn advance_to_view(&mut self, new_view: ViewNumber)
        ensures
            new_view.0 > old(self).view.0 ==> {
                &&& final(self).view == new_view
                &&& final(self).phase == HotStuffPhase::Prepare
                &&& final(self).pending_block is None
                &&& final(self).timeout_state.last_timeout is None
                &&& final(self).timeout_state.current_timeout_ms == 1000
                &&& final(self).timeout_state.timeout_count == 0
                &&& final(self).high_qc == old(self).high_qc
                &&& final(self).locked_qc == old(self).locked_qc
                &&& final(self).last_committed_block == old(self).last_committed_block
                &&& final(self).generic_qc == old(self).generic_qc
                &&& final(self).block_tree == old(self).block_tree
            },
            new_view.0 <= old(self).view.0 ==> *final(self) == *old(self),
            final(self).view.0 >= old(self).view.0,
    {
        if new_view.0 > self.view.0 {
            self.view = new_view;
            self.phase = HotStuffPhase::Prepare;
            self.pending_block = None;
            self.timeout_state.reset();
        }
    }

    /// Keeps `qc` as the highest certificate if there is none yet or it is
    /// of a later view. The view of the highest certificate never decreases.
    pub fn update_high_qc(&mut self, qc: QuorumCertificate)
        ensures
            (old(self).high_qc is None || qc.view.0 > old(self).high_qc->0.view.0) ==> final(self).high_qc
                == Some(qc),
            !(old(self).high_qc is None || qc.view.0 > old(self).high_qc->0.view.0) ==> final(self).high_qc
                == old(self).high_qc,
            final(self).high_qc is Some,
            old(self).high_qc is Some ==> final(self).high_qc->0.view.0 >= old(self).high_qc->0.view.0,
            final(self).view == old(self).view,
            final(self).phase == old(self).phase,
            final(self).locked_qc == old(self).locked_qc,
            final(self).last_committed_block == old(self).last_committed_block,
            final(self).pending_block == old(self).pending_block,
            final(self).generic_qc == old(self).generic_qc,
            final(self).block_tree == old(self).block_tree,
            final(self).timeout_state == old(self).timeout_state,
    {
        let replace = match &self.high_qc {
            None => true,
            Some(current) => qc.view.0 > current.view.0,
        };
        if replace {
            self.high_qc = Some(qc);
        }
    }

    /// The block the three-chain commit rule commits, if any: the block of
    /// the highest certificate, when it and its parent and grandparent are
    /// in the block tree.
    pub fn check_commit_condition(&self) -> (r: Option<Block>)
        ensures
            ({
                let bs = self.block_tree.blocks_view();
                match self.high_qc {
                    None => r is None,
                    Some(qc) => match index_of_id(bs, qc.block_id) {
                        None => r is None,
                        Some(i) => if three_chain(bs, bs[i].id) {
                            r matches Some(b) && b@ == bs[i]
                        } else {
                            r is None
                        },
                    },
                }
            }),
            r matches Some(b) ==> three_chain(self.block_tree.blocks_view(), b.id),
            r is Some && distinct_ids(self.block_tree.blocks_view()) ==> exists|i: int, j: int, k: int|
                #[trigger] linked_three(self.block_tree.blocks_view(), r->0.id, i, j, k),
    {
        match &self.high_qc {
            None => None,
            Some(high_qc) => match self.block_tree.get_block(&high_qc.block_id) {
                None => None,
                Some(block) => {
                    if self.block_tree.has_three_chain(&block.id) {
                        let c = block.copied();
                        assert(c.id == block.id);
                        Some(c)
                    } else {
                        None
                    }
                },
            },
        }
    }

    /// Whether voting is safe: always without a lock; with a lock, only for
    /// a justifying certificate of a later view than the lock's, or whose
    /// block extends the locked block.
    pub fn is_safe_to_vote(&self, block: &Block, qc: Option<&QuorumCertificate>) -> (r: bool)
        ensures
            match self.locked_qc {
                None => r,
                Some(locked) => match qc {
                    None => !r,
                    Some(q) => r == (q.view.0 > locked.view.0 || reaches(
                        self.block_tree.blocks_view(),
                        q.block_id,
                        locked.block_id,
                        self.block_tree.blocks_view().len(),
                    )),
                },
            },
    {
        match &self.locked_qc {
            Some(locked_qc) => match qc {
                Some(qc) => qc.view.0 > locked_qc.view.0 || self.block_tree.extends(&qc.block_id, &locked_qc.block_id),
                None => false,
            },
            None => true,
        }
    }
}

/// Types of consensus messages.
#[derive(Debug, Clone)]
pub enum ConsensusMessage {
    /// Block proposal.
    Proposal { block: Block, view: ViewNumber, qc: Option<QuorumCertificate> },
    /// Vote message.
    Vote(Vote),
    /// View change message.
    ViewChange { new_view: ViewNumber, from: NodeId, prepare_qc: Option<QuorumCertificate> },
    /// New view message (from the leader).
    NewView { view: ViewNumber, view_change_qc: QuorumCertificate },
    /// Request for missing blocks.
    SyncRequest { from_height: u64, to_height: u64 },
    /// Response with requested blocks.
    SyncResponse { blocks: Vec<Block> },
}

/// HotStuff-specific message types.
#[derive(Debug, Clone)]
pub enum HotStuffMessage {
    /// Block proposal with justification.
    Proposal { block: Block, view: ViewNumber, justify: Option<QuorumCertificate> },
    /// Vote message.
    Vote(Vote),
    /// New view message from the leader.
    NewView { view: ViewNumber, high_qc: QuorumCertificate },
    /// Timeout notification.
    TimeoutNotification { view: ViewNumber },
}

impl HotStuffMessage {
    /// The generic consensus message carrying the same content; a timeout
    /// becomes a view change to the next view, from a fresh node id that the
    /// network layer replaces.
    pub fn into_consensus_message(self) -> (r: ConsensusMessage)
        requires
            self matches HotStuffMessage::TimeoutNotification { view } ==> view.0 < u64::MAX,
        ensures
            match self {
                HotStuffMessage::Proposal { block, view, justify } => r == ConsensusMessage::Proposal {
                    block,
                    view,
                    qc: justify,
                },
                HotStuffMessage::Vote(v) => r == ConsensusMessage::Vote(v),
                HotStuffMessage::NewView { view, high_qc } => r == ConsensusMessage::NewView {
                    view,
                    view_change_qc: high_qc,
                },
                HotStuffMessage::TimeoutNotification { view } => r matches ConsensusMessage::ViewChange {
                    new_view,
                    from,
                    prepare_qc,
                } && new_view.0 == view.0 + 1 && prepare_qc is None,
            },
    {
        match self {
            HotStuffMessage::Proposal { block, view, justify } => ConsensusMessage::Proposal {
                block,
                view,
                qc: justify,
            },
            HotStuffMessage::Vote(vote) => ConsensusMessage::Vote(vote),
            HotStuffMessage::NewView { view, high_qc } => ConsensusMessage::NewView {
                view,
                view_change_qc: high_qc,
            },
            HotStuffMessage::TimeoutNotification { view } => ConsensusMessage::ViewChange {
                new_view: view.next(),
                from: NodeId(fresh_uuid_value()),
                prepare_qc: None,
            },
        }
    }
}

/// The position of the first vote by `voter`, from position `i` on.
pub open spec fn first_by_voter(votes: Seq<VoteView>, voter: NodeId, i: int) -> Option<int>
    decreases votes.len() - i,
{
    if i < 0 || i >= votes.len() {
        None
    } else if votes[i].voter == voter {
        Some(i)
    } else {
        first_by_voter(votes, voter, i + 1)
    }
}

proof fn lemma_first_by_voter(votes: Seq<VoteView>, voter: NodeId, i: int)
    requires
        0 <= i,
    ensures
        first_by_voter(votes, voter, i) matches Some(j) ==> i <= j < votes.len() && votes[j].voter == voter,
    decreases votes.len() - i,
{
    if i < votes.len() {
        lemma_first_by_voter(votes, voter, i + 1);
    }
}

/// `votes` with `v` in place of the first vote by the same voter, or with
/// `v` appended when that voter has not voted.
pub open spec fn with_vote(votes: Seq<VoteView>, v: VoteView) -> Seq<VoteView> {
    match first_by_voter(votes, v.voter, 0) {
        Some(p) => votes.update(p, v),
        None => votes.push(v),
    }
}

/// Vote aggregation by view and vote type.
#[derive(Debug)]
pub struct VoteAggregator {
    /// Votes by (view, vote type), at most one per voter.
    votes: Vec<((ViewNumber, VoteType), Vec<Vote>)>,
    /// Required quorum size.
    quorum_size: usize,
}

impl VoteAggregator {
    /// The vote groups, oldest first.
    pub closed spec fn groups(&self) -> Seq<((u64, VoteType), Seq<VoteView>)> {
        self.votes@.map_values(|g: ((ViewNumber, VoteType), Vec<Vote>)| ((g.0.0.0, g.0.1), votes_view(g.1@)))
    }

    pub closed spec fn quorum(&self) -> usize {
        self.quorum_size
    }

    /// The votes gathered for view and type `k`.
    pub open spec fn group_votes(&self, k: (u64, VoteType)) -> Seq<VoteView> {
        match assoc_get(self.groups(), k) {
            Some(vs) => vs,
            None => Seq::empty(),
        }
    }

    pub fn new(quorum_size: usize) -> (r: Self)
        ensures
            r.quorum() == quorum_size,
            r.groups().len() == 0,
    {
        let r = VoteAggregator { votes: Vec::new(), quorum_size };
        assert(r.groups() =~= Seq::<((u64, VoteType), Seq<VoteView>)>::empty());
        r
    }

    /// Adds a vote (replacing an earlier vote by the same voter for the same
    /// view and type); returns a certificate over the group once it holds
    /// the quorum.
    pub fn add_vote(&mut self, vote: Vote) -> (r: Option<QuorumCertificate>)
        ensures
            final(self).quorum() == old(self).quorum(),
            ({
                let k = (vote.view.0, vote.vote_type);
                let now = with_vote(old(self).group_votes(k), vote@);
                &&& final(self).group_votes(k) == now
                &&& forall|k2: (u64, VoteType)| k2 != k ==> #[trigger] final(self).group_votes(k2) == old(self).group_votes(k2)
                &&& (r is Some <==> now.len() >= old(self).quorum())
                &&& (r matches Some(qc) ==> qc@.votes == now && qc@.view == now[0].view
                    && qc@.block_id == now[0].block_id)
            }),
    {
        let k = (vote.view.0, vote.vote_type);
        let ghost gs = self.groups();
        let n = self.votes.len();
        let mut g: usize = 0;
        while g < n
            invariant
                n == self.votes@.len(),
                gs == self.groups(),
                *self == *old(self),
                k == (vote.view.0, vote.vote_type),
                g <= n,
                forall|m: int| 0 <= m < g ==> gs[m].0 != k,
            decreases n - g,
        {
            proof {
                assert(gs[g as int].0 == (self.votes@[g as int].0.0.0, self.votes@[g as int].0.1));
            }
            if self.votes[g].0.0.0 == k.0 && self.votes[g].0.1 == k.1 {
                proof {
                    lemma_assoc_update(gs, g as int, k, gs[g as int].1);
                }
                let mut group = self.votes.remove(g);
                let ghost before = votes_view(group.1@);
                let found = find_voter(&group.1, vote.voter);
                let ghost vv = vote@;
                proof {
                    lemma_first_by_voter(before, vote.voter, 0);
                }
                if let Some(p) = found {
                    group.1.set(p, vote);
                    proof {
                        assert(votes_view(group.1@) =~= before.update(p as int, vv));
                    }
                } else {
                    group.1.push(vote);
                    proof {
                        assert(votes_view(group.1@) =~= before.push(vv));
                    }
                }
                let count = group.1.len();
                let qc = if count >= self.quorum_size {
                    Some(QuorumCertificate::new(copy_votes_local(&group.1)))
                } else {
                    None
                };
                let ghost newv = votes_view(group.1@);
                self.votes.insert(g, group);
                proof {
                    assert(self.groups() =~= gs.update(g as int, (k, newv)));
                    lemma_assoc_update(gs, g as int, k, newv);
                    assert(old(self).group_votes(k) == before);
                }
                return qc;
            }
            g = g + 1;
        }
        proof {
            lemma_assoc_skip(gs, k, n as int);
        }
        let mut fresh: Vec<Vote> = Vec::new();
        let ghost vv = vote@;
        fresh.push(vote);
        let qc = if 1 >= self.quorum_size {
            Some(QuorumCertificate::new(copy_votes_local(&fresh)))
        } else {
            None
        };
        let ghost newv = votes_view(fresh@);
        assert(newv =~= seq![vv]);
        self.votes.push(((ViewNumber(k.0), k.1), fresh));
        proof {
            assert(self.groups() =~= gs.push((k, newv)));
            lemma_assoc_push(gs, k, newv);
            assert(newv =~= Seq::<VoteView>::empty().push(vv));
        }
        qc
    }

    /// Drops the votes of views before `view`.
    pub fn clear_view(&mut self, view: ViewNumber)
        ensures
            final(self).quorum() == old(self).quorum(),
            final(self).groups() == old(self).groups().filter(
                |g: ((u64, VoteType), Seq<VoteView>)| g.0.0 >= view.0,
            ),
    {
        let ghost pred = |g: ((u64, VoteType), Seq<VoteView>)| g.0.0 >= view.0;
        let ghost old_groups = self.groups();
        let mut old_votes: Vec<((ViewNumber, VoteType), Vec<Vote>)> = Vec::new();
        std::mem::swap(&mut old_votes, &mut self.votes);
        let n = old_votes.len();
        let mut idx: usize = 0;
        assert(old_votes@.map_values(
            |g: ((ViewNumber, VoteType), Vec<Vote>)| ((g.0.0.0, g.0.1), votes_view(g.1@)),
        ) =~= old_groups);
        while idx < n
            invariant
                n == old_votes@.len(),
                idx <= n,
                self.quorum() == old(self).quorum(),
                old_groups == old_votes@.map_values(
                    |g: ((ViewNumber, VoteType), Vec<Vote>)| ((g.0.0.0, g.0.1), votes_view(g.1@)),
                ),
                self.groups() == old_groups.take(idx as int).filter(pred),
                pred == (|g: ((u64, VoteType), Seq<VoteView>)| g.0.0 >= view.0),
            decreases n - idx,
        {
            proof {
                reveal_with_fuel(Seq::<_>::filter, 1);
                assert(old_groups.take(idx + 1).drop_last() =~= old_groups.take(idx as int));
            }
            let g = &old_votes[idx];
            if g.0.0.0 >= view.0 {
                let copy = ((g.0.0, g.0.1), copy_votes_local(&g.1));
                let ghost before = self.groups();
                self.votes.push(copy);
                proof {
                    assert(self.groups() =~= before.push(((g.0.0.0, g.0.1), votes_view(g.1@))));
                }
            }
            idx = idx + 1;
        }
        assert(old_groups.take(n as int) =~= old_groups);
    }
}

/// The position of the first vote by `voter` in `votes`.
fn find_voter(votes: &Vec<Vote>, voter: NodeId) -> (r: Option<usize>)
    ensures
        match first_by_voter(votes_view(votes@), voter, 0) {
            Some(j) => r == Some(j as usize),
            None => r is None,
        },
{
    let ghost vs = votes_view(votes@);
    let n = votes.len();
    let mut p: usize = 0;
    while p < n
        invariant
            n == votes@.len(),
            vs == votes_view(votes@),
            p <= n,
            first_by_voter(vs, voter, 0) == first_by_voter(vs, voter, p as int),
        decreases n - p,
    {
        proof {
            assert(vs[p as int] == votes@[p as int]@);
        }
        if votes[p].voter == voter {
            return Some(p);
        }
        p = p + 1;
    }
    None
}

fn copy_votes_local(votes: &Vec<Vote>) -> (r: Vec<Vote>)
    ensures
        votes_view(r@) == votes_view(votes@),
{
    crate::consensus::types::copy_votes(votes)
}

/// Whether two byte vectors hold the same bytes.
pub fn bytes_equal(a: &Vec<u8>, b: &Vec<u8>) -> (r: bool)
    ensures
        r == (a@ == b@),
{
    if a.len() != b.len() {
        return false;
    }
    let n = a.len();
    let mut i: usize = 0;
    while i < n
        invariant
            n == a@.len(),
            n == b@.len(),
            i <= n,
            forall|k: int| 0 <= k < i ==> a@[k] == b@[k],
        decreases n - i,
    {
        if a[i] != b[i] {
            return false;
        }
        i = i + 1;
    }
    assert(a@ =~= b@);
    true
}

proof fn lemma_children_from_update(cs: Seq<(u128, Seq<u128>)>, i: int, parent: u128, v: Seq<u128>, q: u128, m: int)
    requires
        0 <= i < cs.len(),
        cs[i].0 == parent,
        0 <= m <= i,
        forall|k: int| 0 <= k < i ==> cs[k].0 != parent,
    ensures
        q == parent ==> children_from(cs.update(i, (parent, v)), q, m) == v,
        q == parent ==> children_from(cs, q, m) == cs[i].1,
        q != parent ==> children_from(cs.update(i, (parent, v)), q, m) == children_from(cs, q, m),
    decreases i - m,
{
    if m < i {
        lemma_children_from_update(cs, i, parent, v, q, m + 1);
    } else {
        if q != parent {
            lemma_children_from_same_tail(cs, cs.update(i, (parent, v)), q, i + 1);
        }
    }
}

proof fn lemma_children_from_same_tail(a: Seq<(u128, Seq<u128>)>, b: Seq<(u128, Seq<u128>)>, q: u128, m: int)
    requires
        a.len() == b.len(),
        0 <= m,
        forall|k: int| m <= k < a.len() ==> a[k] == b[k],
    ensures
        children_from(a, q, m) == children_from(b, q, m),
    decreases a.len() - m,
{
    if m < a.len() {
        lemma_children_from_same_tail(a, b, q, m + 1);
    }
}

proof fn lemma_children_update(cs: Seq<(u128, Seq<u128>)>, i: int, parent: u128, child: u128)
    requires
        0 <= i < cs.len(),
        cs[i].0 == parent,
        forall|k: int| 0 <= k < i ==> cs[k].0 != parent,
    ensures
        children_of(cs.update(i, (parent, cs[i].1.push(child))), parent) == children_of(cs, parent).push(child),
        forall|q: u128|
            q != parent ==> #[trigger] children_of(cs.update(i, (parent, cs[i].1.push(child))), q)
                == children_of(cs, q),
{
    lemma_children_from_update(cs, i, parent, cs[i].1.push(child), parent, 0);
    assert forall|q: u128| q != parent implies #[trigger] children_of(cs.update(i, (parent, cs[i].1.push(child))), q)
        == children_of(cs, q) by {
        lemma_children_from_update(cs, i, parent, cs[i].1.push(child), q, 0);
    }
}

proof fn lemma_children_from_push(cs: Seq<(u128, Seq<u128>)>, parent: u128, v: Seq<u128>, q: u128, m: int)
    requires
        0 <= m <= cs.len(),
        forall|k: int| 0 <= k < cs.len() ==> cs[k].0 != parent,
    ensures
        q == parent ==> children_from(cs.push((parent, v)), q, m) == v,
        q == parent ==> children_from(cs, q, m) == Seq::<u128>::empty(),
        q != parent ==> children_from(cs.push((parent, v)), q, m) == children_from(cs, q, m),
    decreases cs.len() - m,
{
    if m < cs.len() {
        lemma_children_from_push(cs, parent, v, q, m + 1);
        assert(cs.push((parent, v))[m] == cs[m]);
    } else {
        assert(cs.push((parent, v))[m] == (parent, v));
        assert(children_from(cs.push((parent, v)), q, m + 1) == Seq::<u128>::empty());
    }
}

proof fn lemma_children_push(cs: Seq<(u128, Seq<u128>)>, parent: u128, child: u128)
    requires
        forall|k: int| 0 <= k < cs.len() ==> cs[k].0 != parent,
    ensures
        children_of(cs.push((parent, seq![child])), parent) == children_of(cs, parent).push(child),
        forall|q: u128|
            q != parent ==> #[trigger] children_of(cs.push((parent, seq![child])), q) == children_of(cs, q),
{
    lemma_children_from_push(cs, parent, seq![child], parent, 0);
    assert(seq![child] =~= Seq::<u128>::empty().push(child));
    assert forall|q: u128| q != parent implies #[trigger] children_of(cs.push((parent, seq![child])), q)
        == children_of(cs, q) by {
        lemma_children_from_push(cs, parent, seq![child], q, 0);
    }
}

} // verus!
