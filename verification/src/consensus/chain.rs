//! The finalized chain from the last summary block to the tip.
use super::types::Block;
use std::collections::BTreeMap;
use vstd::prelude::*;

verus! {

broadcast use vstd::std_specs::btree::group_btree_axioms;

/// The blocks at the start of `walk` that are not below `start_height`.
pub open spec fn walked_down_to<E>(walk: Seq<Block<E>>, start_height: u64) -> Seq<Block<E>>
    decreases walk.len(),
{
    if walk.len() == 0 || walk[0].height < start_height {
        Seq::empty()
    } else {
        seq![walk[0]] + walked_down_to(walk.drop_first(), start_height)
    }
}

/// `blocks` after each of `added` was put at its height, one after the other.
pub open spec fn with_blocks<E>(blocks: Map<u64, Block<E>>, added: Seq<Block<E>>) -> Map<
    u64,
    Block<E>,
>
    decreases added.len(),
{
    if added.len() == 0 {
        blocks
    } else {
        with_blocks(blocks, added.drop_last()).insert(added.last().height, added.last())
    }
}

/// Why a payload is not in the chain.
#[derive(Clone, Copy, Debug, PartialEq, Eq)]
pub enum ConsensusBlockChainErr {
    BlockNotFound(u64),
    EcdsaPayloadNotFound(u64),
}

/// The finalized blocks between the summary block and the tip, both included.
#[derive(Clone, Debug)]
pub struct ConsensusBlockChainImpl<E> {
    /// The blocks by height.
    pub blocks: BTreeMap<u64, Block<E>>,
}

impl<E> View for ConsensusBlockChainImpl<E> {
    type V = Map<u64, Block<E>>;

    open spec fn view(&self) -> Map<u64, Block<E>> {
        self.blocks@
    }
}

/// Whether `low` is the least height in `blocks`.
pub open spec fn is_first<E>(blocks: Map<u64, Block<E>>, low: u64) -> bool {
    blocks.contains_key(low) && forall|h: u64| #[trigger] blocks.contains_key(h) ==> low <= h
}

/// Whether `high` is the greatest height in `blocks`.
pub open spec fn is_last<E>(blocks: Map<u64, Block<E>>, high: u64) -> bool {
    blocks.contains_key(high) && forall|h: u64| #[trigger] blocks.contains_key(h) ==> h <= high
}

/// The least height in `blocks`.
pub open spec fn first_height<E>(blocks: Map<u64, Block<E>>) -> u64 {
    choose|low: u64| is_first(blocks, low)
}

/// The greatest height in `blocks`.
pub open spec fn last_height<E>(blocks: Map<u64, Block<E>>) -> u64 {
    choose|high: u64| is_last(blocks, high)
}

/// The least and the greatest height of a chain.
fn ends<E>(blocks: &BTreeMap<u64, Block<E>>) -> (r: (u64, u64))
    requires
        blocks@.len() > 0,
    ensures
        is_first(blocks@, r.0),
        is_last(blocks@, r.1),
        r.0 == first_height(blocks@),
        r.1 == last_height(blocks@),
{
    let mut low: u64 = u64::MAX;
    let mut high: u64 = 0;
    let ghost mut seen: Set<u64> = Set::empty();
    for key in keys: blocks.keys()
        invariant
            forall|h: u64| #[trigger] seen.contains(h) ==> low <= h <= high,
            keys.index() > 0 ==> seen.contains(low) && seen.contains(high),
            keys.index() == 0 ==> low == u64::MAX && high == 0,
            seen == keys.seq().unref().take(keys.index() as int).to_set(),
            keys.index() == keys.seq().len() && keys.index() > 0 ==> seen == blocks@.dom(),
            keys.seq().unref().to_set() == blocks@.dom(),
            keys.seq().len() == blocks@.dom().len(),
    {
        proof {
            let all = keys.seq().unref();
            let i = keys.index() as int;
            assert(all[i] == *key);
            assert(all.take(i + 1) =~= all.take(i).push(*key));
            assert forall|h: u64| all.take(i + 1).to_set().contains(h) <==> #[trigger] seen.insert(
                *key,
            ).contains(h) by {
                if seen.contains(h) {
                    let j = choose|j: int| 0 <= j < i && all.take(i)[j] == h;
                    assert(all.take(i + 1)[j] == h);
                }
                if h == *key {
                    assert(all.take(i + 1)[i] == h);
                }
            }
            seen = seen.insert(*key);
            assert(all.take(i + 1).to_set() =~= seen);
            assert(i + 1 == all.len() ==> all.take(i + 1) =~= all);
        }
        if *key <= low {
            low = *key;
        }
        if *key >= high {
            high = *key;
        }
    }
    assert(is_first(blocks@, low));
    assert(is_last(blocks@, high));
    (low, high)
}

/// Whether the chain `blocks` is not empty and can follow a summary block and a tip at
/// these heights: the tip is not below the last block, or, with another summary block,
/// not below that.
pub open spec fn movable<E>(
    blocks: Map<u64, Block<E>>,
    summary_height: u64,
    tip_height: u64,
) -> bool {
    &&& blocks.len() > 0
    &&& if first_height(blocks) == summary_height {
        last_height(blocks) <= tip_height
    } else {
        summary_height <= tip_height
    }
}

/// The chain `blocks` after it was told of the summary block and of the tip at
/// these heights, and of the blocks from the tip down.
///
/// If the summary block is the one that the chain starts at, the blocks above
/// the last one are added. Otherwise the chain is built anew.
pub open spec fn moved_to<E>(
    blocks: Map<u64, Block<E>>,
    walk: Seq<Block<E>>,
    summary_height: u64,
    tip_height: u64,
) -> Map<u64, Block<E>> {
    if first_height(blocks) != summary_height {
        with_blocks(Map::empty(), walked_down_to(walk, summary_height))
    } else if last_height(blocks) < tip_height {
        with_blocks(blocks, walked_down_to(walk, (last_height(blocks) + 1) as u64))
    } else {
        blocks
    }
}

/// The ECDSA payload at `height`, or why there is none.
pub open spec fn payload_at<E>(blocks: Map<u64, Block<E>>, height: u64) -> Result<
    E,
    ConsensusBlockChainErr,
> {
    if !blocks.contains_key(height) {
        Err(ConsensusBlockChainErr::BlockNotFound(height))
    } else {
        match blocks[height].payload.ecdsa {
            Some(payload) => Ok(payload),
            None => Err(ConsensusBlockChainErr::EcdsaPayloadNotFound(height)),
        }
    }
}

impl<E: Copy> ConsensusBlockChainImpl<E> {
    /// The chain from `summary_block` to `tip`, where `walk` holds the blocks
    /// from the tip down.
    pub fn new(walk: &Vec<Block<E>>, summary_block: &Block<E>, tip: &Block<E>) -> (r: Self)
        requires
            summary_block.height <= tip.height,
        ensures
            r@ == with_blocks(Map::empty(), walked_down_to(walk@, summary_block.height)),
    {
        let mut blocks: BTreeMap<u64, Block<E>> = BTreeMap::new();
        Self::add_blocks(walk, summary_block.height, &mut blocks);
        ConsensusBlockChainImpl { blocks }
    }

    /// Checks that the chain is not empty and can follow this summary block and tip.
    pub fn can_move(&self, summary_block: &Block<E>, tip: &Block<E>) -> (r: bool)
        ensures
            r == movable(self@, summary_block.height, tip.height),
    {
        if self.blocks.len() == 0 {
            return false;
        }
        let (cur_summary_height, cur_tip_height) = ends(&self.blocks);
        if cur_summary_height == summary_block.height {
            cur_tip_height <= tip.height
        } else {
            summary_block.height <= tip.height
        }
    }

    /// Follows the summary block and the tip, where `walk` holds the blocks from
    /// the tip down.
    pub fn update(&mut self, walk: &Vec<Block<E>>, summary_block: &Block<E>, tip: &Block<E>)
        requires
            movable(old(self)@, summary_block.height, tip.height),
        ensures
            final(self)@ == moved_to(old(self)@, walk@, summary_block.height, tip.height),
    {
        let (cur_summary_height, cur_tip_height) = ends(&self.blocks);
        let start_height: u64 = if cur_summary_height == summary_block.height {
            if cur_tip_height < tip.height {
                // Only the tip moved: append the new blocks.
                cur_tip_height + 1
            } else {
                return;
            }
        } else {
            // The summary block changed: rebuild the chain with the new range.
            self.blocks.clear();
            summary_block.height
        };
        Self::add_blocks(walk, start_height, &mut self.blocks);
    }

    /// Adds the blocks of `walk` down to `start_height`.
    pub fn add_blocks(walk: &Vec<Block<E>>, start_height: u64, blocks: &mut BTreeMap<u64, Block<E>>)
        ensures
            final(blocks)@ == with_blocks(old(blocks)@, walked_down_to(walk@, start_height)),
    {
        let mut i: usize = 0;
        proof {
            assert(walk@.skip(0) =~= walk@);
        }
        while i < walk.len() && walk[i].height >= start_height
            invariant
                i <= walk.len(),
                blocks@ == with_blocks(old(blocks)@, walk@.take(i as int)),
                walked_down_to(walk@, start_height) == walk@.take(i as int) + walked_down_to(
                    walk@.skip(i as int),
                    start_height,
                ),
            decreases walk.len() - i,
        {
            let block = walk[i];
            blocks.insert(block.height, block);
            proof {
                let k = i as int;
                assert(walk@.take(k + 1).drop_last() =~= walk@.take(k));
                assert(walk@.skip(k).drop_first() =~= walk@.skip(k + 1));
                assert(walk@.take(k) + (seq![block] + walked_down_to(walk@.skip(k + 1), start_height))
                    =~= walk@.take(k + 1) + walked_down_to(walk@.skip(k + 1), start_height));
            }
            i = i + 1;
        }
        assert(walk@.take(i as int) + Seq::<Block<E>>::empty() =~= walk@.take(i as int));
    }

    /// The last block.
    pub fn tip(&self) -> (r: Block<E>)
        requires
            self@.len() > 0,
        ensures
            r == self@[last_height(self@)],
            self@.contains_key(last_height(self@)),
            forall|h: u64| #[trigger] self@.contains_key(h) ==> h <= last_height(self@),
    {
        let (_, height) = ends(&self.blocks);
        let found = self.blocks.get(&height);
        *found.unwrap()
    }

    /// The ECDSA payload of the block at `height`.
    pub fn ecdsa_payload(&self, height: u64) -> (r: Result<E, ConsensusBlockChainErr>)
        ensures
            r == payload_at(self@, height),
            r matches Ok(payload) ==> self@.contains_key(height) && self@[height].payload.ecdsa
                == Some(payload),
            r is Ok <==> self@.contains_key(height) && self@[height].payload.ecdsa is Some,
    {
        match self.blocks.get(&height) {
            None => Err(ConsensusBlockChainErr::BlockNotFound(height)),
            Some(block) => match block.payload.ecdsa {
                None => Err(ConsensusBlockChainErr::EcdsaPayloadNotFound(height)),
                Some(payload) => Ok(payload),
            },
        }
    }

    /// The number of blocks.
    pub fn len(&self) -> (r: usize)
        ensures
            r == self@.len(),
    {
        self.blocks.len()
    }
}

/// Whether `walk` starts at a block of height `tip_height` and goes down height by
/// height.
pub open spec fn descends<E>(walk: Seq<Block<E>>, tip_height: u64) -> bool {
    &&& walk.len() > 0
    &&& forall|i: int| 0 <= i < walk.len() ==> (#[trigger] walk[i]).height == tip_height - i
}

/// Whether `blocks` holds the blocks of `walk` from `low` to `tip_height`, ends
/// included, and no others.
pub open spec fn holds_exactly<E>(
    blocks: Map<u64, Block<E>>,
    walk: Seq<Block<E>>,
    low: u64,
    tip_height: u64,
) -> bool {
    &&& forall|h: u64| #[trigger] blocks.contains_key(h) <==> low <= h <= tip_height
    &&& forall|h: u64| low <= h <= tip_height ==> #[trigger] blocks[h] == walk[tip_height - h]
}

/// A descending walk is cut at the height that it is asked for.
proof fn lemma_cut<E>(walk: Seq<Block<E>>, tip_height: u64, low: u64)
    requires
        descends(walk, tip_height),
        low <= tip_height,
        tip_height - low < walk.len(),
    ensures
        walked_down_to(walk, low) == walk.take(tip_height - low + 1),
    decreases walk.len(),
{
    let rest = walk.drop_first();
    if tip_height == low {
        if rest.len() > 0 {
            assert(rest[0] == walk[1]);
        }
        assert(walked_down_to(rest, low) =~= Seq::<Block<E>>::empty());
    } else {
        assert forall|i: int| 0 <= i < rest.len() implies (#[trigger] rest[i]).height == (tip_height
            - 1) - i by {
            assert(rest[i] == walk[i + 1]);
        }
        lemma_cut(rest, (tip_height - 1) as u64, low);
    }
    assert(walk[0].height == tip_height);
    assert(walked_down_to(walk, low) =~= walk.take(tip_height - low + 1));
}

/// Adding the first `n` blocks of a descending walk adds their heights.
proof fn lemma_added<E>(
    blocks: Map<u64, Block<E>>,
    walk: Seq<Block<E>>,
    tip_height: u64,
    n: int,
)
    requires
        descends(walk, tip_height),
        0 <= n <= walk.len(),
    ensures
        forall|h: u64| #[trigger]
            with_blocks(blocks, walk.take(n)).contains_key(h) <==> blocks.contains_key(h)
                || tip_height - n < h <= tip_height,
        forall|h: u64|
            tip_height - n < h <= tip_height ==> #[trigger] with_blocks(blocks, walk.take(n))[h]
                == walk[tip_height - h],
        forall|h: u64|
            blocks.contains_key(h) && !(tip_height - n < h <= tip_height) ==> #[trigger] with_blocks(
                blocks,
                walk.take(n),
            )[h] == blocks[h],
    decreases n,
{
    if n > 0 {
        lemma_added(blocks, walk, tip_height, n - 1);
        let before = with_blocks(blocks, walk.take(n - 1));
        assert(walk.take(n).drop_last() =~= walk.take(n - 1));
        assert(walk.take(n).last() == walk[n - 1]);
        assert(walk[n - 1].height == tip_height - (n - 1));
        assert(with_blocks(blocks, walk.take(n)) == before.insert(walk[n - 1].height, walk[n - 1]));
    } else {
        assert(with_blocks(blocks, walk.take(n)) == blocks);
    }
}

/// The first `n` blocks of a descending walk have `n` heights.
proof fn lemma_count<E>(walk: Seq<Block<E>>, tip_height: u64, n: int)
    requires
        descends(walk, tip_height),
        0 <= n <= walk.len(),
    ensures
        with_blocks(Map::<u64, Block<E>>::empty(), walk.take(n)).dom().finite(),
        with_blocks(Map::<u64, Block<E>>::empty(), walk.take(n)).len() == n,
    decreases n,
{
    let none = Map::<u64, Block<E>>::empty();
    if n > 0 {
        lemma_count(walk, tip_height, n - 1);
        lemma_added(none, walk, tip_height, n - 1);
        let before = with_blocks(none, walk.take(n - 1));
        assert(walk.take(n).drop_last() =~= walk.take(n - 1));
        assert(walk[n - 1].height == tip_height - (n - 1));
        assert(with_blocks(none, walk.take(n)) == before.insert(walk[n - 1].height, walk[n - 1]));
    } else {
        assert(with_blocks(none, walk.take(n)) == none);
    }
}

/// A chain that is built from a walk which goes down from the tip to the summary
/// block, height by height, holds the blocks between the two, ends included, and
/// no others. So it is never empty, its last block is the tip, and its length is
/// the number of heights in that range.
pub proof fn law_chain_reaches_from_summary_to_tip<E>(
    walk: Seq<Block<E>>,
    summary_height: u64,
    tip_height: u64,
)
    requires
        summary_height <= tip_height,
        descends(walk, tip_height),
        tip_height - summary_height < walk.len(),
    ensures
        ({
            let blocks = with_blocks(Map::empty(), walked_down_to(walk, summary_height));
            &&& holds_exactly(blocks, walk, summary_height, tip_height)
            &&& first_height(blocks) == summary_height
            &&& last_height(blocks) == tip_height
            &&& blocks[last_height(blocks)] == walk[0]
            &&& blocks.len() == tip_height - summary_height + 1
        }),
{
    let blocks = with_blocks(Map::<u64, Block<E>>::empty(), walked_down_to(walk, summary_height));
    lemma_cut(walk, tip_height, summary_height);
    lemma_added(Map::<u64, Block<E>>::empty(), walk, tip_height, tip_height - summary_height + 1);
    lemma_count(walk, tip_height, tip_height - summary_height + 1);
    assert(is_first(blocks, summary_height));
    assert(is_last(blocks, tip_height));
}

/// A chain that held the blocks from the summary block to its tip, and is told of a
/// summary block, of a tip, and of a walk that goes down from the tip to the summary
/// block, ends up with the blocks from the summary block to the tip, just as if it had
/// been built anew. If the summary block is still the same, the tip must not be lower,
/// and the walk must pass over the blocks that the chain holds.
pub proof fn law_update_is_rebuild<E>(
    blocks: Map<u64, Block<E>>,
    old_walk: Seq<Block<E>>,
    old_summary_height: u64,
    old_tip_height: u64,
    walk: Seq<Block<E>>,
    summary_height: u64,
    tip_height: u64,
)
    requires
        old_summary_height <= old_tip_height,
        holds_exactly(blocks, old_walk, old_summary_height, old_tip_height),
        summary_height <= tip_height,
        descends(walk, tip_height),
        tip_height - summary_height < walk.len(),
        summary_height == old_summary_height ==> old_tip_height <= tip_height,
        summary_height == old_summary_height ==> forall|h: u64| #[trigger]
            blocks.contains_key(h) ==> blocks[h] == walk[tip_height - h],
    ensures
        moved_to(blocks, walk, summary_height, tip_height) == with_blocks(
            Map::empty(),
            walked_down_to(walk, summary_height),
        ),
{
    assert(is_first(blocks, old_summary_height));
    assert(is_last(blocks, old_tip_height));
    let built = with_blocks(Map::<u64, Block<E>>::empty(), walked_down_to(walk, summary_height));
    lemma_cut(walk, tip_height, summary_height);
    lemma_added(Map::<u64, Block<E>>::empty(), walk, tip_height, tip_height - summary_height + 1);
    if old_summary_height == summary_height {
        let moved = moved_to(blocks, walk, summary_height, tip_height);
        if old_tip_height < tip_height {
            lemma_cut(walk, tip_height, (old_tip_height + 1) as u64);
            lemma_added(blocks, walk, tip_height, tip_height - old_tip_height);
        }
        assert forall|h: u64| #[trigger] moved.contains_key(h) implies moved[h] == built[h] by {
            if h <= old_tip_height {
                assert(blocks.contains_key(h));
            }
        }
        assert(moved =~= built);
    }
}

/// Whether `blocks` holds the heights from `low` to `high`, ends included, and no others,
/// and each block at its own height.
pub open spec fn holds_heights<E>(blocks: Map<u64, Block<E>>, low: u64, high: u64) -> bool {
    &&& low <= high
    &&& forall|h: u64| #[trigger] blocks.contains_key(h) <==> low <= h <= high
    &&& forall|h: u64| #[trigger] blocks.contains_key(h) ==> blocks[h].height == h
}

/// A chain that held the heights from its summary block to its tip, and can move to a
/// summary block and a tip, holds the heights from the one to the other afterwards, if
/// the walk goes down from the tip to the summary block. Which blocks the walk passes does
/// not matter.
pub proof fn law_move_keeps_heights<E>(
    blocks: Map<u64, Block<E>>,
    old_summary_height: u64,
    old_tip_height: u64,
    walk: Seq<Block<E>>,
    summary_height: u64,
    tip_height: u64,
)
    requires
        holds_heights(blocks, old_summary_height, old_tip_height),
        movable(blocks, summary_height, tip_height),
        descends(walk, tip_height),
        tip_height - summary_height < walk.len(),
    ensures
        holds_heights(
            moved_to(blocks, walk, summary_height, tip_height),
            summary_height,
            tip_height,
        ),
{
    assert(is_first(blocks, old_summary_height));
    assert(is_last(blocks, old_tip_height));
    let moved = moved_to(blocks, walk, summary_height, tip_height);
    if old_summary_height != summary_height {
        law_chain_reaches_from_summary_to_tip(walk, summary_height, tip_height);
        assert forall|h: u64| #[trigger] moved.contains_key(h) implies moved[h].height == h by {
            assert(moved[h] == walk[tip_height - h]);
        }
    } else if old_tip_height < tip_height {
        lemma_cut(walk, tip_height, (old_tip_height + 1) as u64);
        lemma_added(blocks, walk, tip_height, tip_height - old_tip_height);
        assert forall|h: u64| #[trigger] moved.contains_key(h) implies moved[h].height == h by {
            if h <= old_tip_height {
                assert(blocks.contains_key(h));
                assert(moved[h] == blocks[h]);
            } else {
                assert(moved[h] == walk[tip_height - h]);
            }
        }
    }
}

} // verus!
