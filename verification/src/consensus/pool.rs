//! The decisions that the consensus cache takes on what the pool tells it: which
//! block is the finalized tip, and which is the summary block before it.
use super::chain::walked_down_to;
use super::types::{same_hash, Block, BlockHash, BlockProposal, CatchUpPackage, Finalization};
use vstd::prelude::*;

verus! {

/// The block of the first proposal with this hash.
pub open spec fn proposed<E>(proposals: Seq<BlockProposal<E>>, hash: BlockHash) -> Option<Block<E>>
    decreases proposals.len(),
{
    if proposals.len() == 0 {
        None
    } else if proposals[0].hash == hash {
        Some(proposals[0].block)
    } else {
        proposed(proposals.drop_first(), hash)
    }
}

/// The first block of `blocks` at this height.
pub open spec fn block_at<E>(blocks: Seq<Block<E>>, height: u64) -> Option<Block<E>>
    decreases blocks.len(),
{
    if blocks.len() == 0 {
        None
    } else if blocks[0].height == height {
        Some(blocks[0])
    } else {
        block_at(blocks.drop_first(), height)
    }
}

/// Finds the block of the first proposal with this hash.
pub fn find_proposed<E: Copy>(proposals: &Vec<BlockProposal<E>>, hash: &BlockHash) -> (r: Option<
    Block<E>,
>)
    ensures
        r == proposed(proposals@, *hash),
        r matches Some(block) ==> exists|i: int|
            0 <= i < proposals@.len() && (#[trigger] proposals@[i]).hash == *hash
                && proposals@[i].block == block,
{
    let mut i: usize = 0;
    assert(proposals@.skip(0) =~= proposals@);
    while i < proposals.len()
        invariant
            i <= proposals.len(),
            proposed(proposals@, *hash) == proposed(proposals@.skip(i as int), *hash),
        decreases proposals.len() - i,
    {
        let proposal = proposals[i];
        if same_hash(&proposal.hash, hash) {
            return Some(proposal.block);
        }
        assert(proposals@.skip(i as int).drop_first() =~= proposals@.skip(i + 1));
        i = i + 1;
    }
    None
}

/// Finds the first block at `height`, giving up at the first one that is lower.
pub fn find_ancestor<E: Copy>(ancestors: &Vec<Block<E>>, height: u64) -> (r: Option<Block<E>>)
    ensures
        r == block_at(walked_down_to(ancestors@, height), height),
{
    let mut i: usize = 0;
    assert(ancestors@.skip(0) =~= ancestors@);
    while i < ancestors.len() && ancestors[i].height >= height
        invariant
            i <= ancestors.len(),
            block_at(walked_down_to(ancestors@, height), height) == block_at(
                walked_down_to(ancestors@.skip(i as int), height),
                height,
            ),
        decreases ancestors.len() - i,
    {
        let block = ancestors[i];
        let ghost rest = ancestors@.skip(i as int);
        assert(rest.drop_first() =~= ancestors@.skip(i + 1));
        assert(walked_down_to(rest, height).drop_first() =~= walked_down_to(
            rest.drop_first(),
            height,
        ));
        if block.height == height {
            return Some(block);
        }
        i = i + 1;
    }
    None
}

/// The finalized tip: the block of the package, unless the highest finalization is
/// above the package; then the block that the finalization names.
pub open spec fn highest_finalized<E>(
    highest: Option<Finalization>,
    proposals: Seq<BlockProposal<E>>,
    catch_up_package: CatchUpPackage<E>,
) -> Block<E> {
    match highest {
        Some(finalization) if finalization.height > catch_up_package.height => proposed(
            proposals,
            finalization.block,
        ).unwrap(),
        _ => catch_up_package.block,
    }
}

/// Whether the block of the highest finalization is at hand, where it is needed.
pub open spec fn tip_is_known<E>(
    highest: Option<Finalization>,
    proposals: Seq<BlockProposal<E>>,
    catch_up_package: CatchUpPackage<E>,
) -> bool {
    highest matches Some(finalization) ==> finalization.height > catch_up_package.height
        ==> proposed(proposals, finalization.block) is Some
}

/// Checks that the block of the highest finalization is at hand, where it is needed.
pub fn knows_tip<E: Copy>(
    highest: &Option<Finalization>,
    proposals: &Vec<BlockProposal<E>>,
    catch_up_package: &CatchUpPackage<E>,
) -> (r: bool)
    ensures
        r == tip_is_known(*highest, proposals@, *catch_up_package),
{
    match highest {
        Some(finalization) => finalization.height <= catch_up_package.height || find_proposed(
            proposals,
            &finalization.block,
        ).is_some(),
        None => true,
    }
}

/// Picks the finalized tip from the highest finalization of the pool, the
/// proposals at its height, and a catch-up package.
pub fn get_highest_finalized_block<E: Copy>(
    highest: &Option<Finalization>,
    proposals: &Vec<BlockProposal<E>>,
    catch_up_package: &CatchUpPackage<E>,
) -> (r: Block<E>)
    requires
        tip_is_known(*highest, proposals@, *catch_up_package),
    ensures
        r == highest_finalized(*highest, proposals@, *catch_up_package),
        match *highest {
            Some(finalization) => if finalization.height > catch_up_package.height {
                exists|i: int|
                    0 <= i < proposals@.len() && (#[trigger] proposals@[i]).hash
                        == finalization.block && r == proposals@[i].block
            } else {
                r == catch_up_package.block
            },
            None => r == catch_up_package.block,
        },
{
    match highest {
        Some(finalization) => {
            if finalization.height <= catch_up_package.height {
                catch_up_package.block
            } else {
                find_proposed(proposals, &finalization.block).unwrap()
            }
        },
        None => catch_up_package.block,
    }
}

/// What the pool says of the DKG interval of the finalized tip.
#[derive(Clone, Debug)]
pub struct IntervalAnswers<E> {
    /// The finalization at the height at which the interval starts, if there is
    /// exactly one.
    pub finalization: Option<Finalization>,
    /// The proposals at that height.
    pub proposals: Vec<BlockProposal<E>>,
    /// The tip and its ancestors, from the tip down.
    pub ancestors: Vec<Block<E>>,
}

/// The summary block of the interval of `tip`, after `summary` was the one before.
///
/// If the interval starts at the height of `summary`, that is still it. Otherwise it
/// is the finalized block at the height where the interval starts; or, without a
/// finalization there, the ancestor of the tip at that height.
pub open spec fn summary_for<E>(
    answers: IntervalAnswers<E>,
    summary: Block<E>,
    tip: Block<E>,
) -> Block<E> {
    let start = tip.payload.dkg_interval_start_height;
    if start <= summary.height {
        summary
    } else {
        match answers.finalization {
            Some(finalization) => proposed(answers.proposals@, finalization.block).unwrap(),
            None => block_at(walked_down_to(answers.ancestors@, start), start).unwrap(),
        }
    }
}

/// Whether the interval of `tip` does not start below `summary`, and its summary
/// block is at hand.
pub open spec fn summary_is_known<E>(
    answers: IntervalAnswers<E>,
    summary: Block<E>,
    tip: Block<E>,
) -> bool {
    let start = tip.payload.dkg_interval_start_height;
    &&& start >= summary.height
    &&& start > summary.height ==> match answers.finalization {
        Some(finalization) => proposed(answers.proposals@, finalization.block) is Some,
        None => block_at(walked_down_to(answers.ancestors@, start), start) matches Some(block)
            && block.payload.is_summary,
    }
}

/// Checks that the interval of `tip` does not start below `summary`, and that its
/// summary block is at hand.
pub fn knows_summary<E: Copy>(
    answers: &IntervalAnswers<E>,
    summary: &Block<E>,
    tip: &Block<E>,
) -> (r: bool)
    ensures
        r == summary_is_known(*answers, *summary, *tip),
{
    let start_height: u64 = tip.payload.dkg_interval_start_height;
    if start_height <= summary.height {
        return start_height == summary.height;
    }
    match &answers.finalization {
        Some(finalization) => find_proposed(&answers.proposals, &finalization.block).is_some(),
        None => match find_ancestor(&answers.ancestors, start_height) {
            Some(block) => block.payload.is_summary,
            None => false,
        },
    }
}

/// Moves the summary block on to the one of the interval of `finalized_tip`.
pub fn update_summary_block<E: Copy>(
    answers: &IntervalAnswers<E>,
    summary_block: &mut Block<E>,
    finalized_tip: &Block<E>,
)
    requires
        summary_is_known(*answers, *old(summary_block), *finalized_tip),
    ensures
        *final(summary_block) == summary_for(*answers, *old(summary_block), *finalized_tip),
{
    let start_height: u64 = finalized_tip.payload.dkg_interval_start_height;
    if start_height > summary_block.height {
        *summary_block = match &answers.finalization {
            Some(finalization) => find_proposed(
                &answers.proposals,
                &finalization.block,
            ).unwrap(),
            None => find_ancestor(&answers.ancestors, start_height).unwrap(),
        };
    }
}

} // verus!
