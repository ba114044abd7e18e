//! What the consensus cache owes to the pool, from what the pool said and what the cache then
//! holds.
use super::cache::{
    can_be_new, can_be_updated, heights_fit, is_after, is_new, is_updated, lemma_called,
    lemma_proposed_height, validated_finalization, validated_package, CacheUpdateAction,
    CachedData, ChainAnswers, NewestAnswers,
};
use super::chain::{
    descends, first_height, holds_heights, is_first, is_last, last_height,
    law_chain_reaches_from_summary_to_tip, movable, moved_to, payload_at, walked_down_to,
    with_blocks, ConsensusBlockChainErr,
};
use super::consistency::{is_consistent, law_cache_can_move};
use super::pool::{
    block_at, highest_finalized, proposed, summary_for, summary_is_known, tip_is_known,
    IntervalAnswers,
};
use super::types::{
    Block, BlockHash, BlockProposal, CatchUpPackage, ChangeAction, ConsensusMessage, Finalization,
};
use vstd::prelude::*;

verus! {

/// The payload at a height is that of the block there, whatever else is in the block. It is
/// missing exactly if the block is there without one, and the block is missing exactly if no
/// block is there.
pub proof fn law_payload_is_that_of_the_block<E>(blocks: Map<u64, Block<E>>, height: u64, p: E)
    ensures
        payload_at(blocks, height) == Ok::<E, ConsensusBlockChainErr>(p) <==> blocks.contains_key(
            height,
        ) && blocks[height].payload.ecdsa == Some(p),
        payload_at(blocks, height) == Err::<E, ConsensusBlockChainErr>(
            ConsensusBlockChainErr::EcdsaPayloadNotFound(height),
        ) <==> blocks.contains_key(height) && blocks[height].payload.ecdsa is None,
        payload_at(blocks, height) == Err::<E, ConsensusBlockChainErr>(
            ConsensusBlockChainErr::BlockNotFound(height),
        ) <==> !blocks.contains_key(height),
        payload_at(blocks, height) matches Err(e) ==> e == ConsensusBlockChainErr::BlockNotFound(
            height,
        ) || e == ConsensusBlockChainErr::EcdsaPayloadNotFound(height),
{
}

/// What is found by a hash is the block of a proposal with that hash, and of the first one;
/// nothing is found exactly if no proposal has the hash.
pub proof fn law_found_by_hash<E>(proposals: Seq<BlockProposal<E>>, hash: BlockHash)
    ensures
        proposed(proposals, hash) matches Some(block) ==> exists|i: int|
            #![trigger proposals[i]]
            0 <= i < proposals.len() && proposals[i].hash == hash && proposals[i].block == block
                && forall|j: int| 0 <= j < i ==> (#[trigger] proposals[j]).hash != hash,
        proposed(proposals, hash) is None <==> forall|i: int|
            0 <= i < proposals.len() ==> (#[trigger] proposals[i]).hash != hash,
    decreases proposals.len(),
{
    if proposals.len() > 0 {
        let rest = proposals.drop_first();
        if proposals[0].hash != hash {
            law_found_by_hash(rest, hash);
            if let Some(block) = proposed(rest, hash) {
                let k = choose|i: int|
                    #![trigger rest[i]]
                    0 <= i < rest.len() && rest[i].hash == hash && rest[i].block == block
                        && forall|j: int| 0 <= j < i ==> (#[trigger] rest[j]).hash != hash;
                assert(proposals[k + 1] == rest[k]);
                assert forall|j: int| 0 <= j < k + 1 implies (#[trigger] proposals[j]).hash
                    != hash by {
                    if j > 0 {
                        assert(rest[j - 1] == proposals[j]);
                    }
                }
            } else {
                assert forall|i: int| 0 <= i < proposals.len() implies (
                #[trigger] proposals[i]).hash != hash by {
                    if i > 0 {
                        assert(rest[i - 1] == proposals[i]);
                    }
                }
            }
        } else {
            assert(proposals[0].hash == hash);
        }
    }
}

/// What is left of a walk down to a height is its start: as far as no block is below the
/// height, and no farther.
pub proof fn law_walk_is_cut_at_the_first_lower_block<E>(walk: Seq<Block<E>>, start_height: u64)
    ensures
        ({
            let kept = walked_down_to(walk, start_height);
            let n = kept.len();
            &&& n <= walk.len()
            &&& kept == walk.take(n as int)
            &&& forall|i: int| 0 <= i < n ==> (#[trigger] walk[i]).height >= start_height
            &&& n < walk.len() ==> walk[n as int].height < start_height
        }),
    decreases walk.len(),
{
    let kept = walked_down_to(walk, start_height);
    if walk.len() > 0 && walk[0].height >= start_height {
        let rest = walk.drop_first();
        law_walk_is_cut_at_the_first_lower_block(rest, start_height);
        let n = walked_down_to(rest, start_height).len();
        assert forall|i: int| 0 <= i < n + 1 implies (#[trigger] walk[i]).height >= start_height by {
            if i > 0 {
                assert(rest[i - 1] == walk[i]);
            }
        }
        if n < rest.len() {
            assert(rest[n as int] == walk[n as int + 1]);
        }
        assert(kept =~= walk.take(n as int + 1));
    } else {
        assert(kept =~= walk.take(0));
    }
}

/// A block that is looked for at a height is the first one at that height, and is missed only
/// if there is none.
pub proof fn law_found_by_height<E>(blocks: Seq<Block<E>>, height: u64)
    ensures
        block_at(blocks, height) matches Some(block) ==> exists|i: int|
            #![trigger blocks[i]]
            0 <= i < blocks.len() && blocks[i] == block && block.height == height && forall|j: int|
                0 <= j < i ==> (#[trigger] blocks[j]).height != height,
        block_at(blocks, height) is None <==> forall|i: int|
            0 <= i < blocks.len() ==> (#[trigger] blocks[i]).height != height,
    decreases blocks.len(),
{
    if blocks.len() > 0 {
        let rest = blocks.drop_first();
        if blocks[0].height != height {
            law_found_by_height(rest, height);
            if let Some(block) = block_at(rest, height) {
                let k = choose|i: int|
                    #![trigger rest[i]]
                    0 <= i < rest.len() && rest[i] == block && block.height == height
                        && forall|j: int| 0 <= j < i ==> (#[trigger] rest[j]).height != height;
                assert(blocks[k + 1] == rest[k]);
                assert forall|j: int| 0 <= j < k + 1 implies (#[trigger] blocks[j]).height
                    != height by {
                    if j > 0 {
                        assert(rest[j - 1] == blocks[j]);
                    }
                }
            } else {
                assert forall|i: int| 0 <= i < blocks.len() implies (#[trigger] blocks[i]).height
                    != height by {
                    if i > 0 {
                        assert(rest[i - 1] == blocks[i]);
                    }
                }
            }
        } else {
            assert(blocks[0].height == height);
        }
    }
}

/// The finalized tip is the block that the highest finalization names by its hash, if the
/// finalization is above the package, and the block of the package otherwise. It is at hand
/// exactly if some proposal has that hash.
pub proof fn law_tip_is_the_finalized_block<E>(
    highest: Option<Finalization>,
    proposals: Seq<BlockProposal<E>>,
    package: CatchUpPackage<E>,
)
    ensures
        tip_is_known(highest, proposals, package) <==> (highest matches Some(f) ==> f.height
            <= package.height || exists|i: int|
            0 <= i < proposals.len() && (#[trigger] proposals[i]).hash == f.block),
        (highest matches Some(f) && f.height > package.height) && tip_is_known(
            highest,
            proposals,
            package,
        ) ==> exists|i: int|
            #![trigger proposals[i]]
            0 <= i < proposals.len() && proposals[i].hash == (highest.unwrap()).block
                && highest_finalized(highest, proposals, package) == proposals[i].block
                && forall|j: int|
                0 <= j < i ==> (#[trigger] proposals[j]).hash != (highest.unwrap()).block,
        highest is None ==> highest_finalized(highest, proposals, package) == package.block,
        (highest matches Some(f) && f.height <= package.height) ==> highest_finalized(
            highest,
            proposals,
            package,
        ) == package.block,
{
    if let Some(f) = highest {
        law_found_by_hash(proposals, f.block);
    }
}

/// The summary block stays while the interval does. When a new interval started, it is the
/// block that the finalization at the start names by its hash; without a finalization there, it
/// is the first ancestor of the tip at the start of the interval, which is a summary block, and
/// before which no ancestor is lower.
pub proof fn law_summary_is_found<E>(answers: IntervalAnswers<E>, summary: Block<E>, tip: Block<E>)
    requires
        summary_is_known(answers, summary, tip),
    ensures
        ({
            let start = tip.payload.dkg_interval_start_height;
            let found = summary_for(answers, summary, tip);
            &&& start >= summary.height
            &&& start == summary.height ==> found == summary
            &&& start > summary.height ==> match answers.finalization {
                Some(f) => exists|i: int|
                    #![trigger answers.proposals@[i]]
                    0 <= i < answers.proposals@.len() && answers.proposals@[i].hash == f.block
                        && answers.proposals@[i].block == found && forall|j: int|
                        0 <= j < i ==> (#[trigger] answers.proposals@[j]).hash != f.block,
                None => found.height == start && found.payload.is_summary && exists|i: int|
                    #![trigger answers.ancestors@[i]]
                    0 <= i < answers.ancestors@.len() && answers.ancestors@[i] == found
                        && forall|j: int|
                        0 <= j < i ==> (#[trigger] answers.ancestors@[j]).height > start,
            }
        }),
{
    let start = tip.payload.dkg_interval_start_height;
    match answers.finalization {
        Some(f) => {
            law_found_by_hash(answers.proposals@, f.block);
        },
        None => {
            let walk = answers.ancestors@;
            let kept = walked_down_to(walk, start);
            law_walk_is_cut_at_the_first_lower_block(walk, start);
            law_found_by_height(kept, start);
            if start > summary.height {
                let found = summary_for(answers, summary, tip);
                let i = choose|i: int|
                    #![trigger kept[i]]
                    0 <= i < kept.len() && kept[i] == found && found.height == start
                        && forall|j: int| 0 <= j < i ==> (#[trigger] kept[j]).height != start;
                assert(walk[i] == kept[i]);
                assert forall|j: int| 0 <= j < i implies (#[trigger] walk[j]).height > start by {
                    assert(kept[j] == walk[j]);
                }
            }
        },
    }
}

/// A summary block is at hand exactly if the interval did not start before the one that is
/// held, and, if a new one started, a proposal has the hash that is finalized at its start; or,
/// without a finalization there, the first ancestor that is not above the start is a summary
/// block at the start.
pub proof fn law_summary_is_at_hand<E>(
    answers: IntervalAnswers<E>,
    summary: Block<E>,
    tip: Block<E>,
    i: int,
)
    requires
        tip.payload.dkg_interval_start_height >= summary.height,
        tip.payload.dkg_interval_start_height > summary.height ==> match answers.finalization {
            Some(f) => 0 <= i < answers.proposals@.len() && answers.proposals@[i].hash == f.block,
            None => {
                &&& 0 <= i < answers.ancestors@.len()
                &&& answers.ancestors@[i].height == tip.payload.dkg_interval_start_height
                &&& answers.ancestors@[i].payload.is_summary
                &&& forall|j: int|
                    0 <= j < i ==> (#[trigger] answers.ancestors@[j]).height
                        > tip.payload.dkg_interval_start_height
            },
        },
    ensures
        summary_is_known(answers, summary, tip),
{
    let start = tip.payload.dkg_interval_start_height;
    if start > summary.height {
        match answers.finalization {
            Some(f) => {
                law_found_by_hash(answers.proposals@, f.block);
            },
            None => {
                let walk = answers.ancestors@;
                let kept = walked_down_to(walk, start);
                law_walk_is_cut_at_the_first_lower_block(walk, start);
                law_found_by_height(kept, start);
                assert(i < kept.len()) by {
                    if kept.len() <= i {
                        assert(walk[kept.len() as int].height >= start);
                    }
                }
                assert(kept[i] == walk[i]);
                let found = block_at(kept, start).unwrap();
                let k = choose|k: int|
                    #![trigger kept[k]]
                    0 <= k < kept.len() && kept[k] == found && found.height == start
                        && forall|j: int| 0 <= j < k ==> (#[trigger] kept[j]).height != start;
                assert(kept[k] == walk[k]);
            },
        }
    }
}

/// Adding blocks one after the other puts each at its height: a height is held exactly if it
/// was before or is that of an added block; it holds the last of those added at it, or else what
/// it held before.
pub proof fn law_added_blocks_are_held<E>(blocks: Map<u64, Block<E>>, added: Seq<Block<E>>)
    ensures
        ({
            let after = with_blocks(blocks, added);
            &&& forall|h: u64| #[trigger]
                after.contains_key(h) <==> blocks.contains_key(h) || exists|i: int|
                    0 <= i < added.len() && (#[trigger] added[i]).height == h
            &&& forall|i: int|
                0 <= i < added.len() && (forall|j: int|
                    i < j < added.len() ==> (#[trigger] added[j]).height != added[i].height)
                    ==> after[(#[trigger] added[i]).height] == added[i]
            &&& forall|h: u64|
                blocks.contains_key(h) && (forall|i: int|
                    0 <= i < added.len() ==> (#[trigger] added[i]).height != h)
                    ==> #[trigger] after[h] == blocks[h]
        }),
    decreases added.len(),
{
    let after = with_blocks(blocks, added);
    if added.len() > 0 {
        let fewer = added.drop_last();
        let last = added.last();
        let n = added.len() - 1;
        law_added_blocks_are_held(blocks, fewer);
        let before = with_blocks(blocks, fewer);
        assert(after == before.insert(last.height, last));
        assert forall|h: u64| #[trigger] after.contains_key(h) <==> blocks.contains_key(h)
            || exists|i: int| 0 <= i < added.len() && (#[trigger] added[i]).height == h by {
            if before.contains_key(h) && !blocks.contains_key(h) {
                let i = choose|i: int| 0 <= i < fewer.len() && (#[trigger] fewer[i]).height == h;
                assert(added[i].height == h);
            }
            if h == last.height {
                assert(added[n].height == h);
            }
            if exists|i: int| 0 <= i < added.len() && (#[trigger] added[i]).height == h {
                let i = choose|i: int| 0 <= i < added.len() && (#[trigger] added[i]).height == h;
                if i < n {
                    assert(fewer[i].height == h);
                }
            }
        }
        assert forall|i: int|
            0 <= i < added.len() && (forall|j: int|
                i < j < added.len() ==> (#[trigger] added[j]).height != added[i].height) implies
            after[(#[trigger] added[i]).height] == added[i] by {
            if i < n {
                assert(added[n].height != added[i].height);
                assert(fewer[i] == added[i]);
                assert forall|j: int| i < j < fewer.len() implies (#[trigger] fewer[j]).height
                    != fewer[i].height by {
                    assert(added[j].height != added[i].height);
                }
                assert(before[fewer[i].height] == fewer[i]);
                assert(before.contains_key(fewer[i].height));
            }
        }
        assert forall|h: u64|
            blocks.contains_key(h) && (forall|i: int|
                0 <= i < added.len() ==> (#[trigger] added[i]).height != h) implies
            #[trigger] after[h] == blocks[h] by {
            assert(added[n].height != h);
            assert forall|i: int| 0 <= i < fewer.len() implies (#[trigger] fewer[i]).height
                != h by {
                assert(added[i].height != h);
            }
            assert(before[h] == blocks[h]);
        }
    }
}

/// A chain that is not empty has a lowest and a highest block.
pub proof fn law_chain_has_ends<E>(blocks: Map<u64, Block<E>>)
    requires
        blocks.dom().finite(),
        blocks.dom().len() > 0,
    ensures
        blocks.contains_key(first_height(blocks)),
        blocks.contains_key(last_height(blocks)),
        forall|h: u64| #[trigger]
            blocks.contains_key(h) ==> first_height(blocks) <= h <= last_height(blocks),
{
    let (low, high) = lemma_ends_of(blocks.dom());
    assert forall|h: u64| #[trigger] blocks.contains_key(h) implies low <= h <= high by {
        assert(blocks.dom().contains(h));
    }
    assert(is_first(blocks, low));
    assert(is_last(blocks, high));
}

/// The least and the greatest of some heights.
proof fn lemma_ends_of(heights: Set<u64>) -> (r: (u64, u64))
    requires
        heights.finite(),
        heights.len() > 0,
    ensures
        heights.contains(r.0),
        heights.contains(r.1),
        forall|h: u64| #[trigger] heights.contains(h) ==> r.0 <= h <= r.1,
    decreases heights.len(),
{
    let h = heights.choose();
    let rest = heights.remove(h);
    if rest.len() == 0 {
        assert forall|k: u64| #[trigger] heights.contains(k) implies k == h by {
            if k != h {
                assert(rest.contains(k));
                vstd::set_lib::lemma_set_empty_equivalency_len(rest);
            }
        }
        (h, h)
    } else {
        let (low, high) = lemma_ends_of(rest);
        let r = (
            if h < low {
                h
            } else {
                low
            },
            if h > high {
                h
            } else {
                high
            },
        );
        assert forall|k: u64| #[trigger] heights.contains(k) implies r.0 <= k <= r.1 by {
            if k != h {
                assert(rest.contains(k));
            }
        }
        r
    }
}

/// While the summary block is the same, moving the chain only adds to it: what it holds stays
/// as it is, and what it gains is above its last block and comes from the walk.
pub proof fn law_move_only_adds<E>(
    blocks: Map<u64, Block<E>>,
    walk: Seq<Block<E>>,
    summary_height: u64,
    tip_height: u64,
)
    requires
        movable(blocks, summary_height, tip_height),
        blocks.dom().finite(),
        first_height(blocks) == summary_height,
    ensures
        ({
            let moved = moved_to(blocks, walk, summary_height, tip_height);
            &&& forall|h: u64| #[trigger]
                blocks.contains_key(h) ==> moved.contains_key(h) && moved[h] == blocks[h]
            &&& forall|h: u64| #[trigger]
                moved.contains_key(h) && !blocks.contains_key(h) ==> h > last_height(blocks)
                    && exists|i: int| 0 <= i < walk.len() && (#[trigger] walk[i]).height == h
            &&& tip_height <= last_height(blocks) ==> moved == blocks
        }),
{
    law_chain_has_ends(blocks);
    if last_height(blocks) < tip_height {
        let start = (last_height(blocks) + 1) as u64;
        let kept = walked_down_to(walk, start);
        law_walk_is_cut_at_the_first_lower_block(walk, start);
        law_added_blocks_are_held(blocks, kept);
        let moved = moved_to(blocks, walk, summary_height, tip_height);
        assert forall|i: int| 0 <= i < kept.len() implies (#[trigger] kept[i]).height >= start by {
            assert(kept[i] == walk[i]);
        }
        assert forall|h: u64| #[trigger] moved.contains_key(h) && !blocks.contains_key(h) implies h
            > last_height(blocks) && exists|i: int|
            0 <= i < walk.len() && (#[trigger] walk[i]).height == h by {
            let i = choose|i: int| 0 <= i < kept.len() && (#[trigger] kept[i]).height == h;
            assert(walk[i] == kept[i]);
        }
    }
}

/// With another summary block, moving the chain keeps nothing of it that is not in the walk, and
/// nothing below the summary block.
pub proof fn law_move_starts_anew<E>(
    blocks: Map<u64, Block<E>>,
    walk: Seq<Block<E>>,
    summary_height: u64,
    tip_height: u64,
)
    requires
        first_height(blocks) != summary_height,
    ensures
        ({
            let moved = moved_to(blocks, walk, summary_height, tip_height);
            forall|h: u64| #[trigger]
                moved.contains_key(h) ==> h >= summary_height && exists|i: int|
                    0 <= i < walk.len() && (#[trigger] walk[i]).height == h
        }),
{
    let kept = walked_down_to(walk, summary_height);
    law_walk_is_cut_at_the_first_lower_block(walk, summary_height);
    law_added_blocks_are_held(Map::<u64, Block<E>>::empty(), kept);
    let moved = moved_to(blocks, walk, summary_height, tip_height);
    assert forall|h: u64| #[trigger] moved.contains_key(h) implies h >= summary_height && exists|
        i: int,
    |
        0 <= i < walk.len() && (#[trigger] walk[i]).height == h by {
        let i = choose|i: int| 0 <= i < kept.len() && (#[trigger] kept[i]).height == h;
        assert(walk[i] == kept[i]);
    }
}

/// What one change calls for: a finalization update exactly if it validates a finalization above
/// the finalized block, a package update exactly if it validates a package above the held one.
pub proof fn law_change_calls_for_what_is_higher<E: Copy>(
    cache: CachedData<E>,
    change: ChangeAction<E>,
)
    ensures
        cache.called_by_all(seq![change]) == seq![CacheUpdateAction::Finalization] <==> match change {
            ChangeAction::AddToValidated(ConsensusMessage::Finalization(x)) => x.height
                > cache.finalized_block.height,
            ChangeAction::MoveToValidated(ConsensusMessage::Finalization(x)) => x.height
                > cache.finalized_block.height,
            _ => false,
        },
        cache.called_by_all(seq![change]) == seq![CacheUpdateAction::CatchUpPackage] <==> match change {
            ChangeAction::AddToValidated(ConsensusMessage::CatchUpPackage(x)) => x.height
                > cache.catch_up_package.height,
            ChangeAction::MoveToValidated(ConsensusMessage::CatchUpPackage(x)) => x.height
                > cache.catch_up_package.height,
            _ => false,
        },
        cache.called_by_all(seq![change]).len() <= 1,
        cache.called_by_all(Seq::empty()) == Seq::<CacheUpdateAction>::empty(),
{
    let none = Seq::<ChangeAction<E>>::empty();
    assert(seq![change].drop_last() =~= none);
    assert(seq![change].last() == change);
    assert(cache.called_by_all(none) =~= Seq::<CacheUpdateAction>::empty());
    let called = cache.called_by_all(seq![change]);
    match cache.called_by(change) {
        Some(action) => {
            assert(called =~= seq![action]);
            assert(called[0] == action);
            assert(seq![CacheUpdateAction::Finalization][0] == CacheUpdateAction::Finalization);
            assert(seq![CacheUpdateAction::CatchUpPackage][0]
                == CacheUpdateAction::CatchUpPackage);
        },
        None => {
            assert(called.len() == 0);
            assert(seq![CacheUpdateAction::Finalization].len() == 1);
            assert(seq![CacheUpdateAction::CatchUpPackage].len() == 1);
        },
    }
}

/// What two change sets call for together is what the first calls for, and then what the second
/// does.
pub proof fn law_changes_call_one_by_one<E: Copy>(
    cache: CachedData<E>,
    first: Seq<ChangeAction<E>>,
    second: Seq<ChangeAction<E>>,
)
    ensures
        cache.called_by_all(first + second) == cache.called_by_all(first) + cache.called_by_all(
            second,
        ),
    decreases second.len(),
{
    let both = first + second;
    if second.len() == 0 {
        assert(both =~= first);
        assert(cache.called_by_all(first) + cache.called_by_all(second) =~= cache.called_by_all(
            first,
        ));
    } else {
        assert(both.drop_last() =~= first + second.drop_last());
        assert(both.last() == second.last());
        law_changes_call_one_by_one(cache, first, second.drop_last());
        assert(cache.called_by_all(both) =~= cache.called_by_all(first) + cache.called_by_all(
            second,
        ));
    }
}

/// An update is called for exactly if some change validates an artifact of its kind that is above
/// what is held.
pub proof fn law_update_is_called_for_iff_higher<E: Copy>(
    cache: CachedData<E>,
    changes: Seq<ChangeAction<E>>,
)
    ensures
        cache.called_by_all(changes).contains(CacheUpdateAction::Finalization) <==> exists|i: int|
            0 <= i < changes.len() && (validated_finalization(#[trigger] changes[i]) matches Some(x)
                && x.height > cache.finalized_block.height),
        cache.called_by_all(changes).contains(CacheUpdateAction::CatchUpPackage) <==> exists|i: int|
            0 <= i < changes.len() && (validated_package(#[trigger] changes[i]) matches Some(x)
                && x.height > cache.catch_up_package.height),
{
    if cache.called_by_all(changes).contains(CacheUpdateAction::Finalization) {
        lemma_called(cache, changes, CacheUpdateAction::Finalization);
    }
    if cache.called_by_all(changes).contains(CacheUpdateAction::CatchUpPackage) {
        lemma_called(cache, changes, CacheUpdateAction::CatchUpPackage);
    }
    assert forall|i: int| 0 <= i < changes.len() && cache.called_by(#[trigger] changes[i])
        is Some implies cache.called_by_all(changes).contains(
        cache.called_by(changes[i]).unwrap(),
    ) by {
        lemma_calls(cache, changes, i);
    }
}

/// What a change calls for is among what all changes call for.
proof fn lemma_calls<E: Copy>(cache: CachedData<E>, changes: Seq<ChangeAction<E>>, i: int)
    requires
        0 <= i < changes.len(),
        cache.called_by(changes[i]) is Some,
    ensures
        cache.called_by_all(changes).contains(cache.called_by(changes[i]).unwrap()),
    decreases changes.len(),
{
    let before = changes.drop_last();
    let action = cache.called_by(changes[i]).unwrap();
    let updates = cache.called_by_all(changes);
    if i == changes.len() - 1 {
        assert(updates.last() == action);
        assert(updates[updates.len() - 1] == action);
    } else {
        assert(before[i] == changes[i]);
        lemma_calls(cache, before, i);
        let earlier = cache.called_by_all(before);
        let k = choose|k: int| 0 <= k < earlier.len() && earlier[k] == action;
        assert(updates[k] == action);
    }
}

/// After updates that hold a package update, whatever else they hold, the cache has the highest
/// package of the pool and its encoding; after others it has those that it had.
pub proof fn law_package_update_takes_the_package<E: Copy>(
    before: CachedData<E>,
    after: CachedData<E>,
    newest: NewestAnswers<E>,
    chain: ChainAnswers<E>,
    updates: Seq<CacheUpdateAction>,
)
    requires
        is_updated(before, after, newest, chain, updates),
    ensures
        (exists|i: int|
            0 <= i < updates.len() && #[trigger] updates[i] == CacheUpdateAction::CatchUpPackage)
            ==> after.catch_up_package == newest.catch_up_package && after.catch_up_package_proto@
            == newest.catch_up_package_proto@,
        (forall|i: int|
            0 <= i < updates.len() ==> #[trigger] updates[i] != CacheUpdateAction::CatchUpPackage)
            ==> after.catch_up_package == before.catch_up_package && after.catch_up_package_proto@
            == before.catch_up_package_proto@,
{
}

/// The finalized block after updates:
/// - with a finalization update, the block that the highest finalization of the pool names, if it
///   is above the package that the cache then holds, and otherwise the block of that package;
/// - with a package update alone, the block of the package, if the package is above the finalized
///   block, and otherwise the same as before;
/// - without updates, the same as before.
pub proof fn law_finalized_block_follows_the_updates<E: Copy>(
    before: CachedData<E>,
    after: CachedData<E>,
    newest: NewestAnswers<E>,
    chain: ChainAnswers<E>,
    updates: Seq<CacheUpdateAction>,
)
    requires
        can_be_updated(before, newest, chain, updates),
        is_updated(before, after, newest, chain, updates),
    ensures
        ({
            let finalizes = exists|i: int|
                0 <= i < updates.len() && #[trigger] updates[i] == CacheUpdateAction::Finalization;
            let packages = exists|i: int|
                0 <= i < updates.len() && #[trigger] updates[i]
                    == CacheUpdateAction::CatchUpPackage;
            let proposals = newest.proposals@;
            &&& finalizes ==> match newest.highest_finalization {
                Some(f) => if f.height > after.catch_up_package.height {
                    exists|i: int|
                        #![trigger proposals[i]]
                        0 <= i < proposals.len() && proposals[i].hash == f.block
                            && proposals[i].block == after.finalized_block
                } else {
                    after.finalized_block == after.catch_up_package.block
                },
                None => after.finalized_block == after.catch_up_package.block,
            }
            &&& !finalizes && packages ==> if newest.catch_up_package.height
                > before.finalized_block.height {
                after.finalized_block == newest.catch_up_package.block
            } else {
                after.finalized_block == before.finalized_block
            }
            &&& !finalizes && !packages ==> after.finalized_block == before.finalized_block
        }),
{
    law_tip_is_the_finalized_block(
        newest.highest_finalization,
        newest.proposals@,
        after.catch_up_package,
    );
    assert((exists|i: int|
        0 <= i < updates.len() && #[trigger] updates[i] == CacheUpdateAction::Finalization)
        <==> updates.contains(CacheUpdateAction::Finalization));
    assert((exists|i: int|
        0 <= i < updates.len() && #[trigger] updates[i] == CacheUpdateAction::CatchUpPackage)
        <==> updates.contains(CacheUpdateAction::CatchUpPackage));
}

/// After the updates that a change set calls for, the cache is at least as high as everything
/// that the change set validated: its package as every package, and its finalized block as every
/// finalization and every package.
pub proof fn law_cache_catches_up_with_the_changes<E: Copy>(
    before: CachedData<E>,
    after: CachedData<E>,
    newest: NewestAnswers<E>,
    chain: ChainAnswers<E>,
    changes: Seq<ChangeAction<E>>,
)
    requires
        is_after(newest, changes),
        heights_fit(newest),
        before.catch_up_package.block.height == before.catch_up_package.height,
        before.catch_up_package.height <= before.finalized_block.height,
        can_be_updated(before, newest, chain, before.called_by_all(changes)),
        is_updated(before, after, newest, chain, before.called_by_all(changes)),
    ensures
        forall|i: int|
            0 <= i < changes.len() ==> (validated_package(#[trigger] changes[i]) matches Some(x)
                ==> after.catch_up_package.height >= x.height && after.finalized_block.height
                >= x.height),
        forall|i: int|
            0 <= i < changes.len() ==> (validated_finalization(#[trigger] changes[i]) matches Some(x)
                ==> after.finalized_block.height >= x.height),
{
    let updates = before.called_by_all(changes);
    law_update_is_called_for_iff_higher(before, changes);
    if updates.contains(CacheUpdateAction::CatchUpPackage) {
        lemma_called(before, changes, CacheUpdateAction::CatchUpPackage);
    }
    if updates.contains(CacheUpdateAction::Finalization) {
        lemma_called(before, changes, CacheUpdateAction::Finalization);
        let highest = newest.highest_finalization.unwrap();
        if highest.height > after.catch_up_package.height {
            lemma_proposed_height(newest.proposals@, highest.block, highest.height);
        }
    }
}

/// A new cache has the highest package of the pool with its encoding, and the finalized block
/// that the highest finalization names, if that is above the package, or else the block of the
/// package.
pub proof fn law_new_cache_takes_the_newest<E>(
    cache: CachedData<E>,
    newest: NewestAnswers<E>,
    chain: ChainAnswers<E>,
)
    requires
        is_new(cache, newest, chain),
        tip_is_known(newest.highest_finalization, newest.proposals@, newest.catch_up_package),
    ensures
        cache.catch_up_package == newest.catch_up_package,
        cache.catch_up_package_proto@ == newest.catch_up_package_proto@,
        match newest.highest_finalization {
            Some(f) => if f.height > newest.catch_up_package.height {
                exists|i: int|
                    #![trigger newest.proposals@[i]]
                    0 <= i < newest.proposals@.len() && newest.proposals@[i].hash == f.block
                        && newest.proposals@[i].block == cache.finalized_block
            } else {
                cache.finalized_block == newest.catch_up_package.block
            },
            None => cache.finalized_block == newest.catch_up_package.block,
        },
{
    law_tip_is_the_finalized_block(
        newest.highest_finalization,
        newest.proposals@,
        newest.catch_up_package,
    );
}

/// A chain can move exactly if it holds a block, and every block that it holds is not above the
/// tip; or, if its lowest block is not at the height of the summary block, the summary block is
/// not above the tip.
pub proof fn law_when_a_chain_can_move<E>(
    blocks: Map<u64, Block<E>>,
    summary_height: u64,
    tip_height: u64,
)
    requires
        blocks.dom().finite(),
        blocks.dom().len() > 0,
    ensures
        movable(blocks, summary_height, tip_height) <==> if (blocks.contains_key(summary_height)
            && forall|h: u64| #[trigger] blocks.contains_key(h) ==> summary_height <= h) {
            forall|h: u64| #[trigger] blocks.contains_key(h) ==> h <= tip_height
        } else {
            summary_height <= tip_height
        },
{
    law_chain_has_ends(blocks);
}

/// Every cache admits an update, if the pool has the blocks that it needs, the finalized block
/// does not get lower, and the summary block is not above it.
pub proof fn law_good_pools_are_admitted<E: Copy>(
    cache: CachedData<E>,
    newest: NewestAnswers<E>,
    chain: ChainAnswers<E>,
    updates: Seq<CacheUpdateAction>,
    decode: spec_fn(Seq<u8>) -> CatchUpPackage<E>,
)
    requires
        is_consistent(cache, decode),
        cache.finalized_chain@.dom().finite(),
        tip_is_known(
            newest.highest_finalization,
            newest.proposals@,
            cache.next_package(updates, newest),
        ),
        ({
            let tip = cache.next_finalized(updates, newest);
            &&& tip.height >= cache.finalized_block.height
            &&& summary_is_known(chain.interval, cache.summary_block, tip)
            &&& summary_for(chain.interval, cache.summary_block, tip).height <= tip.height
        }),
    ensures
        can_be_updated(cache, newest, chain, updates),
{
    let tip = cache.next_finalized(updates, newest);
    law_cache_can_move(cache, summary_for(chain.interval, cache.summary_block, tip), tip);
}

/// A cache can be made of every pool that has the blocks that it needs, with a summary block that
/// is not above the finalized one.
pub proof fn law_good_pools_make_a_cache<E>(newest: NewestAnswers<E>, chain: ChainAnswers<E>)
    requires
        tip_is_known(newest.highest_finalization, newest.proposals@, newest.catch_up_package),
        ({
            let tip = highest_finalized(
                newest.highest_finalization,
                newest.proposals@,
                newest.catch_up_package,
            );
            let first = newest.catch_up_package.block;
            &&& summary_is_known(chain.interval, first, tip)
            &&& summary_for(chain.interval, first, tip).height <= tip.height
        }),
    ensures
        can_be_new(newest, chain),
{
}

/// Whether `found` is the summary block for `tip` after `held`, as the pool tells it: still
/// `held` in the same interval; the block that is finalized at the start of a new one; or,
/// without a finalization there, the ancestor of the tip at that height.
pub open spec fn is_summary_of<E>(
    found: Block<E>,
    answers: IntervalAnswers<E>,
    held: Block<E>,
    tip: Block<E>,
) -> bool {
    let start = tip.payload.dkg_interval_start_height;
    if start == held.height {
        found == held
    } else {
        match answers.finalization {
            Some(f) => exists|i: int|
                #![trigger answers.proposals@[i]]
                0 <= i < answers.proposals@.len() && answers.proposals@[i].hash == f.block
                    && answers.proposals@[i].block == found,
            None => found.height == start && found.payload.is_summary && exists|i: int|
                #![trigger answers.ancestors@[i]]
                0 <= i < answers.ancestors@.len() && answers.ancestors@[i] == found,
        }
    }
}

/// A new cache has the summary block for its finalized block, after that of its package; and its
/// chain holds, at each height from the summary block to the finalized block and at no other, the
/// block of the walk at that height.
pub proof fn law_new_cache_holds_the_walk<E>(
    cache: CachedData<E>,
    newest: NewestAnswers<E>,
    chain: ChainAnswers<E>,
)
    requires
        can_be_new(newest, chain),
        is_new(cache, newest, chain),
        descends(chain.walk@, cache.finalized_block.height),
        cache.finalized_block.height - cache.summary_block.height < chain.walk@.len(),
    ensures
        is_summary_of(
            cache.summary_block,
            chain.interval,
            newest.catch_up_package.block,
            cache.finalized_block,
        ),
        forall|h: u64| #[trigger]
            cache.finalized_chain@.contains_key(h) <==> cache.summary_block.height <= h
                <= cache.finalized_block.height,
        forall|h: u64| #[trigger]
            cache.finalized_chain@.contains_key(h) ==> cache.finalized_chain@[h]
                == chain.walk@[cache.finalized_block.height - h],
{
    let tip = cache.finalized_block;
    law_summary_is_found(chain.interval, newest.catch_up_package.block, tip);
    law_chain_reaches_from_summary_to_tip(chain.walk@, cache.summary_block.height, tip.height);
}

/// An updated cache has the summary block for its finalized block, after the one that it had. If
/// that is at the same height, its chain keeps every block that it held; and a block that it
/// gained, or every block if the summary block moved, is the block of the walk at its height.
pub proof fn law_updated_cache_holds_the_walk<E: Copy>(
    before: CachedData<E>,
    after: CachedData<E>,
    newest: NewestAnswers<E>,
    chain: ChainAnswers<E>,
    updates: Seq<CacheUpdateAction>,
)
    requires
        can_be_updated(before, newest, chain, updates),
        is_updated(before, after, newest, chain, updates),
        holds_heights(
            before.finalized_chain@,
            before.summary_block.height,
            before.finalized_block.height,
        ),
        before.finalized_chain@.dom().finite(),
        descends(chain.walk@, after.finalized_block.height),
        after.finalized_block.height - after.summary_block.height < chain.walk@.len(),
    ensures
        is_summary_of(
            after.summary_block,
            chain.interval,
            before.summary_block,
            after.finalized_block,
        ),
        after.summary_block.height == before.summary_block.height ==> forall|h: u64| #[trigger]
            before.finalized_chain@.contains_key(h) ==> after.finalized_chain@.contains_key(h)
                && after.finalized_chain@[h] == before.finalized_chain@[h],
        forall|h: u64| #[trigger]
            after.finalized_chain@.contains_key(h) && (after.summary_block.height
                != before.summary_block.height || !before.finalized_chain@.contains_key(h))
                ==> after.finalized_chain@[h] == chain.walk@[after.finalized_block.height - h],
{
    let blocks = before.finalized_chain@;
    let walk = chain.walk@;
    let tip = after.finalized_block;
    let summary = after.summary_block;
    law_summary_is_found(chain.interval, before.summary_block, tip);
    assert(is_first(blocks, before.summary_block.height));
    assert(is_last(blocks, before.finalized_block.height));
    if summary.height == before.summary_block.height {
        law_move_only_adds(blocks, walk, summary.height, tip.height);
        if last_height(blocks) < tip.height {
            let start = (last_height(blocks) + 1) as u64;
            let kept = walked_down_to(walk, start);
            law_walk_is_cut_at_the_first_lower_block(walk, start);
            law_added_blocks_are_held(blocks, kept);
            let moved = after.finalized_chain@;
            assert forall|h: u64| #[trigger] moved.contains_key(h) && !blocks.contains_key(
                h,
            ) implies moved[h] == walk[tip.height - h] by {
                let i = choose|i: int| 0 <= i < kept.len() && (#[trigger] kept[i]).height == h;
                assert(kept[i] == walk[i]);
                assert(walk[i].height == tip.height - i);
                assert forall|j: int| i < j < kept.len() implies (#[trigger] kept[j]).height
                    != kept[i].height by {
                    assert(kept[j] == walk[j]);
                    assert(walk[j].height == tip.height - j);
                }
                assert(moved[kept[i].height] == kept[i]);
            }
        }
    } else {
        law_chain_reaches_from_summary_to_tip(walk, summary.height, tip.height);
    }
}

} // verus!
