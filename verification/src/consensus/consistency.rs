//! What holds of the consensus cache in every state.
use super::cache::{
    can_be_new, can_be_updated, heights_fit, is_new, is_updated, law_summary_is_at_interval_start,
    lemma_proposed_height, CacheUpdateAction, CachedData, ChainAnswers, NewestAnswers,
};
use super::chain::{
    descends, holds_heights, is_first, is_last, law_chain_reaches_from_summary_to_tip,
    law_move_keeps_heights, law_update_is_rebuild, movable, moved_to, walked_down_to, with_blocks,
};
use super::types::{Block, CatchUpPackage};
use vstd::prelude::*;

verus! {

/// The invariant of the cache, where `decode` gives the package that bytes encode:
/// - the package is at the height of its block, and not above the finalized block;
/// - the summary block is at the height where the DKG interval of the finalized block
///   starts;
/// - the chain holds the heights from the summary block to the finalized block, ends
///   included, and no others;
/// - the encoded package is that of the package.
pub open spec fn is_consistent<E>(
    cache: CachedData<E>,
    decode: spec_fn(Seq<u8>) -> CatchUpPackage<E>,
) -> bool {
    &&& cache.catch_up_package.block.height == cache.catch_up_package.height
    &&& cache.catch_up_package.height <= cache.finalized_block.height
    &&& cache.summary_block.height == cache.finalized_block.payload.dkg_interval_start_height
    &&& holds_heights(
        cache.finalized_chain@,
        cache.summary_block.height,
        cache.finalized_block.height,
    )
    &&& decode(cache.catch_up_package_proto@) == cache.catch_up_package
}

/// Whether what the pool says fits together, for a cache that has `summary` and `tip`
/// after it was told: heights are what they are asked for, the walk goes down from the tip
/// to the summary block, height by height, and the encoded package is that of the package.
pub open spec fn pool_fits<E>(
    newest: NewestAnswers<E>,
    chain: ChainAnswers<E>,
    summary: Block<E>,
    tip: Block<E>,
    decode: spec_fn(Seq<u8>) -> CatchUpPackage<E>,
) -> bool {
    &&& heights_fit(newest)
    &&& forall|i: int|
        0 <= i < chain.interval.proposals@.len() ==> (
        #[trigger] chain.interval.proposals@[i]).block.height
            == tip.payload.dkg_interval_start_height
    &&& descends(chain.walk@, tip.height)
    &&& tip.height - summary.height < chain.walk@.len()
    &&& decode(newest.catch_up_package_proto@) == newest.catch_up_package
}

/// A new cache meets the invariant.
pub proof fn law_new_cache_is_consistent<E>(
    cache: CachedData<E>,
    newest: NewestAnswers<E>,
    chain: ChainAnswers<E>,
    decode: spec_fn(Seq<u8>) -> CatchUpPackage<E>,
)
    requires
        can_be_new(newest, chain),
        is_new(cache, newest, chain),
        pool_fits(newest, chain, cache.summary_block, cache.finalized_block, decode),
    ensures
        is_consistent(cache, decode),
{
    let summary = cache.summary_block;
    let tip = cache.finalized_block;
    let blocks = cache.finalized_chain@;
    if let Some(highest) = newest.highest_finalization {
        if highest.height > newest.catch_up_package.height {
            lemma_proposed_height(newest.proposals@, highest.block, highest.height);
        }
    }
    law_summary_is_at_interval_start(chain.interval, newest.catch_up_package.block, tip);
    law_chain_reaches_from_summary_to_tip(chain.walk@, summary.height, tip.height);
    assert forall|h: u64| #[trigger] blocks.contains_key(h) implies blocks[h].height == h by {
        assert(blocks[h] == chain.walk@[tip.height - h]);
    }
}

/// Every update that the cache admits keeps the invariant, whether or not the cache
/// called for it.
pub proof fn law_update_keeps_consistent<E: Copy>(
    before: CachedData<E>,
    after: CachedData<E>,
    newest: NewestAnswers<E>,
    chain: ChainAnswers<E>,
    updates: Seq<CacheUpdateAction>,
    decode: spec_fn(Seq<u8>) -> CatchUpPackage<E>,
)
    requires
        is_consistent(before, decode),
        can_be_updated(before, newest, chain, updates),
        is_updated(before, after, newest, chain, updates),
        pool_fits(newest, chain, after.summary_block, after.finalized_block, decode),
    ensures
        is_consistent(after, decode),
{
    let tip = after.finalized_block;
    if updates.contains(CacheUpdateAction::Finalization) {
        if let Some(highest) = newest.highest_finalization {
            if highest.height > after.catch_up_package.height {
                lemma_proposed_height(newest.proposals@, highest.block, highest.height);
            }
        }
    }
    law_summary_is_at_interval_start(chain.interval, before.summary_block, tip);
    law_move_keeps_heights(
        before.finalized_chain@,
        before.summary_block.height,
        before.finalized_block.height,
        chain.walk@,
        after.summary_block.height,
        tip.height,
    );
}

/// A cache that starts consistent stays so over any number of admitted updates: `states`
/// are its states, and the update with number `i` takes it from the state with that number
/// to the next.
pub proof fn law_every_state_is_consistent<E: Copy>(
    states: Seq<CachedData<E>>,
    newest: Seq<NewestAnswers<E>>,
    chains: Seq<ChainAnswers<E>>,
    updates: Seq<Seq<CacheUpdateAction>>,
    decode: spec_fn(Seq<u8>) -> CatchUpPackage<E>,
    n: int,
)
    requires
        0 <= n < states.len(),
        is_consistent(states[0], decode),
        forall|i: int|
            #![trigger states[i + 1]]
            0 <= i < states.len() - 1 ==> {
                &&& can_be_updated(states[i], newest[i], chains[i], updates[i])
                &&& is_updated(states[i], states[i + 1], newest[i], chains[i], updates[i])
                &&& pool_fits(
                    newest[i],
                    chains[i],
                    states[i + 1].summary_block,
                    states[i + 1].finalized_block,
                    decode,
                )
            },
    ensures
        is_consistent(states[n], decode),
    decreases n,
{
    if n > 0 {
        let i = n - 1;
        law_every_state_is_consistent(states, newest, chains, updates, decode, i);
        assert(states[i + 1] == states[n]);
        law_update_keeps_consistent(
            states[i],
            states[n],
            newest[i],
            chains[i],
            updates[i],
            decode,
        );
    }
}

/// Whether the chain holds the heights from the summary block to the finalized block, and
/// ends in the finalized block.
pub open spec fn in_step<E>(cache: CachedData<E>) -> bool {
    &&& holds_heights(
        cache.finalized_chain@,
        cache.summary_block.height,
        cache.finalized_block.height,
    )
    &&& cache.finalized_chain@[cache.finalized_block.height] == cache.finalized_block
}

/// Whether `walk` goes down from `tip`, height by height, at least to the height of
/// `summary`.
pub open spec fn reaches<E>(walk: Seq<Block<E>>, summary: Block<E>, tip: Block<E>) -> bool {
    &&& summary.height <= tip.height
    &&& descends(walk, tip.height)
    &&& tip.height - summary.height < walk.len()
    &&& walk[0] == tip
}

/// The chain of a new cache is in step, if the blocks that it was given go down from
/// the finalized block to the summary block.
pub proof fn law_new_cache_is_in_step<E>(cache: CachedData<E>, walk: Seq<Block<E>>)
    requires
        reaches(walk, cache.summary_block, cache.finalized_block),
        cache.finalized_chain@ == with_blocks(
            Map::empty(),
            walked_down_to(walk, cache.summary_block.height),
        ),
    ensures
        in_step(cache),
{
    let blocks = cache.finalized_chain@;
    let tip = cache.finalized_block;
    law_chain_reaches_from_summary_to_tip(walk, cache.summary_block.height, tip.height);
    assert forall|h: u64| #[trigger] blocks.contains_key(h) implies blocks[h].height == h by {
        assert(blocks[h] == walk[tip.height - h]);
    }
}

/// A cache whose chain is in step still has one after it moved, if the blocks that it was
/// given go down from the new finalized block to the new summary block; with the same
/// summary block as before, over the blocks that it already held. Its chain is then the
/// one that would be built anew.
pub proof fn law_update_keeps_in_step<E>(
    before: CachedData<E>,
    after: CachedData<E>,
    walk: Seq<Block<E>>,
)
    requires
        in_step(before),
        movable(
            before.finalized_chain@,
            after.summary_block.height,
            after.finalized_block.height,
        ),
        reaches(walk, after.summary_block, after.finalized_block),
        before.summary_block.height == after.summary_block.height ==> forall|h: u64| #[trigger]
            before.finalized_chain@.contains_key(h) ==> before.finalized_chain@[h]
                == walk[after.finalized_block.height - h],
        after.finalized_chain@ == moved_to(
            before.finalized_chain@,
            walk,
            after.summary_block.height,
            after.finalized_block.height,
        ),
    ensures
        in_step(after),
        after.finalized_chain@ == with_blocks(
            Map::empty(),
            walked_down_to(walk, after.summary_block.height),
        ),
{
    let blocks = before.finalized_chain@;
    let low = before.summary_block.height;
    let high = before.finalized_block.height;
    let held = Seq::new((high - low + 1) as nat, |i: int| blocks[(high - i) as u64]);
    assert(is_first(blocks, low));
    assert(is_last(blocks, high));
    law_update_is_rebuild(
        blocks,
        held,
        low,
        high,
        walk,
        after.summary_block.height,
        after.finalized_block.height,
    );
    law_new_cache_is_in_step(after, walk);
}

/// A cache that holds the heights from its summary block to its finalized block can follow
/// every finalized block that is not lower than its own, with every summary block that is
/// not above it.
pub proof fn law_cache_can_move<E>(cache: CachedData<E>, summary: Block<E>, tip: Block<E>)
    requires
        holds_heights(
            cache.finalized_chain@,
            cache.summary_block.height,
            cache.finalized_block.height,
        ),
        cache.finalized_chain@.dom().finite(),
        cache.finalized_block.height <= tip.height,
        summary.height <= tip.height,
    ensures
        movable(cache.finalized_chain@, summary.height, tip.height),
{
    let blocks = cache.finalized_chain@;
    assert(is_first(blocks, cache.summary_block.height));
    assert(is_last(blocks, cache.finalized_block.height));
    vstd::set_lib::lemma_set_empty_equivalency_len(blocks.dom());
}

} // verus!
