//! Tests of the consensus cache.
use ic_nodes::consensus::cache::{
    CacheUpdateAction, ChainAnswers, ConsensusCacheImpl, NewestAnswers,
};
use ic_nodes::consensus::chain::{ConsensusBlockChainErr, ConsensusBlockChainImpl};
use ic_nodes::consensus::pool::{
    find_ancestor, find_proposed, get_highest_finalized_block, knows_summary, knows_tip,
    update_summary_block, IntervalAnswers,
};
use ic_nodes::consensus::types::{
    same_hash, Block, BlockHash, BlockPayload, BlockProposal, CatchUpPackage, ChangeAction,
    ConsensusMessage, Finalization, ValidationContext,
};
use std::collections::BTreeMap;

const DKG_INTERVAL_LENGTH: u64 = 3;

fn hash(height: u64) -> BlockHash {
    let mut bytes = [7u8; 32];
    bytes[31] = height as u8;
    BlockHash(bytes)
}

fn block(height: u64) -> Block<u32> {
    let start = height - height % (DKG_INTERVAL_LENGTH + 1);
    Block {
        height,
        context: ValidationContext { time: 1_000 + height, certified_height: 0 },
        payload: BlockPayload {
            dkg_interval_start_height: start,
            is_summary: start == height,
            ecdsa: None,
        },
    }
}

fn proposal(block: Block<u32>) -> BlockProposal<u32> {
    BlockProposal { hash: hash(block.height), block }
}

fn finalization(height: u64) -> Finalization {
    Finalization { height, block: hash(height) }
}

fn package(block: Block<u32>) -> CatchUpPackage<u32> {
    CatchUpPackage { height: block.height, block }
}

/// A pool with one chain of blocks.
struct TestPool {
    blocks: Vec<Block<u32>>,
    highest_finalization: Option<Finalization>,
    catch_up_package: CatchUpPackage<u32>,
}

impl TestPool {
    fn new() -> TestPool {
        TestPool {
            blocks: vec![block(0)],
            highest_finalization: None,
            catch_up_package: package(block(0)),
        }
    }

    /// Adds a finalized block.
    fn advance(&mut self, block: Block<u32>) {
        self.highest_finalization = Some(finalization(block.height));
        self.blocks.push(block);
    }

    fn newest(&self) -> NewestAnswers<u32> {
        let mut proposals = Vec::new();
        if let Some(highest) = &self.highest_finalization {
            proposals.push(proposal(self.blocks[highest.height as usize]));
        }
        NewestAnswers {
            catch_up_package: self.catch_up_package,
            catch_up_package_proto: vec![self.catch_up_package.height as u8],
            highest_finalization: self.highest_finalization,
            proposals,
        }
    }

    fn chain(&self, tip: &Block<u32>) -> ChainAnswers<u32> {
        let start = tip.payload.dkg_interval_start_height;
        let walk: Vec<Block<u32>> = (0..=tip.height)
            .rev()
            .map(|height| self.blocks[height as usize])
            .collect();
        ChainAnswers {
            interval: IntervalAnswers {
                finalization: Some(finalization(start)),
                proposals: vec![proposal(self.blocks[start as usize])],
                ancestors: walk.clone(),
            },
            walk,
        }
    }

    fn cache(&self) -> ConsensusCacheImpl<u32> {
        let newest = self.newest();
        let tip = ConsensusCacheImpl::first_finalized(&newest);
        let chain = self.chain(&tip);
        assert!(ConsensusCacheImpl::can_start(&newest, &chain));
        ConsensusCacheImpl::new(newest, chain)
    }

    fn update(&self, cache: &mut ConsensusCacheImpl<u32>, updates: Vec<CacheUpdateAction>) {
        let newest = self.newest();
        let tip = cache.next_finalized(&newest, &updates);
        let chain = self.chain(&tip);
        assert!(cache.can_update(&newest, &chain, &updates));
        cache.update(newest, &chain, &updates);
    }
}

/// Checks that the finalized chain has the given blocks.
fn check_finalized_chain(consensus_cache: &ConsensusCacheImpl<u32>, expected: &[u64]) {
    let finalized_chain = consensus_cache.finalized_chain();
    assert_eq!(finalized_chain.len(), expected.len());
    for height in expected {
        assert!(finalized_chain.ecdsa_payload(*height).is_err());
    }
    assert_eq!(finalized_chain.tip().height, *expected.iter().next_back().unwrap());
}

#[test]
fn test_consensus_cache() {
    let mut pool = TestPool::new();

    // 1. Cache is properly initialized
    let mut consensus_cache = pool.cache();
    assert_eq!(consensus_cache.finalized_block().height, 0);
    // No consensus time when there is only genesis block
    assert_eq!(consensus_cache.consensus_time(), None);
    check_finalized_chain(&consensus_cache, &[0]);

    pool.advance(block(1));
    pool.advance(block(2));
    let mut third = block(3);
    let time = 1_000_000_000 * 10;
    third.context.time = time;

    // 2. Cache can be updated by finalization
    let updates = consensus_cache.prepare(&vec![ChangeAction::AddToValidated(
        ConsensusMessage::Finalization(finalization(3)),
    )]);
    assert_eq!(updates, vec![CacheUpdateAction::Finalization]);
    pool.advance(third);
    pool.update(&mut consensus_cache, updates);
    assert_eq!(consensus_cache.finalized_block().height, 3);
    assert_eq!(consensus_cache.consensus_time(), Some(time));
    check_finalized_chain(&consensus_cache, &[0, 1, 2, 3]);

    // 3. Cache can be updated by CatchUpPackage
    pool.advance(block(4));
    let catch_up_package = package(block(4));
    let updates = consensus_cache.prepare(&vec![ChangeAction::AddToValidated(
        ConsensusMessage::CatchUpPackage(catch_up_package),
    )]);
    assert_eq!(updates, vec![CacheUpdateAction::CatchUpPackage]);
    pool.catch_up_package = catch_up_package;
    pool.update(&mut consensus_cache, updates);
    assert_eq!(consensus_cache.catch_up_package(), catch_up_package);
    assert_eq!(consensus_cache.finalized_block().height, 4);
    check_finalized_chain(&consensus_cache, &[4]);
    assert_eq!(consensus_cache.cup_as_protobuf(), vec![4]);
    assert_eq!(consensus_cache.summary_block(), block(4));
}

#[test]
fn test_is_replica_behind() {
    const HEIGHT_CONSIDERED_BEHIND: u64 = 20;
    let is_replica_behind = |cache: &ConsensusCacheImpl<u32>, certified_height: u64| {
        cache.finalized_block().context.certified_height
            > certified_height + HEIGHT_CONSIDERED_BEHIND
    };
    let mut pool = TestPool::new();
    let mut consensus_cache = pool.cache();

    // Initially the replica is not behind
    assert!(!is_replica_behind(&consensus_cache, 0));

    // Advance and set the certified height to one below where the replica would be considered behind
    for height in 1..HEIGHT_CONSIDERED_BEHIND {
        pool.advance(block(height));
    }
    let mut next = block(HEIGHT_CONSIDERED_BEHIND);
    next.context.certified_height = HEIGHT_CONSIDERED_BEHIND;
    pool.advance(next);
    pool.update(&mut consensus_cache, vec![CacheUpdateAction::Finalization]);

    // Check that the replica is still not considered behind
    assert!(!is_replica_behind(&consensus_cache, 0));

    // Advance one more round
    let mut next = block(HEIGHT_CONSIDERED_BEHIND + 1);
    next.context.certified_height = HEIGHT_CONSIDERED_BEHIND + 1;
    pool.advance(next);
    pool.update(&mut consensus_cache, vec![CacheUpdateAction::Finalization]);

    // At this height, the replica should be considered behind
    assert!(is_replica_behind(&consensus_cache, 0));
}

#[test]
fn test_block_chain() {
    let mut chain: ConsensusBlockChainImpl<u32> = ConsensusBlockChainImpl { blocks: BTreeMap::new() };

    let height = 100;
    assert_eq!(chain.len(), 0);
    assert_eq!(
        chain.ecdsa_payload(height).err().unwrap(),
        ConsensusBlockChainErr::BlockNotFound(height)
    );
    chain.blocks.insert(height, block(height));
    assert_eq!(chain.len(), 1);
    assert_eq!(
        chain.ecdsa_payload(height).err().unwrap(),
        ConsensusBlockChainErr::EcdsaPayloadNotFound(height)
    );

    let height = 200;
    let mut with_payload = block(height);
    with_payload.payload.ecdsa = Some(42);
    chain.blocks.insert(height, with_payload);
    assert_eq!(chain.len(), 2);
    assert!(chain.ecdsa_payload(height).is_ok());
    assert_eq!(chain.ecdsa_payload(height), Ok(42));
    assert_eq!(chain.tip(), with_payload);
}

#[test]
fn only_higher_artifacts_call_for_updates() {
    let mut pool = TestPool::new();
    pool.advance(block(1));
    pool.advance(block(2));
    let cache = pool.cache();
    assert_eq!(cache.finalized_block().height, 2);
    assert_eq!(cache.prepare(&vec![]), vec![]);
    let add = |message| ChangeAction::AddToValidated(message);
    let moved = |message| ChangeAction::MoveToValidated(message);
    let changes = vec![
        add(ConsensusMessage::Finalization(finalization(2))),
        moved(ConsensusMessage::CatchUpPackage(package(block(4)))),
        ChangeAction::Other,
        add(ConsensusMessage::Other),
        moved(ConsensusMessage::Finalization(finalization(3))),
        add(ConsensusMessage::CatchUpPackage(package(block(0)))),
        add(ConsensusMessage::Finalization(finalization(9))),
    ];
    assert_eq!(
        cache.prepare(&changes),
        vec![
            CacheUpdateAction::CatchUpPackage,
            CacheUpdateAction::Finalization,
            CacheUpdateAction::Finalization,
        ]
    );
    assert_eq!(
        cache.cache.check_finalization(&finalization(3)),
        Some(CacheUpdateAction::Finalization)
    );
    assert_eq!(cache.cache.check_catch_up_package(&package(block(0))), None);
}

#[test]
fn finalized_tip_is_not_below_the_package() {
    let proposals = vec![proposal(block(5)), proposal(block(6))];
    let cup = package(block(4));
    assert_eq!(get_highest_finalized_block(&None, &proposals, &cup), block(4));
    assert_eq!(get_highest_finalized_block(&Some(finalization(4)), &proposals, &cup), block(4));
    assert_eq!(get_highest_finalized_block(&Some(finalization(3)), &proposals, &cup), block(4));
    assert_eq!(get_highest_finalized_block(&Some(finalization(6)), &proposals, &cup), block(6));
}

#[test]
fn proposals_are_found_by_hash_and_ancestors_by_height() {
    let mut twin = block(5);
    twin.context.time = 9;
    let other = BlockProposal { hash: hash(77), block: twin };
    let proposals = vec![other, proposal(block(5)), BlockProposal { hash: hash(5), block: twin }];
    assert_eq!(find_proposed(&proposals, &hash(5)), Some(block(5)));
    assert_eq!(find_proposed(&proposals, &hash(77)), Some(twin));
    assert_eq!(find_proposed(&proposals, &hash(6)), None);
    assert!(same_hash(&hash(5), &hash(5)));
    assert!(!same_hash(&hash(5), &hash(6)));

    let ancestors = vec![block(6), block(5), block(2), block(4)];
    assert_eq!(find_ancestor(&ancestors, 5), Some(block(5)));
    // The search ends at the first block that is lower.
    assert_eq!(find_ancestor(&ancestors, 4), None);
}

#[test]
fn summary_block_follows_the_interval() {
    let without_finalization = IntervalAnswers {
        finalization: None,
        proposals: vec![],
        ancestors: vec![block(6), block(5), block(4), block(3)],
    };
    let mut summary = block(0);
    update_summary_block(&without_finalization, &mut summary, &block(6));
    assert_eq!(summary, block(4));
    // Nothing changes within the interval.
    update_summary_block(&without_finalization, &mut summary, &block(7));
    assert_eq!(summary, block(4));

    let with_finalization = IntervalAnswers {
        finalization: Some(finalization(8)),
        proposals: vec![proposal(block(8))],
        ancestors: vec![],
    };
    update_summary_block(&with_finalization, &mut summary, &block(9));
    assert_eq!(summary, block(8));
}

#[test]
fn chain_grows_with_the_tip_and_is_rebuilt_with_the_summary() {
    let walk = |high: u64| -> Vec<Block<u32>> { (0..=high).rev().map(block).collect() };
    let mut chain = ConsensusBlockChainImpl::new(&walk(2), &block(0), &block(2));
    assert_eq!(chain.len(), 3);
    // The same tip changes nothing, whatever is below it.
    chain.update(&vec![], &block(0), &block(2));
    assert_eq!(chain.len(), 3);
    // A higher tip adds the blocks above the last one.
    chain.update(&walk(3), &block(0), &block(3));
    let built = ConsensusBlockChainImpl::new(&walk(3), &block(0), &block(3));
    assert_eq!(chain.blocks, built.blocks);
    // Another summary block starts the chain anew.
    chain.update(&walk(6), &block(4), &block(6));
    assert_eq!(chain.len(), 3);
    assert_eq!(chain.tip(), block(6));
    assert_eq!(chain.ecdsa_payload(3), Err(ConsensusBlockChainErr::BlockNotFound(3)));
}

#[test]
fn blocks_are_added_down_to_the_start() {
    let mut blocks = BTreeMap::new();
    blocks.insert(1, block(1));
    ConsensusBlockChainImpl::add_blocks(&vec![block(6), block(5), block(4)], 5, &mut blocks);
    assert_eq!(blocks.keys().copied().collect::<Vec<u64>>(), vec![1, 5, 6]);
}

#[test]
fn heights_never_fall() {
    let mut pool = TestPool::new();
    for height in 1..6 {
        pool.advance(block(height));
    }
    let mut cache = pool.cache();
    assert_eq!(cache.finalized_block().height, 5);
    assert_eq!(cache.summary_block().height, 4);
    // A package below the finalized block is taken, and the block stays.
    let cup = package(block(4));
    let updates = cache.prepare(&vec![ChangeAction::AddToValidated(
        ConsensusMessage::CatchUpPackage(cup),
    )]);
    pool.catch_up_package = cup;
    pool.update(&mut cache, updates);
    assert_eq!(cache.catch_up_package(), cup);
    assert_eq!(cache.finalized_block().height, 5);
    check_finalized_chain(&cache, &[4, 5]);
}

#[test]
fn pools_that_do_not_fit_are_told() {
    let mut pool = TestPool::new();
    for height in 1..6 {
        pool.advance(block(height));
    }
    let cache = pool.cache();
    let chain = pool.chain(&block(5));

    // The block of the highest finalization is not there.
    let mut newest = pool.newest();
    newest.proposals = vec![];
    assert!(!knows_tip(
        &newest.highest_finalization,
        &newest.proposals,
        &newest.catch_up_package
    ));
    assert!(!ConsensusCacheImpl::can_start(&newest, &chain));
    assert!(!cache.can_update(&newest, &chain, &vec![CacheUpdateAction::Finalization]));
    // It is not needed without a finalization.
    assert!(cache.can_update(&newest, &chain, &vec![]));

    // The finalized block would be in an interval before the summary block.
    let mut newest = pool.newest();
    newest.highest_finalization = Some(finalization(3));
    newest.proposals = vec![proposal(block(3))];
    assert!(!cache.can_update(&newest, &chain, &vec![CacheUpdateAction::Finalization]));
    assert!(!knows_summary(&chain.interval, &block(4), &block(3)));

    // The summary block is not there, or is none.
    let mut interval = IntervalAnswers { finalization: None, proposals: vec![], ancestors: vec![] };
    assert!(!knows_summary(&interval, &block(0), &block(5)));
    interval.ancestors = vec![block(5), block(4)];
    assert!(knows_summary(&interval, &block(0), &block(5)));
    interval.ancestors[1].payload.is_summary = false;
    assert!(!knows_summary(&interval, &block(0), &block(5)));
    interval.finalization = Some(finalization(4));
    assert!(!knows_summary(&interval, &block(0), &block(5)));

    // The chain does not go back.
    let held = cache.finalized_chain();
    assert!(held.can_move(&block(4), &block(5)));
    assert!(!held.can_move(&block(4), &block(4)));
    assert!(held.can_move(&block(3), &block(3)));
    assert!(!held.can_move(&block(8), &block(7)));
    let empty: ConsensusBlockChainImpl<u32> = ConsensusBlockChainImpl { blocks: BTreeMap::new() };
    assert!(!empty.can_move(&block(0), &block(0)));
}

/// Checks what holds of a cache in every state.
fn check_consistent(cache: &ConsensusCacheImpl<u32>) {
    let tip = cache.finalized_block();
    let summary = cache.summary_block();
    let package = cache.catch_up_package();
    assert!(package.height <= tip.height);
    assert_eq!(summary.height, tip.payload.dkg_interval_start_height);
    assert_eq!(
        cache.finalized_chain().blocks.keys().copied().collect::<Vec<u64>>(),
        (summary.height..=tip.height).collect::<Vec<u64>>()
    );
    assert_eq!(cache.cup_as_protobuf(), vec![package.height as u8]);
}

#[test]
fn cache_is_consistent_in_every_state() {
    let mut pool = TestPool::new();
    let mut cache = pool.cache();
    check_consistent(&cache);
    for height in 1..14 {
        pool.advance(block(height));
        // Not every block is told, and packages come late.
        if height % 5 == 0 {
            pool.catch_up_package = package(block(height - height % 4));
            pool.update(&mut cache, vec![CacheUpdateAction::CatchUpPackage]);
        } else if height % 3 != 0 {
            pool.update(&mut cache, vec![CacheUpdateAction::Finalization]);
        } else {
            pool.update(&mut cache, vec![]);
        }
        check_consistent(&cache);
    }
    assert_eq!(cache.finalized_block().height, 13);
    assert_eq!(cache.catch_up_package().height, 8);
}

#[test]
fn finalized_block_may_fall_with_another_summary() {
    // The cache is ahead of its chain in the interval that starts at 4.
    let mut pool = TestPool::new();
    for height in 1..7 {
        pool.advance(block(height));
    }
    let mut cache = pool.cache();
    assert_eq!(cache.finalized_block().height, 6);
    // A finalized block that is lower, with an interval that starts later.
    let mut odd = block(5);
    odd.payload.dkg_interval_start_height = 5;
    odd.payload.is_summary = true;
    let newest = NewestAnswers {
        catch_up_package: package(block(0)),
        catch_up_package_proto: vec![0],
        highest_finalization: Some(finalization(5)),
        proposals: vec![proposal(odd)],
    };
    let chain = ChainAnswers {
        interval: IntervalAnswers {
            finalization: None,
            proposals: vec![],
            ancestors: vec![odd],
        },
        walk: vec![odd],
    };
    let updates = vec![CacheUpdateAction::Finalization];
    assert!(cache.can_update(&newest, &chain, &updates));
    cache.update(newest, &chain, &updates);
    assert_eq!(cache.finalized_block(), odd);
    check_consistent(&cache);
}
