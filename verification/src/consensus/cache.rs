//! The cache of what consensus reads most: the finalized tip, the summary block, the
//! catch-up package, and the chain between summary and tip.
use super::chain::{movable, moved_to, walked_down_to, with_blocks, ConsensusBlockChainImpl};
use super::pool::{
    block_at, get_highest_finalized_block, highest_finalized, knows_summary, knows_tip, proposed,
    summary_for, summary_is_known, tip_is_known, update_summary_block, IntervalAnswers,
};
use super::types::{
    Block, BlockHash, BlockProposal, CatchUpPackage, ChangeAction, ConsensusMessage, Finalization,
};
use vstd::prelude::*;

verus! {

/// Things that can be updated in the cache.
#[derive(Clone, Copy, Debug, PartialEq, Eq)]
pub enum CacheUpdateAction {
    Finalization,
    CatchUpPackage,
}

/// What the pool says of its newest artifacts.
#[derive(Clone, Debug)]
pub struct NewestAnswers<E> {
    /// The highest catch-up package.
    pub catch_up_package: CatchUpPackage<E>,
    /// The same, in its encoded form.
    pub catch_up_package_proto: Vec<u8>,
    /// The highest finalization.
    pub highest_finalization: Option<Finalization>,
    /// The proposals at the height of that finalization.
    pub proposals: Vec<BlockProposal<E>>,
}

/// What the pool says of the chain below the finalized tip.
#[derive(Clone, Debug)]
pub struct ChainAnswers<E> {
    pub interval: IntervalAnswers<E>,
    /// The blocks of the chain, from the tip down.
    pub walk: Vec<Block<E>>,
}

/// The data that is held in the cache.
#[derive(Clone, Debug)]
pub struct CachedData<E> {
    pub finalized_block: Block<E>,
    pub summary_block: Block<E>,
    pub catch_up_package: CatchUpPackage<E>,
    pub catch_up_package_proto: Vec<u8>,
    pub finalized_chain: ConsensusBlockChainImpl<E>,
}

impl<E: Copy> CachedData<E> {
    /// What a finalization calls for: an update if it is above the finalized block.
    pub open spec fn called_by_finalization(self, finalization: Finalization) -> Option<
        CacheUpdateAction,
    > {
        if finalization.height > self.finalized_block.height {
            Some(CacheUpdateAction::Finalization)
        } else {
            None
        }
    }

    /// What a package calls for: an update if it is above the one that is held.
    pub open spec fn called_by_package(self, catch_up_package: CatchUpPackage<E>) -> Option<
        CacheUpdateAction,
    > {
        if catch_up_package.height > self.catch_up_package.height {
            Some(CacheUpdateAction::CatchUpPackage)
        } else {
            None
        }
    }

    /// What a change of the pool calls for.
    pub open spec fn called_by(self, change: ChangeAction<E>) -> Option<CacheUpdateAction> {
        match change {
            ChangeAction::AddToValidated(message) | ChangeAction::MoveToValidated(message) => {
                match message {
                    ConsensusMessage::Finalization(x) => self.called_by_finalization(x),
                    ConsensusMessage::CatchUpPackage(x) => self.called_by_package(x),
                    ConsensusMessage::Other => None,
                }
            },
            ChangeAction::Other => None,
        }
    }

    /// What the changes call for, in their order.
    pub open spec fn called_by_all(self, changes: Seq<ChangeAction<E>>) -> Seq<CacheUpdateAction>
        decreases changes.len(),
    {
        if changes.len() == 0 {
            Seq::empty()
        } else {
            let before = self.called_by_all(changes.drop_last());
            match self.called_by(changes.last()) {
                Some(action) => before.push(action),
                None => before,
            }
        }
    }

    /// What `finalization` calls for.
    pub fn check_finalization(&self, finalization: &Finalization) -> (r: Option<CacheUpdateAction>)
        ensures
            r == self.called_by_finalization(*finalization),
    {
        if finalization.height > self.finalized_block.height {
            Some(CacheUpdateAction::Finalization)
        } else {
            None
        }
    }

    /// What `catch_up_package` calls for.
    pub fn check_catch_up_package(&self, catch_up_package: &CatchUpPackage<E>) -> (r: Option<
        CacheUpdateAction,
    >)
        ensures
            r == self.called_by_package(*catch_up_package),
    {
        if catch_up_package.height > self.catch_up_package.height {
            Some(CacheUpdateAction::CatchUpPackage)
        } else {
            None
        }
    }

    /// What `change` calls for.
    fn check(&self, change: &ChangeAction<E>) -> (r: Option<CacheUpdateAction>)
        ensures
            r == self.called_by(*change),
    {
        match change {
            ChangeAction::AddToValidated(ConsensusMessage::Finalization(x)) => {
                self.check_finalization(x)
            },
            ChangeAction::MoveToValidated(ConsensusMessage::Finalization(x)) => {
                self.check_finalization(x)
            },
            ChangeAction::AddToValidated(ConsensusMessage::CatchUpPackage(x)) => {
                self.check_catch_up_package(x)
            },
            ChangeAction::MoveToValidated(ConsensusMessage::CatchUpPackage(x)) => {
                self.check_catch_up_package(x)
            },
            _ => None,
        }
    }

    /// The package that is held after `updates`.
    pub open spec fn next_package(
        self,
        updates: Seq<CacheUpdateAction>,
        newest: NewestAnswers<E>,
    ) -> CatchUpPackage<E> {
        if updates.contains(CacheUpdateAction::CatchUpPackage) {
            newest.catch_up_package
        } else {
            self.catch_up_package
        }
    }

    /// The encoded package that is held after `updates`.
    pub open spec fn next_package_proto(
        self,
        updates: Seq<CacheUpdateAction>,
        newest: NewestAnswers<E>,
    ) -> Seq<u8> {
        if updates.contains(CacheUpdateAction::CatchUpPackage) {
            newest.catch_up_package_proto@
        } else {
            self.catch_up_package_proto@
        }
    }

    /// The finalized block after `updates`.
    ///
    /// A package that is above the finalized block brings its own block. After
    /// that, a finalization has the finalized block picked anew.
    pub open spec fn next_finalized(
        self,
        updates: Seq<CacheUpdateAction>,
        newest: NewestAnswers<E>,
    ) -> Block<E> {
        if updates.contains(CacheUpdateAction::Finalization) {
            highest_finalized(
                newest.highest_finalization,
                newest.proposals@,
                self.next_package(updates, newest),
            )
        } else if updates.contains(CacheUpdateAction::CatchUpPackage)
            && newest.catch_up_package.height > self.finalized_block.height {
            newest.catch_up_package.block
        } else {
            self.finalized_block
        }
    }

    /// Whether the block that a finalization update calls for is at hand.
    pub open spec fn finalized_is_known(
        self,
        updates: Seq<CacheUpdateAction>,
        newest: NewestAnswers<E>,
    ) -> bool {
        updates.contains(CacheUpdateAction::Finalization) ==> tip_is_known(
            newest.highest_finalization,
            newest.proposals@,
            self.next_package(updates, newest),
        )
    }
}

/// Whether a package is among `updates`.
fn calls_for_package(updates: &Vec<CacheUpdateAction>) -> (r: bool)
    ensures
        r == updates@.contains(CacheUpdateAction::CatchUpPackage),
{
    let mut i: usize = 0;
    while i < updates.len()
        invariant
            i <= updates.len(),
            forall|j: int| 0 <= j < i ==> updates@[j] != CacheUpdateAction::CatchUpPackage,
        decreases updates.len() - i,
    {
        if let CacheUpdateAction::CatchUpPackage = updates[i] {
            return true;
        }
        i = i + 1;
    }
    false
}

/// Whether a finalization is among `updates`.
fn calls_for_finalization(updates: &Vec<CacheUpdateAction>) -> (r: bool)
    ensures
        r == updates@.contains(CacheUpdateAction::Finalization),
{
    let mut i: usize = 0;
    while i < updates.len()
        invariant
            i <= updates.len(),
            forall|j: int| 0 <= j < i ==> updates@[j] != CacheUpdateAction::Finalization,
        decreases updates.len() - i,
    {
        if let CacheUpdateAction::Finalization = updates[i] {
            return true;
        }
        i = i + 1;
    }
    false
}

/// Whether a cache can be made of what the pool says: the blocks that are needed are at
/// hand, and the summary block is not above the finalized one.
pub open spec fn can_be_new<E>(newest: NewestAnswers<E>, chain: ChainAnswers<E>) -> bool {
    let tip = highest_finalized(
        newest.highest_finalization,
        newest.proposals@,
        newest.catch_up_package,
    );
    let first = newest.catch_up_package.block;
    &&& tip_is_known(newest.highest_finalization, newest.proposals@, newest.catch_up_package)
    &&& summary_is_known(chain.interval, first, tip)
    &&& summary_for(chain.interval, first, tip).height <= tip.height
}

/// Whether a cache can be brought up to date by what the pool says: the blocks that are
/// needed are at hand, and the chain can go on to them.
pub open spec fn can_be_updated<E: Copy>(
    cache: CachedData<E>,
    newest: NewestAnswers<E>,
    chain: ChainAnswers<E>,
    updates: Seq<CacheUpdateAction>,
) -> bool {
    let tip = cache.next_finalized(updates, newest);
    let before = cache.summary_block;
    &&& cache.finalized_is_known(updates, newest)
    &&& summary_is_known(chain.interval, before, tip)
    &&& movable(
        cache.finalized_chain@,
        summary_for(chain.interval, before, tip).height,
        tip.height,
    )
}

/// Whether `cache` is what is made of what the pool says.
pub open spec fn is_new<E>(
    cache: CachedData<E>,
    newest: NewestAnswers<E>,
    chain: ChainAnswers<E>,
) -> bool {
    &&& cache.catch_up_package == newest.catch_up_package
    &&& cache.catch_up_package_proto@ == newest.catch_up_package_proto@
    &&& cache.finalized_block == highest_finalized(
        newest.highest_finalization,
        newest.proposals@,
        newest.catch_up_package,
    )
    &&& cache.summary_block == summary_for(
        chain.interval,
        newest.catch_up_package.block,
        cache.finalized_block,
    )
    &&& cache.finalized_chain@ == with_blocks(
        Map::empty(),
        walked_down_to(chain.walk@, cache.summary_block.height),
    )
}

/// Whether `after` is what `before` becomes by `updates`, given what the pool says.
pub open spec fn is_updated<E: Copy>(
    before: CachedData<E>,
    after: CachedData<E>,
    newest: NewestAnswers<E>,
    chain: ChainAnswers<E>,
    updates: Seq<CacheUpdateAction>,
) -> bool {
    &&& after.catch_up_package == before.next_package(updates, newest)
    &&& after.catch_up_package_proto@ == before.next_package_proto(updates, newest)
    &&& after.finalized_block == before.next_finalized(updates, newest)
    &&& after.summary_block == summary_for(
        chain.interval,
        before.summary_block,
        after.finalized_block,
    )
    &&& after.finalized_chain@ == moved_to(
        before.finalized_chain@,
        chain.walk@,
        after.summary_block.height,
        after.finalized_block.height,
    )
}

/// The consensus cache.
#[derive(Clone, Debug)]
pub struct ConsensusCacheImpl<E> {
    pub cache: CachedData<E>,
}

impl<E: Copy> ConsensusCacheImpl<E> {
    /// The finalized block that a cache starts with.
    pub fn first_finalized(newest: &NewestAnswers<E>) -> (r: Block<E>)
        requires
            tip_is_known(
                newest.highest_finalization,
                newest.proposals@,
                newest.catch_up_package,
            ),
        ensures
            r == highest_finalized(
                newest.highest_finalization,
                newest.proposals@,
                newest.catch_up_package,
            ),
    {
        get_highest_finalized_block(
            &newest.highest_finalization,
            &newest.proposals,
            &newest.catch_up_package,
        )
    }

    /// Checks that a cache can be made of what the pool says.
    pub fn can_start(newest: &NewestAnswers<E>, chain: &ChainAnswers<E>) -> (r: bool)
        ensures
            r == can_be_new(*newest, *chain),
    {
        if !knows_tip(&newest.highest_finalization, &newest.proposals, &newest.catch_up_package) {
            return false;
        }
        let tip = Self::first_finalized(newest);
        let mut summary = newest.catch_up_package.block;
        if !knows_summary(&chain.interval, &summary, &tip) {
            return false;
        }
        update_summary_block(&chain.interval, &mut summary, &tip);
        summary.height <= tip.height
    }

    /// A cache of what the pool holds: `newest` says what its newest artifacts are, and
    /// `chain` what is below the finalized block that `first_finalized` gives for them.
    pub fn new(newest: NewestAnswers<E>, chain: ChainAnswers<E>) -> (r: Self)
        requires
            can_be_new(newest, chain),
        ensures
            is_new(r.cache, newest, chain),
    {
        let finalized_block = Self::first_finalized(&newest);
        let mut summary_block = newest.catch_up_package.block;
        update_summary_block(&chain.interval, &mut summary_block, &finalized_block);
        let finalized_chain = ConsensusBlockChainImpl::new(
            &chain.walk,
            &summary_block,
            &finalized_block,
        );
        ConsensusCacheImpl {
            cache: CachedData {
                finalized_block,
                summary_block,
                catch_up_package: newest.catch_up_package,
                catch_up_package_proto: newest.catch_up_package_proto,
                finalized_chain,
            },
        }
    }

    /// The updates that the changes of the pool call for, in the order of the changes.
    pub fn prepare(&self, change_set: &Vec<ChangeAction<E>>) -> (r: Vec<CacheUpdateAction>)
        ensures
            r@ == self.cache.called_by_all(change_set@),
    {
        let mut updates: Vec<CacheUpdateAction> = Vec::new();
        let mut i: usize = 0;
        while i < change_set.len()
            invariant
                i <= change_set.len(),
                updates@ == self.cache.called_by_all(change_set@.take(i as int)),
            decreases change_set.len() - i,
        {
            assert(change_set@.take(i + 1).drop_last() =~= change_set@.take(i as int));
            match self.cache.check(&change_set[i]) {
                Some(action) => updates.push(action),
                None => (),
            }
            i = i + 1;
        }
        assert(change_set@.take(i as int) =~= change_set@);
        updates
    }

    /// The finalized block after `updates`.
    pub fn next_finalized(
        &self,
        newest: &NewestAnswers<E>,
        updates: &Vec<CacheUpdateAction>,
    ) -> (r: Block<E>)
        requires
            self.cache.finalized_is_known(updates@, *newest),
        ensures
            r == self.cache.next_finalized(updates@, *newest),
    {
        let mut catch_up_package = self.cache.catch_up_package;
        let mut finalized_block = self.cache.finalized_block;
        if calls_for_package(updates) {
            catch_up_package = newest.catch_up_package;
            if catch_up_package.height > finalized_block.height {
                finalized_block = catch_up_package.block;
            }
        }
        if calls_for_finalization(updates) {
            finalized_block =
            get_highest_finalized_block(
                &newest.highest_finalization,
                &newest.proposals,
                &catch_up_package,
            );
        }
        finalized_block
    }

    /// Checks that the cache can be brought up to date by what the pool says.
    pub fn can_update(
        &self,
        newest: &NewestAnswers<E>,
        chain: &ChainAnswers<E>,
        updates: &Vec<CacheUpdateAction>,
    ) -> (r: bool)
        ensures
            r == can_be_updated(self.cache, *newest, *chain, updates@),
    {
        let package = if calls_for_package(updates) {
            newest.catch_up_package
        } else {
            self.cache.catch_up_package
        };
        if calls_for_finalization(updates) && !knows_tip(
            &newest.highest_finalization,
            &newest.proposals,
            &package,
        ) {
            return false;
        }
        let tip = self.next_finalized(newest, updates);
        let mut summary = self.cache.summary_block;
        if !knows_summary(&chain.interval, &summary, &tip) {
            return false;
        }
        update_summary_block(&chain.interval, &mut summary, &tip);
        self.cache.finalized_chain.can_move(&summary, &tip)
    }

    /// Brings the cache up to date: `newest` says what the newest artifacts of the pool
    /// are, and `chain` what is below the finalized block that `next_finalized` gives for
    /// them.
    pub fn update(
        &mut self,
        newest: NewestAnswers<E>,
        chain: &ChainAnswers<E>,
        updates: &Vec<CacheUpdateAction>,
    )
        requires
            can_be_updated(old(self).cache, newest, *chain, updates@),
        ensures
            is_updated(old(self).cache, final(self).cache, newest, *chain, updates@),
            updates@.contains(CacheUpdateAction::CatchUpPackage) ==>
                final(self).cache.catch_up_package == newest.catch_up_package,
            updates@.contains(CacheUpdateAction::CatchUpPackage) ==>
                final(self).cache.catch_up_package_proto@ == newest.catch_up_package_proto@,
    {
        let finalized_block = self.next_finalized(&newest, updates);
        if calls_for_package(updates) {
            self.cache.catch_up_package = newest.catch_up_package;
            self.cache.catch_up_package_proto = newest.catch_up_package_proto;
        }
        self.cache.finalized_block = finalized_block;
        update_summary_block(&chain.interval, &mut self.cache.summary_block, &finalized_block);
        let summary_block = self.cache.summary_block;
        self.cache.finalized_chain.update(&chain.walk, &summary_block, &finalized_block);
    }

    /// The finalized tip.
    pub fn finalized_block(&self) -> (r: Block<E>)
        ensures
            r == self.cache.finalized_block,
    {
        self.cache.finalized_block
    }

    /// The time of consensus. There is none at the genesis block.
    pub fn consensus_time(&self) -> (r: Option<u64>)
        ensures
            r == if self.cache.finalized_block.height == 0 {
                None::<u64>
            } else {
                Some(self.cache.finalized_block.context.time)
            },
    {
        if self.cache.finalized_block.height == 0 {
            None
        } else {
            Some(self.cache.finalized_block.context.time)
        }
    }

    /// The catch-up package.
    pub fn catch_up_package(&self) -> (r: CatchUpPackage<E>)
        ensures
            r == self.cache.catch_up_package,
    {
        self.cache.catch_up_package
    }

    /// The catch-up package in its encoded form.
    pub fn cup_as_protobuf(&self) -> (r: Vec<u8>)
        ensures
            r@ == self.cache.catch_up_package_proto@,
    {
        self.cache.catch_up_package_proto.clone()
    }

    /// The summary block.
    pub fn summary_block(&self) -> (r: Block<E>)
        ensures
            r == self.cache.summary_block,
    {
        self.cache.summary_block
    }

    /// The chain from the summary block to the finalized tip.
    pub fn finalized_chain(&self) -> (r: ConsensusBlockChainImpl<E>)
        ensures
            r@ == self.cache.finalized_chain@,
    {
        ConsensusBlockChainImpl { blocks: self.cache.finalized_chain.blocks.clone() }
    }
}

/// The finalization that a change puts among the validated artifacts.
pub open spec fn validated_finalization<E>(change: ChangeAction<E>) -> Option<Finalization> {
    match change {
        ChangeAction::AddToValidated(ConsensusMessage::Finalization(x)) => Some(x),
        ChangeAction::MoveToValidated(ConsensusMessage::Finalization(x)) => Some(x),
        _ => None,
    }
}

/// The package that a change puts among the validated artifacts.
pub open spec fn validated_package<E>(change: ChangeAction<E>) -> Option<CatchUpPackage<E>> {
    match change {
        ChangeAction::AddToValidated(ConsensusMessage::CatchUpPackage(x)) => Some(x),
        ChangeAction::MoveToValidated(ConsensusMessage::CatchUpPackage(x)) => Some(x),
        _ => None,
    }
}

/// Whether `newest` is what a pool says after `changes`: its highest artifacts are not
/// below those that the changes put into it.
pub open spec fn is_after<E>(newest: NewestAnswers<E>, changes: Seq<ChangeAction<E>>) -> bool {
    &&& forall|i: int|
        0 <= i < changes.len() ==> (validated_finalization(#[trigger] changes[i]) matches Some(x)
            ==> (newest.highest_finalization matches Some(highest) && highest.height >= x.height))
    &&& forall|i: int|
        0 <= i < changes.len() ==> (validated_package(#[trigger] changes[i]) matches Some(x)
            ==> newest.catch_up_package.height >= x.height)
}

/// Whether the heights in `newest` fit together: the package is at the height of its
/// block, and the proposals are at the height of the highest finalization.
pub open spec fn heights_fit<E>(newest: NewestAnswers<E>) -> bool {
    &&& newest.catch_up_package.block.height == newest.catch_up_package.height
    &&& newest.highest_finalization matches Some(highest) ==> forall|i: int|
        0 <= i < newest.proposals@.len() ==> (#[trigger] newest.proposals@[i]).block.height
            == highest.height
}

/// What is proposed is at the height of the proposals.
pub proof fn lemma_proposed_height<E>(
    proposals: Seq<BlockProposal<E>>,
    hash: BlockHash,
    height: u64,
)
    requires
        forall|i: int| 0 <= i < proposals.len() ==> (#[trigger] proposals[i]).block.height == height,
        proposed(proposals, hash) is Some,
    ensures
        proposed(proposals, hash).unwrap().height == height,
    decreases proposals.len(),
{
    if proposals[0].hash != hash {
        let rest = proposals.drop_first();
        assert forall|i: int| 0 <= i < rest.len() implies (#[trigger] rest[i]).block.height
            == height by {
            assert(rest[i] == proposals[i + 1]);
        }
        lemma_proposed_height(rest, hash, height);
    }
}

/// A block that was looked for at a height is at that height.
proof fn lemma_block_at<E>(blocks: Seq<Block<E>>, height: u64)
    requires
        block_at(blocks, height) is Some,
    ensures
        block_at(blocks, height).unwrap().height == height,
    decreases blocks.len(),
{
    if blocks[0].height != height {
        lemma_block_at(blocks.drop_first(), height);
    }
}

/// An update is called for exactly by a change.
pub proof fn lemma_called<E: Copy>(
    cache: CachedData<E>,
    changes: Seq<ChangeAction<E>>,
    action: CacheUpdateAction,
)
    requires
        cache.called_by_all(changes).contains(action),
    ensures
        exists|i: int|
            0 <= i < changes.len() && cache.called_by(#[trigger] changes[i]) == Some(action),
    decreases changes.len(),
{
    let before = changes.drop_last();
    let updates = cache.called_by_all(changes);
    let k = choose|k: int| 0 <= k < updates.len() && updates[k] == action;
    if cache.called_by(changes.last()) == Some(action) {
        assert(changes[changes.len() - 1] == changes.last());
    } else {
        assert(cache.called_by_all(before)[k] == action);
        lemma_called(cache, before, action);
        let i = choose|i: int|
            0 <= i < before.len() && cache.called_by(#[trigger] before[i]) == Some(action);
        assert(changes[i] == before[i]);
    }
}

/// Updates that the cache itself called for never take it back: the finalized block
/// and the package do not get lower.
pub proof fn law_heights_never_fall<E: Copy>(
    cache: CachedData<E>,
    changes: Seq<ChangeAction<E>>,
    newest: NewestAnswers<E>,
)
    requires
        cache.catch_up_package.block.height == cache.catch_up_package.height,
        is_after(newest, changes),
        heights_fit(newest),
        cache.finalized_is_known(cache.called_by_all(changes), newest),
    ensures
        ({
            let updates = cache.called_by_all(changes);
            let tip = cache.next_finalized(updates, newest);
            let package = cache.next_package(updates, newest);
            &&& tip.height >= cache.finalized_block.height
            &&& package.height >= cache.catch_up_package.height
        }),
{
    let updates = cache.called_by_all(changes);
    if updates.contains(CacheUpdateAction::CatchUpPackage) {
        lemma_called(cache, changes, CacheUpdateAction::CatchUpPackage);
    }
    if updates.contains(CacheUpdateAction::Finalization) {
        lemma_called(cache, changes, CacheUpdateAction::Finalization);
        let highest = newest.highest_finalization.unwrap();
        if highest.height > cache.next_package(updates, newest).height {
            lemma_proposed_height(newest.proposals@, highest.block, highest.height);
        }
    }
}

/// Only an artifact that is higher than what the cache holds calls for an update.
pub proof fn law_only_higher_artifacts_call<E: Copy>(
    cache: CachedData<E>,
    changes: Seq<ChangeAction<E>>,
)
    ensures
        cache.called_by_all(changes).contains(CacheUpdateAction::Finalization) ==> exists|i: int|
            0 <= i < changes.len() && (validated_finalization(#[trigger] changes[i]) matches Some(x)
                && x.height > cache.finalized_block.height),
        cache.called_by_all(changes).contains(CacheUpdateAction::CatchUpPackage) ==> exists|i: int|
            0 <= i < changes.len() && (validated_package(#[trigger] changes[i]) matches Some(x)
                && x.height > cache.catch_up_package.height),
{
    if cache.called_by_all(changes).contains(CacheUpdateAction::Finalization) {
        lemma_called(cache, changes, CacheUpdateAction::Finalization);
    }
    if cache.called_by_all(changes).contains(CacheUpdateAction::CatchUpPackage) {
        lemma_called(cache, changes, CacheUpdateAction::CatchUpPackage);
    }
}

/// The summary block is always at the height where the DKG interval of the finalized
/// tip starts, if the proposals that were looked at are at that height.
pub proof fn law_summary_is_at_interval_start<E>(
    answers: IntervalAnswers<E>,
    summary: Block<E>,
    tip: Block<E>,
)
    requires
        summary_is_known(answers, summary, tip),
        forall|i: int|
            0 <= i < answers.proposals@.len() ==> (#[trigger] answers.proposals@[i]).block.height
                == tip.payload.dkg_interval_start_height,
    ensures
        summary_for(answers, summary, tip).height == tip.payload.dkg_interval_start_height,
{
    let start = tip.payload.dkg_interval_start_height;
    if start > summary.height {
        match answers.finalization {
            Some(finalization) => {
                lemma_proposed_height(answers.proposals@, finalization.block, start);
            },
            None => {
                lemma_block_at(walked_down_to(answers.ancestors@, start), start);
            },
        }
    }
}

} // verus!
