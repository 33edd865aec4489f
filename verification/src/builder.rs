use crate::challenge::{calculate_challenge_byte, challenge_byte_spec, lemma_challenge_byte_in_weave};
use crate::digest::{engine_log, extract_weave_size, weave_size_in, DigestItem};
use crate::error::{BlockId, Error};
use crate::index::{
    count_below, find_recall_tx, fits_in_weave, lemma_count_below_reaching,
    lemma_sized_extrinsics_entries,
    lemma_sized_extrinsics_shape, reaches,
    sized_extrinsics, sized_extrinsics_spec, total,
};
use crate::poa::{copy_bytes, MAX_DEPTH};
use vstd::prelude::*;

verus! {

/// The number of the block that is searched for the recall byte.
pub const RECALL_BLOCK_NUMBER: u64 = 0;

/// The recall block as the chain gives it: the hash of its parent and the
/// data size of each of its extrinsics, in order.
pub struct RecallBlock {
    /// Hash of the parent block.
    pub parent_hash: [u8; 32],
    /// Size of the data that each extrinsic stores.
    pub data_sizes: Vec<u64>,
}

/// What the chain answered to the last request.
pub enum BuildEvent {
    /// The recall block: the backend's error message, nothing, or the block.
    Block(Result<Option<RecallBlock>, String>),
    /// The digest logs of the recall block's parent header: the backend's error
    /// message, nothing, or the logs.
    Header(Result<Option<Vec<DigestItem>>, String>),
}

/// What the builder needs next.
pub enum BuildAction {
    /// Read this block from the chain.
    FetchBlock(BlockId),
    /// Read this header from the chain.
    FetchHeader(BlockId),
    /// The transaction that holds the recall byte was found; the search ends here.
    RecallTxFound {
        /// The depth at which the recall byte was chosen.
        depth: u16,
        /// The recall byte.
        recall_byte: u64,
        /// Position of the recall transaction in its block.
        recall_extrinsic_index: usize,
        /// The weave index at which the recall transaction's data ends.
        recall_tx_data_base: u64,
    },
    /// No proof can be built.
    Fail(Error),
}

/// Where the builder stands.
pub enum BuildStage {
    /// Waiting for the recall block.
    AwaitBlock,
    /// Waiting for the parent header of the recall block.
    AwaitHeader {
        /// Hash of the recall block's parent.
        parent_hash: [u8; 32],
        /// Data sizes of the recall block's extrinsics.
        data_sizes: Vec<u64>,
    },
    /// The search has ended.
    Finished,
}

/// Constructs a proof of access by walking the depths from 1 to `MAX_DEPTH`:
/// at each depth it chooses a recall byte of the weave and looks for the
/// transaction that holds it. The chain is read by whoever drives it.
pub struct PoaBuilder {
    /// The consensus engine whose digest logs carry the weave size.
    pub engine_id: [u8; 4],
    /// The encoded chain head, hashed to choose the recall byte.
    pub seed: Vec<u8>,
    /// Size of the weave at the chain head.
    pub weave_size: u64,
    /// The current depth.
    pub depth: u16,
    /// The recall byte chosen at the current depth.
    pub recall_byte: u64,
    /// Where the search stands.
    pub stage: BuildStage,
}

impl PoaBuilder {
    /// The builder's invariant: a nonempty weave, a depth in range, and the
    /// recall byte of that depth.
    pub open spec fn wf(&self) -> bool {
        &&& self.weave_size > 0
        &&& 1 <= self.depth <= MAX_DEPTH
        &&& self.recall_byte == challenge_byte_spec(self.seed@, self.weave_size, self.depth)
    }

    /// Whether `event` answers what the builder waits for, on an input where the
    /// search is defined: the recall transaction's data indices fit in a `u64`,
    /// and a block with data reaches the recall byte.
    pub open spec fn can_step(&self, event: BuildEvent) -> bool {
        &&& self.wf()
        &&& match (self.stage, event) {
            (BuildStage::AwaitBlock, BuildEvent::Block(_)) => true,
            (BuildStage::AwaitHeader { data_sizes, .. }, BuildEvent::Header(answer)) => {
                match answer {
                    Ok(Some(logs)) => match weave_size_in(logs@, self.engine_id) {
                        Some(base) => {
                            &&& base + total(data_sizes@) <= u64::MAX
                            &&& sized_extrinsics_spec(base, data_sizes@).len() > 0 ==> reaches(
                                sized_extrinsics_spec(base, data_sizes@),
                                self.recall_byte,
                            )
                        },
                        None => true,
                    },
                    _ => true,
                }
            },
            _ => false,
        }
    }

    /// The builder after the search has ended.
    pub open spec fn finished(&self) -> PoaBuilder {
        PoaBuilder { stage: BuildStage::Finished, ..*self }
    }

    /// What `step` makes of `event`: the next builder and the action.
    /// (A failed decode of the weave size carries the decoder's error, which
    /// only the `DecodeWeaveSizeFailed` variant pins here.)
    pub open spec fn steps_to(&self, event: BuildEvent, next: PoaBuilder, action: BuildAction) -> bool {
        match (self.stage, event) {
            (BuildStage::AwaitBlock, BuildEvent::Block(answer)) => match answer {
                Err(msg) => next == self.finished() && action == BuildAction::Fail(
                    Error::BlockchainError(msg),
                ),
                Ok(None) => next == self.finished() && action == BuildAction::Fail(
                    Error::BlockNotFound(BlockId::Number(RECALL_BLOCK_NUMBER)),
                ),
                Ok(Some(block)) => next == PoaBuilder {
                    stage: BuildStage::AwaitHeader {
                        parent_hash: block.parent_hash,
                        data_sizes: block.data_sizes,
                    },
                    ..*self
                } && action == BuildAction::FetchHeader(BlockId::Hash(block.parent_hash)),
            },
            (
                BuildStage::AwaitHeader { parent_hash, data_sizes },
                BuildEvent::Header(answer),
            ) => match answer {
                Err(msg) => next == self.finished() && action == BuildAction::Fail(
                    Error::BlockchainError(msg),
                ),
                Ok(None) => next == self.finished() && action == BuildAction::Fail(
                    Error::HeaderNotFound(BlockId::Hash(parent_hash)),
                ),
                Ok(Some(logs)) => match weave_size_in(logs@, self.engine_id) {
                    None => next == self.finished() && if engine_log(logs@, self.engine_id) is None {
                        action == BuildAction::Fail(Error::EmptyWeaveSize)
                    } else {
                        action matches BuildAction::Fail(Error::DecodeWeaveSizeFailed(_))
                    },
                    Some(base) => {
                        let sized = sized_extrinsics_spec(base, data_sizes@);
                        if sized.len() == 0 {
                            if self.depth == MAX_DEPTH {
                                next == self.finished() && action == BuildAction::Fail(
                                    Error::MaxDepthReached(MAX_DEPTH),
                                )
                            } else {
                                next == PoaBuilder {
                                    depth: (self.depth + 1) as u16,
                                    recall_byte: challenge_byte_spec(
                                        self.seed@,
                                        self.weave_size,
                                        (self.depth + 1) as u16,
                                    ),
                                    stage: BuildStage::AwaitBlock,
                                    ..*self
                                } && action == BuildAction::FetchBlock(
                                    BlockId::Number(RECALL_BLOCK_NUMBER),
                                )
                            }
                        } else {
                            let found = sized[count_below(sized, self.recall_byte) as int];
                            next == self.finished() && action == BuildAction::RecallTxFound {
                                depth: self.depth,
                                recall_byte: self.recall_byte,
                                recall_extrinsic_index: found.0,
                                recall_tx_data_base: found.1,
                            }
                        }
                    },
                },
            },
            _ => false,
        }
    }
}


/// Each step moves the search forward: the builder keeps its invariant, its
/// engine, seed and weave size; the depth stays or grows by one, and grows only
/// together with a request for the next recall block; a step that fails or finds
/// the recall transaction ends the search; and a found recall transaction holds
/// the recall byte of the current depth, which lies inside the weave.
pub proof fn lemma_step_progress(
    builder: PoaBuilder,
    event: BuildEvent,
    next: PoaBuilder,
    action: BuildAction,
)
    requires
        builder.can_step(event),
        builder.steps_to(event, next, action),
    ensures
        next.wf(),
        next.engine_id == builder.engine_id,
        next.seed == builder.seed,
        next.weave_size == builder.weave_size,
        next.depth == builder.depth || (next.depth == builder.depth + 1 && action
            == BuildAction::FetchBlock(BlockId::Number(RECALL_BLOCK_NUMBER))
            && next.stage is AwaitBlock),
        action is Fail || action is RecallTxFound ==> next.stage is Finished,
        action matches BuildAction::RecallTxFound { depth, recall_byte, recall_tx_data_base, .. }
            ==> {
            &&& depth == builder.depth
            &&& recall_byte == builder.recall_byte
            &&& recall_byte <= recall_tx_data_base
            &&& recall_byte < builder.weave_size
        },
{
    lemma_challenge_byte_in_weave(builder.seed@, builder.weave_size, builder.depth);
    if let BuildStage::AwaitHeader { parent_hash, data_sizes } = builder.stage {
        if let BuildEvent::Header(Ok(Some(logs))) = event {
            if let Some(base) = weave_size_in(logs@, builder.engine_id) {
                lemma_sized_extrinsics_shape(base, data_sizes@);
                let sized = sized_extrinsics_spec(base, data_sizes@);
                if sized.len() > 0 {
                    lemma_count_below_reaching(sized, builder.recall_byte);
                }
            }
        }
    }
}

/// What a found recall transaction is, in terms of the answer alone: when the
/// header of the recall block's parent gives the weave base, `step` names the
/// extrinsic `k` of the recall block that carries data, whose data ends at the
/// base plus the sizes up to and including `k`, not before the recall byte, and
/// starts after the recall byte's predecessor, unless no data comes before it.
pub open spec fn holds_recall_byte(
    data_sizes: Seq<u64>,
    base: u64,
    recall_byte: u64,
    k: usize,
    data_end: u64,
) -> bool {
    &&& k < data_sizes.len()
    &&& data_sizes[k as int] > 0
    &&& data_end == base + total(data_sizes.take(k + 1))
    &&& recall_byte <= data_end
    &&& total(data_sizes.take(k as int)) == 0 || base + total(data_sizes.take(k as int))
        < recall_byte
}

/// A found recall transaction holds the recall byte: the extrinsic that `step`
/// names carries data, its data ends at the base of the weave plus the sizes of
/// the data up to and including it, that end is not before the recall byte, and
/// every earlier extrinsic with data ends before the recall byte.
pub proof fn lemma_recall_tx_holds_recall_byte(
    builder: PoaBuilder,
    event: BuildEvent,
    next: PoaBuilder,
    action: BuildAction,
)
    requires
        builder.can_step(event),
        builder.steps_to(event, next, action),
        action is RecallTxFound,
    ensures
        builder.stage matches BuildStage::AwaitHeader { data_sizes, .. } && event matches BuildEvent::Header(
            Ok(Some(logs)),
        ) && weave_size_in(logs@, builder.engine_id) matches Some(base)
            && action matches BuildAction::RecallTxFound {
            depth,
            recall_byte,
            recall_extrinsic_index,
            recall_tx_data_base,
        } && depth == builder.depth && recall_byte == builder.recall_byte && holds_recall_byte(
            data_sizes@,
            base,
            recall_byte,
            recall_extrinsic_index,
            recall_tx_data_base,
        ),
{
    if let BuildStage::AwaitHeader { parent_hash, data_sizes } = builder.stage {
        if let BuildEvent::Header(Ok(Some(logs))) = event {
            if let Some(base) = weave_size_in(logs@, builder.engine_id) {
                lemma_sized_extrinsics_shape(base, data_sizes@);
                assert(data_sizes@.len() == data_sizes.len());
                lemma_sized_extrinsics_entries(base, data_sizes@);
                let sized = sized_extrinsics_spec(base, data_sizes@);
                lemma_count_below_reaching(sized, builder.recall_byte);
                let c = count_below(sized, builder.recall_byte) as int;
                let e = sized[c];
                if c > 0 {
                    assert(sized[c - 1].1 < builder.recall_byte);
                }
            }
        }
    }
}

impl PoaBuilder {
    /// Starts the search at depth 1 from the chain head: its encoding `seed`
    /// and its digest logs, which carry the weave size.
    pub fn start(engine_id: [u8; 4], seed: Vec<u8>, chain_head_logs: &[DigestItem]) -> (r: Result<
        (PoaBuilder, BuildAction),
        Error,
    >)
        requires
            weave_size_in(chain_head_logs@, engine_id) matches Some(w) ==> w > 0,
        ensures
            engine_log(chain_head_logs@, engine_id) is None ==> r matches Err(Error::EmptyWeaveSize),
            engine_log(chain_head_logs@, engine_id) matches Some(data) && data.len() < 8 ==> r matches Err(
                Error::DecodeWeaveSizeFailed(_),
            ),
            r is Ok <==> weave_size_in(chain_head_logs@, engine_id) is Some,
            r matches Ok((builder, action)) ==> {
                &&& builder.wf()
                &&& weave_size_in(chain_head_logs@, engine_id) == Some(builder.weave_size)
                &&& builder.engine_id == engine_id
                &&& builder.seed@ == seed@
                &&& builder.depth == 1
                &&& builder.stage is AwaitBlock
                &&& action == BuildAction::FetchBlock(BlockId::Number(RECALL_BLOCK_NUMBER))
            },
    {
        let weave_size: u64 = match extract_weave_size(chain_head_logs, engine_id) {
            Ok(w) => w,
            Err(e) => {
                return Err(e);
            },
        };
        let recall_byte: u64 = calculate_challenge_byte(copy_bytes(&seed), weave_size, 1);
        let builder = PoaBuilder {
            engine_id,
            seed,
            weave_size,
            depth: 1,
            recall_byte,
            stage: BuildStage::AwaitBlock,
        };
        Ok((builder, BuildAction::FetchBlock(BlockId::Number(RECALL_BLOCK_NUMBER))))
    }

    /// Whether `step` may be given `event`.
    pub fn accepts(&self, event: &BuildEvent) -> (r: bool)
        requires
            self.wf(),
        ensures
            r == self.can_step(*event),
    {
        match (&self.stage, event) {
            (BuildStage::AwaitBlock, BuildEvent::Block(_)) => true,
            (BuildStage::AwaitHeader { data_sizes, .. }, BuildEvent::Header(Ok(Some(logs)))) => {
                match extract_weave_size(logs.as_slice(), self.engine_id) {
                    Ok(base) => {
                        if !fits_in_weave(base, data_sizes.as_slice()) {
                            return false;
                        }
                        let sized = sized_extrinsics(base, data_sizes.as_slice());
                        sized.len() == 0 || sized[sized.len() - 1].1 >= self.recall_byte
                    },
                    Err(_) => true,
                }
            },
            (BuildStage::AwaitHeader { .. }, BuildEvent::Header(_)) => true,
            _ => false,
        }
    }

    /// Takes the chain's answer and says what to do next.
    pub fn step(&mut self, event: BuildEvent) -> (action: BuildAction)
        requires
            old(self).can_step(event),
        ensures
            old(self).steps_to(event, *final(self), action),
            final(self).wf(),
            action matches BuildAction::RecallTxFound {
                recall_byte,
                recall_extrinsic_index,
                recall_tx_data_base,
                ..
            } ==> old(self).stage matches BuildStage::AwaitHeader { data_sizes, .. }
                && event matches BuildEvent::Header(Ok(Some(logs))) && weave_size_in(
                logs@,
                old(self).engine_id,
            ) matches Some(base) && holds_recall_byte(
                data_sizes@,
                base,
                recall_byte,
                recall_extrinsic_index,
                recall_tx_data_base,
            ),
    {
        let ghost before = *self;
        let ghost answer = event;
        let mut stage = BuildStage::Finished;
        std::mem::swap(&mut stage, &mut self.stage);
        let action: BuildAction = match stage {
            BuildStage::AwaitBlock => match event {
                BuildEvent::Block(Err(msg)) => BuildAction::Fail(Error::BlockchainError(msg)),
                BuildEvent::Block(Ok(None)) => BuildAction::Fail(
                    Error::BlockNotFound(BlockId::Number(RECALL_BLOCK_NUMBER)),
                ),
                BuildEvent::Block(Ok(Some(block))) => {
                    let hash = block.parent_hash;
                    self.stage = BuildStage::AwaitHeader {
                        parent_hash: block.parent_hash,
                        data_sizes: block.data_sizes,
                    };
                    BuildAction::FetchHeader(BlockId::Hash(hash))
                },
                BuildEvent::Header(_) => BuildAction::Fail(Error::Unknown),
            },
            BuildStage::AwaitHeader { parent_hash, data_sizes } => match event {
                BuildEvent::Header(Err(msg)) => BuildAction::Fail(Error::BlockchainError(msg)),
                BuildEvent::Header(Ok(None)) => BuildAction::Fail(
                    Error::HeaderNotFound(BlockId::Hash(parent_hash)),
                ),
                BuildEvent::Header(Ok(Some(logs))) => {
                    match extract_weave_size(logs.as_slice(), self.engine_id) {
                        Err(e) => BuildAction::Fail(e),
                        Ok(base) => {
                            proof {
                                lemma_sized_extrinsics_shape(base, data_sizes@);
                            }
                            let sized = sized_extrinsics(base, data_sizes.as_slice());
                            if sized.len() == 0 {
                                if self.depth == MAX_DEPTH {
                                    BuildAction::Fail(Error::MaxDepthReached(MAX_DEPTH))
                                } else {
                                    let depth: u16 = self.depth + 1;
                                    let recall_byte: u64 = calculate_challenge_byte(
                                        copy_bytes(&self.seed),
                                        self.weave_size,
                                        depth,
                                    );
                                    self.depth = depth;
                                    self.recall_byte = recall_byte;
                                    self.stage = BuildStage::AwaitBlock;
                                    BuildAction::FetchBlock(BlockId::Number(RECALL_BLOCK_NUMBER))
                                }
                            } else {
                                let (index, data_base): (usize, u64) = find_recall_tx(
                                    self.recall_byte,
                                    sized.as_slice(),
                                );
                                BuildAction::RecallTxFound {
                                    depth: self.depth,
                                    recall_byte: self.recall_byte,
                                    recall_extrinsic_index: index,
                                    recall_tx_data_base: data_base,
                                }
                            }
                        },
                    }
                },
                BuildEvent::Block(_) => BuildAction::Fail(Error::Unknown),
            },
            BuildStage::Finished => BuildAction::Fail(Error::Unknown),
        };
        proof {
            if action is RecallTxFound {
                lemma_recall_tx_holds_recall_byte(before, answer, *self, action);
            }
        }
        action
    }
}

} // verus!
