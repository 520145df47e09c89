//! The write fan-out: which rows a message leaves in the store, and which
//! rows are taken back when a message turns out to belong to another
//! milestone than the one it was stored under.
use vstd::prelude::*;
use crate::effect::{
    DeleteKeyView, Effect, EffectView, HintView, MilestoneMessageView, Row, RowView,
    SolidifierEvent, SolidifierEventView, WorkerKind,
};
use crate::ids::{MessageId, TransactionId};
use crate::message::{
    Address, Input, LedgerInclusionState, MessageView, MetadataView, Output, PayloadView,
    TransactionView,
};
use crate::partition::PartitionConfig;

verus! {

/// The lowercase hex digit of a number below sixteen.
pub open spec fn hex_digit(n: int) -> char {
    if n == 0 {
        '0'
    } else if n == 1 {
        '1'
    } else if n == 2 {
        '2'
    } else if n == 3 {
        '3'
    } else if n == 4 {
        '4'
    } else if n == 5 {
        '5'
    } else if n == 6 {
        '6'
    } else if n == 7 {
        '7'
    } else if n == 8 {
        '8'
    } else if n == 9 {
        '9'
    } else if n == 10 {
        'a'
    } else if n == 11 {
        'b'
    } else if n == 12 {
        'c'
    } else if n == 13 {
        'd'
    } else if n == 14 {
        'e'
    } else {
        'f'
    }
}

/// Bytes in hex: two lowercase digits for each byte, the high half first.
pub open spec fn hex_encoding(bytes: Seq<u8>) -> Seq<char> {
    Seq::new(
        2 * bytes.len(),
        |i: int| if i % 2 == 0 { hex_digit(bytes[i / 2] as int / 16) } else { hex_digit(bytes[i / 2] as int % 16) },
    )
}

/// `hex::encode` of the crate `hex`: the bytes as a string of lowercase hex
/// digits, two for each byte, the high half of the byte first.
#[verifier::external_body]
pub(crate) fn hex_encode(bytes: &Vec<u8>) -> (s: String)
    ensures
        s@ == hex_encoding(bytes@),
{
    hex::encode(bytes)
}

/// A worker that follows up a single write with a number of retries.
#[derive(Clone, Copy, Debug, PartialEq, Eq)]
pub struct SimpleWorker {
    pub retries: usize,
}

/// A worker for the writes of one message under one milestone: the writes
/// form a group, and the group reports once to the solidifier of the
/// milestone.
#[derive(Clone, Copy, Debug, PartialEq, Eq)]
pub struct AtomicWorker {
    pub solidifier_id: u8,
    pub milestone_index: u32,
    pub message_id: MessageId,
    pub retries: usize,
}

impl AtomicWorker {
    /// A worker for the writes of `message_id` under `milestone_index`, which
    /// report to the solidifier `solidifier_id`.
    pub fn new(solidifier_id: u8, milestone_index: u32, message_id: MessageId, retries: usize) -> (w:
        AtomicWorker)
        ensures
            w == (AtomicWorker { solidifier_id, milestone_index, message_id, retries }),
    {
        AtomicWorker { solidifier_id, milestone_index, message_id, retries }
    }
}

/// The group of the writes of one message under one milestone. The writes
/// are followed up independently; the group reports once, when the last of
/// them is done, and says then whether all of them succeeded.
///
/// `remaining` counts the writes that are not done yet. A group that has
/// reported has none left and stays silent.
#[derive(Clone, Copy, Debug, PartialEq, Eq)]
pub struct AtomicSolidifierHandle {
    pub worker: AtomicWorker,
    pub remaining: u32,
    pub any_error: bool,
}

impl AtomicSolidifierHandle {
    /// A group of `writes` writes, none of which is done.
    pub fn new(worker: AtomicWorker, writes: u32) -> (handle: AtomicSolidifierHandle)
        ensures
            handle == (AtomicSolidifierHandle { worker, remaining: writes, any_error: false }),
    {
        AtomicSolidifierHandle { worker, remaining: writes, any_error: false }
    }

    /// The group after one more write is done.
    pub open spec fn spec_complete(self, ok: bool) -> AtomicSolidifierHandle {
        if self.remaining == 0 {
            self
        } else {
            AtomicSolidifierHandle {
                remaining: (self.remaining - 1) as u32,
                any_error: self.any_error || !ok,
                ..self
            }
        }
    }

    /// What the group reports when its last write is done.
    pub open spec fn report(self) -> EffectView {
        EffectView::Solidifier {
            solidifier_id: self.worker.solidifier_id,
            event: SolidifierEventView::CqlResult {
                milestone_index: self.worker.milestone_index,
                message_id: self.worker.message_id,
                ok: !self.any_error,
            },
        }
    }

    /// One write of the group is done, with success or, after all its
    /// retries, without. The last write of the group makes the group report
    /// to its solidifier; no other does.
    pub fn complete(&mut self, ok: bool) -> (report: Option<Effect>)
        ensures
            *final(self) == old(self).spec_complete(ok),
            report.is_some() <==> old(self).remaining == 1,
            report matches Some(effect) ==> effect.deep_view() == final(self).report(),
    {
        if self.remaining == 0 {
            return None;
        }
        self.remaining = self.remaining - 1;
        if !ok {
            self.any_error = true;
        }
        if self.remaining == 0 {
            Some(
                Effect::Solidifier {
                    solidifier_id: self.worker.solidifier_id,
                    event: SolidifierEvent::CqlResult {
                        milestone_index: self.worker.milestone_index,
                        message_id: self.worker.message_id,
                        ok: !self.any_error,
                    },
                },
            )
        } else {
            None
        }
    }
}

/// A group after a run of writes is done, the first of the run first.
pub open spec fn completed(handle: AtomicSolidifierHandle, outcomes: Seq<bool>) -> AtomicSolidifierHandle
    decreases outcomes.len(),
{
    if outcomes.len() == 0 {
        handle
    } else {
        completed(handle, outcomes.drop_last()).spec_complete(outcomes.last())
    }
}

/// How many reports a group makes while a run of writes is done.
pub open spec fn reports(handle: AtomicSolidifierHandle, outcomes: Seq<bool>) -> nat
    decreases outcomes.len(),
{
    if outcomes.len() == 0 {
        0
    } else {
        reports(handle, outcomes.drop_last()) + if completed(
            handle,
            outcomes.drop_last(),
        ).remaining == 1 {
            1nat
        } else {
            0nat
        }
    }
}

/// A group reports at most once, whatever comes: exactly once when all its
/// writes are done, and not before. The report says that all is well exactly
/// if no write failed.
pub proof fn lemma_group_reports_once(handle: AtomicSolidifierHandle, outcomes: Seq<bool>)
    requires
        !handle.any_error,
        handle.remaining > 0,
    ensures
        completed(handle, outcomes).remaining == if outcomes.len() <= handle.remaining {
            handle.remaining - outcomes.len()
        } else {
            0
        },
        reports(handle, outcomes) == if outcomes.len() >= handle.remaining {
            1nat
        } else {
            0nat
        },
        outcomes.len() <= handle.remaining ==> (completed(handle, outcomes).any_error <==> exists|
            i: int,
        |
            0 <= i < outcomes.len() && !outcomes[i]),
    decreases outcomes.len(),
{
    if outcomes.len() > 0 {
        let before = outcomes.drop_last();
        lemma_group_reports_once(handle, before);
        if outcomes.len() <= handle.remaining {
            if completed(handle, outcomes).any_error {
                if completed(handle, before).any_error {
                    let i = choose|i: int| 0 <= i < before.len() && !before[i];
                    assert(!outcomes[i]);
                } else {
                    assert(!outcomes[outcomes.len() - 1]);
                }
            }
            if exists|i: int| 0 <= i < outcomes.len() && !outcomes[i] {
                let i = choose|i: int| 0 <= i < outcomes.len() && !outcomes[i];
                if i < before.len() {
                    assert(!before[i]);
                }
            }
        }
    }
}

/// What the collector needs of a worker: the effect that writes a row and
/// has this worker follow it up.
pub trait Inherent {
    /// How this worker follows up its writes.
    spec fn kind(&self) -> WorkerKind;

    /// The effect that writes `row` under this worker.
    fn inherent_boxed(&self, row: Row) -> (effect: Effect)
        ensures
            effect.deep_view() == insert_effect(self.kind(), row.deep_view()),
    ;
}

impl Inherent for SimpleWorker {
    open spec fn kind(&self) -> WorkerKind {
        WorkerKind::Simple { retries: self.retries }
    }

    fn inherent_boxed(&self, row: Row) -> (effect: Effect) {
        Effect::Insert { worker: WorkerKind::Simple { retries: self.retries }, row }
    }
}

impl Inherent for AtomicWorker {
    open spec fn kind(&self) -> WorkerKind {
        WorkerKind::Atomic {
            solidifier_id: self.solidifier_id,
            milestone_index: self.milestone_index,
            message_id: self.message_id,
            retries: self.retries,
        }
    }

    fn inherent_boxed(&self, row: Row) -> (effect: Effect) {
        Effect::Insert {
            worker: WorkerKind::Atomic {
                solidifier_id: self.solidifier_id,
                milestone_index: self.milestone_index,
                message_id: self.message_id,
                retries: self.retries,
            },
            row,
        }
    }
}

/// The effect that writes a row under a worker.
pub open spec fn insert_effect(worker: WorkerKind, row: RowView) -> EffectView {
    EffectView::Insert { worker, row }
}

/// The milestone under which the rows of a transaction are confirmed: the
/// given one if the ledger has judged the transaction, none otherwise.
pub open spec fn confirmed_index(
    inclusion_state: Option<LedgerInclusionState>,
    milestone_index: u32,
) -> Option<u32> {
    if inclusion_state.is_some() {
        Some(milestone_index)
    } else {
        None
    }
}

/// For each parent, in order: the row that names the message as its child,
/// then the hint that names the partition.
pub open spec fn parent_effects(
    config: PartitionConfig,
    worker: WorkerKind,
    message_id: MessageId,
    parents: Seq<MessageId>,
    milestone_index: u32,
    inclusion_state: Option<LedgerInclusionState>,
) -> Seq<EffectView> {
    Seq::new(
        2 * parents.len(),
        |i: int|
            if i % 2 == 0 {
                insert_effect(
                    worker,
                    RowView::Parent {
                        parent_id: parents[i / 2],
                        partition_id: config.spec_partition_id(milestone_index),
                        milestone_index,
                        message_id,
                        inclusion_state,
                    },
                )
            } else {
                insert_effect(
                    worker,
                    RowView::Hint {
                        hint: HintView::Parent(parents[i / 2]),
                        partition_id: config.spec_partition_id(milestone_index),
                        milestone_index,
                    },
                )
            },
    )
}

/// The row that files the message under an indexation key, then the hint
/// that names the partition.
pub open spec fn index_effects(
    config: PartitionConfig,
    worker: WorkerKind,
    message_id: MessageId,
    index: Seq<char>,
    milestone_index: u32,
    inclusion_state: Option<LedgerInclusionState>,
) -> Seq<EffectView> {
    seq![
        insert_effect(
            worker,
            RowView::Index {
                key: index,
                partition_id: config.spec_partition_id(milestone_index),
                milestone_index,
                message_id,
                inclusion_state,
            },
        ),
        insert_effect(
            worker,
            RowView::Hint {
                hint: HintView::Index(index),
                partition_id: config.spec_partition_id(milestone_index),
                milestone_index,
            },
        ),
    ]
}

/// The row that files the message under the hash of an indexation key,
/// then the hint that names the partition.
pub open spec fn hashed_index_effects(
    config: PartitionConfig,
    worker: WorkerKind,
    message_id: MessageId,
    hashed_index: [u8; 32],
    milestone_index: u32,
    inclusion_state: Option<LedgerInclusionState>,
) -> Seq<EffectView> {
    seq![
        insert_effect(
            worker,
            RowView::HashedIndex {
                hashed_index,
                partition_id: config.spec_partition_id(milestone_index),
                milestone_index,
                message_id,
                inclusion_state,
            },
        ),
        insert_effect(
            worker,
            RowView::Hint {
                hint: HintView::HashedIndex(hashed_index),
                partition_id: config.spec_partition_id(milestone_index),
                milestone_index,
            },
        ),
    ]
}

/// The Ed25519 address and the amount of an output that pays to one.
pub open spec fn paid_address(output: Output) -> Option<(crate::ids::Ed25519Address, u64)> {
    match output {
        Output::SignatureLockedSingle { address: Address::Ed25519(a), amount } => Some((a, amount)),
        Output::SignatureLockedDustAllowance { address: Address::Ed25519(a), amount } => Some(
            (a, amount),
        ),
        _ => None,
    }
}

/// For an output that pays to an Ed25519 address: the row that files the
/// output under the address, then the hint that names the partition. No row
/// for other outputs.
pub open spec fn address_effects(
    config: PartitionConfig,
    worker: WorkerKind,
    output: Output,
    transaction_id: TransactionId,
    index: u16,
    milestone_index: u32,
    inclusion_state: Option<LedgerInclusionState>,
) -> Seq<EffectView> {
    match paid_address(output) {
        Some((address, amount)) => seq![
            insert_effect(
                worker,
                RowView::Address {
                    address,
                    partition_id: config.spec_partition_id(milestone_index),
                    milestone_index,
                    output_type: output.spec_kind(),
                    transaction_id,
                    index,
                    amount,
                    inclusion_state,
                },
            ),
            insert_effect(
                worker,
                RowView::Hint {
                    hint: HintView::Address(address),
                    partition_id: config.spec_partition_id(milestone_index),
                    milestone_index,
                },
            ),
        ],
        None => Seq::empty(),
    }
}

/// The rows of the input at position `i`: the input itself and, where it
/// spends an output, the row that marks that output as spent.
pub open spec fn input_effects(
    worker: WorkerKind,
    message_id: MessageId,
    transaction: TransactionView,
    i: int,
    inclusion_state: Option<LedgerInclusionState>,
    milestone_index: Option<u32>,
) -> Seq<EffectView> {
    match transaction.inputs[i] {
        Input::Utxo { transaction_id, index } => seq![
            insert_effect(
                worker,
                RowView::Input {
                    transaction_id: transaction.id,
                    index: i as u16,
                    message_id,
                    input: transaction.inputs[i],
                    unlock_block: Some(transaction.unlock_blocks[i]),
                    inclusion_state,
                    milestone_index,
                },
            ),
            insert_effect(
                worker,
                RowView::Unlock {
                    transaction_id,
                    index,
                    message_id,
                    spent_by: transaction.id,
                    input_index: i as u16,
                    unlock_block: transaction.unlock_blocks[i],
                    inclusion_state,
                    milestone_index,
                },
            ),
        ],
        Input::Treasury { .. } => seq![
            insert_effect(
                worker,
                RowView::Input {
                    transaction_id: transaction.id,
                    index: i as u16,
                    message_id,
                    input: transaction.inputs[i],
                    unlock_block: None,
                    inclusion_state,
                    milestone_index,
                },
            ),
        ],
    }
}

/// The rows of the first `n` inputs, in order.
pub open spec fn inputs_effects(
    worker: WorkerKind,
    message_id: MessageId,
    transaction: TransactionView,
    n: int,
    inclusion_state: Option<LedgerInclusionState>,
    milestone_index: Option<u32>,
) -> Seq<EffectView>
    decreases n,
{
    if n <= 0 {
        Seq::empty()
    } else {
        inputs_effects(worker, message_id, transaction, n - 1, inclusion_state, milestone_index)
            + input_effects(worker, message_id, transaction, n - 1, inclusion_state, milestone_index)
    }
}

/// The rows of the output at position `i`: the output itself, then the rows
/// of its address.
pub open spec fn output_effects(
    config: PartitionConfig,
    worker: WorkerKind,
    message_id: MessageId,
    transaction: TransactionView,
    i: int,
    milestone_index: u32,
    inclusion_state: Option<LedgerInclusionState>,
) -> Seq<EffectView> {
    seq![
        insert_effect(
            worker,
            RowView::Output {
                transaction_id: transaction.id,
                index: i as u16,
                message_id,
                output: transaction.outputs[i],
                inclusion_state,
                milestone_index: confirmed_index(inclusion_state, milestone_index),
            },
        ),
    ] + address_effects(
        config,
        worker,
        transaction.outputs[i],
        transaction.id,
        i as u16,
        milestone_index,
        inclusion_state,
    )
}

/// The rows of the first `n` outputs, in order.
pub open spec fn outputs_effects(
    config: PartitionConfig,
    worker: WorkerKind,
    message_id: MessageId,
    transaction: TransactionView,
    n: int,
    milestone_index: u32,
    inclusion_state: Option<LedgerInclusionState>,
) -> Seq<EffectView>
    decreases n,
{
    if n <= 0 {
        Seq::empty()
    } else {
        outputs_effects(
            config,
            worker,
            message_id,
            transaction,
            n - 1,
            milestone_index,
            inclusion_state,
        ) + output_effects(
            config,
            worker,
            message_id,
            transaction,
            n - 1,
            milestone_index,
            inclusion_state,
        )
    }
}

/// The rows of a transaction: those of its inputs, those of its outputs,
/// and those of the indexation payload that its essence may carry.
pub open spec fn transaction_effects(
    config: PartitionConfig,
    worker: WorkerKind,
    message_id: MessageId,
    transaction: TransactionView,
    inclusion_state: Option<LedgerInclusionState>,
    milestone_index: u32,
) -> Seq<EffectView> {
    inputs_effects(
        worker,
        message_id,
        transaction,
        transaction.inputs.len() as int,
        inclusion_state,
        confirmed_index(inclusion_state, milestone_index),
    ) + outputs_effects(
        config,
        worker,
        message_id,
        transaction,
        transaction.outputs.len() as int,
        milestone_index,
        inclusion_state,
    ) + match transaction.indexation {
        Some(index) => index_effects(
            config,
            worker,
            message_id,
            hex_encoding(index),
            milestone_index,
            inclusion_state,
        ),
        None => Seq::empty(),
    }
}

/// The solidifier of a milestone: its index modulo the number of
/// collectors.
pub open spec fn solidifier_of(milestone_index: u32, collectors_count: u8) -> u8 {
    (milestone_index % (collectors_count as u32)) as u8
}

/// What a payload leaves behind. An indexation payload leaves its index
/// rows, a transaction its rows. A milestone whose message is known with
/// its metadata and has the parents that the milestone names is announced to
/// the solidifier of its index and leaves its row. Other payloads leave
/// nothing.
pub open spec fn payload_effects(
    config: PartitionConfig,
    collectors_count: u8,
    worker: WorkerKind,
    message_id: MessageId,
    message: MessageView,
    payload: PayloadView,
    milestone_index: u32,
    inclusion_state: Option<LedgerInclusionState>,
    metadata: Option<MetadataView>,
) -> Seq<EffectView> {
    match payload {
        PayloadView::Indexation(index) => index_effects(
            config,
            worker,
            message_id,
            hex_encoding(index),
            milestone_index,
            inclusion_state,
        ),
        PayloadView::Transaction(transaction) => transaction_effects(
            config,
            worker,
            message_id,
            transaction,
            inclusion_state,
            milestone_index,
        ),
        PayloadView::Milestone(milestone) => {
            if metadata.is_some() && message.parents == milestone.parents {
                seq![
                    EffectView::Solidifier {
                        solidifier_id: solidifier_of(milestone.index, collectors_count),
                        event: SolidifierEventView::Milestone(
                            MilestoneMessageView { message_id, milestone, message, metadata },
                        ),
                    },
                    insert_effect(
                        worker,
                        RowView::Milestone {
                            milestone_index: milestone.index,
                            message_id,
                            timestamp: milestone.timestamp,
                        },
                    ),
                ]
            } else {
                Seq::empty()
            }
        },
        PayloadView::Other => Seq::empty(),
    }
}

/// The rows of the payload of a message, if it has one.
pub open spec fn message_payload_effects(
    config: PartitionConfig,
    collectors_count: u8,
    worker: WorkerKind,
    message_id: MessageId,
    message: MessageView,
    milestone_index: u32,
    inclusion_state: Option<LedgerInclusionState>,
    metadata: Option<MetadataView>,
) -> Seq<EffectView> {
    match message.payload {
        Some(payload) => payload_effects(
            config,
            collectors_count,
            worker,
            message_id,
            message,
            payload,
            milestone_index,
            inclusion_state,
            metadata,
        ),
        None => Seq::empty(),
    }
}

/// The effect that deletes a row.
pub open spec fn delete_effect(key: DeleteKeyView, retries: usize) -> EffectView {
    EffectView::Delete { key, retries }
}

/// For each parent, in order: the deletion of the row that names the
/// message as its child under the given milestone.
pub open spec fn delete_parent_effects(
    config: PartitionConfig,
    message_id: MessageId,
    parents: Seq<MessageId>,
    milestone_index: u32,
    retries: usize,
) -> Seq<EffectView> {
    Seq::new(
        parents.len(),
        |i: int|
            delete_effect(
                DeleteKeyView::Parent {
                    parent_id: parents[i],
                    partition_id: config.spec_partition_id(milestone_index),
                    milestone_index,
                    message_id,
                },
                retries,
            ),
    )
}

/// The deletion of the row that files the message under an indexation key.
pub open spec fn delete_index_effects(
    config: PartitionConfig,
    message_id: MessageId,
    index: Seq<char>,
    milestone_index: u32,
    retries: usize,
) -> Seq<EffectView> {
    seq![
        delete_effect(
            DeleteKeyView::Index {
                key: index,
                partition_id: config.spec_partition_id(milestone_index),
                milestone_index,
                message_id,
            },
            retries,
        ),
    ]
}

/// For an output that pays to an Ed25519 address: the deletion of the row
/// that files the output under the address.
pub open spec fn delete_address_effects(
    config: PartitionConfig,
    output: Output,
    transaction_id: TransactionId,
    index: u16,
    milestone_index: u32,
    retries: usize,
) -> Seq<EffectView> {
    match paid_address(output) {
        Some((address, _)) => seq![
            delete_effect(
                DeleteKeyView::Address {
                    address,
                    partition_id: config.spec_partition_id(milestone_index),
                    milestone_index,
                    output_type: output.spec_kind(),
                    transaction_id,
                    index,
                },
                retries,
            ),
        ],
        None => Seq::empty(),
    }
}

/// The deletions for the addresses of the first `n` outputs, in order.
pub open spec fn delete_addresses_effects(
    config: PartitionConfig,
    transaction: TransactionView,
    n: int,
    milestone_index: u32,
    retries: usize,
) -> Seq<EffectView>
    decreases n,
{
    if n <= 0 {
        Seq::empty()
    } else {
        delete_addresses_effects(config, transaction, n - 1, milestone_index, retries)
            + delete_address_effects(
            config,
            transaction.outputs[n - 1],
            transaction.id,
            (n - 1) as u16,
            milestone_index,
            retries,
        )
    }
}

/// The deletions of the partitioned rows of a transaction: the index row of
/// its essence's indexation payload, then the address rows of its outputs.
pub open spec fn delete_transaction_effects(
    config: PartitionConfig,
    message_id: MessageId,
    transaction: TransactionView,
    milestone_index: u32,
    retries: usize,
) -> Seq<EffectView> {
    (match transaction.indexation {
        Some(index) => delete_index_effects(
            config,
            message_id,
            hex_encoding(index),
            milestone_index,
            retries,
        ),
        None => Seq::empty(),
    }) + delete_addresses_effects(
        config,
        transaction,
        transaction.outputs.len() as int,
        milestone_index,
        retries,
    )
}

/// The clean-up after a wrong estimate: the deletion of every partitioned
/// row (parents, index, addresses) that the message left under the
/// milestone it was wrongly stored under.
pub open spec fn cleanup_effects(
    config: PartitionConfig,
    message_id: MessageId,
    message: MessageView,
    wrong_est_ms: u32,
    retries: usize,
) -> Seq<EffectView> {
    delete_parent_effects(config, message_id, message.parents, wrong_est_ms, retries)
        + match message.payload {
        Some(PayloadView::Indexation(index)) => delete_index_effects(
            config,
            message_id,
            hex_encoding(index),
            wrong_est_ms,
            retries,
        ),
        Some(PayloadView::Transaction(transaction)) => delete_transaction_effects(
            config,
            message_id,
            transaction,
            wrong_est_ms,
            retries,
        ),
        _ => Seq::empty(),
    }
}

} // verus!
