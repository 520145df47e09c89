//! What the collector asks its caller to do: events for the solidifiers and
//! the requesters, and rows to write to or delete from the store.
use vstd::prelude::*;
use crate::ids::{Ed25519Address, MessageId, TransactionId};
use crate::message::{
    FullMessage, FullMessageView, Input, LedgerInclusionState, Message, MessageMetadata,
    MessageView, MetadataView, MilestonePayload, MilestoneView, Output, UnlockBlock,
};

verus! {

/// A user-visible key under which the partitions of its rows can be found.
#[derive(Debug, PartialEq, Eq)]
pub enum Hint {
    Parent(MessageId),
    /// An indexation key, as hex digits.
    Index(String),
    /// An indexation key, by its hash.
    HashedIndex([u8; 32]),
    Address(Ed25519Address),
}

/// Mathematical model of a [`Hint`].
pub enum HintView {
    Parent(MessageId),
    Index(Seq<char>),
    HashedIndex([u8; 32]),
    Address(Ed25519Address),
}

impl DeepView for Hint {
    type V = HintView;

    open spec fn deep_view(&self) -> HintView {
        match self {
            Hint::Parent(id) => HintView::Parent(*id),
            Hint::Index(index) => HintView::Index(index@),
            Hint::HashedIndex(hash) => HintView::HashedIndex(*hash),
            Hint::Address(address) => HintView::Address(*address),
        }
    }
}

/// A row to write, with its key and its value.
#[allow(inconsistent_fields)]
#[derive(Debug, PartialEq, Eq)]
pub enum Row {
    /// `messages`: the bytes of a message, with its metadata where known.
    Message { message_id: MessageId, message: Vec<u8>, metadata: Option<MessageMetadata> },
    /// `messages`: the metadata of a message whose bytes are not known.
    Metadata { message_id: MessageId, metadata: MessageMetadata },
    /// `parents`: one child of a parent.
    Parent {
        parent_id: MessageId,
        partition_id: u16,
        milestone_index: u32,
        message_id: MessageId,
        inclusion_state: Option<LedgerInclusionState>,
    },
    /// `indexes`: one message under an indexation key (hex digits).
    Index {
        key: String,
        partition_id: u16,
        milestone_index: u32,
        message_id: MessageId,
        inclusion_state: Option<LedgerInclusionState>,
    },
    /// `indexes`, keyed by the hash of the indexation key: one message
    /// under the key.
    HashedIndex {
        hashed_index: [u8; 32],
        partition_id: u16,
        milestone_index: u32,
        message_id: MessageId,
        inclusion_state: Option<LedgerInclusionState>,
    },
    /// `addresses`: one output that pays to an address.
    Address {
        address: Ed25519Address,
        partition_id: u16,
        milestone_index: u32,
        output_type: u8,
        transaction_id: TransactionId,
        index: u16,
        amount: u64,
        inclusion_state: Option<LedgerInclusionState>,
    },
    /// `transactions`, variant input: an input of a transaction, with the
    /// block that unlocks it where it spends an output.
    Input {
        transaction_id: TransactionId,
        index: u16,
        message_id: MessageId,
        input: Input,
        unlock_block: Option<UnlockBlock>,
        inclusion_state: Option<LedgerInclusionState>,
        milestone_index: Option<u32>,
    },
    /// `transactions`, variant unlock: under the output that is spent, the
    /// transaction and input that spend it.
    Unlock {
        transaction_id: TransactionId,
        index: u16,
        message_id: MessageId,
        spent_by: TransactionId,
        input_index: u16,
        unlock_block: UnlockBlock,
        inclusion_state: Option<LedgerInclusionState>,
        milestone_index: Option<u32>,
    },
    /// `transactions`, variant output: an output of a transaction.
    Output {
        transaction_id: TransactionId,
        index: u16,
        message_id: MessageId,
        output: Output,
        inclusion_state: Option<LedgerInclusionState>,
        milestone_index: Option<u32>,
    },
    /// `milestones`: the message that carries a milestone.
    Milestone { milestone_index: u32, message_id: MessageId, timestamp: u64 },
    /// `hints`: the partition where rows of a key are found.
    Hint { hint: Hint, partition_id: u16, milestone_index: u32 },
}

/// Mathematical model of a [`Row`].
#[allow(inconsistent_fields)]
pub enum RowView {
    Message { message_id: MessageId, message: Seq<u8>, metadata: Option<MetadataView> },
    Metadata { message_id: MessageId, metadata: MetadataView },
    Parent {
        parent_id: MessageId,
        partition_id: u16,
        milestone_index: u32,
        message_id: MessageId,
        inclusion_state: Option<LedgerInclusionState>,
    },
    Index {
        key: Seq<char>,
        partition_id: u16,
        milestone_index: u32,
        message_id: MessageId,
        inclusion_state: Option<LedgerInclusionState>,
    },
    HashedIndex {
        hashed_index: [u8; 32],
        partition_id: u16,
        milestone_index: u32,
        message_id: MessageId,
        inclusion_state: Option<LedgerInclusionState>,
    },
    Address {
        address: Ed25519Address,
        partition_id: u16,
        milestone_index: u32,
        output_type: u8,
        transaction_id: TransactionId,
        index: u16,
        amount: u64,
        inclusion_state: Option<LedgerInclusionState>,
    },
    Input {
        transaction_id: TransactionId,
        index: u16,
        message_id: MessageId,
        input: Input,
        unlock_block: Option<UnlockBlock>,
        inclusion_state: Option<LedgerInclusionState>,
        milestone_index: Option<u32>,
    },
    Unlock {
        transaction_id: TransactionId,
        index: u16,
        message_id: MessageId,
        spent_by: TransactionId,
        input_index: u16,
        unlock_block: UnlockBlock,
        inclusion_state: Option<LedgerInclusionState>,
        milestone_index: Option<u32>,
    },
    Output {
        transaction_id: TransactionId,
        index: u16,
        message_id: MessageId,
        output: Output,
        inclusion_state: Option<LedgerInclusionState>,
        milestone_index: Option<u32>,
    },
    Milestone { milestone_index: u32, message_id: MessageId, timestamp: u64 },
    Hint { hint: HintView, partition_id: u16, milestone_index: u32 },
}

impl DeepView for Row {
    type V = RowView;

    open spec fn deep_view(&self) -> RowView {
        match self {
            Row::Message { message_id, message, metadata } => RowView::Message {
                message_id: *message_id,
                message: message@,
                metadata: match metadata {
                    Some(m) => Some(m.deep_view()),
                    None => None,
                },
            },
            Row::Metadata { message_id, metadata } => RowView::Metadata {
                message_id: *message_id,
                metadata: metadata.deep_view(),
            },
            Row::Parent { parent_id, partition_id, milestone_index, message_id, inclusion_state } => {
                RowView::Parent {
                    parent_id: *parent_id,
                    partition_id: *partition_id,
                    milestone_index: *milestone_index,
                    message_id: *message_id,
                    inclusion_state: *inclusion_state,
                }
            },
            Row::Index { key, partition_id, milestone_index, message_id, inclusion_state } => {
                RowView::Index {
                    key: key@,
                    partition_id: *partition_id,
                    milestone_index: *milestone_index,
                    message_id: *message_id,
                    inclusion_state: *inclusion_state,
                }
            },
            Row::HashedIndex {
                hashed_index,
                partition_id,
                milestone_index,
                message_id,
                inclusion_state,
            } => RowView::HashedIndex {
                hashed_index: *hashed_index,
                partition_id: *partition_id,
                milestone_index: *milestone_index,
                message_id: *message_id,
                inclusion_state: *inclusion_state,
            },
            Row::Address {
                address,
                partition_id,
                milestone_index,
                output_type,
                transaction_id,
                index,
                amount,
                inclusion_state,
            } => RowView::Address {
                address: *address,
                partition_id: *partition_id,
                milestone_index: *milestone_index,
                output_type: *output_type,
                transaction_id: *transaction_id,
                index: *index,
                amount: *amount,
                inclusion_state: *inclusion_state,
            },
            Row::Input {
                transaction_id,
                index,
                message_id,
                input,
                unlock_block,
                inclusion_state,
                milestone_index,
            } => RowView::Input {
                transaction_id: *transaction_id,
                index: *index,
                message_id: *message_id,
                input: *input,
                unlock_block: *unlock_block,
                inclusion_state: *inclusion_state,
                milestone_index: *milestone_index,
            },
            Row::Unlock {
                transaction_id,
                index,
                message_id,
                spent_by,
                input_index,
                unlock_block,
                inclusion_state,
                milestone_index,
            } => RowView::Unlock {
                transaction_id: *transaction_id,
                index: *index,
                message_id: *message_id,
                spent_by: *spent_by,
                input_index: *input_index,
                unlock_block: *unlock_block,
                inclusion_state: *inclusion_state,
                milestone_index: *milestone_index,
            },
            Row::Output {
                transaction_id,
                index,
                message_id,
                output,
                inclusion_state,
                milestone_index,
            } => RowView::Output {
                transaction_id: *transaction_id,
                index: *index,
                message_id: *message_id,
                output: *output,
                inclusion_state: *inclusion_state,
                milestone_index: *milestone_index,
            },
            Row::Milestone { milestone_index, message_id, timestamp } => RowView::Milestone {
                milestone_index: *milestone_index,
                message_id: *message_id,
                timestamp: *timestamp,
            },
            Row::Hint { hint, partition_id, milestone_index } => RowView::Hint {
                hint: hint.deep_view(),
                partition_id: *partition_id,
                milestone_index: *milestone_index,
            },
        }
    }
}

/// The primary key of a partitioned row to delete.
#[derive(Debug, PartialEq, Eq)]
pub enum DeleteKey {
    Parent { parent_id: MessageId, partition_id: u16, milestone_index: u32, message_id: MessageId },
    Index { key: String, partition_id: u16, milestone_index: u32, message_id: MessageId },
    Address {
        address: Ed25519Address,
        partition_id: u16,
        milestone_index: u32,
        output_type: u8,
        transaction_id: TransactionId,
        index: u16,
    },
}

/// Mathematical model of a [`DeleteKey`].
pub enum DeleteKeyView {
    Parent { parent_id: MessageId, partition_id: u16, milestone_index: u32, message_id: MessageId },
    Index { key: Seq<char>, partition_id: u16, milestone_index: u32, message_id: MessageId },
    Address {
        address: Ed25519Address,
        partition_id: u16,
        milestone_index: u32,
        output_type: u8,
        transaction_id: TransactionId,
        index: u16,
    },
}

impl DeepView for DeleteKey {
    type V = DeleteKeyView;

    open spec fn deep_view(&self) -> DeleteKeyView {
        match self {
            DeleteKey::Parent { parent_id, partition_id, milestone_index, message_id } => {
                DeleteKeyView::Parent {
                    parent_id: *parent_id,
                    partition_id: *partition_id,
                    milestone_index: *milestone_index,
                    message_id: *message_id,
                }
            },
            DeleteKey::Index { key, partition_id, milestone_index, message_id } => {
                DeleteKeyView::Index {
                    key: key@,
                    partition_id: *partition_id,
                    milestone_index: *milestone_index,
                    message_id: *message_id,
                }
            },
            DeleteKey::Address {
                address,
                partition_id,
                milestone_index,
                output_type,
                transaction_id,
                index,
            } => DeleteKeyView::Address {
                address: *address,
                partition_id: *partition_id,
                milestone_index: *milestone_index,
                output_type: *output_type,
                transaction_id: *transaction_id,
                index: *index,
            },
        }
    }
}

/// How a write is followed up: on its own, with a number of retries, or as
/// one of a group that reports once to the solidifier of a milestone.
#[derive(Clone, Copy, Debug, PartialEq, Eq)]
pub enum WorkerKind {
    Simple { retries: usize },
    Atomic { solidifier_id: u8, milestone_index: u32, message_id: MessageId, retries: usize },
}

/// A milestone with the message that carries it.
#[derive(Debug, PartialEq, Eq)]
pub struct MilestoneMessage {
    pub message_id: MessageId,
    pub milestone: MilestonePayload,
    pub message: Message,
    pub metadata: Option<MessageMetadata>,
}

/// Mathematical model of a [`MilestoneMessage`].
pub struct MilestoneMessageView {
    pub message_id: MessageId,
    pub milestone: MilestoneView,
    pub message: MessageView,
    pub metadata: Option<MetadataView>,
}

impl DeepView for MilestoneMessage {
    type V = MilestoneMessageView;

    open spec fn deep_view(&self) -> MilestoneMessageView {
        MilestoneMessageView {
            message_id: self.message_id,
            milestone: self.milestone.deep_view(),
            message: self.message.deep_view(),
            metadata: match self.metadata {
                Some(m) => Some(m.deep_view()),
                None => None,
            },
        }
    }
}

/// What the collector tells a solidifier.
#[derive(Debug, PartialEq, Eq)]
pub enum SolidifierEvent {
    /// The milestone that opens an assembly.
    Milestone(MilestoneMessage),
    /// A message with its metadata.
    Message(FullMessage),
    /// The message is not to be had for this milestone.
    Close(MessageId, u32),
    /// Whether the milestone can be solidified: `Err` says that a message
    /// of this milestone could not be fetched.
    Solidify(Result<u32, u32>),
    /// The writes of a message under a milestone are done; `ok` says whether
    /// all of them succeeded.
    CqlResult { milestone_index: u32, message_id: MessageId, ok: bool },
}

/// Mathematical model of a [`SolidifierEvent`].
pub enum SolidifierEventView {
    Milestone(MilestoneMessageView),
    Message(FullMessageView),
    Close(MessageId, u32),
    Solidify(Result<u32, u32>),
    CqlResult { milestone_index: u32, message_id: MessageId, ok: bool },
}

impl DeepView for SolidifierEvent {
    type V = SolidifierEventView;

    open spec fn deep_view(&self) -> SolidifierEventView {
        match self {
            SolidifierEvent::Milestone(m) => SolidifierEventView::Milestone(m.deep_view()),
            SolidifierEvent::Message(m) => SolidifierEventView::Message(m.deep_view()),
            SolidifierEvent::Close(id, ms) => SolidifierEventView::Close(*id, *ms),
            SolidifierEvent::Solidify(r) => SolidifierEventView::Solidify(*r),
            SolidifierEvent::CqlResult { milestone_index, message_id, ok } => {
                SolidifierEventView::CqlResult {
                    milestone_index: *milestone_index,
                    message_id: *message_id,
                    ok: *ok,
                }
            },
        }
    }
}

/// What the collector asks of a requester.
#[derive(Clone, Copy, Debug, PartialEq, Eq)]
pub enum RequesterEvent {
    RequestFullMessage(MessageId, u32),
    RequestMilestone(u32),
}

/// One thing the collector asks its caller to do.
#[derive(Debug, PartialEq, Eq)]
pub enum Effect {
    /// Send an event to the solidifier of a partition.
    Solidifier { solidifier_id: u8, event: SolidifierEvent },
    /// Send a request to a requester.
    Requester { requester_id: u8, request: RequesterEvent },
    /// Write a row at consistency one and follow it up as `worker` says.
    Insert { worker: WorkerKind, row: Row },
    /// Delete a row at consistency one, with a number of retries.
    Delete { key: DeleteKey, retries: usize },
    /// Shut a requester down.
    Shutdown { requester_id: u8 },
}

/// Mathematical model of an [`Effect`].
pub enum EffectView {
    Solidifier { solidifier_id: u8, event: SolidifierEventView },
    Requester { requester_id: u8, request: RequesterEvent },
    Insert { worker: WorkerKind, row: RowView },
    Delete { key: DeleteKeyView, retries: usize },
    Shutdown { requester_id: u8 },
}

impl DeepView for Effect {
    type V = EffectView;

    open spec fn deep_view(&self) -> EffectView {
        match self {
            Effect::Solidifier { solidifier_id, event } => EffectView::Solidifier {
                solidifier_id: *solidifier_id,
                event: event.deep_view(),
            },
            Effect::Requester { requester_id, request } => EffectView::Requester {
                requester_id: *requester_id,
                request: *request,
            },
            Effect::Insert { worker, row } => EffectView::Insert {
                worker: *worker,
                row: row.deep_view(),
            },
            Effect::Delete { key, retries } => EffectView::Delete {
                key: key.deep_view(),
                retries: *retries,
            },
            Effect::Shutdown { requester_id } => EffectView::Shutdown { requester_id: *requester_id },
        }
    }
}

/// Adds one effect to a list.
pub fn push_effect(effects: &mut Vec<Effect>, effect: Effect)
    ensures
        final(effects).deep_view() == old(effects).deep_view().push(effect.deep_view()),
{
    effects.push(effect);
    assert(effects.deep_view() =~= old(effects).deep_view().push(effect.deep_view()));
}

/// Adds a list of effects to a list.
pub fn extend_effects(effects: &mut Vec<Effect>, more: Vec<Effect>)
    ensures
        final(effects).deep_view() == old(effects).deep_view() + more.deep_view(),
{
    let mut more = more;
    let ghost added = more.deep_view();
    effects.append(&mut more);
    assert(effects.deep_view() =~= old(effects).deep_view() + added);
}

/// A list of no effects.
pub fn no_effects() -> (effects: Vec<Effect>)
    ensures
        effects.deep_view() == Seq::<EffectView>::empty(),
{
    let effects: Vec<Effect> = Vec::new();
    assert(effects.deep_view() =~= Seq::<EffectView>::empty());
    effects
}

} // verus!
