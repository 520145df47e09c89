//! Messages and their metadata, reduced to what the ingestion pipeline
//! reads.
use vstd::prelude::*;
use crate::ids::{Ed25519Address, MessageId, TransactionId};

verus! {

/// The largest number of inputs, of outputs and of unlock blocks that a
/// transaction carries.
pub const INPUT_OUTPUT_COUNT_MAX: usize = 127;

/// How the ledger took the transaction of a message.
#[derive(Clone, Copy, Debug, PartialEq, Eq, Structural)]
pub enum LedgerInclusionState {
    NoTransaction,
    Included,
    Conflicting,
}

/// An address in one of its forms. Only Ed25519 addresses are indexed.
#[derive(Clone, Copy, Debug, PartialEq, Eq)]
pub enum Address {
    Ed25519(Ed25519Address),
    Other,
}

/// What a transaction consumes.
#[derive(Clone, Copy, Debug, PartialEq, Eq)]
pub enum Input {
    /// An unspent output, named by the transaction that made it and its
    /// position there.
    Utxo { transaction_id: TransactionId, index: u16 },
    /// The treasury, named by the milestone that funded it.
    Treasury { milestone_id: [u8; 32] },
}

/// What a transaction creates.
#[derive(Clone, Copy, Debug, PartialEq, Eq)]
pub enum Output {
    SignatureLockedSingle { address: Address, amount: u64 },
    SignatureLockedDustAllowance { address: Address, amount: u64 },
    Treasury { amount: u64 },
}

impl Output {
    /// The number that names the output's kind in the store.
    pub open spec fn spec_kind(&self) -> u8 {
        match self {
            Output::SignatureLockedSingle { .. } => 0,
            Output::SignatureLockedDustAllowance { .. } => 1,
            Output::Treasury { .. } => 2,
        }
    }

    #[verifier::when_used_as_spec(spec_kind)]
    pub fn kind(&self) -> (k: u8)
        ensures
            k == self.spec_kind(),
    {
        match self {
            Output::SignatureLockedSingle { .. } => 0,
            Output::SignatureLockedDustAllowance { .. } => 1,
            Output::Treasury { .. } => 2,
        }
    }
}

/// What unlocks an input: a signature, or a reference to the block that
/// holds it.
#[derive(Clone, Copy, Debug, PartialEq, Eq)]
pub enum UnlockBlock {
    Signature { public_key: [u8; 32], signature: [u8; 64] },
    Reference(u16),
}

/// A transaction: its identifier, what it consumes and creates, one unlock
/// block per input, and the index of the indexation payload that its essence
/// may carry.
#[derive(Debug, PartialEq, Eq)]
pub struct TransactionPayload {
    pub id: TransactionId,
    pub inputs: Vec<Input>,
    pub outputs: Vec<Output>,
    pub unlock_blocks: Vec<UnlockBlock>,
    pub indexation: Option<Vec<u8>>,
}

/// Mathematical model of a [`TransactionPayload`].
pub struct TransactionView {
    pub id: TransactionId,
    pub inputs: Seq<Input>,
    pub outputs: Seq<Output>,
    pub unlock_blocks: Seq<UnlockBlock>,
    pub indexation: Option<Seq<u8>>,
}

impl TransactionView {
    /// Every input has its unlock block, and positions fit in 16 bits.
    pub open spec fn wf(self) -> bool {
        &&& self.inputs.len() == self.unlock_blocks.len()
        &&& self.inputs.len() <= INPUT_OUTPUT_COUNT_MAX
        &&& self.outputs.len() <= INPUT_OUTPUT_COUNT_MAX
    }
}

impl DeepView for TransactionPayload {
    type V = TransactionView;

    open spec fn deep_view(&self) -> TransactionView {
        TransactionView {
            id: self.id,
            inputs: self.inputs@,
            outputs: self.outputs@,
            unlock_blocks: self.unlock_blocks@,
            indexation: match self.indexation {
                Some(index) => Some(index@),
                None => None,
            },
        }
    }
}

/// A milestone: its index, its timestamp and the messages it confirms
/// directly.
#[derive(Debug, PartialEq, Eq)]
pub struct MilestonePayload {
    pub index: u32,
    pub timestamp: u64,
    pub parents: Vec<MessageId>,
}

/// Mathematical model of a [`MilestonePayload`].
pub struct MilestoneView {
    pub index: u32,
    pub timestamp: u64,
    pub parents: Seq<MessageId>,
}

impl DeepView for MilestonePayload {
    type V = MilestoneView;

    open spec fn deep_view(&self) -> MilestoneView {
        MilestoneView { index: self.index, timestamp: self.timestamp, parents: self.parents@ }
    }
}

/// What a message carries.
#[derive(Debug, PartialEq, Eq)]
pub enum Payload {
    Transaction(TransactionPayload),
    Milestone(MilestonePayload),
    /// An indexation payload, by its index.
    Indexation(Vec<u8>),
    /// A payload of a kind that leaves no rows of its own.
    Other,
}

/// Mathematical model of a [`Payload`].
pub enum PayloadView {
    Transaction(TransactionView),
    Milestone(MilestoneView),
    Indexation(Seq<u8>),
    Other,
}

impl PayloadView {
    pub open spec fn wf(self) -> bool {
        self matches PayloadView::Transaction(t) ==> t.wf()
    }
}

impl DeepView for Payload {
    type V = PayloadView;

    open spec fn deep_view(&self) -> PayloadView {
        match self {
            Payload::Transaction(t) => PayloadView::Transaction(t.deep_view()),
            Payload::Milestone(m) => PayloadView::Milestone(m.deep_view()),
            Payload::Indexation(index) => PayloadView::Indexation(index@),
            Payload::Other => PayloadView::Other,
        }
    }
}

/// A message: the messages it refers to, what it carries, and its bytes as
/// they are stored.
#[derive(Debug, PartialEq, Eq)]
pub struct Message {
    pub parents: Vec<MessageId>,
    pub payload: Option<Payload>,
    pub raw: Vec<u8>,
}

/// Mathematical model of a [`Message`].
pub struct MessageView {
    pub parents: Seq<MessageId>,
    pub payload: Option<PayloadView>,
    pub raw: Seq<u8>,
}

impl MessageView {
    pub open spec fn wf(self) -> bool {
        self.payload matches Some(p) ==> p.wf()
    }
}

impl DeepView for Message {
    type V = MessageView;

    open spec fn deep_view(&self) -> MessageView {
        MessageView {
            parents: self.parents@,
            payload: match self.payload {
                Some(p) => Some(p.deep_view()),
                None => None,
            },
            raw: self.raw@,
        }
    }
}

/// What the network says of a message.
#[derive(Debug, PartialEq, Eq)]
pub struct MessageMetadata {
    pub message_id: MessageId,
    pub parent_message_ids: Vec<MessageId>,
    pub is_solid: bool,
    pub referenced_by_milestone_index: Option<u32>,
    pub ledger_inclusion_state: Option<LedgerInclusionState>,
    pub should_promote: Option<bool>,
    pub should_reattach: Option<bool>,
}

/// Mathematical model of a [`MessageMetadata`].
pub struct MetadataView {
    pub message_id: MessageId,
    pub parent_message_ids: Seq<MessageId>,
    pub is_solid: bool,
    pub referenced_by_milestone_index: Option<u32>,
    pub ledger_inclusion_state: Option<LedgerInclusionState>,
    pub should_promote: Option<bool>,
    pub should_reattach: Option<bool>,
}

impl DeepView for MessageMetadata {
    type V = MetadataView;

    open spec fn deep_view(&self) -> MetadataView {
        MetadataView {
            message_id: self.message_id,
            parent_message_ids: self.parent_message_ids@,
            is_solid: self.is_solid,
            referenced_by_milestone_index: self.referenced_by_milestone_index,
            ledger_inclusion_state: self.ledger_inclusion_state,
            should_promote: self.should_promote,
            should_reattach: self.should_reattach,
        }
    }
}

/// A message together with its metadata.
#[derive(Debug, PartialEq, Eq)]
pub struct FullMessage(pub Message, pub MessageMetadata);

/// Mathematical model of a [`FullMessage`].
pub struct FullMessageView {
    pub message: MessageView,
    pub metadata: MetadataView,
}

impl FullMessageView {
    pub open spec fn wf(self) -> bool {
        self.message.wf()
    }
}

impl DeepView for FullMessage {
    type V = FullMessageView;

    open spec fn deep_view(&self) -> FullMessageView {
        FullMessageView { message: self.0.deep_view(), metadata: self.1.deep_view() }
    }
}

fn clone_bytes(bytes: &Vec<u8>) -> (r: Vec<u8>)
    ensures
        r@ == bytes@,
{
    bytes.clone()
}

/// A copy of a list of identifiers.
pub fn clone_ids(ids: &Vec<MessageId>) -> (r: Vec<MessageId>)
    ensures
        r@ == ids@,
{
    let mut r: Vec<MessageId> = Vec::new();
    let mut i: usize = 0;
    while i < ids.len()
        invariant
            i <= ids.len(),
            r@ == ids@.take(i as int),
        decreases ids.len() - i,
    {
        r.push(ids[i]);
        assert(ids@.take(i + 1) =~= ids@.take(i as int).push(ids@[i as int]));
        i += 1;
    }
    assert(ids@.take(ids.len() as int) =~= ids@);
    r
}

impl Clone for TransactionPayload {
    fn clone(&self) -> (r: Self)
        ensures
            r.deep_view() == self.deep_view(),
    {
        let mut inputs: Vec<Input> = Vec::new();
        let mut i: usize = 0;
        while i < self.inputs.len()
            invariant
                i <= self.inputs.len(),
                inputs@ == self.inputs@.take(i as int),
            decreases self.inputs.len() - i,
        {
            inputs.push(self.inputs[i]);
            assert(self.inputs@.take(i + 1) =~= self.inputs@.take(i as int).push(
                self.inputs@[i as int],
            ));
            i += 1;
        }
        assert(self.inputs@.take(self.inputs.len() as int) =~= self.inputs@);
        let mut outputs: Vec<Output> = Vec::new();
        let mut i: usize = 0;
        while i < self.outputs.len()
            invariant
                i <= self.outputs.len(),
                outputs@ == self.outputs@.take(i as int),
            decreases self.outputs.len() - i,
        {
            outputs.push(self.outputs[i]);
            assert(self.outputs@.take(i + 1) =~= self.outputs@.take(i as int).push(
                self.outputs@[i as int],
            ));
            i += 1;
        }
        assert(self.outputs@.take(self.outputs.len() as int) =~= self.outputs@);
        let mut unlock_blocks: Vec<UnlockBlock> = Vec::new();
        let mut i: usize = 0;
        while i < self.unlock_blocks.len()
            invariant
                i <= self.unlock_blocks.len(),
                unlock_blocks@ == self.unlock_blocks@.take(i as int),
            decreases self.unlock_blocks.len() - i,
        {
            unlock_blocks.push(self.unlock_blocks[i]);
            assert(self.unlock_blocks@.take(i + 1) =~= self.unlock_blocks@.take(i as int).push(
                self.unlock_blocks@[i as int],
            ));
            i += 1;
        }
        assert(self.unlock_blocks@.take(self.unlock_blocks.len() as int) =~= self.unlock_blocks@);
        let indexation = match &self.indexation {
            Some(index) => Some(clone_bytes(index)),
            None => None,
        };
        TransactionPayload { id: self.id, inputs, outputs, unlock_blocks, indexation }
    }
}

impl Clone for MilestonePayload {
    fn clone(&self) -> (r: Self)
        ensures
            r.deep_view() == self.deep_view(),
    {
        MilestonePayload {
            index: self.index,
            timestamp: self.timestamp,
            parents: clone_ids(&self.parents),
        }
    }
}

impl Clone for Payload {
    fn clone(&self) -> (r: Self)
        ensures
            r.deep_view() == self.deep_view(),
    {
        match self {
            Payload::Transaction(t) => Payload::Transaction(t.clone()),
            Payload::Milestone(m) => Payload::Milestone(m.clone()),
            Payload::Indexation(index) => Payload::Indexation(clone_bytes(index)),
            Payload::Other => Payload::Other,
        }
    }
}

impl Clone for Message {
    fn clone(&self) -> (r: Self)
        ensures
            r.deep_view() == self.deep_view(),
    {
        Message {
            parents: clone_ids(&self.parents),
            payload: match &self.payload {
                Some(p) => Some(p.clone()),
                None => None,
            },
            raw: clone_bytes(&self.raw),
        }
    }
}

impl Clone for MessageMetadata {
    fn clone(&self) -> (r: Self)
        ensures
            r.deep_view() == self.deep_view(),
    {
        MessageMetadata {
            message_id: self.message_id,
            parent_message_ids: clone_ids(&self.parent_message_ids),
            is_solid: self.is_solid,
            referenced_by_milestone_index: self.referenced_by_milestone_index,
            ledger_inclusion_state: self.ledger_inclusion_state,
            should_promote: self.should_promote,
            should_reattach: self.should_reattach,
        }
    }
}

impl Clone for FullMessage {
    fn clone(&self) -> (r: Self)
        ensures
            r.deep_view() == self.deep_view(),
    {
        FullMessage(self.0.clone(), self.1.clone())
    }
}

impl TransactionPayload {
    /// Whether every input has its unlock block and the numbers of inputs
    /// and outputs are within bounds.
    pub fn is_wf(&self) -> (r: bool)
        ensures
            r == self.deep_view().wf(),
    {
        self.inputs.len() == self.unlock_blocks.len() && self.inputs.len() <= INPUT_OUTPUT_COUNT_MAX
            && self.outputs.len() <= INPUT_OUTPUT_COUNT_MAX
    }
}

impl Message {
    /// Whether the transaction that the message may carry is well formed.
    pub fn is_wf(&self) -> (r: bool)
        ensures
            r == self.deep_view().wf(),
    {
        match &self.payload {
            Some(Payload::Transaction(transaction)) => transaction.is_wf(),
            _ => true,
        }
    }
}

impl FullMessage {
    pub fn new(message: Message, metadata: MessageMetadata) -> (r: FullMessage)
        ensures
            r.deep_view() == (FullMessageView {
                message: message.deep_view(),
                metadata: metadata.deep_view(),
            }),
    {
        FullMessage(message, metadata)
    }
}

} // verus!
