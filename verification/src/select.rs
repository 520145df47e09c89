//! The read side of the store: the text of each query, the values bound to
//! it, what is made of the rows that come back, and what is done when a
//! query fails because the store does not know its statement.
use vstd::prelude::*;
use crate::ids::{Ed25519Address, MessageId, TransactionId};
use crate::keyspace::ChronicleKeyspace;
use crate::message::{LedgerInclusionState, Output, UnlockBlock};
use crate::store::{hex_encode, hex_encoding};

verus! {

/// The queries of the read side.
#[derive(Clone, Copy, Debug, PartialEq, Eq, Structural)]
pub enum Select {
    /// The bytes of a message.
    Message,
    /// The metadata of a message.
    Metadata,
    /// The bytes and the metadata of a message.
    MessageAndMetadata,
    /// The children of a message, in one partition, up to a milestone.
    Parents,
    /// The messages under an indexation key, in one partition, up to a
    /// milestone.
    Indexes,
    /// The outputs that pay to an address, in one partition, up to a
    /// milestone.
    Addresses,
    /// An output and the blocks that unlock it.
    Output,
    /// The message that carries a milestone.
    Milestone,
    /// The partitions where the rows of a key are found.
    Hints,
    /// The sync records of a range of milestones.
    Sync,
}

impl Select {
    /// What the statement says before it names the keyspace.
    pub open spec fn spec_head(self) -> Seq<char> {
        match self {
            Select::Message => "SELECT message FROM "@,
            Select::Metadata => "SELECT metadata FROM "@,
            Select::MessageAndMetadata => "SELECT message, metadata FROM "@,
            Select::Parents => "SELECT partition_id, milestone_index, message_id, inclusion_state\n            FROM "@,
            Select::Indexes => "SELECT partition_id, milestone_index, message_id, inclusion_state\n            FROM "@,
            Select::Addresses => "SELECT partition_id, milestone_index, output_type, transaction_id, idx, amount, inclusion_state\n            FROM "@,
            Select::Output => "SELECT message_id, data, inclusion_state\n            FROM "@,
            Select::Milestone => "SELECT message_id, timestamp FROM "@,
            Select::Hints => "SELECT milestone_index, partition_id\n            FROM "@,
            Select::Sync => "SELECT milestone_index, synced_by, logged_by FROM "@,
        }
    }

    /// What the statement says after it has named the keyspace.
    pub open spec fn spec_tail(self) -> Seq<char> {
        match self {
            Select::Message => ".messages WHERE message_id = ?"@,
            Select::Metadata => ".messages WHERE message_id = ?"@,
            Select::MessageAndMetadata => ".messages WHERE message_id = ?"@,
            Select::Parents => ".parents\n            WHERE parent_id = ? AND partition_id = ? AND milestone_index <= ?"@,
            Select::Indexes => ".indexes\n            WHERE indexation = ? AND partition_id = ? AND milestone_index <= ?"@,
            Select::Addresses => ".addresses\n            WHERE address = ? AND address_type = 0 AND partition_id = ? AND milestone_index <= ?"@,
            Select::Output => ".transactions\n            WHERE transaction_id = ?\n            AND idx = ?\n            AND (variant = 'output' OR variant = 'unlock')"@,
            Select::Milestone => ".milestones WHERE milestone_index = ?"@,
            Select::Hints => ".hints\n            WHERE hint = ? AND variant = ?"@,
            Select::Sync => ".sync WHERE key = ? AND milestone_index >= ? AND milestone_index < ?"@,
        }
    }

    /// The text of the statement for a keyspace.
    pub open spec fn spec_statement(self, keyspace: Seq<char>) -> Seq<char> {
        self.spec_head() + keyspace + self.spec_tail()
    }

    fn head(self) -> (s: &'static str)
        ensures
            s@ == self.spec_head(),
    {
        match self {
            Select::Message => "SELECT message FROM ",
            Select::Metadata => "SELECT metadata FROM ",
            Select::MessageAndMetadata => "SELECT message, metadata FROM ",
            Select::Parents => "SELECT partition_id, milestone_index, message_id, inclusion_state\n            FROM ",
            Select::Indexes => "SELECT partition_id, milestone_index, message_id, inclusion_state\n            FROM ",
            Select::Addresses => "SELECT partition_id, milestone_index, output_type, transaction_id, idx, amount, inclusion_state\n            FROM ",
            Select::Output => "SELECT message_id, data, inclusion_state\n            FROM ",
            Select::Milestone => "SELECT message_id, timestamp FROM ",
            Select::Hints => "SELECT milestone_index, partition_id\n            FROM ",
            Select::Sync => "SELECT milestone_index, synced_by, logged_by FROM ",
        }
    }

    fn tail(self) -> (s: &'static str)
        ensures
            s@ == self.spec_tail(),
    {
        match self {
            Select::Message => ".messages WHERE message_id = ?",
            Select::Metadata => ".messages WHERE message_id = ?",
            Select::MessageAndMetadata => ".messages WHERE message_id = ?",
            Select::Parents => ".parents\n            WHERE parent_id = ? AND partition_id = ? AND milestone_index <= ?",
            Select::Indexes => ".indexes\n            WHERE indexation = ? AND partition_id = ? AND milestone_index <= ?",
            Select::Addresses => ".addresses\n            WHERE address = ? AND address_type = 0 AND partition_id = ? AND milestone_index <= ?",
            Select::Output => ".transactions\n            WHERE transaction_id = ?\n            AND idx = ?\n            AND (variant = 'output' OR variant = 'unlock')",
            Select::Milestone => ".milestones WHERE milestone_index = ?",
            Select::Hints => ".hints\n            WHERE hint = ? AND variant = ?",
            Select::Sync => ".sync WHERE key = ? AND milestone_index >= ? AND milestone_index < ?",
        }
    }

    /// The text of the statement for a keyspace.
    pub fn statement(self, keyspace: &ChronicleKeyspace) -> (statement: String)
        ensures
            statement@ == self.spec_statement(keyspace@),
    {
        let mut statement = String::from_str(self.head());
        statement.append(keyspace.name());
        statement.append(self.tail());
        statement
    }
}

/// A value bound to a statement.
#[derive(Debug, PartialEq, Eq)]
pub enum Value {
    Text(String),
    SmallInt(u16),
    Int(u32),
}

/// Mathematical model of a [`Value`].
pub enum ValueView {
    Text(Seq<char>),
    SmallInt(u16),
    Int(u32),
}

impl DeepView for Value {
    type V = ValueView;

    open spec fn deep_view(&self) -> ValueView {
        match self {
            Value::Text(text) => ValueView::Text(text@),
            Value::SmallInt(n) => ValueView::SmallInt(*n),
            Value::Int(n) => ValueView::Int(*n),
        }
    }
}

/// What a query asks for.
#[derive(Clone, Debug, PartialEq, Eq)]
pub enum SelectKey {
    /// A message, for its bytes, its metadata or both.
    Message(MessageId),
    Parents { parent_id: MessageId, partition_id: u16, milestone_index: u32 },
    /// An indexation key, as hex digits.
    Indexes { index: String, partition_id: u16, milestone_index: u32 },
    Addresses { address: Ed25519Address, partition_id: u16, milestone_index: u32 },
    Output { transaction_id: TransactionId, index: u16 },
    Milestone(u32),
    Hints { hint: String, variant: String },
    /// The milestones from `from` up to, but without, `to`.
    Sync { from: u32, to: u32 },
}

/// Mathematical model of a [`SelectKey`].
pub enum SelectKeyView {
    Message(MessageId),
    Parents { parent_id: MessageId, partition_id: u16, milestone_index: u32 },
    Indexes { index: Seq<char>, partition_id: u16, milestone_index: u32 },
    Addresses { address: Ed25519Address, partition_id: u16, milestone_index: u32 },
    Output { transaction_id: TransactionId, index: u16 },
    Milestone(u32),
    Hints { hint: Seq<char>, variant: Seq<char> },
    Sync { from: u32, to: u32 },
}

impl DeepView for SelectKey {
    type V = SelectKeyView;

    open spec fn deep_view(&self) -> SelectKeyView {
        match self {
            SelectKey::Message(id) => SelectKeyView::Message(*id),
            SelectKey::Parents { parent_id, partition_id, milestone_index } => {
                SelectKeyView::Parents {
                    parent_id: *parent_id,
                    partition_id: *partition_id,
                    milestone_index: *milestone_index,
                }
            },
            SelectKey::Indexes { index, partition_id, milestone_index } => SelectKeyView::Indexes {
                index: index@,
                partition_id: *partition_id,
                milestone_index: *milestone_index,
            },
            SelectKey::Addresses { address, partition_id, milestone_index } => {
                SelectKeyView::Addresses {
                    address: *address,
                    partition_id: *partition_id,
                    milestone_index: *milestone_index,
                }
            },
            SelectKey::Output { transaction_id, index } => SelectKeyView::Output {
                transaction_id: *transaction_id,
                index: *index,
            },
            SelectKey::Milestone(index) => SelectKeyView::Milestone(*index),
            SelectKey::Hints { hint, variant } => SelectKeyView::Hints {
                hint: hint@,
                variant: variant@,
            },
            SelectKey::Sync { from, to } => SelectKeyView::Sync { from: *from, to: *to },
        }
    }
}

/// The key under which the sync records are kept.
pub const SYNC_KEY: &'static str = "permanode";

/// The values bound to the statement of a key, in the order of its
/// question marks. Identifiers and addresses are bound as hex digits.
pub open spec fn spec_bind_values(key: SelectKeyView) -> Seq<ValueView> {
    match key {
        SelectKeyView::Message(id) => seq![ValueView::Text(hex_encoding(id.0@))],
        SelectKeyView::Parents { parent_id, partition_id, milestone_index } => seq![
            ValueView::Text(hex_encoding(parent_id.0@)),
            ValueView::SmallInt(partition_id),
            ValueView::Int(milestone_index),
        ],
        SelectKeyView::Indexes { index, partition_id, milestone_index } => seq![
            ValueView::Text(index),
            ValueView::SmallInt(partition_id),
            ValueView::Int(milestone_index),
        ],
        SelectKeyView::Addresses { address, partition_id, milestone_index } => seq![
            ValueView::Text(hex_encoding(address.0@)),
            ValueView::SmallInt(partition_id),
            ValueView::Int(milestone_index),
        ],
        SelectKeyView::Output { transaction_id, index } => seq![
            ValueView::Text(hex_encoding(transaction_id.0@)),
            ValueView::SmallInt(index),
        ],
        SelectKeyView::Milestone(index) => seq![ValueView::Int(index)],
        SelectKeyView::Hints { hint, variant } => seq![ValueView::Text(hint), ValueView::Text(variant)],
        SelectKeyView::Sync { from, to } => seq![
            ValueView::Text(SYNC_KEY@),
            ValueView::Int(from),
            ValueView::Int(to),
        ],
    }
}

/// The 32 bytes of an identifier as hex digits.
pub fn hex_of(bytes: &[u8; 32]) -> (s: String)
    ensures
        s@ == hex_encoding(bytes@),
{
    let mut copy: Vec<u8> = Vec::new();
    let mut i: usize = 0;
    while i < 32
        invariant
            i <= 32,
            copy@ == bytes@.take(i as int),
        decreases 32 - i,
    {
        copy.push(bytes[i]);
        assert(bytes@.take(i + 1) =~= bytes@.take(i as int).push(bytes@[i as int]));
        i += 1;
    }
    assert(bytes@.take(32) =~= bytes@);
    hex_encode(&copy)
}

/// The values bound to the statement of a key, in the order of its
/// question marks.
pub fn bind_values(key: SelectKey) -> (values: Vec<Value>)
    ensures
        values.deep_view() == spec_bind_values(key.deep_view()),
{
    let mut values: Vec<Value> = Vec::new();
    match key {
        SelectKey::Message(id) => {
            values.push(Value::Text(hex_of(&id.0)));
        },
        SelectKey::Parents { parent_id, partition_id, milestone_index } => {
            values.push(Value::Text(hex_of(&parent_id.0)));
            values.push(Value::SmallInt(partition_id));
            values.push(Value::Int(milestone_index));
        },
        SelectKey::Indexes { index, partition_id, milestone_index } => {
            values.push(Value::Text(index));
            values.push(Value::SmallInt(partition_id));
            values.push(Value::Int(milestone_index));
        },
        SelectKey::Addresses { address, partition_id, milestone_index } => {
            values.push(Value::Text(hex_of(&address.0)));
            values.push(Value::SmallInt(partition_id));
            values.push(Value::Int(milestone_index));
        },
        SelectKey::Output { transaction_id, index } => {
            values.push(Value::Text(hex_of(&transaction_id.0)));
            values.push(Value::SmallInt(index));
        },
        SelectKey::Milestone(index) => {
            values.push(Value::Int(index));
        },
        SelectKey::Hints { hint, variant } => {
            values.push(Value::Text(hint));
            values.push(Value::Text(variant));
        },
        SelectKey::Sync { from, to } => {
            values.push(Value::Text(String::from_str(SYNC_KEY)));
            values.push(Value::Int(from));
            values.push(Value::Int(to));
        },
    }
    assert(values.deep_view() =~= spec_bind_values(key.deep_view()));
    values
}

/// What a row of the table of transactions holds, as far as outputs are
/// concerned.
#[derive(Clone, Copy, Debug, PartialEq, Eq)]
pub enum TransactionData {
    /// The row of an input.
    Input,
    /// The row of an output.
    Output(Output),
    /// The row that marks an output as spent.
    Unlock(UnlockBlock),
}

/// A row as it comes back for an output: the message, what the row holds,
/// and how the ledger took the transaction.
#[derive(Clone, Copy, Debug, PartialEq, Eq)]
pub struct OutputRow {
    pub message_id: MessageId,
    pub data: TransactionData,
    pub inclusion_state: Option<LedgerInclusionState>,
}

/// An output and the message that created it.
#[derive(Clone, Copy, Debug, PartialEq, Eq)]
pub struct CreatedOutput {
    pub message_id: MessageId,
    pub output: Output,
}

/// A block that unlocks an output, with the message that carries it.
#[derive(Clone, Copy, Debug, PartialEq, Eq)]
pub struct UnlockRes {
    pub message_id: MessageId,
    pub block: UnlockBlock,
    pub inclusion_state: Option<LedgerInclusionState>,
}

/// An output and the blocks that unlock it.
#[derive(Debug, PartialEq, Eq)]
pub struct OutputRes {
    pub output: CreatedOutput,
    pub unlock_blocks: Vec<UnlockRes>,
}

/// The output that the first `n` rows name: the one of the last row that
/// holds an output.
pub open spec fn spec_created(rows: Seq<OutputRow>, n: int) -> Option<CreatedOutput>
    decreases n,
{
    if n <= 0 {
        None
    } else {
        match rows[n - 1].data {
            TransactionData::Output(output) => Some(
                CreatedOutput { message_id: rows[n - 1].message_id, output },
            ),
            _ => spec_created(rows, n - 1),
        }
    }
}

/// The unlock blocks that the first `n` rows name, in the order of the
/// rows.
pub open spec fn spec_unlocks(rows: Seq<OutputRow>, n: int) -> Seq<UnlockRes>
    decreases n,
{
    if n <= 0 {
        Seq::empty()
    } else {
        match rows[n - 1].data {
            TransactionData::Unlock(block) => spec_unlocks(rows, n - 1).push(
                UnlockRes {
                    message_id: rows[n - 1].message_id,
                    block,
                    inclusion_state: rows[n - 1].inclusion_state,
                },
            ),
            _ => spec_unlocks(rows, n - 1),
        }
    }
}

/// What the rows say of an output: the output itself, if a row holds it,
/// with every block that unlocks it. Without a row for the output there is
/// no answer, whatever the unlock blocks.
pub fn decode_output(rows: &Vec<OutputRow>) -> (r: Option<OutputRes>)
    ensures
        r.is_some() <==> spec_created(rows@, rows@.len() as int).is_some(),
        r matches Some(res) ==> Some(res.output) == spec_created(rows@, rows@.len() as int)
            && res.unlock_blocks@ == spec_unlocks(rows@, rows@.len() as int),
{
    let mut unlock_blocks: Vec<UnlockRes> = Vec::new();
    let mut output: Option<CreatedOutput> = None;
    let mut i: usize = 0;
    while i < rows.len()
        invariant
            i <= rows.len(),
            output == spec_created(rows@, i as int),
            unlock_blocks@ == spec_unlocks(rows@, i as int),
        decreases rows.len() - i,
    {
        let row = rows[i];
        match row.data {
            TransactionData::Output(o) => {
                output = Some(CreatedOutput { message_id: row.message_id, output: o });
            },
            TransactionData::Unlock(block) => {
                unlock_blocks.push(
                    UnlockRes {
                        message_id: row.message_id,
                        block,
                        inclusion_state: row.inclusion_state,
                    },
                );
            },
            TransactionData::Input => {},
        }
        i += 1;
    }
    match output {
        Some(output) => Some(OutputRes { output, unlock_blocks }),
        None => None,
    }
}

/// What the rows say where one row is the answer: the first row, if there
/// is one.
pub fn decode_first<T>(rows: Vec<Option<T>>) -> (r: Option<T>)
    ensures
        r == if rows@.len() > 0 {
            rows@[0]
        } else {
            None::<T>
        },
{
    let mut rows = rows;
    if rows.len() > 0 {
        rows.swap_remove(0)
    } else {
        None
    }
}

/// What the rows say where all rows are the answer: the rows, if there is
/// at least one.
pub fn decode_all<T>(rows: Vec<T>) -> (r: Option<Vec<T>>)
    ensures
        r.is_some() <==> rows@.len() > 0,
        r matches Some(all) ==> all@ == rows@,
{
    if rows.len() > 0 {
        Some(rows)
    } else {
        None
    }
}

/// One thing to do after a query failed.
#[derive(Debug, PartialEq, Eq)]
pub enum SelectStep {
    /// Have the store prepare the statement under the given identifier.
    Prepare { id: [u8; 16], statement: String },
    /// Send the query again.
    Retry,
}

/// Mathematical model of a [`SelectStep`].
pub enum SelectStepView {
    Prepare { id: [u8; 16], statement: Seq<char> },
    Retry,
}

impl DeepView for SelectStep {
    type V = SelectStepView;

    open spec fn deep_view(&self) -> SelectStepView {
        match self {
            SelectStep::Prepare { id, statement } => SelectStepView::Prepare {
                id: *id,
                statement: statement@,
            },
            SelectStep::Retry => SelectStepView::Retry,
        }
    }
}

/// What is done after a query failed. If the store says that it does not
/// know the statement, and a reporter is at hand, the statement is prepared
/// and the query is sent again; in every other case nothing is done.
pub fn handle_error(
    select: Select,
    keyspace: &ChronicleKeyspace,
    unprepared_id: Option<[u8; 16]>,
    reporter_running: bool,
) -> (steps: Vec<SelectStep>)
    ensures
        steps.deep_view() == match unprepared_id {
            Some(id) if reporter_running => seq![
                SelectStepView::Prepare { id, statement: select.spec_statement(keyspace@) },
                SelectStepView::Retry,
            ],
            _ => Seq::<SelectStepView>::empty(),
        },
{
    let mut steps: Vec<SelectStep> = Vec::new();
    match unprepared_id {
        Some(id) => {
            if reporter_running {
                steps.push(SelectStep::Prepare { id, statement: select.statement(keyspace) });
                steps.push(SelectStep::Retry);
                assert(steps.deep_view() =~= seq![
                    SelectStepView::Prepare { id, statement: select.spec_statement(keyspace@) },
                    SelectStepView::Retry,
                ]);
            } else {
                assert(steps.deep_view() =~= Seq::<SelectStepView>::empty());
            }
        },
        None => {
            assert(steps.deep_view() =~= Seq::<SelectStepView>::empty());
        },
    }
    steps
}

} // verus!
