use chronicle_broker::ids::{Ed25519Address, MessageId, TransactionId};
use chronicle_broker::keyspace::ChronicleKeyspace;
use chronicle_broker::message::{Address, LedgerInclusionState, Output, UnlockBlock};
use chronicle_broker::select::{
    bind_values, decode_all, decode_first, decode_output, handle_error, hex_of, CreatedOutput,
    OutputRes, OutputRow, Select, SelectKey, SelectStep, TransactionData, UnlockRes, Value,
};

fn keyspace() -> ChronicleKeyspace {
    ChronicleKeyspace::new("permanode".to_owned())
}

#[test]
fn statements_name_the_keyspace() {
    let k = keyspace();
    assert_eq!(
        Select::Message.statement(&k),
        "SELECT message FROM permanode.messages WHERE message_id = ?"
    );
    assert_eq!(
        Select::Metadata.statement(&k),
        "SELECT metadata FROM permanode.messages WHERE message_id = ?"
    );
    assert_eq!(
        Select::MessageAndMetadata.statement(&k),
        "SELECT message, metadata FROM permanode.messages WHERE message_id = ?"
    );
    assert_eq!(
        Select::Parents.statement(&k),
        "SELECT partition_id, milestone_index, message_id, inclusion_state
            FROM permanode.parents
            WHERE parent_id = ? AND partition_id = ? AND milestone_index <= ?"
    );
    assert_eq!(
        Select::Indexes.statement(&k),
        "SELECT partition_id, milestone_index, message_id, inclusion_state
            FROM permanode.indexes
            WHERE indexation = ? AND partition_id = ? AND milestone_index <= ?"
    );
    assert_eq!(
        Select::Addresses.statement(&k),
        "SELECT partition_id, milestone_index, output_type, transaction_id, idx, amount, inclusion_state
            FROM permanode.addresses
            WHERE address = ? AND address_type = 0 AND partition_id = ? AND milestone_index <= ?"
    );
    assert_eq!(
        Select::Output.statement(&k),
        "SELECT message_id, data, inclusion_state
            FROM permanode.transactions
            WHERE transaction_id = ?
            AND idx = ?
            AND (variant = 'output' OR variant = 'unlock')"
    );
    assert_eq!(
        Select::Milestone.statement(&k),
        "SELECT message_id, timestamp FROM permanode.milestones WHERE milestone_index = ?"
    );
    assert_eq!(
        Select::Hints.statement(&k),
        "SELECT milestone_index, partition_id
            FROM permanode.hints
            WHERE hint = ? AND variant = ?"
    );
    assert_eq!(
        Select::Sync.statement(&ChronicleKeyspace::new("x".to_owned())),
        "SELECT milestone_index, synced_by, logged_by FROM x.sync WHERE key = ? AND milestone_index >= ? AND milestone_index < ?"
    );
}

#[test]
fn values_are_bound_in_order() {
    let mut bytes = [0u8; 32];
    bytes[0] = 0xab;
    bytes[31] = 0x0c;
    let hex = format!("ab{}0c", "00".repeat(30));
    assert_eq!(hex_of(&bytes), hex);
    assert_eq!(bind_values(SelectKey::Message(MessageId(bytes))), vec![Value::Text(hex.clone())]);
    assert_eq!(
        bind_values(SelectKey::Parents {
            parent_id: MessageId(bytes),
            partition_id: 7,
            milestone_index: 9,
        }),
        vec![Value::Text(hex.clone()), Value::SmallInt(7), Value::Int(9)]
    );
    assert_eq!(
        bind_values(SelectKey::Indexes {
            index: "beef".to_owned(),
            partition_id: 7,
            milestone_index: 9,
        }),
        vec![Value::Text("beef".to_owned()), Value::SmallInt(7), Value::Int(9)]
    );
    assert_eq!(
        bind_values(SelectKey::Addresses {
            address: Ed25519Address(bytes),
            partition_id: 1,
            milestone_index: 2,
        }),
        vec![Value::Text(hex.clone()), Value::SmallInt(1), Value::Int(2)]
    );
    assert_eq!(
        bind_values(SelectKey::Output { transaction_id: TransactionId(bytes), index: 3 }),
        vec![Value::Text(hex), Value::SmallInt(3)]
    );
    assert_eq!(bind_values(SelectKey::Milestone(77)), vec![Value::Int(77)]);
    assert_eq!(
        bind_values(SelectKey::Hints { hint: "h".to_owned(), variant: "parent".to_owned() }),
        vec![Value::Text("h".to_owned()), Value::Text("parent".to_owned())]
    );
    assert_eq!(
        bind_values(SelectKey::Sync { from: 5, to: 9 }),
        vec![Value::Text("permanode".to_owned()), Value::Int(5), Value::Int(9)]
    );
}

fn row(n: u8, data: TransactionData) -> OutputRow {
    OutputRow {
        message_id: MessageId([n; 32]),
        data,
        inclusion_state: Some(LedgerInclusionState::Included),
    }
}

#[test]
fn output_with_its_unlock_blocks() {
    let output = Output::SignatureLockedSingle {
        address: Address::Ed25519(Ed25519Address([1; 32])),
        amount: 5,
    };
    let rows = vec![
        row(1, TransactionData::Unlock(UnlockBlock::Reference(0))),
        row(2, TransactionData::Input),
        row(3, TransactionData::Output(Output::Treasury { amount: 1 })),
        row(4, TransactionData::Output(output)),
        row(5, TransactionData::Unlock(UnlockBlock::Reference(1))),
    ];
    assert_eq!(
        decode_output(&rows),
        Some(OutputRes {
            output: CreatedOutput { message_id: MessageId([4; 32]), output },
            unlock_blocks: vec![
                UnlockRes {
                    message_id: MessageId([1; 32]),
                    block: UnlockBlock::Reference(0),
                    inclusion_state: Some(LedgerInclusionState::Included),
                },
                UnlockRes {
                    message_id: MessageId([5; 32]),
                    block: UnlockBlock::Reference(1),
                    inclusion_state: Some(LedgerInclusionState::Included),
                },
            ],
        })
    );
    // without the output there is no answer
    assert_eq!(decode_output(&rows[..2].to_vec()), None);
    assert_eq!(decode_output(&Vec::new()), None);
}

#[test]
fn first_row_and_all_rows() {
    assert_eq!(decode_first(vec![Some(1), Some(2)]), Some(1));
    assert_eq!(decode_first(vec![None, Some(2)]), None);
    assert_eq!(decode_first(Vec::<Option<u8>>::new()), None);
    assert_eq!(decode_all(vec![1, 2]), Some(vec![1, 2]));
    assert_eq!(decode_all(Vec::<u8>::new()), None);
}

#[test]
fn unknown_statement_is_prepared_and_the_query_sent_again() {
    let k = keyspace();
    assert_eq!(
        handle_error(Select::Milestone, &k, Some([7; 16]), true),
        vec![
            SelectStep::Prepare {
                id: [7; 16],
                statement:
                    "SELECT message_id, timestamp FROM permanode.milestones WHERE milestone_index = ?"
                        .to_owned(),
            },
            SelectStep::Retry,
        ]
    );
    assert!(handle_error(Select::Milestone, &k, Some([7; 16]), false).is_empty());
    assert!(handle_error(Select::Milestone, &k, None, true).is_empty());
}
