//! The collector's writes: one method for each kind of row, and the
//! clean-up that takes rows back.
use vstd::prelude::*;
use crate::collector::Collector;
use crate::effect::{
    extend_effects, no_effects, push_effect, DeleteKey, Effect, EffectView, Hint, MilestoneMessage,
    Row, SolidifierEvent, SolidifierEventView,
};
use crate::ids::{MessageId, TransactionId};
use crate::message::{
    Address, FullMessage, FullMessageView, Input, LedgerInclusionState, Message,
    MessageMetadata, Output, Payload, TransactionPayload, UnlockBlock,
};
use crate::store::{
    address_effects, cleanup_effects, confirmed_index, delete_address_effects,
    delete_addresses_effects, delete_effect, delete_index_effects, delete_parent_effects,
    delete_transaction_effects, hashed_index_effects, hex_encode, index_effects, input_effects,
    inputs_effects,
    insert_effect, output_effects, outputs_effects, parent_effects,
    payload_effects, solidifier_of, transaction_effects, Inherent,
};

verus! {

/// The event for a solidifier, if there is a solidifier of that number.
pub open spec fn to_solidifier(
    collectors_count: u8,
    solidifier_id: u8,
    event: SolidifierEventView,
) -> Seq<EffectView> {
    if solidifier_id < collectors_count {
        seq![EffectView::Solidifier { solidifier_id, event }]
    } else {
        Seq::empty()
    }
}

impl Collector {
    /// The partition of the rows of a milestone.
    pub fn get_partition_id(&self, milestone_index: u32) -> (id: u16)
        requires
            self@.config.wf(),
        ensures
            id == self@.config.partition_config.spec_partition_id(milestone_index),
    {
        self.config().partition_config.partition_id(milestone_index)
    }

    /// The solidifier of a milestone.
    pub fn clone_solidifier_handle(&self, milestone_index: u32) -> (id: u8)
        requires
            self@.config.wf(),
        ensures
            id == solidifier_of(milestone_index, self@.config.collectors_count),
            id < self@.config.collectors_count,
    {
        (milestone_index % (self.config().collectors_count as u32)) as u8
    }

    /// Tells the solidifier of a milestone that a message of that milestone
    /// could not be fetched.
    pub fn send_err_solidifiy(&self, try_ms_index: u32) -> (effect: Effect)
        requires
            self@.config.wf(),
        ensures
            effect.deep_view() == (EffectView::Solidifier {
                solidifier_id: solidifier_of(try_ms_index, self@.config.collectors_count),
                event: SolidifierEventView::Solidify(Err(try_ms_index)),
            }),
    {
        let solidifier_id = self.clone_solidifier_handle(try_ms_index);
        Effect::Solidifier { solidifier_id, event: SolidifierEvent::Solidify(Err(try_ms_index)) }
    }

    /// Hands a message with its metadata to a solidifier, if there is one of
    /// that number.
    pub fn push_fullmsg_to_solidifier(
        &self,
        partition_id: u8,
        message: Message,
        metadata: MessageMetadata,
    ) -> (effects: Vec<Effect>)
        ensures
            effects.deep_view() == to_solidifier(
                self@.config.collectors_count,
                partition_id,
                SolidifierEventView::Message(
                    FullMessageView {
                        message: message.deep_view(),
                        metadata: metadata.deep_view(),
                    },
                ),
            ),
    {
        let mut effects = no_effects();
        if partition_id < self.config().collectors_count {
            let full_message = FullMessage::new(message, metadata);
            push_effect(
                &mut effects,
                Effect::Solidifier {
                    solidifier_id: partition_id,
                    event: SolidifierEvent::Message(full_message),
                },
            );
        }
        assert(effects.deep_view() =~= to_solidifier(
            self@.config.collectors_count,
            partition_id,
            SolidifierEventView::Message(
                FullMessageView { message: message.deep_view(), metadata: metadata.deep_view() },
            ),
        ));
        effects
    }

    /// Tells a solidifier, if there is one of that number, that a message is
    /// not to be had for a milestone.
    pub fn push_close_to_solidifier(&self, partition_id: u8, message_id: MessageId, try_ms_index: u32) -> (effects:
        Vec<Effect>)
        ensures
            effects.deep_view() == to_solidifier(
                self@.config.collectors_count,
                partition_id,
                SolidifierEventView::Close(message_id, try_ms_index),
            ),
    {
        let mut effects = no_effects();
        if partition_id < self.config().collectors_count {
            push_effect(
                &mut effects,
                Effect::Solidifier {
                    solidifier_id: partition_id,
                    event: SolidifierEvent::Close(message_id, try_ms_index),
                },
            );
        }
        assert(effects.deep_view() =~= to_solidifier(
            self@.config.collectors_count,
            partition_id,
            SolidifierEventView::Close(message_id, try_ms_index),
        ));
        effects
    }

    /// The write of one row under a worker.
    pub fn insert<I: Inherent>(&self, inherent_worker: &I, row: Row) -> (effect: Effect)
        ensures
            effect.deep_view() == insert_effect(inherent_worker.kind(), row.deep_view()),
    {
        inherent_worker.inherent_boxed(row)
    }

    /// For each parent: the row that names the message as its child, and
    /// the hint that names the partition.
    pub fn insert_parents<I: Inherent>(
        &self,
        inherent_worker: &I,
        message_id: &MessageId,
        parents: &Vec<MessageId>,
        milestone_index: u32,
        inclusion_state: Option<LedgerInclusionState>,
    ) -> (effects: Vec<Effect>)
        requires
            self@.config.wf(),
        ensures
            effects.deep_view() == parent_effects(
                self@.config.partition_config,
                inherent_worker.kind(),
                *message_id,
                parents@,
                milestone_index,
                inclusion_state,
            ),
    {
        let partition_id = self.get_partition_id(milestone_index);
        let mut effects = no_effects();
        let ghost all = parent_effects(
            self@.config.partition_config,
            inherent_worker.kind(),
            *message_id,
            parents@,
            milestone_index,
            inclusion_state,
        );
        let mut i: usize = 0;
        while i < parents.len()
            invariant
                i <= parents.len(),
                all.len() == 2 * parents.len(),
                effects.deep_view() == all.take(2 * i),
                partition_id == self@.config.partition_config.spec_partition_id(milestone_index),
                all == parent_effects(
                    self@.config.partition_config,
                    inherent_worker.kind(),
                    *message_id,
                    parents@,
                    milestone_index,
                    inclusion_state,
                ),
            decreases parents.len() - i,
        {
            let parent_id = parents[i];
            let parent_row = Row::Parent {
                parent_id,
                partition_id,
                milestone_index,
                message_id: *message_id,
                inclusion_state,
            };
            let first = self.insert(inherent_worker, parent_row);
            push_effect(&mut effects, first);
            let hint_row = Row::Hint { hint: Hint::Parent(parent_id), partition_id, milestone_index };
            let second = self.insert(inherent_worker, hint_row);
            push_effect(&mut effects, second);
            assert(all.take(2 * (i + 1)) =~= all.take(2 * i).push(all[2 * i]).push(all[2 * i + 1]));
            i += 1;
        }
        assert(all.take(2 * parents.len()) =~= all);
        effects
    }

    /// The row that files a message under an indexation key, and the hint
    /// that names the partition.
    pub fn insert_index<I: Inherent>(
        &self,
        inherent_worker: &I,
        message_id: &MessageId,
        index: String,
        milestone_index: u32,
        inclusion_state: Option<LedgerInclusionState>,
    ) -> (effects: Vec<Effect>)
        requires
            self@.config.wf(),
        ensures
            effects.deep_view() == index_effects(
                self@.config.partition_config,
                inherent_worker.kind(),
                *message_id,
                index@,
                milestone_index,
                inclusion_state,
            ),
    {
        let partition_id = self.get_partition_id(milestone_index);
        let mut effects = no_effects();
        let index_row = Row::Index {
            key: index.clone(),
            partition_id,
            milestone_index,
            message_id: *message_id,
            inclusion_state,
        };
        let first = self.insert(inherent_worker, index_row);
        push_effect(&mut effects, first);
        let hint_row = Row::Hint { hint: Hint::Index(index), partition_id, milestone_index };
        let second = self.insert(inherent_worker, hint_row);
        push_effect(&mut effects, second);
        assert(effects.deep_view() =~= index_effects(
            self@.config.partition_config,
            inherent_worker.kind(),
            *message_id,
            index@,
            milestone_index,
            inclusion_state,
        ));
        effects
    }

    /// The row that files a message under the hash of an indexation key,
    /// and the hint that names the partition.
    pub fn insert_hashed_index<I: Inherent>(
        &self,
        inherent_worker: &I,
        message_id: &MessageId,
        hashed_index: [u8; 32],
        milestone_index: u32,
        inclusion_state: Option<LedgerInclusionState>,
    ) -> (effects: Vec<Effect>)
        requires
            self@.config.wf(),
        ensures
            effects.deep_view() == hashed_index_effects(
                self@.config.partition_config,
                inherent_worker.kind(),
                *message_id,
                hashed_index,
                milestone_index,
                inclusion_state,
            ),
    {
        let partition_id = self.get_partition_id(milestone_index);
        let mut effects = no_effects();
        let hashed_index_row = Row::HashedIndex {
            hashed_index,
            partition_id,
            milestone_index,
            message_id: *message_id,
            inclusion_state,
        };
        let first = self.insert(inherent_worker, hashed_index_row);
        push_effect(&mut effects, first);
        let hint_row = Row::Hint {
            hint: Hint::HashedIndex(hashed_index),
            partition_id,
            milestone_index,
        };
        let second = self.insert(inherent_worker, hint_row);
        push_effect(&mut effects, second);
        assert(effects.deep_view() =~= hashed_index_effects(
            self@.config.partition_config,
            inherent_worker.kind(),
            *message_id,
            hashed_index,
            milestone_index,
            inclusion_state,
        ));
        effects
    }

    /// The row of an input of a transaction.
    pub fn insert_input<I: Inherent>(
        &self,
        inherent_worker: &I,
        message_id: &MessageId,
        transaction_id: &TransactionId,
        index: u16,
        input: Input,
        unlock_block: Option<UnlockBlock>,
        inclusion_state: Option<LedgerInclusionState>,
        milestone_index: Option<u32>,
    ) -> (effect: Effect)
        ensures
            effect.deep_view() == insert_effect(
                inherent_worker.kind(),
                crate::effect::RowView::Input {
                    transaction_id: *transaction_id,
                    index,
                    message_id: *message_id,
                    input,
                    unlock_block,
                    inclusion_state,
                    milestone_index,
                },
            ),
    {
        self.insert(
            inherent_worker,
            Row::Input {
                transaction_id: *transaction_id,
                index,
                message_id: *message_id,
                input,
                unlock_block,
                inclusion_state,
                milestone_index,
            },
        )
    }

    /// The row that marks an output as spent: under the output, the
    /// transaction and the input that spend it.
    pub fn insert_unlock<I: Inherent>(
        &self,
        inherent_worker: &I,
        message_id: &MessageId,
        utxo_transaction_id: &TransactionId,
        utxo_index: u16,
        spent_by: TransactionId,
        input_index: u16,
        unlock_block: UnlockBlock,
        inclusion_state: Option<LedgerInclusionState>,
        milestone_index: Option<u32>,
    ) -> (effect: Effect)
        ensures
            effect.deep_view() == insert_effect(
                inherent_worker.kind(),
                crate::effect::RowView::Unlock {
                    transaction_id: *utxo_transaction_id,
                    index: utxo_index,
                    message_id: *message_id,
                    spent_by,
                    input_index,
                    unlock_block,
                    inclusion_state,
                    milestone_index,
                },
            ),
    {
        self.insert(
            inherent_worker,
            Row::Unlock {
                transaction_id: *utxo_transaction_id,
                index: utxo_index,
                message_id: *message_id,
                spent_by,
                input_index,
                unlock_block,
                inclusion_state,
                milestone_index,
            },
        )
    }

    /// The row of an output of a transaction.
    pub fn insert_output<I: Inherent>(
        &self,
        inherent_worker: &I,
        message_id: &MessageId,
        transaction_id: &TransactionId,
        index: u16,
        output: Output,
        inclusion_state: Option<LedgerInclusionState>,
        milestone_index: Option<u32>,
    ) -> (effect: Effect)
        ensures
            effect.deep_view() == insert_effect(
                inherent_worker.kind(),
                crate::effect::RowView::Output {
                    transaction_id: *transaction_id,
                    index,
                    message_id: *message_id,
                    output,
                    inclusion_state,
                    milestone_index,
                },
            ),
    {
        self.insert(
            inherent_worker,
            Row::Output {
                transaction_id: *transaction_id,
                index,
                message_id: *message_id,
                output,
                inclusion_state,
                milestone_index,
            },
        )
    }

    /// For an output that pays to an Ed25519 address: the row that files
    /// the output under the address, and the hint that names the partition.
    pub fn insert_address<I: Inherent>(
        &self,
        inherent_worker: &I,
        output: &Output,
        transaction_id: &TransactionId,
        index: u16,
        milestone_index: u32,
        inclusion_state: Option<LedgerInclusionState>,
    ) -> (effects: Vec<Effect>)
        requires
            self@.config.wf(),
        ensures
            effects.deep_view() == address_effects(
                self@.config.partition_config,
                inherent_worker.kind(),
                *output,
                *transaction_id,
                index,
                milestone_index,
                inclusion_state,
            ),
    {
        let partition_id = self.get_partition_id(milestone_index);
        let output_type = output.kind();
        let mut effects = no_effects();
        let paid = match output {
            Output::SignatureLockedSingle { address: Address::Ed25519(a), amount } => Some(
                (*a, *amount),
            ),
            Output::SignatureLockedDustAllowance { address: Address::Ed25519(a), amount } => Some(
                (*a, *amount),
            ),
            _ => None,
        };
        if let Some((address, amount)) = paid {
            let address_row = Row::Address {
                address,
                partition_id,
                milestone_index,
                output_type,
                transaction_id: *transaction_id,
                index,
                amount,
                inclusion_state,
            };
            let first = self.insert(inherent_worker, address_row);
            push_effect(&mut effects, first);
            let hint_row = Row::Hint { hint: Hint::Address(address), partition_id, milestone_index };
            let second = self.insert(inherent_worker, hint_row);
            push_effect(&mut effects, second);
        }
        assert(effects.deep_view() =~= address_effects(
            self@.config.partition_config,
            inherent_worker.kind(),
            *output,
            *transaction_id,
            index,
            milestone_index,
            inclusion_state,
        ));
        effects
    }

    /// The rows of a transaction: for each input its row and, where it
    /// spends an output, the row that marks the output as spent; for each
    /// output its row and the rows of its address; and the rows of the
    /// indexation payload that the essence may carry.
    pub fn insert_transaction<I: Inherent>(
        &self,
        inherent_worker: &I,
        message_id: &MessageId,
        transaction: &TransactionPayload,
        ledger_inclusion_state: Option<LedgerInclusionState>,
        milestone_index: u32,
    ) -> (effects: Vec<Effect>)
        requires
            self@.config.wf(),
            transaction.deep_view().wf(),
        ensures
            effects.deep_view() == transaction_effects(
                self@.config.partition_config,
                inherent_worker.kind(),
                *message_id,
                transaction.deep_view(),
                ledger_inclusion_state,
                milestone_index,
            ),
    {
        let ghost config = self@.config.partition_config;
        let ghost worker = inherent_worker.kind();
        let ghost tx = transaction.deep_view();
        let transaction_id = transaction.id;
        let confirmed_milestone_index = if ledger_inclusion_state.is_some() {
            Some(milestone_index)
        } else {
            None
        };
        let mut effects = no_effects();
        let mut input_index: usize = 0;
        while input_index < transaction.inputs.len()
            invariant
                input_index <= transaction.inputs.len(),
                tx == transaction.deep_view(),
                tx.wf(),
                worker == inherent_worker.kind(),
                transaction_id == tx.id,
                confirmed_milestone_index == confirmed_index(ledger_inclusion_state, milestone_index),
                effects.deep_view() == inputs_effects(
                    worker,
                    *message_id,
                    tx,
                    input_index as int,
                    ledger_inclusion_state,
                    confirmed_milestone_index,
                ),
            decreases transaction.inputs.len() - input_index,
        {
            let input = transaction.inputs[input_index];
            let unlock_block = transaction.unlock_blocks[input_index];
            let ghost before = effects.deep_view();
            match input {
                Input::Utxo { transaction_id: utxo_transaction_id, index: utxo_index } => {
                    let first = self.insert_input(
                        inherent_worker,
                        message_id,
                        &transaction_id,
                        input_index as u16,
                        input,
                        Some(unlock_block),
                        ledger_inclusion_state,
                        confirmed_milestone_index,
                    );
                    push_effect(&mut effects, first);
                    let second = self.insert_unlock(
                        inherent_worker,
                        message_id,
                        &utxo_transaction_id,
                        utxo_index,
                        transaction_id,
                        input_index as u16,
                        unlock_block,
                        ledger_inclusion_state,
                        confirmed_milestone_index,
                    );
                    push_effect(&mut effects, second);
                },
                Input::Treasury { .. } => {
                    let first = self.insert_input(
                        inherent_worker,
                        message_id,
                        &transaction_id,
                        input_index as u16,
                        input,
                        None,
                        ledger_inclusion_state,
                        confirmed_milestone_index,
                    );
                    push_effect(&mut effects, first);
                },
            }
            assert(effects.deep_view() =~= before + input_effects(
                worker,
                *message_id,
                tx,
                input_index as int,
                ledger_inclusion_state,
                confirmed_milestone_index,
            ));
            input_index += 1;
        }
        let ghost of_inputs = effects.deep_view();
        let mut of_outputs = no_effects();
        let mut output_index: usize = 0;
        while output_index < transaction.outputs.len()
            invariant
                output_index <= transaction.outputs.len(),
                self@.config.wf(),
                config == self@.config.partition_config,
                tx == transaction.deep_view(),
                tx.wf(),
                worker == inherent_worker.kind(),
                transaction_id == tx.id,
                confirmed_milestone_index == confirmed_index(ledger_inclusion_state, milestone_index),
                of_outputs.deep_view() == outputs_effects(
                    config,
                    worker,
                    *message_id,
                    tx,
                    output_index as int,
                    milestone_index,
                    ledger_inclusion_state,
                ),
            decreases transaction.outputs.len() - output_index,
        {
            let output = transaction.outputs[output_index];
            let ghost before = of_outputs.deep_view();
            let first = self.insert_output(
                inherent_worker,
                message_id,
                &transaction_id,
                output_index as u16,
                output,
                ledger_inclusion_state,
                confirmed_milestone_index,
            );
            push_effect(&mut of_outputs, first);
            let of_address = self.insert_address(
                inherent_worker,
                &output,
                &transaction_id,
                output_index as u16,
                milestone_index,
                ledger_inclusion_state,
            );
            extend_effects(&mut of_outputs, of_address);
            assert(of_outputs.deep_view() =~= before + output_effects(
                config,
                worker,
                *message_id,
                tx,
                output_index as int,
                milestone_index,
                ledger_inclusion_state,
            ));
            output_index += 1;
        }
        extend_effects(&mut effects, of_outputs);
        match &transaction.indexation {
            Some(index) => {
                let of_index = self.insert_index(
                    inherent_worker,
                    message_id,
                    hex_encode(index),
                    milestone_index,
                    ledger_inclusion_state,
                );
                extend_effects(&mut effects, of_index);
            },
            None => {
                assert(effects.deep_view() + Seq::<EffectView>::empty() =~= effects.deep_view());
            },
        }
        effects
    }

    /// What a payload leaves behind: the index rows of an indexation
    /// payload, the rows of a transaction, and for a milestone whose message
    /// is known with its metadata and has the milestone's parents, the
    /// announcement to its solidifier and the milestone's row.
    pub fn insert_payload<I: Inherent>(
        &self,
        inherent_worker: &I,
        message_id: &MessageId,
        message: &Message,
        payload: &Payload,
        milestone_index: u32,
        inclusion_state: Option<LedgerInclusionState>,
        metadata: Option<MessageMetadata>,
    ) -> (effects: Vec<Effect>)
        requires
            self@.config.wf(),
            payload.deep_view().wf(),
        ensures
            effects.deep_view() == payload_effects(
                self@.config.partition_config,
                self@.config.collectors_count,
                inherent_worker.kind(),
                *message_id,
                message.deep_view(),
                payload.deep_view(),
                milestone_index,
                inclusion_state,
                match metadata {
                    Some(m) => Some(m.deep_view()),
                    None => None,
                },
            ),
    {
        match payload {
            Payload::Indexation(index) => self.insert_index(
                inherent_worker,
                message_id,
                hex_encode(index),
                milestone_index,
                inclusion_state,
            ),
            Payload::Transaction(transaction) => self.insert_transaction(
                inherent_worker,
                message_id,
                transaction,
                inclusion_state,
                milestone_index,
            ),
            Payload::Milestone(milestone) => {
                let mut effects = no_effects();
                let parents_check = same_ids(&message.parents, &milestone.parents);
                if metadata.is_some() && parents_check {
                    let solidifier_id = self.clone_solidifier_handle(milestone.index);
                    let ms_message = MilestoneMessage {
                        message_id: *message_id,
                        milestone: milestone.clone(),
                        message: message.clone(),
                        metadata,
                    };
                    push_effect(
                        &mut effects,
                        Effect::Solidifier {
                            solidifier_id,
                            event: SolidifierEvent::Milestone(ms_message),
                        },
                    );
                    let row = self.insert(
                        inherent_worker,
                        Row::Milestone {
                            milestone_index: milestone.index,
                            message_id: *message_id,
                            timestamp: milestone.timestamp,
                        },
                    );
                    push_effect(&mut effects, row);
                }
                assert(effects.deep_view() =~= payload_effects(
                    self@.config.partition_config,
                    self@.config.collectors_count,
                    inherent_worker.kind(),
                    *message_id,
                    message.deep_view(),
                    payload.deep_view(),
                    milestone_index,
                    inclusion_state,
                    match metadata {
                        Some(m) => Some(m.deep_view()),
                        None => None,
                    },
                ));
                effects
            },
            Payload::Other => no_effects(),
        }
    }

    /// The deletion of one row.
    pub fn delete(&self, key: DeleteKey) -> (effect: Effect)
        ensures
            effect.deep_view() == delete_effect(key.deep_view(), self@.config.confirmed_retries),
    {
        Effect::Delete { key, retries: self.config().confirmed_retries }
    }

    /// For each parent: the deletion of the row that names the message as
    /// its child under the given milestone.
    pub fn delete_parents(&self, message_id: &MessageId, parents: &Vec<MessageId>, milestone_index: u32) -> (effects:
        Vec<Effect>)
        requires
            self@.config.wf(),
        ensures
            effects.deep_view() == delete_parent_effects(
                self@.config.partition_config,
                *message_id,
                parents@,
                milestone_index,
                self@.config.confirmed_retries,
            ),
    {
        let partition_id = self.get_partition_id(milestone_index);
        let mut effects = no_effects();
        let ghost all = delete_parent_effects(
            self@.config.partition_config,
            *message_id,
            parents@,
            milestone_index,
            self@.config.confirmed_retries,
        );
        let mut i: usize = 0;
        while i < parents.len()
            invariant
                i <= parents.len(),
                all.len() == parents.len(),
                effects.deep_view() == all.take(i as int),
                partition_id == self@.config.partition_config.spec_partition_id(milestone_index),
                all == delete_parent_effects(
                    self@.config.partition_config,
                    *message_id,
                    parents@,
                    milestone_index,
                    self@.config.confirmed_retries,
                ),
            decreases parents.len() - i,
        {
            let parent_pk = DeleteKey::Parent {
                parent_id: parents[i],
                partition_id,
                milestone_index,
                message_id: *message_id,
            };
            let effect = self.delete(parent_pk);
            push_effect(&mut effects, effect);
            assert(all.take(i + 1) =~= all.take(i as int).push(all[i as int]));
            i += 1;
        }
        assert(all.take(parents.len() as int) =~= all);
        effects
    }

    /// The deletion of the row that files a message under an indexation
    /// key.
    pub fn delete_indexation(&self, message_id: &MessageId, indexation: String, milestone_index: u32) -> (effects:
        Vec<Effect>)
        requires
            self@.config.wf(),
        ensures
            effects.deep_view() == delete_index_effects(
                self@.config.partition_config,
                *message_id,
                indexation@,
                milestone_index,
                self@.config.confirmed_retries,
            ),
    {
        let partition_id = self.get_partition_id(milestone_index);
        let mut effects = no_effects();
        let effect = self.delete(
            DeleteKey::Index {
                key: indexation,
                partition_id,
                milestone_index,
                message_id: *message_id,
            },
        );
        push_effect(&mut effects, effect);
        assert(effects.deep_view() =~= delete_index_effects(
            self@.config.partition_config,
            *message_id,
            indexation@,
            milestone_index,
            self@.config.confirmed_retries,
        ));
        effects
    }

    /// For an output that pays to an Ed25519 address: the deletion of the
    /// row that files the output under the address.
    pub fn delete_address(
        &self,
        output: &Output,
        transaction_id: &TransactionId,
        index: u16,
        milestone_index: u32,
    ) -> (effects: Vec<Effect>)
        requires
            self@.config.wf(),
        ensures
            effects.deep_view() == delete_address_effects(
                self@.config.partition_config,
                *output,
                *transaction_id,
                index,
                milestone_index,
                self@.config.confirmed_retries,
            ),
    {
        let partition_id = self.get_partition_id(milestone_index);
        let output_type = output.kind();
        let mut effects = no_effects();
        let paid = match output {
            Output::SignatureLockedSingle { address: Address::Ed25519(a), .. } => Some(*a),
            Output::SignatureLockedDustAllowance { address: Address::Ed25519(a), .. } => Some(*a),
            _ => None,
        };
        if let Some(address) = paid {
            let effect = self.delete(
                DeleteKey::Address {
                    address,
                    partition_id,
                    milestone_index,
                    output_type,
                    transaction_id: *transaction_id,
                    index,
                },
            );
            push_effect(&mut effects, effect);
        }
        assert(effects.deep_view() =~= delete_address_effects(
            self@.config.partition_config,
            *output,
            *transaction_id,
            index,
            milestone_index,
            self@.config.confirmed_retries,
        ));
        effects
    }

    /// The deletions of the partitioned rows of a transaction: the index
    /// row of its essence's indexation payload, then the address rows of its
    /// outputs.
    pub fn delete_transaction_partitioned_rows(
        &self,
        message_id: &MessageId,
        transaction: &TransactionPayload,
        milestone_index: u32,
    ) -> (effects: Vec<Effect>)
        requires
            self@.config.wf(),
            transaction.deep_view().wf(),
        ensures
            effects.deep_view() == delete_transaction_effects(
                self@.config.partition_config,
                *message_id,
                transaction.deep_view(),
                milestone_index,
                self@.config.confirmed_retries,
            ),
    {
        let ghost config = self@.config.partition_config;
        let ghost retries = self@.config.confirmed_retries;
        let ghost tx = transaction.deep_view();
        let transaction_id = transaction.id;
        let mut effects = match &transaction.indexation {
            Some(index) => self.delete_indexation(message_id, hex_encode(index), milestone_index),
            None => no_effects(),
        };
        let mut of_outputs = no_effects();
        let mut output_index: usize = 0;
        while output_index < transaction.outputs.len()
            invariant
                output_index <= transaction.outputs.len(),
                self@.config.wf(),
                config == self@.config.partition_config,
                retries == self@.config.confirmed_retries,
                tx == transaction.deep_view(),
                tx.wf(),
                transaction_id == tx.id,
                of_outputs.deep_view() == delete_addresses_effects(
                    config,
                    tx,
                    output_index as int,
                    milestone_index,
                    retries,
                ),
            decreases transaction.outputs.len() - output_index,
        {
            let output = transaction.outputs[output_index];
            let of_address = self.delete_address(
                &output,
                &transaction_id,
                output_index as u16,
                milestone_index,
            );
            extend_effects(&mut of_outputs, of_address);
            output_index += 1;
        }
        extend_effects(&mut effects, of_outputs);
        effects
    }

    /// The clean-up after a wrong estimate: the deletion of every
    /// partitioned row that the message left under the milestone it was
    /// wrongly stored under.
    pub fn clean_up_wrong_est_msg(&self, message_id: &MessageId, message: &Message, wrong_est_ms: u32) -> (effects:
        Vec<Effect>)
        requires
            self@.config.wf(),
            message.deep_view().wf(),
        ensures
            effects.deep_view() == cleanup_effects(
                self@.config.partition_config,
                *message_id,
                message.deep_view(),
                wrong_est_ms,
                self@.config.confirmed_retries,
            ),
    {
        let mut effects = self.delete_parents(message_id, &message.parents, wrong_est_ms);
        match &message.payload {
            Some(Payload::Indexation(index)) => {
                let more = self.delete_indexation(message_id, hex_encode(index), wrong_est_ms);
                extend_effects(&mut effects, more);
            },
            Some(Payload::Transaction(transaction)) => {
                let more = self.delete_transaction_partitioned_rows(
                    message_id,
                    transaction,
                    wrong_est_ms,
                );
                extend_effects(&mut effects, more);
            },
            _ => {
                assert(effects.deep_view() + Seq::<EffectView>::empty() =~= effects.deep_view());
            },
        }
        effects
    }
}

/// Whether two lists name the same messages in the same order.
pub fn same_ids(a: &Vec<MessageId>, b: &Vec<MessageId>) -> (r: bool)
    ensures
        r == (a@ == b@),
{
    if a.len() != b.len() {
        return false;
    }
    let mut i: usize = 0;
    while i < a.len()
        invariant
            i <= a.len(),
            a.len() == b.len(),
            forall|j: int| 0 <= j < i ==> a@[j] == b@[j],
        decreases a.len() - i,
    {
        if !(a[i] == b[i]) {
            return false;
        }
        i += 1;
    }
    assert(a@ =~= b@);
    true
}

} // verus!
