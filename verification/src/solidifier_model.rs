//! Mathematical model of a solidifier: the assemblies of the milestones of
//! its partition, the events it takes, and what each event does to the
//! assemblies and asks of the caller.
use vstd::prelude::*;
use crate::collector_model::AskCollector;
use crate::effect::{MilestoneMessageView, SolidifierEventView};
use crate::ids::MessageId;
use crate::message::FullMessageView;
use crate::milestone::CreatedBy;
use crate::seq_util::first_where;

verus! {

/// What a solidifier is set up with: its partition, the number of
/// partitions, and how often it asks again for a message that was refused.
#[derive(Clone, Copy, Debug, PartialEq, Eq, Structural)]
pub struct SolidifierConfig {
    pub partition_id: u8,
    pub collectors_count: u8,
    pub max_retries: u8,
}

impl SolidifierConfig {
    /// The partition is one of the partitions.
    pub open spec fn wf(&self) -> bool {
        self.partition_id < self.collectors_count
    }

    /// The milestone belongs to this solidifier.
    pub open spec fn owns(&self, milestone_index: u32) -> bool {
        milestone_index % (self.collectors_count as u32) == self.partition_id as u32
    }

    /// The question for a message of a milestone, put to the collector of
    /// the partition.
    pub open spec fn ask(&self, milestone_index: u32, message_id: MessageId) -> SolidifierEffectView {
        SolidifierEffectView::Ask {
            collector_id: self.partition_id,
            ask: AskCollector::FullMessage(self.partition_id, milestone_index, message_id),
        }
    }
}

/// A message that is still to be resolved, and how often it was asked for
/// again.
#[derive(Clone, Copy, Debug, PartialEq, Eq)]
pub struct PendingMessage {
    pub message_id: MessageId,
    pub retries: u8,
}

/// Mathematical model of what a solidifier asks its caller to do.
pub enum SolidifierEffectView {
    /// Put a question to a collector.
    Ask { collector_id: u8, ask: AskCollector },
    /// Hand the complete bundle of a milestone to the archiver.
    Archive { milestone_index: u32, created_by: CreatedBy, messages: Seq<FullMessageView> },
    /// Record the milestone as synced by this solidifier.
    Sync { milestone_index: u32, synced_by: u8 },
    /// Report upwards that the milestone could not be assembled.
    Failed { milestone_index: u32 },
}

/// Messages with the identifier `id`.
pub open spec fn message_pred(id: MessageId) -> spec_fn(FullMessageView) -> bool {
    |m: FullMessageView| m.metadata.message_id == id
}

/// Pending messages with the identifier `id`.
pub open spec fn waiting_pred(id: MessageId) -> spec_fn(PendingMessage) -> bool {
    |p: PendingMessage| p.message_id == id
}

/// The identifier `id`.
pub open spec fn id_pred(id: MessageId) -> spec_fn(MessageId) -> bool {
    |x: MessageId| x == id
}

/// Assemblies of the milestone `milestone_index`.
pub open spec fn assembly_pred(milestone_index: u32) -> spec_fn(AssemblyView) -> bool {
    |a: AssemblyView| a.milestone_index == milestone_index
}

/// Mathematical model of the assembly of one milestone.
pub struct AssemblyView {
    pub milestone_index: u32,
    /// The message that carries the milestone, once it is known.
    pub milestone: Option<MilestoneMessageView>,
    /// The messages still to resolve, in the order in which they were found.
    pub pending: Seq<PendingMessage>,
    /// The messages resolved so far, in the order of their arrival.
    pub messages: Seq<FullMessageView>,
    /// The messages whose writes are reported as done.
    pub acknowledged: Seq<MessageId>,
    pub created_by: CreatedBy,
    /// Some writes of a message of the milestone failed.
    pub error: bool,
}

impl AssemblyView {
    /// The empty assembly of a milestone.
    pub open spec fn new(milestone_index: u32, created_by: CreatedBy) -> AssemblyView {
        AssemblyView {
            milestone_index,
            milestone: None,
            pending: Seq::empty(),
            messages: Seq::empty(),
            acknowledged: Seq::empty(),
            created_by,
            error: false,
        }
    }

    /// The message is resolved.
    pub open spec fn has_message(self, id: MessageId) -> bool {
        first_where(self.messages, message_pred(id)) < self.messages.len()
    }

    /// The message is still to resolve.
    pub open spec fn is_pending(self, id: MessageId) -> bool {
        first_where(self.pending, waiting_pred(id)) < self.pending.len()
    }

    /// The writes of the message are reported as done.
    pub open spec fn is_acknowledged(self, id: MessageId) -> bool {
        first_where(self.acknowledged, id_pred(id)) < self.acknowledged.len()
    }

    /// Goes through the first `n` of the given parents: one that is neither
    /// resolved nor pending becomes pending and is asked for.
    pub open spec fn seed(self, config: SolidifierConfig, parents: Seq<MessageId>, n: int) -> (
        AssemblyView,
        Seq<SolidifierEffectView>,
    )
        decreases n,
    {
        if n <= 0 {
            (self, Seq::empty())
        } else {
            let (seeded, asks) = self.seed(config, parents, n - 1);
            let parent = parents[n - 1];
            if seeded.has_message(parent) || seeded.is_pending(parent) {
                (seeded, asks)
            } else {
                (
                    AssemblyView {
                        pending: seeded.pending.push(PendingMessage { message_id: parent, retries: 0 }),
                        ..seeded
                    },
                    asks.push(config.ask(self.milestone_index, parent)),
                )
            }
        }
    }

    /// The message is resolved: it is pending no more, and it joins the
    /// resolved messages unless it is one of them already.
    pub open spec fn resolve(self, full: FullMessageView) -> AssemblyView {
        let id = full.metadata.message_id;
        let k = first_where(self.pending, waiting_pred(id));
        AssemblyView {
            pending: if k < self.pending.len() { self.pending.remove(k) } else { self.pending },
            messages: if self.has_message(id) { self.messages } else { self.messages.push(full) },
            ..self
        }
    }

    /// The writes of a message are reported: as done, or as failed.
    pub open spec fn acknowledge(self, id: MessageId, ok: bool) -> AssemblyView {
        if !ok {
            AssemblyView { error: true, ..self }
        } else if self.is_acknowledged(id) {
            self
        } else {
            AssemblyView { acknowledged: self.acknowledged.push(id), ..self }
        }
    }

    /// The milestone is solid: its message is known, nothing is left to
    /// resolve, and the writes of every resolved message are reported as
    /// done, none as failed.
    pub open spec fn is_complete(self) -> bool {
        &&& self.milestone.is_some()
        &&& self.pending.len() == 0
        &&& !self.error
        &&& forall|i: int|
            0 <= i < self.messages.len() ==> self.is_acknowledged(
                (#[trigger] self.messages[i]).metadata.message_id,
            )
    }
}

/// Mathematical model of a solidifier.
pub struct SolidifierView {
    pub config: SolidifierConfig,
    /// The open assemblies, in the order in which they were opened.
    pub assemblies: Seq<AssemblyView>,
}

impl SolidifierView {
    /// The configuration is well formed and no milestone has two
    /// assemblies.
    pub open spec fn wf(self) -> bool {
        &&& self.config.wf()
        &&& forall|i: int, j: int|
            #![trigger self.assemblies[i], self.assemblies[j]]
            0 <= i < j < self.assemblies.len() ==> self.assemblies[i].milestone_index
                != self.assemblies[j].milestone_index
    }

    /// The position of the assembly of a milestone; the number of
    /// assemblies if it has none.
    pub open spec fn position(self, milestone_index: u32) -> int {
        first_where(self.assemblies, assembly_pred(milestone_index))
    }

    /// The solidifier with an assembly for the milestone: the one it has,
    /// or a new, empty one.
    pub open spec fn open(self, milestone_index: u32, created_by: CreatedBy) -> SolidifierView {
        if self.position(milestone_index) < self.assemblies.len() {
            self
        } else {
            SolidifierView {
                assemblies: self.assemblies.push(AssemblyView::new(milestone_index, created_by)),
                ..self
            }
        }
    }

    /// If the assembly at position `k` is complete, its bundle goes to the
    /// archiver, the milestone is recorded as synced, and the assembly is
    /// closed.
    pub open spec fn settle(self, k: int) -> (SolidifierView, Seq<SolidifierEffectView>) {
        let a = self.assemblies[k];
        if a.is_complete() {
            (
                SolidifierView { assemblies: self.assemblies.remove(k), ..self },
                seq![
                    SolidifierEffectView::Archive {
                        milestone_index: a.milestone_index,
                        created_by: a.created_by,
                        messages: a.messages,
                    },
                    SolidifierEffectView::Sync {
                        milestone_index: a.milestone_index,
                        synced_by: self.config.partition_id,
                    },
                ],
            )
        } else {
            (self, Seq::empty())
        }
    }

    /// The message that carries a milestone opens the assembly of the
    /// milestone, if need be, and seeds it with the parents that the milestone
    /// names.
    pub open spec fn on_milestone(self, m: MilestoneMessageView) -> (
        SolidifierView,
        Seq<SolidifierEffectView>,
    ) {
        let ms = m.milestone.index;
        if !self.config.owns(ms) {
            (self, Seq::empty())
        } else {
            let opened = self.open(ms, CreatedBy::Incoming);
            let k = opened.position(ms);
            let a = opened.assemblies[k];
            let known = AssemblyView {
                milestone: if a.milestone.is_some() { a.milestone } else { Some(m) },
                ..a
            };
            let (seeded, asks) = known.seed(
                self.config,
                m.milestone.parents,
                m.milestone.parents.len() as int,
            );
            let (settled, done) = (SolidifierView {
                assemblies: opened.assemblies.update(k, seeded),
                ..opened
            }).settle(k);
            (settled, asks + done)
        }
    }

    /// A message with its metadata is resolved in the assembly of the
    /// milestone that references it; its parents that are neither resolved
    /// nor pending become pending and are asked for.
    pub open spec fn on_message(self, full: FullMessageView) -> (
        SolidifierView,
        Seq<SolidifierEffectView>,
    ) {
        match full.metadata.referenced_by_milestone_index {
            None => (self, Seq::empty()),
            Some(ms) => {
                if !self.config.owns(ms) {
                    (self, Seq::empty())
                } else {
                    let opened = self.open(ms, CreatedBy::Incoming);
                    let k = opened.position(ms);
                    let (seeded, asks) = opened.assemblies[k].resolve(full).seed(
                        self.config,
                        full.message.parents,
                        full.message.parents.len() as int,
                    );
                    let (settled, done) = (SolidifierView {
                        assemblies: opened.assemblies.update(k, seeded),
                        ..opened
                    }).settle(k);
                    (settled, asks + done)
                }
            },
        }
    }

    /// A question was refused. If the message is still to resolve, it is
    /// asked for again, up to the number of retries; after that the assembly
    /// is given up and the failure reported.
    pub open spec fn on_close(self, id: MessageId, milestone_index: u32) -> (
        SolidifierView,
        Seq<SolidifierEffectView>,
    ) {
        let k = self.position(milestone_index);
        if k < self.assemblies.len() {
            let a = self.assemblies[k];
            let j = first_where(a.pending, waiting_pred(id));
            if j < a.pending.len() {
                if a.pending[j].retries < self.config.max_retries {
                    (
                        SolidifierView {
                            assemblies: self.assemblies.update(
                                k,
                                AssemblyView {
                                    pending: a.pending.update(
                                        j,
                                        PendingMessage {
                                            retries: (a.pending[j].retries + 1) as u8,
                                            ..a.pending[j]
                                        },
                                    ),
                                    ..a
                                },
                            ),
                            ..self
                        },
                        seq![self.config.ask(milestone_index, id)],
                    )
                } else {
                    (
                        SolidifierView { assemblies: self.assemblies.remove(k), ..self },
                        seq![SolidifierEffectView::Failed { milestone_index }],
                    )
                }
            } else {
                (self, Seq::empty())
            }
        } else {
            (self, Seq::empty())
        }
    }

    /// A milestone is to be solidified for the back-fill: its assembly is
    /// opened and its message asked for. Or a message of a milestone could not
    /// be fetched: the assembly is given up and the failure reported.
    pub open spec fn on_solidify(self, result: Result<u32, u32>) -> (
        SolidifierView,
        Seq<SolidifierEffectView>,
    ) {
        match result {
            Ok(ms) => {
                if !self.config.owns(ms) || self.position(ms) < self.assemblies.len() {
                    (self, Seq::empty())
                } else {
                    (
                        self.open(ms, CreatedBy::Syncer),
                        seq![
                            SolidifierEffectView::Ask {
                                collector_id: self.config.partition_id,
                                ask: AskCollector::MilestoneMessage(ms),
                            },
                        ],
                    )
                }
            },
            Err(ms) => {
                let k = self.position(ms);
                (
                    if k < self.assemblies.len() {
                        SolidifierView { assemblies: self.assemblies.remove(k), ..self }
                    } else {
                        self
                    },
                    seq![SolidifierEffectView::Failed { milestone_index: ms }],
                )
            },
        }
    }

    /// The writes of a message of a milestone are reported.
    pub open spec fn on_cql_result(self, milestone_index: u32, id: MessageId, ok: bool) -> (
        SolidifierView,
        Seq<SolidifierEffectView>,
    ) {
        let k = self.position(milestone_index);
        if k < self.assemblies.len() {
            (SolidifierView {
                assemblies: self.assemblies.update(k, self.assemblies[k].acknowledge(id, ok)),
                ..self
            }).settle(k)
        } else {
            (self, Seq::empty())
        }
    }

    /// What an event leads to.
    pub open spec fn handle_event(self, event: SolidifierEventView) -> (
        SolidifierView,
        Seq<SolidifierEffectView>,
    ) {
        match event {
            SolidifierEventView::Milestone(m) => self.on_milestone(m),
            SolidifierEventView::Message(full) => self.on_message(full),
            SolidifierEventView::Close(id, milestone_index) => self.on_close(id, milestone_index),
            SolidifierEventView::Solidify(result) => self.on_solidify(result),
            SolidifierEventView::CqlResult { milestone_index, message_id, ok } => {
                self.on_cql_result(milestone_index, message_id, ok)
            },
        }
    }
}

} // verus!
