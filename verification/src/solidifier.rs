//! The solidifier of one partition: it assembles, for every milestone of
//! its partition, the messages that the milestone references, and hands the
//! complete bundle on.
//!
//! The solidifier decides; its caller acts. Every operation returns the list
//! of [`SolidifierEffect`]s that the caller has to perform, in order.
use vstd::prelude::*;
use crate::collector_model::AskCollector;
use crate::effect::{MilestoneMessage, SolidifierEvent};
use crate::ids::MessageId;
use crate::message::FullMessage;
use crate::milestone::CreatedBy;
use crate::seq_util::{first_where, lemma_first_where_unique};
use crate::solidifier_model::{
    assembly_pred, id_pred, message_pred, waiting_pred, AssemblyView, PendingMessage,
    SolidifierConfig, SolidifierEffectView, SolidifierView,
};

verus! {

/// One thing a solidifier asks its caller to do.
#[derive(Debug, PartialEq, Eq)]
pub enum SolidifierEffect {
    /// Put a question to a collector.
    Ask { collector_id: u8, ask: AskCollector },
    /// Hand the complete bundle of a milestone to the archiver.
    Archive { milestone_index: u32, created_by: CreatedBy, messages: Vec<FullMessage> },
    /// Record the milestone as synced by this solidifier.
    Sync { milestone_index: u32, synced_by: u8 },
    /// Report upwards that the milestone could not be assembled.
    Failed { milestone_index: u32 },
}

impl DeepView for SolidifierEffect {
    type V = SolidifierEffectView;

    open spec fn deep_view(&self) -> SolidifierEffectView {
        match self {
            SolidifierEffect::Ask { collector_id, ask } => SolidifierEffectView::Ask {
                collector_id: *collector_id,
                ask: *ask,
            },
            SolidifierEffect::Archive { milestone_index, created_by, messages } => {
                SolidifierEffectView::Archive {
                    milestone_index: *milestone_index,
                    created_by: *created_by,
                    messages: messages.deep_view(),
                }
            },
            SolidifierEffect::Sync { milestone_index, synced_by } => SolidifierEffectView::Sync {
                milestone_index: *milestone_index,
                synced_by: *synced_by,
            },
            SolidifierEffect::Failed { milestone_index } => SolidifierEffectView::Failed {
                milestone_index: *milestone_index,
            },
        }
    }
}

/// The assembly of one milestone.
#[derive(Debug, PartialEq, Eq)]
pub struct Assembly {
    pub milestone_index: u32,
    pub milestone: Option<MilestoneMessage>,
    pub pending: Vec<PendingMessage>,
    pub messages: Vec<FullMessage>,
    pub acknowledged: Vec<MessageId>,
    pub created_by: CreatedBy,
    pub error: bool,
}

impl DeepView for Assembly {
    type V = AssemblyView;

    open spec fn deep_view(&self) -> AssemblyView {
        AssemblyView {
            milestone_index: self.milestone_index,
            milestone: match self.milestone {
                Some(m) => Some(m.deep_view()),
                None => None,
            },
            pending: self.pending@,
            messages: self.messages.deep_view(),
            acknowledged: self.acknowledged@,
            created_by: self.created_by,
            error: self.error,
        }
    }
}

fn no_effects() -> (effects: Vec<SolidifierEffect>)
    ensures
        effects.deep_view() == Seq::<SolidifierEffectView>::empty(),
{
    let effects: Vec<SolidifierEffect> = Vec::new();
    assert(effects.deep_view() =~= Seq::<SolidifierEffectView>::empty());
    effects
}

fn push_effect(effects: &mut Vec<SolidifierEffect>, effect: SolidifierEffect)
    ensures
        final(effects).deep_view() == old(effects).deep_view().push(effect.deep_view()),
{
    effects.push(effect);
    assert(effects.deep_view() =~= old(effects).deep_view().push(effect.deep_view()));
}

fn extend_effects(effects: &mut Vec<SolidifierEffect>, more: Vec<SolidifierEffect>)
    ensures
        final(effects).deep_view() == old(effects).deep_view() + more.deep_view(),
{
    let mut more = more;
    let ghost added = more.deep_view();
    effects.append(&mut more);
    assert(effects.deep_view() =~= old(effects).deep_view() + added);
}

fn position_message(messages: &Vec<FullMessage>, id: &MessageId) -> (k: usize)
    ensures
        k <= messages.len(),
        k == first_where(messages.deep_view(), message_pred(*id)),
{
    let mut k: usize = 0;
    while k < messages.len()
        invariant
            k <= messages.len(),
            forall|j: int| 0 <= j < k ==> !message_pred(*id)(#[trigger] messages.deep_view()[j]),
        decreases messages.len() - k,
    {
        if messages[k].1.message_id == *id {
            proof {
                lemma_first_where_unique(messages.deep_view(), message_pred(*id), k as int);
            }
            return k;
        }
        k += 1;
    }
    proof {
        lemma_first_where_unique(messages.deep_view(), message_pred(*id), k as int);
    }
    k
}

fn position_waiting(pending: &Vec<PendingMessage>, id: &MessageId) -> (k: usize)
    ensures
        k <= pending.len(),
        k == first_where(pending@, waiting_pred(*id)),
{
    let mut k: usize = 0;
    while k < pending.len()
        invariant
            k <= pending.len(),
            forall|j: int| 0 <= j < k ==> !waiting_pred(*id)(#[trigger] pending@[j]),
        decreases pending.len() - k,
    {
        if pending[k].message_id == *id {
            proof {
                lemma_first_where_unique(pending@, waiting_pred(*id), k as int);
            }
            return k;
        }
        k += 1;
    }
    proof {
        lemma_first_where_unique(pending@, waiting_pred(*id), k as int);
    }
    k
}

fn position_id(ids: &Vec<MessageId>, id: &MessageId) -> (k: usize)
    ensures
        k <= ids.len(),
        k == first_where(ids@, id_pred(*id)),
{
    let mut k: usize = 0;
    while k < ids.len()
        invariant
            k <= ids.len(),
            forall|j: int| 0 <= j < k ==> !id_pred(*id)(#[trigger] ids@[j]),
        decreases ids.len() - k,
    {
        if ids[k] == *id {
            proof {
                lemma_first_where_unique(ids@, id_pred(*id), k as int);
            }
            return k;
        }
        k += 1;
    }
    proof {
        lemma_first_where_unique(ids@, id_pred(*id), k as int);
    }
    k
}

fn position_assembly(assemblies: &Vec<Assembly>, milestone_index: u32) -> (k: usize)
    ensures
        k <= assemblies.len(),
        k == first_where(assemblies.deep_view(), assembly_pred(milestone_index)),
{
    let mut k: usize = 0;
    while k < assemblies.len()
        invariant
            k <= assemblies.len(),
            forall|j: int|
                0 <= j < k ==> !assembly_pred(milestone_index)(#[trigger] assemblies.deep_view()[j]),
        decreases assemblies.len() - k,
    {
        if assemblies[k].milestone_index == milestone_index {
            proof {
                lemma_first_where_unique(
                    assemblies.deep_view(),
                    assembly_pred(milestone_index),
                    k as int,
                );
            }
            return k;
        }
        k += 1;
    }
    proof {
        lemma_first_where_unique(assemblies.deep_view(), assembly_pred(milestone_index), k as int);
    }
    k
}

impl Assembly {
    /// The empty assembly of a milestone.
    pub fn new(milestone_index: u32, created_by: CreatedBy) -> (assembly: Assembly)
        ensures
            assembly.deep_view() == AssemblyView::new(milestone_index, created_by),
    {
        let assembly = Assembly {
            milestone_index,
            milestone: None,
            pending: Vec::new(),
            messages: Vec::new(),
            acknowledged: Vec::new(),
            created_by,
            error: false,
        };
        assert(assembly.messages.deep_view() =~= Seq::empty());
        assembly
    }

    /// Whether the message is resolved.
    pub fn has_message(&self, id: &MessageId) -> (r: bool)
        ensures
            r == self.deep_view().has_message(*id),
    {
        position_message(&self.messages, id) < self.messages.len()
    }

    /// Whether the message is still to resolve.
    pub fn is_pending(&self, id: &MessageId) -> (r: bool)
        ensures
            r == self.deep_view().is_pending(*id),
    {
        position_waiting(&self.pending, id) < self.pending.len()
    }

    /// Whether the writes of the message are reported as done.
    pub fn is_acknowledged(&self, id: &MessageId) -> (r: bool)
        ensures
            r == self.deep_view().is_acknowledged(*id),
    {
        position_id(&self.acknowledged, id) < self.acknowledged.len()
    }

    /// Makes pending, and asks for, every one of the given parents that is
    /// neither resolved nor pending.
    pub fn seed(&mut self, config: &SolidifierConfig, parents: &Vec<MessageId>) -> (asks: Vec<
        SolidifierEffect,
    >)
        ensures
            final(self).deep_view() == old(self).deep_view().seed(
                *config,
                parents@,
                parents@.len() as int,
            ).0,
            asks.deep_view() == old(self).deep_view().seed(
                *config,
                parents@,
                parents@.len() as int,
            ).1,
    {
        let ghost start = self.deep_view();
        let mut asks = no_effects();
        let mut i: usize = 0;
        while i < parents.len()
            invariant
                i <= parents.len(),
                self.deep_view() == start.seed(*config, parents@, i as int).0,
                asks.deep_view() == start.seed(*config, parents@, i as int).1,
                self.milestone_index == start.milestone_index,
            decreases parents.len() - i,
        {
            let parent = parents[i];
            if !(self.has_message(&parent) || self.is_pending(&parent)) {
                self.pending.push(PendingMessage { message_id: parent, retries: 0 });
                push_effect(
                    &mut asks,
                    SolidifierEffect::Ask {
                        collector_id: config.partition_id,
                        ask: AskCollector::FullMessage(
                            config.partition_id,
                            self.milestone_index,
                            parent,
                        ),
                    },
                );
            }
            i += 1;
        }
        asks
    }

    /// Resolves a message: it is pending no more, and it joins the resolved
    /// messages unless it is one of them already.
    pub fn resolve(&mut self, full: FullMessage)
        ensures
            final(self).deep_view() == old(self).deep_view().resolve(full.deep_view()),
    {
        let id = full.1.message_id;
        let k = position_waiting(&self.pending, &id);
        if k < self.pending.len() {
            self.pending.remove(k);
        }
        if !self.has_message(&id) {
            let ghost before = self.messages.deep_view();
            self.messages.push(full);
            assert(self.messages.deep_view() =~= before.push(full.deep_view()));
        }
    }

    /// Takes note of the report on the writes of a message.
    pub fn acknowledge(&mut self, id: MessageId, ok: bool)
        ensures
            final(self).deep_view() == old(self).deep_view().acknowledge(id, ok),
    {
        if !ok {
            self.error = true;
        } else if !self.is_acknowledged(&id) {
            self.acknowledged.push(id);
        }
    }

    /// Whether the milestone is solid.
    pub fn is_complete(&self) -> (r: bool)
        ensures
            r == self.deep_view().is_complete(),
    {
        if self.milestone.is_none() || self.pending.len() > 0 || self.error {
            return false;
        }
        let mut i: usize = 0;
        while i < self.messages.len()
            invariant
                i <= self.messages.len(),
                forall|j: int|
                    0 <= j < i ==> self.deep_view().is_acknowledged(
                        (#[trigger] self.deep_view().messages[j]).metadata.message_id,
                    ),
            decreases self.messages.len() - i,
        {
            let id = self.messages[i].1.message_id;
            if !self.is_acknowledged(&id) {
                assert(!self.deep_view().is_acknowledged(
                    self.deep_view().messages[i as int].metadata.message_id,
                ));
                return false;
            }
            i += 1;
        }
        true
    }
}

/// The solidifier of one partition.
pub struct Solidifier {
    config: SolidifierConfig,
    assemblies: Vec<Assembly>,
}

impl View for Solidifier {
    type V = SolidifierView;

    closed spec fn view(&self) -> SolidifierView {
        SolidifierView { config: self.config, assemblies: self.assemblies.deep_view() }
    }
}

impl Solidifier {
    /// A solidifier without assemblies, if its partition is one of the
    /// partitions.
    pub fn new(config: SolidifierConfig) -> (r: Option<Solidifier>)
        ensures
            r.is_some() <==> config.wf(),
            r matches Some(s) ==> s@.wf() && s@ == (SolidifierView {
                config,
                assemblies: Seq::empty(),
            }),
    {
        if config.partition_id < config.collectors_count {
            let solidifier = Solidifier { config, assemblies: Vec::new() };
            assert(solidifier.assemblies.deep_view() =~= Seq::empty());
            Some(solidifier)
        } else {
            None
        }
    }

    /// The open assemblies, in the order in which they were opened.
    pub fn assemblies(&self) -> (assemblies: &Vec<Assembly>)
        ensures
            assemblies.deep_view() == self@.assemblies,
    {
        &self.assemblies
    }

    /// Whether a milestone belongs to this solidifier.
    pub fn owns(&self, milestone_index: u32) -> (r: bool)
        requires
            self@.config.wf(),
        ensures
            r == self@.config.owns(milestone_index),
    {
        milestone_index % (self.config.collectors_count as u32) == self.config.partition_id as u32
    }

    fn open(&mut self, milestone_index: u32, created_by: CreatedBy) -> (k: usize)
        ensures
            final(self)@ == old(self)@.open(milestone_index, created_by),
            k == final(self)@.position(milestone_index),
            k < final(self)@.assemblies.len(),
    {
        let k = position_assembly(&self.assemblies, milestone_index);
        if k == self.assemblies.len() {
            let ghost before = self.assemblies.deep_view();
            let assembly = Assembly::new(milestone_index, created_by);
            self.assemblies.push(assembly);
            assert(self.assemblies.deep_view() =~= before.push(
                AssemblyView::new(milestone_index, created_by),
            ));
            proof {
                crate::seq_util::lemma_first_where_exists(before, assembly_pred(milestone_index));
                assert forall|j: int| 0 <= j < k implies !assembly_pred(milestone_index)(
                    #[trigger] self.assemblies.deep_view()[j],
                ) by {
                    assert(self.assemblies.deep_view()[j] == before[j]);
                }
                lemma_first_where_unique(
                    self.assemblies.deep_view(),
                    assembly_pred(milestone_index),
                    k as int,
                );
            }
        }
        k
    }

    fn settle(&mut self, k: usize) -> (effects: Vec<SolidifierEffect>)
        requires
            k < old(self)@.assemblies.len(),
        ensures
            final(self)@ == old(self)@.settle(k as int).0,
            effects.deep_view() == old(self)@.settle(k as int).1,
    {
        let mut effects = no_effects();
        if self.assemblies[k].is_complete() {
            let ghost before = self.assemblies.deep_view();
            let assembly = self.assemblies.remove(k);
            assert(self.assemblies.deep_view() =~= before.remove(k as int));
            push_effect(
                &mut effects,
                SolidifierEffect::Archive {
                    milestone_index: assembly.milestone_index,
                    created_by: assembly.created_by,
                    messages: assembly.messages,
                },
            );
            push_effect(
                &mut effects,
                SolidifierEffect::Sync {
                    milestone_index: assembly.milestone_index,
                    synced_by: self.config.partition_id,
                },
            );
            assert(effects.deep_view() =~= old(self)@.settle(k as int).1);
        }
        effects
    }

    fn on_milestone(&mut self, milestone_message: MilestoneMessage) -> (effects: Vec<SolidifierEffect>)
        requires
            old(self)@.config.wf(),
        ensures
            final(self)@ == old(self)@.on_milestone(milestone_message.deep_view()).0,
            effects.deep_view() == old(self)@.on_milestone(milestone_message.deep_view()).1,
    {
        let milestone_index = milestone_message.milestone.index;
        if !self.owns(milestone_index) {
            return no_effects();
        }
        let k = self.open(milestone_index, CreatedBy::Incoming);
        let ghost opened = self.assemblies.deep_view();
        let mut assembly = self.assemblies.remove(k);
        let parents = crate::message::clone_ids(&milestone_message.milestone.parents);
        if assembly.milestone.is_none() {
            assembly.milestone = Some(milestone_message);
        }
        let mut effects = assembly.seed(&self.config, &parents);
        self.assemblies.insert(k, assembly);
        assert(self.assemblies.deep_view() =~= opened.update(k as int, assembly.deep_view()));
        let done = self.settle(k);
        extend_effects(&mut effects, done);
        effects
    }

    fn on_message(&mut self, full: FullMessage) -> (effects: Vec<SolidifierEffect>)
        requires
            old(self)@.config.wf(),
        ensures
            final(self)@ == old(self)@.on_message(full.deep_view()).0,
            effects.deep_view() == old(self)@.on_message(full.deep_view()).1,
    {
        let milestone_index = match full.1.referenced_by_milestone_index {
            Some(milestone_index) => milestone_index,
            None => {
                return no_effects();
            },
        };
        if !self.owns(milestone_index) {
            return no_effects();
        }
        let k = self.open(milestone_index, CreatedBy::Incoming);
        let ghost opened = self.assemblies.deep_view();
        let mut assembly = self.assemblies.remove(k);
        let parents = crate::message::clone_ids(&full.0.parents);
        assembly.resolve(full);
        let mut effects = assembly.seed(&self.config, &parents);
        self.assemblies.insert(k, assembly);
        assert(self.assemblies.deep_view() =~= opened.update(k as int, assembly.deep_view()));
        let done = self.settle(k);
        extend_effects(&mut effects, done);
        effects
    }

    fn on_close(&mut self, message_id: MessageId, milestone_index: u32) -> (effects: Vec<
        SolidifierEffect,
    >)
        ensures
            final(self)@ == old(self)@.on_close(message_id, milestone_index).0,
            effects.deep_view() == old(self)@.on_close(message_id, milestone_index).1,
    {
        let mut effects = no_effects();
        let k = position_assembly(&self.assemblies, milestone_index);
        if k < self.assemblies.len() {
            let j = position_waiting(&self.assemblies[k].pending, &message_id);
            if j < self.assemblies[k].pending.len() {
                let ghost before = self.assemblies.deep_view();
                let mut assembly = self.assemblies.remove(k);
                assert(self.assemblies.deep_view() =~= before.remove(k as int));
                let mut pending = assembly.pending[j];
                if pending.retries < self.config.max_retries {
                    pending.retries = pending.retries + 1;
                    assembly.pending.set(j, pending);
                    self.assemblies.insert(k, assembly);
                    assert(self.assemblies.deep_view() =~= before.update(
                        k as int,
                        assembly.deep_view(),
                    ));
                    push_effect(
                        &mut effects,
                        SolidifierEffect::Ask {
                            collector_id: self.config.partition_id,
                            ask: AskCollector::FullMessage(
                                self.config.partition_id,
                                milestone_index,
                                message_id,
                            ),
                        },
                    );
                } else {
                    push_effect(&mut effects, SolidifierEffect::Failed { milestone_index });
                }
                assert(effects.deep_view() =~= old(self)@.on_close(message_id, milestone_index).1);
            }
        }
        effects
    }

    fn on_solidify(&mut self, result: Result<u32, u32>) -> (effects: Vec<SolidifierEffect>)
        requires
            old(self)@.config.wf(),
        ensures
            final(self)@ == old(self)@.on_solidify(result).0,
            effects.deep_view() == old(self)@.on_solidify(result).1,
    {
        let mut effects = no_effects();
        match result {
            Ok(milestone_index) => {
                if self.owns(milestone_index) && position_assembly(
                    &self.assemblies,
                    milestone_index,
                ) == self.assemblies.len() {
                    let _ = self.open(milestone_index, CreatedBy::Syncer);
                    push_effect(
                        &mut effects,
                        SolidifierEffect::Ask {
                            collector_id: self.config.partition_id,
                            ask: AskCollector::MilestoneMessage(milestone_index),
                        },
                    );
                    assert(effects.deep_view() =~= old(self)@.on_solidify(result).1);
                }
            },
            Err(milestone_index) => {
                let k = position_assembly(&self.assemblies, milestone_index);
                if k < self.assemblies.len() {
                    let ghost before = self.assemblies.deep_view();
                    self.assemblies.remove(k);
                    assert(self.assemblies.deep_view() =~= before.remove(k as int));
                }
                push_effect(&mut effects, SolidifierEffect::Failed { milestone_index });
                assert(effects.deep_view() =~= old(self)@.on_solidify(result).1);
            },
        }
        effects
    }

    fn on_cql_result(&mut self, milestone_index: u32, message_id: MessageId, ok: bool) -> (effects:
        Vec<SolidifierEffect>)
        ensures
            final(self)@ == old(self)@.on_cql_result(milestone_index, message_id, ok).0,
            effects.deep_view() == old(self)@.on_cql_result(milestone_index, message_id, ok).1,
    {
        let k = position_assembly(&self.assemblies, milestone_index);
        if k < self.assemblies.len() {
            let ghost before = self.assemblies.deep_view();
            let mut assembly = self.assemblies.remove(k);
            assembly.acknowledge(message_id, ok);
            self.assemblies.insert(k, assembly);
            assert(self.assemblies.deep_view() =~= before.update(k as int, assembly.deep_view()));
            self.settle(k)
        } else {
            no_effects()
        }
    }

    /// Handles one event and returns what the caller has to do.
    pub fn handle_event(&mut self, event: SolidifierEvent) -> (effects: Vec<SolidifierEffect>)
        requires
            old(self)@.wf(),
        ensures
            final(self)@ == old(self)@.handle_event(event.deep_view()).0,
            effects.deep_view() == old(self)@.handle_event(event.deep_view()).1,
            final(self)@.wf(),
    {
        proof {
            crate::solidifier_laws::lemma_handle_event_wf(old(self)@, event.deep_view());
        }
        match event {
            SolidifierEvent::Milestone(milestone_message) => self.on_milestone(milestone_message),
            SolidifierEvent::Message(full) => self.on_message(full),
            SolidifierEvent::Close(message_id, milestone_index) => {
                self.on_close(message_id, milestone_index)
            },
            SolidifierEvent::Solidify(result) => self.on_solidify(result),
            SolidifierEvent::CqlResult { milestone_index, message_id, ok } => {
                self.on_cql_result(milestone_index, message_id, ok)
            },
        }
    }
}

} // verus!
