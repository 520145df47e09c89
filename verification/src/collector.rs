//! The collector: the hub that de-duplicates messages, keeps the message
//! cache and the metadata cache coherent, answers the solidifiers, asks the
//! requesters for what is missing, and fans writes out to the store.
//!
//! The collector decides; its caller acts. Every operation returns the list
//! of [`Effect`]s that the caller has to perform, in order.
use vstd::prelude::*;
use std::collections::VecDeque;
use crate::collector_model::{
    adjusted, fresh_requesters, least_loaded, lemma_least_loaded_unique, milestone_of,
    pending_pred, rotated, AskCollector, CollectorConfig, CollectorError, CollectorEventView,
    CollectorView, Outcome, PendingView, RequesterHandle,
};
use crate::cache::{
    get_message, get_metadata, lookup, message_capacity, message_entries, metadata_capacity,
    metadata_entries, new_message_cache, new_metadata_cache, peek_milestone, put_message,
    put_metadata, touched, MessageCache, MetadataCache,
};
use crate::cache_laws::lemma_put_after_touch;
use crate::effect::{
    extend_effects, no_effects, push_effect, Effect, EffectView, RequesterEvent, Row,
};
use crate::ids::MessageId;
use crate::keyspace::ChronicleKeyspace;
use crate::message::{FullMessage, Message, MessageMetadata};
use crate::seq_util::{first_where, lemma_first_where_exists, lemma_first_where_unique};
use crate::store::{cleanup_effects, AtomicWorker, SimpleWorker};

verus! {

/// A message that a solidifier asked for before its metadata was known.
#[derive(Debug, PartialEq, Eq)]
pub struct PendingRequest {
    pub message_id: MessageId,
    pub requested_by: u32,
    pub message: Message,
}

impl DeepView for PendingRequest {
    type V = PendingView;

    open spec fn deep_view(&self) -> PendingView {
        PendingView {
            message_id: self.message_id,
            requested_by: self.requested_by,
            message: self.message.deep_view(),
        }
    }
}

/// The collector.
pub struct Collector {
    lru_msg: MessageCache,
    lru_msg_ref: MetadataCache,
    pending_requests: Vec<PendingRequest>,
    est_ms: u32,
    ref_ms: u32,
    config: CollectorConfig,
    default_keyspace: ChronicleKeyspace,
    api_endpoints: VecDeque<String>,
    requester_handles: Vec<RequesterHandle>,
    shut_down: bool,
}

impl View for Collector {
    type V = CollectorView;

    closed spec fn view(&self) -> CollectorView {
        CollectorView {
            messages: message_entries(self.lru_msg),
            message_capacity: message_capacity(self.lru_msg),
            metadata: metadata_entries(self.lru_msg_ref),
            metadata_capacity: metadata_capacity(self.lru_msg_ref),
            pending: self.pending_requests.deep_view(),
            est_ms: self.est_ms,
            ref_ms: self.ref_ms,
            config: self.config,
            keyspace: self.default_keyspace@,
            api_endpoints: self.api_endpoints.deep_view(),
            requesters: self.requester_handles@,
            shut_down: self.shut_down,
        }
    }
}

impl Collector {
    /// A collector with empty caches of the given capacities, no pending
    /// request, the given endpoints, and the given requesters, none of which
    /// is loaded.
    pub fn new(
        config: CollectorConfig,
        message_capacity: usize,
        metadata_capacity: usize,
        default_keyspace: ChronicleKeyspace,
        api_endpoints: VecDeque<String>,
        requester_ids: Vec<u8>,
    ) -> (r: Option<Collector>)
        ensures
            r.is_some() <==> config.wf() && message_capacity > 0 && metadata_capacity > 0,
            r matches Some(c) ==> c@.wf() && c@ == (CollectorView {
                messages: Seq::empty(),
                message_capacity: message_capacity as nat,
                metadata: Seq::empty(),
                metadata_capacity: metadata_capacity as nat,
                pending: Seq::empty(),
                est_ms: 0,
                ref_ms: 0,
                config,
                keyspace: default_keyspace@,
                api_endpoints: api_endpoints.deep_view(),
                requesters: fresh_requesters(requester_ids@),
                shut_down: false,
            }),
    {
        if config.collectors_count == 0 || config.partition_config.partition_count == 0
            || config.partition_config.milestone_chunk_size == 0 || message_capacity == 0
            || metadata_capacity == 0 {
            return None;
        }
        let mut requester_handles: Vec<RequesterHandle> = Vec::new();
        let mut i: usize = 0;
        while i < requester_ids.len()
            invariant
                i <= requester_ids.len(),
                requester_handles@ == fresh_requesters(requester_ids@.take(i as int)),
            decreases requester_ids.len() - i,
        {
            requester_handles.push(RequesterHandle { id: requester_ids[i], load: 0 });
            assert(requester_handles@ =~= fresh_requesters(requester_ids@.take(i + 1)));
            i += 1;
        }
        assert(requester_ids@.take(requester_ids.len() as int) =~= requester_ids@);
        let collector = Collector {
            lru_msg: new_message_cache(message_capacity),
            lru_msg_ref: new_metadata_cache(metadata_capacity),
            pending_requests: Vec::new(),
            est_ms: 0,
            ref_ms: 0,
            config,
            default_keyspace,
            api_endpoints,
            requester_handles,
            shut_down: false,
        };
        assert(collector.pending_requests.deep_view() =~= Seq::empty());
        proof {
            assert forall|id: MessageId| lookup(collector@.messages, id).is_none() && lookup(
                collector@.metadata,
                id,
            ).is_none() by {
                crate::cache_laws::lemma_lookup_none(collector@.messages, id);
                crate::cache_laws::lemma_lookup_none(collector@.metadata, id);
            }
        }
        Some(collector)
    }

    /// What the collector was set up with.
    pub closed spec fn spec_config(&self) -> CollectorConfig {
        self.config
    }

    /// What the collector was set up with.
    #[verifier::when_used_as_spec(spec_config)]
    pub fn config(&self) -> (c: CollectorConfig)
        ensures
            c == self.spec_config(),
            c == self@.config,
    {
        self.config
    }

    /// The endpoints of the network, the one to use next last.
    pub fn api_endpoints(&self) -> (endpoints: &VecDeque<String>)
        ensures
            endpoints.deep_view() == self@.api_endpoints,
    {
        &self.api_endpoints
    }

    /// The milestone that new messages are expected to be referenced by.
    pub fn est_ms(&self) -> (ms: u32)
        ensures
            ms == self@.est_ms,
    {
        self.est_ms
    }

    /// The milestone of the metadata seen last.
    pub fn ref_ms(&self) -> (ms: u32)
        ensures
            ms == self@.ref_ms,
    {
        self.ref_ms
    }

    /// The keyspace that the rows go to.
    pub fn get_keyspace(&self) -> (keyspace: ChronicleKeyspace)
        ensures
            keyspace@ == self@.keyspace,
    {
        self.default_keyspace.clone()
    }
}


/// An event that reaches the collector.
#[derive(Debug, PartialEq, Eq)]
pub enum CollectorEvent {
    /// The answer of a requester: its number, the milestone the message was
    /// asked for, the message's identifier and, if it was found, the message
    /// with its metadata.
    MessageAndMeta(u8, u32, Option<MessageId>, Option<FullMessage>),
    /// A message of the live stream.
    Message(MessageId, Message),
    /// Metadata of the live stream.
    MessageReferenced(MessageMetadata),
    /// A question of a solidifier.
    Ask(AskCollector),
    /// The collector is to shut down.
    Shutdown,
}

impl DeepView for CollectorEvent {
    type V = CollectorEventView;

    open spec fn deep_view(&self) -> CollectorEventView {
        match self {
            CollectorEvent::MessageAndMeta(requester_id, try_ms_index, message_id, full) => {
                CollectorEventView::MessageAndMeta(
                    *requester_id,
                    *try_ms_index,
                    *message_id,
                    match full {
                        Some(f) => Some(f.deep_view()),
                        None => None,
                    },
                )
            },
            CollectorEvent::Message(id, message) => CollectorEventView::Message(
                *id,
                message.deep_view(),
            ),
            CollectorEvent::MessageReferenced(metadata) => CollectorEventView::MessageReferenced(
                metadata.deep_view(),
            ),
            CollectorEvent::Ask(ask) => CollectorEventView::Ask(*ask),
            CollectorEvent::Shutdown => CollectorEventView::Shutdown,
        }
    }
}

impl CollectorEvent {
    /// Whether every transaction in the event is well formed.
    pub fn is_wf(&self) -> (r: bool)
        ensures
            r == self.deep_view().wf(),
    {
        match self {
            CollectorEvent::MessageAndMeta(_, _, _, Some(full)) => full.0.is_wf(),
            CollectorEvent::Message(_, message) => message.is_wf(),
            _ => true,
        }
    }
}

/// The result and the collector afterwards are what the model says.
pub open spec fn agrees(
    result: Result<Vec<Effect>, CollectorError>,
    state: CollectorView,
    outcome: Outcome,
) -> bool {
    &&& state == outcome.state
    &&& match result {
        Ok(effects) => outcome.error.is_none() && effects.deep_view() == outcome.effects,
        Err(e) => outcome.error == Some(e),
    }
}

fn position_pending(pending: &Vec<PendingRequest>, id: &MessageId) -> (k: usize)
    ensures
        k <= pending.len(),
        k == first_where(pending.deep_view(), pending_pred(*id)),
{
    let mut k: usize = 0;
    while k < pending.len()
        invariant
            k <= pending.len(),
            forall|j: int| 0 <= j < k ==> !pending_pred(*id)(#[trigger] pending.deep_view()[j]),
        decreases pending.len() - k,
    {
        if pending[k].message_id == *id {
            proof {
                lemma_first_where_unique(pending.deep_view(), pending_pred(*id), k as int);
            }
            return k;
        }
        k += 1;
    }
    proof {
        lemma_first_where_unique(pending.deep_view(), pending_pred(*id), k as int);
    }
    k
}

fn position_least_loaded(requesters: &Vec<RequesterHandle>) -> (k: usize)
    requires
        requesters.len() > 0,
    ensures
        k < requesters.len(),
        k == least_loaded(requesters@),
{
    let mut k: usize = 0;
    let mut i: usize = 1;
    while i < requesters.len()
        invariant
            0 <= k < i <= requesters.len(),
            forall|j: int| 0 <= j < i ==> requesters@[k as int].load <= (#[trigger] requesters@[j]).load,
            forall|j: int| 0 <= j < k ==> (#[trigger] requesters@[j]).load > requesters@[k as int].load,
        decreases requesters.len() - i,
    {
        if requesters[i].load < requesters[k].load {
            k = i;
        }
        i += 1;
    }
    proof {
        lemma_least_loaded_unique(requesters@, k as int);
    }
    k
}

impl Collector {
    /// The milestone under which a message is cached, if it is cached.
    pub fn cached_milestone(&self, message_id: &MessageId) -> (ms: Option<u32>)
        ensures
            ms == match lookup(self@.messages, *message_id) {
                Some(e) => Some(e.0),
                None => None,
            },
    {
        peek_milestone(&self.lru_msg, message_id)
    }

    /// The requesters and their loads.
    pub fn requesters(&self) -> (requesters: &Vec<RequesterHandle>)
        ensures
            requesters@ == self@.requesters,
    {
        &self.requester_handles
    }

    /// How many requests are pending.
    pub fn pending_len(&self) -> (n: usize)
        ensures
            n == self@.pending.len(),
    {
        self.pending_requests.len()
    }

    /// Whether the collector was shut down.
    pub fn is_shut_down(&self) -> (r: bool)
        ensures
            r == self@.shut_down,
    {
        self.shut_down
    }

    fn request(&mut self, event: RequesterEvent) -> (effects: Vec<Effect>)
        ensures
            final(self)@ == old(self)@.request(event).0,
            effects.deep_view() == old(self)@.request(event).1,
            old(self)@.wf() ==> final(self)@.wf(),
    {
        let mut effects = no_effects();
        if self.requester_handles.len() > 0 {
            let k = position_least_loaded(&self.requester_handles);
            let mut handle = self.requester_handles[k];
            let requester_id = handle.id;
            if handle.load < usize::MAX {
                handle.load = handle.load + 1;
            }
            self.requester_handles.set(k, handle);
            push_effect(&mut effects, Effect::Requester { requester_id, request: event });
            assert(effects.deep_view() =~= old(self)@.request(event).1);
        }
        effects
    }

    /// Asks the least loaded requester for the message of a milestone. The
    /// endpoints take turns: the last one moves to the front. There has to be
    /// an endpoint.
    pub fn request_milestone_message(&mut self, milestone_index: u32) -> (effects: Vec<Effect>)
        requires
            old(self)@.api_endpoints.len() > 0,
        ensures
            final(self)@ == old(self)@.request_milestone(milestone_index).0,
            effects.deep_view() == old(self)@.request_milestone(milestone_index).1,
            final(self)@.api_endpoints == rotated(old(self)@.api_endpoints),
            old(self)@.wf() ==> final(self)@.wf(),
    {
        let ghost before = self.api_endpoints.deep_view();
        let taken = self.api_endpoints.pop_back();
        match taken {
            Some(remote_url) => {
                let ghost rest = self.api_endpoints.deep_view();
                assert(rest =~= before.drop_last());
                self.api_endpoints.push_front(remote_url);
                assert(self.api_endpoints.deep_view() =~= rotated(before));
            },
            None => {},
        }
        self.request(RequesterEvent::RequestMilestone(milestone_index))
    }

    /// Asks the least loaded requester for a message for a milestone.
    pub fn request_full_message(&mut self, message_id: MessageId, try_ms_index: u32) -> (effects:
        Vec<Effect>)
        ensures
            final(self)@ == old(self)@.request(
                RequesterEvent::RequestFullMessage(message_id, try_ms_index),
            ).0,
            effects.deep_view() == old(self)@.request(
                RequesterEvent::RequestFullMessage(message_id, try_ms_index),
            ).1,
            old(self)@.wf() ==> final(self)@.wf(),
    {
        self.request(RequesterEvent::RequestFullMessage(message_id, try_ms_index))
    }

    /// Takes one request off the load of the requester that answered.
    pub fn adjust_heap(&mut self, requester_id: u8)
        ensures
            final(self)@ == (CollectorView {
                requesters: adjusted(old(self)@.requesters, requester_id),
                ..old(self)@
            }),
            old(self)@.wf() ==> final(self)@.wf(),
    {
        let ghost before = self.requester_handles@;
        let mut i: usize = 0;
        while i < self.requester_handles.len()
            invariant
                i <= self.requester_handles.len(),
                self.requester_handles@.len() == before.len(),
                forall|j: int| 0 <= j < i ==> #[trigger] self.requester_handles@[j] == before[j].relieved(requester_id),
                forall|j: int| i <= j < before.len() ==> #[trigger] self.requester_handles@[j] == before[j],
                self@ == (CollectorView { requesters: self.requester_handles@, ..old(self)@ }),
            decreases self.requester_handles.len() - i,
        {
            let mut handle = self.requester_handles[i];
            if handle.id == requester_id && handle.load > 0 {
                handle.load = handle.load - 1;
            }
            self.requester_handles.set(i, handle);
            i += 1;
        }
        assert(self.requester_handles@ =~= adjusted(before, requester_id));
    }

    /// Turns every pending request that was made for a milestone before
    /// `milestone_index` into a request for its message.
    pub fn process_pending_requests(&mut self, milestone_index: u32) -> (effects: Vec<Effect>)
        ensures
            final(self)@ == old(self)@.process_pending_requests(milestone_index).0,
            effects.deep_view() == old(self)@.process_pending_requests(milestone_index).1,
            final(self)@ == (CollectorView {
                pending: final(self)@.pending,
                requesters: final(self)@.requesters,
                ..old(self)@
            }),
            old(self)@.wf() ==> final(self)@.wf(),
    {
        let ghost start = self@;
        proof {
            if start.wf() {
                crate::collector_laws::lemma_wf_parts(start);
                crate::collector_laws::lemma_sort_pending(
                    start,
                    milestone_index,
                    start.pending.len() as int,
                );
                crate::collector_laws::lemma_wf_parts(
                    start.process_pending_requests(milestone_index).0,
                );
            }
        }
        let mut effects = no_effects();
        let mut i: usize = 0;
        let ghost mut n: int = 0;
        assert(self.pending_requests.deep_view() =~= Seq::<PendingView>::empty()
            + start.pending.skip(0));
        while i < self.pending_requests.len()
            invariant
                0 <= n <= start.pending.len(),
                i <= self.pending_requests.len(),
                i == start.sort_pending(milestone_index, n).0.pending.len(),
                self.pending_requests.deep_view() == start.sort_pending(milestone_index, n).0.pending
                    + start.pending.skip(n),
                self@ == (CollectorView {
                    pending: self.pending_requests.deep_view(),
                    ..start.sort_pending(milestone_index, n).0
                }),
                self@ == (CollectorView {
                    pending: self@.pending,
                    requesters: self@.requesters,
                    ..start
                }),
                effects.deep_view() == start.sort_pending(milestone_index, n).1,
            decreases self.pending_requests.len() - i, start.pending.len() - n,
        {
            let ghost sorted = start.sort_pending(milestone_index, n).0;
            let ghost now = self.pending_requests.deep_view();
            assert(now[i as int] == start.pending.skip(n)[0]);
            assert(n < start.pending.len());
            if self.pending_requests[i].requested_by < milestone_index {
                let pending = self.pending_requests.remove(i);
                assert(self.pending_requests.deep_view() =~= now.remove(i as int));
                assert(now.remove(i as int) =~= sorted.pending + start.pending.skip(n + 1)) by {
                    assert(now.len() == sorted.pending.len() + start.pending.skip(n).len());
                    assert forall|j: int| 0 <= j < now.len() - 1 implies #[trigger] now.remove(
                        i as int,
                    )[j] == (sorted.pending + start.pending.skip(n + 1))[j] by {
                        if j >= i {
                            assert(now[j + 1] == start.pending.skip(n)[j + 1 - i]);
                        } else {
                            assert(now[j] == sorted.pending[j]);
                        }
                    }
                }
                let ghost kept = self.pending_requests.deep_view();
                let more = self.request(
                    RequesterEvent::RequestFullMessage(pending.message_id, pending.requested_by),
                );
                extend_effects(&mut effects, more);
                proof {
                    let asked = sorted.request(
                        RequesterEvent::RequestFullMessage(pending.message_id, pending.requested_by),
                    ).0;
                    assert(asked.pending == sorted.pending);
                    assert(self.pending_requests.deep_view() == kept);
                    n = n + 1;
                }
            } else {
                assert(sorted.pending.push(start.pending[n]) + start.pending.skip(n + 1) =~= now);
                i += 1;
                proof {
                    n = n + 1;
                }
            }
        }
        proof {
            // what is left of the old list is empty, so all of it was sorted
            assert(start.pending.skip(n).len() == 0);
        }
        assert(self.pending_requests.deep_view() =~= start.sort_pending(milestone_index, n).0.pending);
        effects
    }
}


impl Collector {
    /// Writes metadata whose message is not known: the metadata, then the
    /// rows of the parents that it names, under the milestone noted last.
    pub fn insert_message_metadata(&self, metadata: MessageMetadata) -> (effects: Vec<Effect>)
        requires
            self@.config.wf(),
        ensures
            effects.deep_view() == self@.config.metadata_effects(metadata.deep_view(), self@.ref_ms),
    {
        let message_id = metadata.message_id;
        let inherent_worker = SimpleWorker { retries: self.config.retries_per_query };
        let parents = self.insert_parents(
            &inherent_worker,
            &message_id,
            &metadata.parent_message_ids,
            self.ref_ms,
            metadata.ledger_inclusion_state,
        );
        let mut effects = no_effects();
        let row = self.insert(&inherent_worker, Row::Metadata { message_id, metadata });
        push_effect(&mut effects, row);
        extend_effects(&mut effects, parents);
        assert(effects.deep_view() =~= self@.config.metadata_effects(
            metadata.deep_view(),
            self@.ref_ms,
        ));
        effects
    }

    /// Writes a message whose metadata is known: the rows of its parents
    /// and of its payload under the milestone that the metadata names (the
    /// milestone noted last if it names none), then the message with its
    /// metadata, all in one group.
    pub fn insert_message_with_metadata(
        &self,
        message_id: MessageId,
        message: Message,
        metadata: MessageMetadata,
    ) -> (effects: Vec<Effect>)
        requires
            self@.config.wf(),
            message.deep_view().wf(),
        ensures
            effects.deep_view() == self@.config.message_with_metadata_effects(
                message_id,
                message.deep_view(),
                metadata.deep_view(),
                self@.config.milestone_for(metadata.deep_view(), self@.ref_ms),
            ),
    {
        let milestone_index = match metadata.referenced_by_milestone_index {
            Some(milestone_index) => milestone_index,
            None => self.ref_ms,
        };
        let solidifier_id = self.clone_solidifier_handle(milestone_index);
        let inherent_worker = AtomicWorker::new(
            solidifier_id,
            milestone_index,
            message_id,
            self.config.confirmed_retries,
        );
        let mut effects = self.insert_parents(
            &inherent_worker,
            &message_id,
            &message.parents,
            milestone_index,
            metadata.ledger_inclusion_state,
        );
        match &message.payload {
            Some(payload) => {
                let more = self.insert_payload(
                    &inherent_worker,
                    &message_id,
                    &message,
                    payload,
                    milestone_index,
                    metadata.ledger_inclusion_state,
                    Some(metadata.clone()),
                );
                extend_effects(&mut effects, more);
            },
            None => {
                assert(effects.deep_view() + Seq::<EffectView>::empty() =~= effects.deep_view());
            },
        }
        let row = self.insert(
            &inherent_worker,
            Row::Message { message_id, message: message.raw, metadata: Some(metadata) },
        );
        push_effect(&mut effects, row);
        assert(effects.deep_view() =~= self@.config.message_with_metadata_effects(
            message_id,
            message.deep_view(),
            metadata.deep_view(),
            milestone_index,
        ));
        effects
    }

    /// Writes a message of the live stream: the message, the rows of its
    /// parents and the rows of its payload. If the metadata of the message is
    /// cached, the writes go under its milestone in one group; otherwise they
    /// go under the estimate, each on its own. The metadata is marked as
    /// used; the estimate stays as it is.
    pub fn insert_message(&mut self, message_id: &MessageId, message: &Message) -> (effects: Vec<
        Effect,
    >)
        requires
            old(self)@.config.wf(),
            message.deep_view().wf(),
        ensures
            final(self)@ == (CollectorView {
                metadata: touched(old(self)@.metadata, *message_id),
                ..old(self)@
            }),
            final(self)@.est_ms == old(self)@.est_ms,
            effects.deep_view() == old(self)@.config.message_effects(
                *message_id,
                message.deep_view(),
                old(self)@.est_ms,
                lookup(old(self)@.metadata, *message_id),
            ),
            old(self)@.wf() ==> final(self)@.wf(),
    {
        let (effects, _) = self.write_message(message_id, message);
        effects
    }

    /// Writes a message of the live stream and says under which milestone:
    /// that of its cached metadata, or the estimate.
    fn write_message(&mut self, message_id: &MessageId, message: &Message) -> (r: (Vec<Effect>, u32))
        requires
            old(self)@.config.wf(),
            message.deep_view().wf(),
        ensures
            final(self)@ == (CollectorView {
                metadata: touched(old(self)@.metadata, *message_id),
                ..old(self)@
            }),
            r.0.deep_view() == old(self)@.config.message_effects(
                *message_id,
                message.deep_view(),
                old(self)@.est_ms,
                lookup(old(self)@.metadata, *message_id),
            ),
            r.1 == milestone_of(lookup(old(self)@.metadata, *message_id), old(self)@.est_ms),
            old(self)@.wf() ==> final(self)@.wf(),
    {
        proof {
            if old(self)@.wf() {
                crate::collector_laws::lemma_insert_message_wf(old(self)@, *message_id);
            }
        }
        let under: u32;
        let cached = get_metadata(&mut self.lru_msg_ref, message_id);
        let mut effects = no_effects();
        match cached {
            Some(metadata) => {
                let milestone_index = match metadata.referenced_by_milestone_index {
                    Some(ms) => ms,
                    None => self.est_ms,
                };
                under = milestone_index;
                let solidifier_id = self.clone_solidifier_handle(milestone_index);
                let inherent_worker = AtomicWorker::new(
                    solidifier_id,
                    milestone_index,
                    *message_id,
                    self.config.confirmed_retries,
                );
                let ledger_inclusion_state = metadata.ledger_inclusion_state;
                let row = self.insert(
                    &inherent_worker,
                    Row::Message {
                        message_id: *message_id,
                        message: message.raw.clone(),
                        metadata: Some(metadata.clone()),
                    },
                );
                push_effect(&mut effects, row);
                let parents = self.insert_parents(
                    &inherent_worker,
                    message_id,
                    &message.parents,
                    milestone_index,
                    ledger_inclusion_state,
                );
                extend_effects(&mut effects, parents);
                match &message.payload {
                    Some(payload) => {
                        let more = self.insert_payload(
                            &inherent_worker,
                            message_id,
                            message,
                            payload,
                            milestone_index,
                            ledger_inclusion_state,
                            Some(metadata),
                        );
                        extend_effects(&mut effects, more);
                    },
                    None => {
                        assert(effects.deep_view() + Seq::<EffectView>::empty()
                            =~= effects.deep_view());
                    },
                }
            },
            None => {
                let milestone_index = self.est_ms;
                under = milestone_index;
                let inherent_worker = SimpleWorker { retries: self.config.retries_per_query };
                let row = self.insert(
                    &inherent_worker,
                    Row::Message {
                        message_id: *message_id,
                        message: message.raw.clone(),
                        metadata: None,
                    },
                );
                push_effect(&mut effects, row);
                let parents = self.insert_parents(
                    &inherent_worker,
                    message_id,
                    &message.parents,
                    milestone_index,
                    None,
                );
                extend_effects(&mut effects, parents);
                match &message.payload {
                    Some(payload) => {
                        let more = self.insert_payload(
                            &inherent_worker,
                            message_id,
                            message,
                            payload,
                            milestone_index,
                            None,
                            None,
                        );
                        extend_effects(&mut effects, more);
                    },
                    None => {
                        assert(effects.deep_view() + Seq::<EffectView>::empty()
                            =~= effects.deep_view());
                    },
                }
            },
        }
        assert(effects.deep_view() =~= old(self)@.config.message_effects(
            *message_id,
            message.deep_view(),
            old(self)@.est_ms,
            lookup(old(self)@.metadata, *message_id),
        ));
        (effects, under)
    }

    fn on_message(&mut self, message_id: MessageId, message: Message) -> (effects: Vec<Effect>)
        requires
            old(self)@.wf(),
            message.deep_view().wf(),
        ensures
            final(self)@ == old(self)@.on_message(message_id, message.deep_view()).state,
            effects.deep_view() == old(self)@.on_message(message_id, message.deep_view()).effects,
    {
        let cached = get_message(&mut self.lru_msg, &message_id);
        if cached.is_some() {
            return no_effects();
        }
        let (effects, milestone_index) = self.write_message(&message_id, &message);
        put_message(&mut self.lru_msg, message_id, (milestone_index, message));
        effects
    }
}


impl Collector {
    /// Takes the pending request for a message off the list, if there is
    /// one.
    fn take_pending(&mut self, message_id: &MessageId) -> (r: Option<PendingRequest>)
        ensures
            ({
                let k = first_where(old(self)@.pending, pending_pred(*message_id));
                if k < old(self)@.pending.len() {
                    &&& r matches Some(p) && p.deep_view() == old(self)@.pending[k]
                    &&& final(self)@ == (CollectorView {
                        pending: old(self)@.pending.remove(k),
                        ..old(self)@
                    })
                } else {
                    r.is_none() && final(self)@ == old(self)@
                }
            }),
    {
        let k = position_pending(&self.pending_requests, message_id);
        if k < self.pending_requests.len() {
            let ghost before = self.pending_requests.deep_view();
            let pending = self.pending_requests.remove(k);
            assert(self.pending_requests.deep_view() =~= before.remove(k as int));
            Some(pending)
        } else {
            None
        }
    }

    fn on_message_referenced(&mut self, metadata: MessageMetadata) -> (r: Result<
        Vec<Effect>,
        CollectorError,
    >)
        requires
            old(self)@.wf(),
        ensures
            agrees(r, final(self)@, old(self)@.on_message_referenced(metadata.deep_view())),
    {
        let ghost start = self@;
        let ghost meta = metadata.deep_view();
        let ref_ms = match metadata.referenced_by_milestone_index {
            Some(ref_ms) => ref_ms,
            None => {
                return Ok(no_effects());
            },
        };
        if ref_ms == u32::MAX {
            return Err(CollectorError::MilestoneOverflow);
        }
        let partition_id = self.clone_solidifier_handle(ref_ms);
        let message_id = metadata.message_id;
        self.ref_ms = ref_ms;
        let new_ms = ref_ms + 1;
        if self.est_ms < new_ms {
            self.est_ms = new_ms;
        }
        let known = get_metadata(&mut self.lru_msg_ref, &message_id);
        if known.is_some() {
            return Ok(no_effects());
        }
        put_metadata(&mut self.lru_msg_ref, message_id, metadata.clone());
        let entry = get_message(&mut self.lru_msg, &message_id);
        match entry {
            Some((est_ms, message)) => {
                proof {
                    lemma_put_after_touch(
                        start.messages,
                        start.message_capacity,
                        message_id,
                        (ref_ms, message.deep_view()),
                    );
                }
                put_message(&mut self.lru_msg, message_id, (ref_ms, message.clone()));
                let mut effects = self.push_fullmsg_to_solidifier(
                    partition_id,
                    message.clone(),
                    metadata.clone(),
                );
                let ghost delivered = effects.deep_view();
                let ghost fixed = self@;
                let pending = self.take_pending(&message_id);
                let ghost closing = fixed.settle_pending(meta, ref_ms, false).1;
                assert(self@ == fixed.settle_pending(meta, ref_ms, false).0);
                match pending {
                    Some(pending) => {
                        if pending.requested_by != ref_ms {
                            let solidifier_id = self.clone_solidifier_handle(pending.requested_by);
                            let more = self.push_close_to_solidifier(
                                solidifier_id,
                                message_id,
                                pending.requested_by,
                            );
                            extend_effects(&mut effects, more);
                        } else {
                            assert(delivered + closing =~= delivered);
                        }
                    },
                    None => {
                        assert(delivered + closing =~= delivered);
                    },
                }
                assert(effects.deep_view() == delivered + closing);
                let ghost settled = self@;
                let requests = self.process_pending_requests(ref_ms);
                let ghost asked = requests.deep_view();
                extend_effects(&mut effects, requests);
                let ghost cleaning = if est_ms != ref_ms {
                    cleanup_effects(
                        start.config.partition_config,
                        message_id,
                        message.deep_view(),
                        est_ms,
                        start.config.confirmed_retries,
                    )
                } else {
                    Seq::<EffectView>::empty()
                };
                assert(message.deep_view().wf()) by {
                    assert(lookup(start.messages, message_id) is Some);
                }
                if est_ms != ref_ms {
                    let more = self.clean_up_wrong_est_msg(&message_id, &message, est_ms);
                    extend_effects(&mut effects, more);
                } else {
                    assert(effects.deep_view() + cleaning =~= effects.deep_view());
                }
                assert(effects.deep_view() == delivered + closing + asked + cleaning);
                let more = self.insert_message_with_metadata(message_id, message, metadata);
                extend_effects(&mut effects, more);
                Ok(effects)
            },
            None => {
                let ghost cached = self@;
                let ghost k = first_where(start.pending, pending_pred(message_id));
                proof {
                    lemma_first_where_exists(start.pending, pending_pred(message_id));
                }
                let mut effects = no_effects();
                let pending = self.take_pending(&message_id);
                let ghost answer = cached.settle_pending(meta, ref_ms, true).1;
                assert(pending is Some <==> k < start.pending.len());
                assert(self@ == cached.settle_pending(meta, ref_ms, true).0);
                let cached_msg = match pending {
                    Some(pending) => {
                        if pending.requested_by == ref_ms {
                            let more = self.push_fullmsg_to_solidifier(
                                partition_id,
                                pending.message.clone(),
                                metadata.clone(),
                            );
                            extend_effects(&mut effects, more);
                        } else {
                            let solidifier_id = self.clone_solidifier_handle(pending.requested_by);
                            let more = self.push_close_to_solidifier(
                                solidifier_id,
                                message_id,
                                pending.requested_by,
                            );
                            extend_effects(&mut effects, more);
                        }
                        Some(pending.message)
                    },
                    None => None,
                };
                assert(effects.deep_view() =~= answer);
                assert(cached_msg matches Some(m) ==> k < start.pending.len() && m.deep_view()
                    == start.pending[k].message);
                assert(cached_msg is None ==> k >= start.pending.len());
                let requests = self.process_pending_requests(ref_ms);
                extend_effects(&mut effects, requests);
                match cached_msg {
                    Some(message) => {
                        assert(start.pending[k].message.wf());
                        let more = self.insert_message_with_metadata(message_id, message, metadata);
                        extend_effects(&mut effects, more);
                    },
                    None => {
                        let more = self.insert_message_metadata(metadata);
                        extend_effects(&mut effects, more);
                    },
                }
                Ok(effects)
            },
        }
    }

    fn on_message_and_meta(
        &mut self,
        requester_id: u8,
        try_ms_index: u32,
        message_id: Option<MessageId>,
        full: Option<FullMessage>,
    ) -> (r: Result<Vec<Effect>, CollectorError>)
        requires
            old(self)@.wf(),
            full matches Some(f) ==> f.deep_view().wf(),
        ensures
            agrees(
                r,
                final(self)@,
                old(self)@.on_message_and_meta(
                    requester_id,
                    try_ms_index,
                    message_id,
                    match full {
                        Some(f) => Some(f.deep_view()),
                        None => None,
                    },
                ),
            ),
    {
        let ghost start = self@;
        self.adjust_heap(requester_id);
        let FullMessage(message, metadata) = match full {
            Some(full) => full,
            None => {
                let mut effects = no_effects();
                let failed = self.send_err_solidifiy(try_ms_index);
                push_effect(&mut effects, failed);
                assert(effects.deep_view() =~= start.on_message_and_meta(
                    requester_id,
                    try_ms_index,
                    message_id,
                    None,
                ).effects);
                return Ok(effects);
            },
        };
        let message_id = match message_id {
            Some(message_id) => message_id,
            None => {
                return Err(CollectorError::MissingMessageId);
            },
        };
        let partition_id = self.clone_solidifier_handle(try_ms_index);
        let references = match metadata.referenced_by_milestone_index {
            Some(ref_ms) => ref_ms == try_ms_index,
            None => false,
        };
        if !references {
            return Ok(self.push_close_to_solidifier(partition_id, message_id, try_ms_index));
        }
        let mut effects = self.push_fullmsg_to_solidifier(
            partition_id,
            message.clone(),
            metadata.clone(),
        );
        let ghost delivered = effects.deep_view();
        let entry = get_message(&mut self.lru_msg, &message_id);
        let wrong_msg_est_ms = match entry {
            Some((est_ms, cached)) => {
                proof {
                    lemma_put_after_touch(
                        start.messages,
                        start.message_capacity,
                        message_id,
                        (try_ms_index, cached.deep_view()),
                    );
                }
                put_message(&mut self.lru_msg, message_id, (try_ms_index, cached));
                if est_ms != try_ms_index {
                    Some(est_ms)
                } else {
                    None
                }
            },
            None => {
                put_message(&mut self.lru_msg, message_id, (try_ms_index, message.clone()));
                None
            },
        };
        put_metadata(&mut self.lru_msg_ref, message_id, metadata.clone());
        match wrong_msg_est_ms {
            Some(wrong_est_ms) => {
                let more = self.clean_up_wrong_est_msg(&message_id, &message, wrong_est_ms);
                extend_effects(&mut effects, more);
            },
            None => {
                assert(delivered + Seq::<EffectView>::empty() =~= delivered);
            },
        }
        let more = self.insert_message_with_metadata(message_id, message, metadata);
        extend_effects(&mut effects, more);
        Ok(effects)
    }

    fn on_ask_full_message(&mut self, solidifier_id: u8, try_ms_index: u32, message_id: MessageId) -> (r:
        Result<Vec<Effect>, CollectorError>)
        requires
            old(self)@.wf(),
        ensures
            agrees(
                r,
                final(self)@,
                old(self)@.on_ask_full_message(solidifier_id, try_ms_index, message_id),
            ),
    {
        let ghost start = self@;
        let entry = get_message(&mut self.lru_msg, &message_id);
        let message = match entry {
            Some((_, message)) => message,
            None => {
                return Ok(self.request_full_message(message_id, try_ms_index));
            },
        };
        let known = get_metadata(&mut self.lru_msg_ref, &message_id);
        match known {
            Some(metadata) => {
                let references = match metadata.referenced_by_milestone_index {
                    Some(ref_ms) => ref_ms == try_ms_index,
                    None => false,
                };
                if references {
                    Ok(self.push_fullmsg_to_solidifier(solidifier_id, message, metadata))
                } else {
                    Ok(self.push_close_to_solidifier(solidifier_id, message_id, try_ms_index))
                }
            },
            None => {
                if self.est_ms != 0 && try_ms_index >= self.est_ms - 1 {
                    let k = position_pending(&self.pending_requests, &message_id);
                    if k < self.pending_requests.len() {
                        let old_ms = self.pending_requests[k].requested_by;
                        if old_ms < try_ms_index {
                            Ok(self.push_close_to_solidifier(solidifier_id, message_id, try_ms_index))
                        } else if old_ms == try_ms_index {
                            Err(CollectorError::DuplicateRequest)
                        } else {
                            let ghost before = self.pending_requests.deep_view();
                            let mut pending = self.pending_requests.remove(k);
                            pending.requested_by = try_ms_index;
                            self.pending_requests.insert(k, pending);
                            assert(self.pending_requests.deep_view() =~= before.update(
                                k as int,
                                PendingView { requested_by: try_ms_index, ..before[k as int] },
                            ));
                            let solidifier_id = self.clone_solidifier_handle(old_ms);
                            Ok(self.push_close_to_solidifier(solidifier_id, message_id, old_ms))
                        }
                    } else {
                        let ghost before = self.pending_requests.deep_view();
                        let pending = PendingRequest {
                            message_id,
                            requested_by: try_ms_index,
                            message,
                        };
                        self.pending_requests.push(pending);
                        assert(self.pending_requests.deep_view() =~= before.push(
                            pending.deep_view(),
                        ));
                        Ok(no_effects())
                    }
                } else {
                    Ok(self.request_full_message(message_id, try_ms_index))
                }
            },
        }
    }

    fn on_shutdown(&mut self) -> (effects: Vec<Effect>)
        ensures
            final(self)@ == old(self)@.on_shutdown().state,
            effects.deep_view() == old(self)@.on_shutdown().effects,
    {
        let ghost all = old(self)@.on_shutdown().effects;
        let mut effects = no_effects();
        let mut i: usize = 0;
        while i < self.requester_handles.len()
            invariant
                i <= self.requester_handles.len(),
                self@ == old(self)@,
                all == old(self)@.on_shutdown().effects,
                effects.deep_view() == all.take(i as int),
            decreases self.requester_handles.len() - i,
        {
            push_effect(&mut effects, Effect::Shutdown { requester_id: self.requester_handles[i].id });
            assert(all.take(i + 1) =~= all.take(i as int).push(all[i as int]));
            i += 1;
        }
        assert(all.take(all.len() as int) =~= all);
        self.requester_handles = Vec::new();
        self.shut_down = true;
        effects
    }

    /// Handles one event and returns what the caller has to do, or the
    /// reason for which the event is refused.
    pub fn handle_event(&mut self, event: CollectorEvent) -> (r: Result<Vec<Effect>, CollectorError>)
        requires
            old(self)@.wf(),
            event.deep_view().wf(),
        ensures
            agrees(r, final(self)@, old(self)@.handle_event(event.deep_view())),
            final(self)@.wf(),
            final(self)@.est_ms >= old(self)@.est_ms,
            final(self)@.est_ms >= final(self)@.ref_ms,
    {
        proof {
            crate::collector_laws::lemma_handle_event_wf(old(self)@, event.deep_view());
            crate::collector_laws::lemma_wf_parts(old(self)@);
            crate::collector_laws::lemma_estimate_never_falls(old(self)@, event.deep_view());
        }
        match event {
            CollectorEvent::MessageAndMeta(requester_id, try_ms_index, message_id, full) => {
                self.on_message_and_meta(requester_id, try_ms_index, message_id, full)
            },
            CollectorEvent::Message(message_id, message) => Ok(self.on_message(message_id, message)),
            CollectorEvent::MessageReferenced(metadata) => self.on_message_referenced(metadata),
            CollectorEvent::Ask(AskCollector::FullMessage(solidifier_id, try_ms_index, message_id)) => {
                self.on_ask_full_message(solidifier_id, try_ms_index, message_id)
            },
            CollectorEvent::Ask(AskCollector::MilestoneMessage(milestone_index)) => {
                if self.api_endpoints.len() == 0 {
                    Err(CollectorError::NoEndpoint)
                } else {
                    Ok(self.request_milestone_message(milestone_index))
                }
            },
            CollectorEvent::Shutdown => Ok(self.on_shutdown()),
        }
    }
}

} // verus!
