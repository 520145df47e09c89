//! Mathematical model of the collector: its state, the events it takes,
//! and what each event does to the state and asks of the caller.
use vstd::prelude::*;
use crate::cache::{lookup, put, touched};
use crate::cache_laws::distinct_keys;
use crate::effect::{EffectView, RequesterEvent, RowView, SolidifierEventView, WorkerKind};
use crate::fanout::to_solidifier;
use crate::ids::MessageId;
use crate::message::{FullMessageView, MessageView, MetadataView};
use crate::partition::PartitionConfig;
use crate::seq_util::first_where;
use crate::store::{
    cleanup_effects, insert_effect, message_payload_effects, parent_effects, solidifier_of,
};

verus! {

/// What a collector is set up with.
#[derive(Clone, Copy, Debug, PartialEq, Eq, Structural)]
pub struct CollectorConfig {
    /// The number of collectors, which is the number of solidifiers: the
    /// solidifier of a milestone is its index modulo this number.
    pub collectors_count: u8,
    /// How partitioned rows are spread.
    pub partition_config: PartitionConfig,
    /// The retries of a write that stands alone.
    pub retries_per_query: usize,
    /// The retries of a write in a group and of a deletion.
    pub confirmed_retries: usize,
}

impl CollectorConfig {
    /// There is at least one collector, and the partitions are well formed.
    pub open spec fn wf(&self) -> bool {
        self.collectors_count > 0 && self.partition_config.wf()
    }

    /// A configuration, if there is at least one collector and the
    /// partitions are well formed.
    pub fn new(
        collectors_count: u8,
        partition_config: PartitionConfig,
        retries_per_query: usize,
        confirmed_retries: usize,
    ) -> (r: Option<CollectorConfig>)
        ensures
            r.is_some() <==> collectors_count > 0 && partition_config.wf(),
            r matches Some(c) ==> c.wf() && c == (CollectorConfig {
                collectors_count,
                partition_config,
                retries_per_query,
                confirmed_retries,
            }),
    {
        if collectors_count > 0 && partition_config.partition_count > 0
            && partition_config.milestone_chunk_size > 0 {
            Some(
                CollectorConfig {
                    collectors_count,
                    partition_config,
                    retries_per_query,
                    confirmed_retries,
                },
            )
        } else {
            None
        }
    }

    /// The worker for the writes of a message under its milestone.
    pub open spec fn atomic(&self, milestone_index: u32, message_id: MessageId) -> WorkerKind {
        WorkerKind::Atomic {
            solidifier_id: solidifier_of(milestone_index, self.collectors_count),
            milestone_index,
            message_id,
            retries: self.confirmed_retries,
        }
    }

    /// The worker for a write that stands alone.
    pub open spec fn simple(&self) -> WorkerKind {
        WorkerKind::Simple { retries: self.retries_per_query }
    }

    /// The writes for a message whose metadata is known: the rows of its
    /// parents and of its payload under the milestone that references it,
    /// then the message with its metadata, all in one group.
    pub open spec fn message_with_metadata_effects(
        &self,
        message_id: MessageId,
        message: MessageView,
        metadata: MetadataView,
        ref_ms: u32,
    ) -> Seq<EffectView> {
        let worker = self.atomic(ref_ms, message_id);
        parent_effects(
            self.partition_config,
            worker,
            message_id,
            message.parents,
            ref_ms,
            metadata.ledger_inclusion_state,
        ) + message_payload_effects(
            self.partition_config,
            self.collectors_count,
            worker,
            message_id,
            message,
            ref_ms,
            metadata.ledger_inclusion_state,
            Some(metadata),
        ) + seq![
            insert_effect(
                worker,
                RowView::Message { message_id, message: message.raw, metadata: Some(metadata) },
            ),
        ]
    }

    /// The milestone under which a message with this metadata is written:
    /// the one that the metadata names, or `ref_ms` if it names none.
    pub open spec fn milestone_for(&self, metadata: MetadataView, ref_ms: u32) -> u32 {
        milestone_of(Some(metadata), ref_ms)
    }

    /// The writes for metadata whose message is not known: the metadata,
    /// then the rows of the parents that it names.
    pub open spec fn metadata_effects(&self, metadata: MetadataView, ref_ms: u32) -> Seq<EffectView> {
        seq![
            insert_effect(
                self.simple(),
                RowView::Metadata { message_id: metadata.message_id, metadata },
            ),
        ] + parent_effects(
            self.partition_config,
            self.simple(),
            metadata.message_id,
            metadata.parent_message_ids,
            ref_ms,
            metadata.ledger_inclusion_state,
        )
    }

    /// The writes for a message that arrives on the live stream: the
    /// message, the rows of its parents and the rows of its payload. With
    /// metadata at hand they go under the milestone that references the
    /// message, in one group; without, under the estimated milestone, each on
    /// its own.
    pub open spec fn message_effects(
        &self,
        message_id: MessageId,
        message: MessageView,
        est_ms: u32,
        metadata: Option<MetadataView>,
    ) -> Seq<EffectView> {
        let ms = milestone_of(metadata, est_ms);
        let worker = match metadata {
            Some(_) => self.atomic(ms, message_id),
            None => self.simple(),
        };
        let inclusion_state = match metadata {
            Some(m) => m.ledger_inclusion_state,
            None => None,
        };
        seq![
            insert_effect(worker, RowView::Message { message_id, message: message.raw, metadata }),
        ] + parent_effects(
            self.partition_config,
            worker,
            message_id,
            message.parents,
            ms,
            inclusion_state,
        ) + message_payload_effects(
            self.partition_config,
            self.collectors_count,
            worker,
            message_id,
            message,
            ms,
            inclusion_state,
            metadata,
        )
    }
}

/// The milestone of a message: the one that references it according to its
/// metadata, or the estimate where there is no metadata.
pub open spec fn milestone_of(metadata: Option<MetadataView>, est_ms: u32) -> u32 {
    match metadata {
        Some(m) => match m.referenced_by_milestone_index {
            Some(ms) => ms,
            None => est_ms,
        },
        None => est_ms,
    }
}

/// A requester and the number of requests it has not answered yet.
#[derive(Clone, Copy, Debug, PartialEq, Eq, Structural)]
pub struct RequesterHandle {
    pub id: u8,
    pub load: usize,
}

impl RequesterHandle {
    /// The requester with one more request to answer.
    pub open spec fn loaded(self) -> RequesterHandle {
        RequesterHandle { load: if self.load < usize::MAX { (self.load + 1) as usize } else { self.load }, ..self }
    }

    /// The requester `requester_id` with one request less to answer; any
    /// other requester as it is.
    pub open spec fn relieved(self, requester_id: u8) -> RequesterHandle {
        if self.id == requester_id && self.load > 0 {
            RequesterHandle { load: (self.load - 1) as usize, ..self }
        } else {
            self
        }
    }
}

/// Position `k` holds the first of the requesters with the least load.
pub open spec fn is_least_loaded(requesters: Seq<RequesterHandle>, k: int) -> bool {
    &&& 0 <= k < requesters.len()
    &&& forall|j: int| 0 <= j < requesters.len() ==> requesters[k].load <= (#[trigger] requesters[j]).load
    &&& forall|j: int| 0 <= j < k ==> (#[trigger] requesters[j]).load > requesters[k].load
}

/// The position of the first of the requesters with the least load.
pub open spec fn least_loaded(requesters: Seq<RequesterHandle>) -> int {
    choose|k: int| is_least_loaded(requesters, k)
}

/// Any position that holds the first of the least loaded is the one.
pub proof fn lemma_least_loaded_unique(requesters: Seq<RequesterHandle>, k: int)
    requires
        is_least_loaded(requesters, k),
    ensures
        least_loaded(requesters) == k,
{
    let c = least_loaded(requesters);
    assert(is_least_loaded(requesters, c));
    if c < k {
        assert(requesters[c].load > requesters[k].load);
        assert(requesters[c].load <= requesters[k].load);
    } else if k < c {
        assert(requesters[k].load > requesters[c].load);
        assert(requesters[k].load <= requesters[c].load);
    }
}

/// Requesters of the given numbers, none of which has a request to answer.
pub open spec fn fresh_requesters(ids: Seq<u8>) -> Seq<RequesterHandle> {
    Seq::new(ids.len(), |i: int| RequesterHandle { id: ids[i], load: 0 })
}

/// The requesters after a response of `requester_id`.
pub open spec fn adjusted(requesters: Seq<RequesterHandle>, requester_id: u8) -> Seq<RequesterHandle> {
    Seq::new(requesters.len(), |i: int| requesters[i].relieved(requester_id))
}

/// The endpoints after one of them took its turn: the last one moves to the
/// front, the others keep their order.
pub open spec fn rotated(endpoints: Seq<Seq<char>>) -> Seq<Seq<char>> {
    if endpoints.len() == 0 {
        endpoints
    } else {
        seq![endpoints.last()] + endpoints.drop_last()
    }
}

/// Mathematical model of a pending request: a solidifier asked for the
/// message for the milestone `requested_by` before its metadata was known.
pub struct PendingView {
    pub message_id: MessageId,
    pub requested_by: u32,
    pub message: MessageView,
}

/// Pending requests for the message `id`.
pub open spec fn pending_pred(id: MessageId) -> spec_fn(PendingView) -> bool {
    |p: PendingView| p.message_id == id
}

/// What a solidifier asks of the collector.
#[derive(Clone, Copy, Debug, PartialEq, Eq)]
pub enum AskCollector {
    /// The solidifier of that number asks for a message for a milestone.
    FullMessage(u8, u32, MessageId),
    /// The message of a milestone is to be fetched.
    MilestoneMessage(u32),
}

/// Mathematical model of an event that reaches the collector.
pub enum CollectorEventView {
    MessageAndMeta(u8, u32, Option<MessageId>, Option<FullMessageView>),
    Message(MessageId, MessageView),
    MessageReferenced(MetadataView),
    Ask(AskCollector),
    Shutdown,
}

impl CollectorEventView {
    /// Every transaction in the event has one unlock block for each input.
    pub open spec fn wf(self) -> bool {
        match self {
            CollectorEventView::MessageAndMeta(_, _, _, Some(full)) => full.wf(),
            CollectorEventView::Message(_, message) => message.wf(),
            _ => true,
        }
    }
}

/// Why the collector refuses an event. Each of these is a broken promise of
/// the sender, on which the caller is expected to stop.
#[derive(Clone, Copy, Debug, PartialEq, Eq, Structural)]
pub enum CollectorError {
    /// A requester answered with a message but did not say which.
    MissingMessageId,
    /// A message was asked for twice for the same milestone.
    DuplicateRequest,
    /// Metadata names the largest index as its milestone, after which no
    /// estimate exists.
    MilestoneOverflow,
    /// The message of a milestone is to be fetched, but no endpoint is
    /// known.
    NoEndpoint,
}

/// Mathematical model of the collector.
pub struct CollectorView {
    /// The message cache, the most recently used entry first.
    pub messages: Seq<(MessageId, (u32, MessageView))>,
    pub message_capacity: nat,
    /// The metadata cache, the most recently used entry first.
    pub metadata: Seq<(MessageId, MetadataView)>,
    pub metadata_capacity: nat,
    /// The pending requests, the oldest first.
    pub pending: Seq<PendingView>,
    /// The milestone that new messages are expected to be referenced by.
    pub est_ms: u32,
    /// The milestone of the metadata seen last.
    pub ref_ms: u32,
    pub config: CollectorConfig,
    pub keyspace: Seq<char>,
    /// The endpoints of the network, the one to use next last.
    pub api_endpoints: Seq<Seq<char>>,
    pub requesters: Seq<RequesterHandle>,
    pub shut_down: bool,
}

/// What an event leads to: the collector afterwards, what the caller has to
/// do, and the refusal if the event is refused.
pub struct Outcome {
    pub state: CollectorView,
    pub effects: Seq<EffectView>,
    pub error: Option<CollectorError>,
}

impl CollectorView {
    /// What holds of a collector at all times.
    ///
    /// No message has more than one entry in either cache, and none has more
    /// than one pending request. Neither cache holds more than its capacity.
    /// Cached metadata is referenced by a milestone, and where a message is
    /// in both caches, the entry of its body carries that very milestone.
    /// Every transaction that is held has one unlock block for each input.
    /// The estimate is never below the milestone noted last.
    pub open spec fn wf(self) -> bool {
        &&& self.config.wf()
        &&& self.est_ms >= self.ref_ms
        &&& self.message_capacity > 0
        &&& self.metadata_capacity > 0
        &&& distinct_keys(self.messages)
        &&& distinct_keys(self.metadata)
        &&& self.messages.len() <= self.message_capacity
        &&& self.metadata.len() <= self.metadata_capacity
        &&& forall|i: int, j: int|
            #![trigger self.pending[i], self.pending[j]]
            0 <= i < j < self.pending.len() ==> self.pending[i].message_id
                != self.pending[j].message_id
        &&& forall|i: int| 0 <= i < self.pending.len() ==> (#[trigger] self.pending[i]).message.wf()
        &&& forall|id: MessageId|
            (#[trigger] lookup(self.messages, id)) matches Some(e) ==> e.1.wf()
        &&& forall|id: MessageId|
            (#[trigger] lookup(self.metadata, id)) matches Some(m)
                ==> m.referenced_by_milestone_index.is_some()
        &&& forall|id: MessageId|
            #![trigger lookup(self.messages, id), lookup(self.metadata, id)]
            lookup(self.messages, id) matches Some(e) ==> (lookup(self.metadata, id) matches Some(m)
                ==> m.referenced_by_milestone_index == Some(e.0))
    }

    /// Nothing happens.
    pub open spec fn unchanged(self) -> Outcome {
        Outcome { state: self, effects: Seq::empty(), error: None }
    }

    /// A request goes to the first of the least loaded requesters, whose
    /// load grows by one. Without requesters nothing is asked.
    pub open spec fn request(self, event: RequesterEvent) -> (CollectorView, Seq<EffectView>) {
        if self.requesters.len() == 0 {
            (self, Seq::empty())
        } else {
            let k = least_loaded(self.requesters);
            (
                CollectorView {
                    requesters: self.requesters.update(k, self.requesters[k].loaded()),
                    ..self
                },
                seq![EffectView::Requester { requester_id: self.requesters[k].id, request: event }],
            )
        }
    }

    /// The message of a milestone is asked of the least loaded requester,
    /// and the endpoints take turns: the last one moves to the front.
    pub open spec fn request_milestone(self, milestone_index: u32) -> (
        CollectorView,
        Seq<EffectView>,
    ) {
        (CollectorView { api_endpoints: rotated(self.api_endpoints), ..self }).request(
            RequesterEvent::RequestMilestone(milestone_index),
        )
    }

    /// Goes through the first `n` pending requests, the oldest first: one
    /// that was made for a milestone before `milestone_index` is turned into
    /// a request for the message, the others stay pending.
    pub open spec fn sort_pending(self, milestone_index: u32, n: int) -> (
        CollectorView,
        Seq<EffectView>,
    )
        decreases n,
    {
        if n <= 0 {
            (CollectorView { pending: Seq::empty(), ..self }, Seq::empty())
        } else {
            let (sorted, effects) = self.sort_pending(milestone_index, n - 1);
            let p = self.pending[n - 1];
            if p.requested_by < milestone_index {
                let (asked, more) = sorted.request(
                    RequesterEvent::RequestFullMessage(p.message_id, p.requested_by),
                );
                (asked, effects + more)
            } else {
                (CollectorView { pending: sorted.pending.push(p), ..sorted }, effects)
            }
        }
    }

    /// Every pending request that was made for a milestone before
    /// `milestone_index` is turned into a request for its message.
    pub open spec fn process_pending_requests(self, milestone_index: u32) -> (
        CollectorView,
        Seq<EffectView>,
    ) {
        self.sort_pending(milestone_index, self.pending.len() as int)
    }

    /// The pending request for `id` is taken off the list. If the message
    /// with this metadata is what was asked for, it goes to the solidifier of
    /// the milestone; if it was asked for another milestone, that request is
    /// closed. `deliver` says whether the message is still to be delivered.
    pub open spec fn settle_pending(self, metadata: MetadataView, ref_ms: u32, deliver: bool) -> (
        CollectorView,
        Seq<EffectView>,
    ) {
        let id = metadata.message_id;
        let k = first_where(self.pending, pending_pred(id));
        if k < self.pending.len() {
            let p = self.pending[k];
            let count = self.config.collectors_count;
            (
                CollectorView { pending: self.pending.remove(k), ..self },
                if p.requested_by != ref_ms {
                    to_solidifier(
                        count,
                        solidifier_of(p.requested_by, count),
                        SolidifierEventView::Close(id, p.requested_by),
                    )
                } else if deliver {
                    to_solidifier(
                        count,
                        solidifier_of(ref_ms, count),
                        SolidifierEventView::Message(
                            FullMessageView { message: p.message, metadata },
                        ),
                    )
                } else {
                    Seq::empty()
                },
            )
        } else {
            (self, Seq::empty())
        }
    }

    /// A message of the live stream. A message that is cached is only marked
    /// as used. Any other is written to the store and cached: under the
    /// milestone of its metadata if its metadata is cached, under the
    /// estimate otherwise. The estimate stays as it is.
    pub open spec fn on_message(self, id: MessageId, message: MessageView) -> Outcome {
        if lookup(self.messages, id).is_some() {
            Outcome {
                state: CollectorView { messages: touched(self.messages, id), ..self },
                effects: Seq::empty(),
                error: None,
            }
        } else {
            let metadata = lookup(self.metadata, id);
            let ms = milestone_of(metadata, self.est_ms);
            Outcome {
                state: CollectorView {
                    messages: put(self.messages, self.message_capacity, id, (ms, message)),
                    metadata: touched(self.metadata, id),
                    ..self
                },
                effects: self.config.message_effects(id, message, self.est_ms, metadata),
                error: None,
            }
        }
    }

    /// Metadata of the live stream. Metadata without a milestone is
    /// discarded. Otherwise the milestone is noted and the estimate is raised
    /// above it. Metadata that is cached is only marked as used. Any other is
    /// cached, and then:
    ///
    /// * if the message is cached, its entry takes the milestone, the
    ///   message goes to the solidifier of the milestone, a pending request
    ///   for another milestone is closed, older pending requests are turned
    ///   into requests, the rows written under a different milestone are
    ///   deleted, and the message is written with its metadata;
    /// * if the message is only pending, the request is answered or closed,
    ///   older pending requests are turned into requests, and the message is
    ///   written with its metadata;
    /// * if the message is unknown, older pending requests are turned into
    ///   requests and the metadata is written alone.
    pub open spec fn on_message_referenced(self, metadata: MetadataView) -> Outcome {
        match metadata.referenced_by_milestone_index {
            None => self.unchanged(),
            Some(ref_ms) => {
                if ref_ms == u32::MAX {
                    Outcome {
                        state: self,
                        effects: Seq::empty(),
                        error: Some(CollectorError::MilestoneOverflow),
                    }
                } else {
                    let id = metadata.message_id;
                    let count = self.config.collectors_count;
                    let noted = CollectorView {
                        ref_ms,
                        est_ms: if self.est_ms < ref_ms + 1 { (ref_ms + 1) as u32 } else { self.est_ms },
                        ..self
                    };
                    if lookup(self.metadata, id).is_some() {
                        Outcome {
                            state: CollectorView { metadata: touched(self.metadata, id), ..noted },
                            effects: Seq::empty(),
                            error: None,
                        }
                    } else {
                        let cached = CollectorView {
                            metadata: put(self.metadata, self.metadata_capacity, id, metadata),
                            ..noted
                        };
                        match lookup(self.messages, id) {
                            Some((est_ms, message)) => {
                                let fixed = CollectorView {
                                    messages: put(
                                        self.messages,
                                        self.message_capacity,
                                        id,
                                        (ref_ms, message),
                                    ),
                                    ..cached
                                };
                                let (settled, closing) = fixed.settle_pending(metadata, ref_ms, false);
                                let (sorted, requests) = settled.process_pending_requests(ref_ms);
                                Outcome {
                                    state: sorted,
                                    effects: to_solidifier(
                                        count,
                                        solidifier_of(ref_ms, count),
                                        SolidifierEventView::Message(
                                            FullMessageView { message, metadata },
                                        ),
                                    ) + closing + requests + (if est_ms != ref_ms {
                                        cleanup_effects(
                                            self.config.partition_config,
                                            id,
                                            message,
                                            est_ms,
                                            self.config.confirmed_retries,
                                        )
                                    } else {
                                        Seq::empty()
                                    }) + self.config.message_with_metadata_effects(
                                        id,
                                        message,
                                        metadata,
                                        ref_ms,
                                    ),
                                    error: None,
                                }
                            },
                            None => {
                                let k = first_where(self.pending, pending_pred(id));
                                let (settled, answer) = cached.settle_pending(metadata, ref_ms, true);
                                let (sorted, requests) = settled.process_pending_requests(ref_ms);
                                Outcome {
                                    state: sorted,
                                    effects: answer + requests + (if k < self.pending.len() {
                                        self.config.message_with_metadata_effects(
                                            id,
                                            self.pending[k].message,
                                            metadata,
                                            ref_ms,
                                        )
                                    } else {
                                        self.config.metadata_effects(metadata, ref_ms)
                                    }),
                                    error: None,
                                }
                            },
                        }
                    }
                }
            },
        }
    }

    /// The answer of a requester. The requester's load drops by one. No
    /// message: the solidifier of the milestone is told that it cannot be
    /// fetched. A message that the milestone references goes to the
    /// solidifier of the milestone; its cache entries take the milestone, the
    /// rows written under a different milestone are deleted, and the message
    /// is written with its metadata under the milestone. A message that
    /// another milestone references, or none, only closes the request.
    /// Neither the estimate nor the milestone noted last changes.
    pub open spec fn on_message_and_meta(
        self,
        requester_id: u8,
        try_ms_index: u32,
        message_id: Option<MessageId>,
        full: Option<FullMessageView>,
    ) -> Outcome {
        let count = self.config.collectors_count;
        let relieved = CollectorView { requesters: adjusted(self.requesters, requester_id), ..self };
        match full {
            None => Outcome {
                state: relieved,
                effects: seq![
                    EffectView::Solidifier {
                        solidifier_id: solidifier_of(try_ms_index, count),
                        event: SolidifierEventView::Solidify(Err(try_ms_index)),
                    },
                ],
                error: None,
            },
            Some(full) => match message_id {
                None => Outcome {
                    state: relieved,
                    effects: Seq::empty(),
                    error: Some(CollectorError::MissingMessageId),
                },
                Some(id) => {
                    if full.metadata.referenced_by_milestone_index == Some(try_ms_index) {
                        let entry = lookup(self.messages, id);
                        Outcome {
                            state: CollectorView {
                                messages: put(
                                    self.messages,
                                    self.message_capacity,
                                    id,
                                    (
                                        try_ms_index,
                                        match entry {
                                            Some(e) => e.1,
                                            None => full.message,
                                        },
                                    ),
                                ),
                                metadata: put(
                                    self.metadata,
                                    self.metadata_capacity,
                                    id,
                                    full.metadata,
                                ),
                                ..relieved
                            },
                            effects: to_solidifier(
                                count,
                                solidifier_of(try_ms_index, count),
                                SolidifierEventView::Message(full),
                            ) + (match entry {
                                Some(e) if e.0 != try_ms_index => cleanup_effects(
                                    self.config.partition_config,
                                    id,
                                    full.message,
                                    e.0,
                                    self.config.confirmed_retries,
                                ),
                                _ => Seq::empty(),
                            }) + self.config.message_with_metadata_effects(
                                id,
                                full.message,
                                full.metadata,
                                try_ms_index,
                            ),
                            error: None,
                        }
                    } else {
                        Outcome {
                            state: relieved,
                            effects: to_solidifier(
                                count,
                                solidifier_of(try_ms_index, count),
                                SolidifierEventView::Close(id, try_ms_index),
                            ),
                            error: None,
                        }
                    }
                },
            },
        }
    }

    /// A solidifier asks for a message for a milestone.
    ///
    /// * Message and metadata cached: the message goes to the solidifier if
    ///   the metadata names that milestone; the request is closed if not.
    /// * Message cached without metadata, and the milestone is not older
    ///   than the one before the estimate: the request is kept pending. If
    ///   the message is pending already, the request for the lower milestone
    ///   stays and the other is closed; asking twice for the same milestone
    ///   is refused.
    /// * Otherwise the message is requested from the network.
    pub open spec fn on_ask_full_message(
        self,
        solidifier_id: u8,
        try_ms_index: u32,
        id: MessageId,
    ) -> Outcome {
        let count = self.config.collectors_count;
        match lookup(self.messages, id) {
            None => {
                let (state, effects) = self.request(
                    RequesterEvent::RequestFullMessage(id, try_ms_index),
                );
                Outcome { state, effects, error: None }
            },
            Some((_, message)) => {
                let used = CollectorView { messages: touched(self.messages, id), ..self };
                match lookup(self.metadata, id) {
                    Some(metadata) => Outcome {
                        state: CollectorView { metadata: touched(self.metadata, id), ..used },
                        effects: to_solidifier(
                            count,
                            solidifier_id,
                            if metadata.referenced_by_milestone_index == Some(try_ms_index) {
                                SolidifierEventView::Message(FullMessageView { message, metadata })
                            } else {
                                SolidifierEventView::Close(id, try_ms_index)
                            },
                        ),
                        error: None,
                    },
                    None => {
                        if self.est_ms != 0 && try_ms_index >= self.est_ms - 1 {
                            let k = first_where(self.pending, pending_pred(id));
                            if k < self.pending.len() {
                                let old_ms = self.pending[k].requested_by;
                                if old_ms < try_ms_index {
                                    Outcome {
                                        state: used,
                                        effects: to_solidifier(
                                            count,
                                            solidifier_id,
                                            SolidifierEventView::Close(id, try_ms_index),
                                        ),
                                        error: None,
                                    }
                                } else if old_ms == try_ms_index {
                                    Outcome {
                                        state: used,
                                        effects: Seq::empty(),
                                        error: Some(CollectorError::DuplicateRequest),
                                    }
                                } else {
                                    Outcome {
                                        state: CollectorView {
                                            pending: self.pending.update(
                                                k,
                                                PendingView {
                                                    requested_by: try_ms_index,
                                                    ..self.pending[k]
                                                },
                                            ),
                                            ..used
                                        },
                                        effects: to_solidifier(
                                            count,
                                            solidifier_of(old_ms, count),
                                            SolidifierEventView::Close(id, old_ms),
                                        ),
                                        error: None,
                                    }
                                }
                            } else {
                                Outcome {
                                    state: CollectorView {
                                        pending: self.pending.push(
                                            PendingView {
                                                message_id: id,
                                                requested_by: try_ms_index,
                                                message,
                                            },
                                        ),
                                        ..used
                                    },
                                    effects: Seq::empty(),
                                    error: None,
                                }
                            }
                        } else {
                            let (state, effects) = used.request(
                                RequesterEvent::RequestFullMessage(id, try_ms_index),
                            );
                            Outcome { state, effects, error: None }
                        }
                    },
                }
            },
        }
    }

    /// The collector shuts down: every requester is shut down and none is
    /// left.
    pub open spec fn on_shutdown(self) -> Outcome {
        Outcome {
            state: CollectorView { requesters: Seq::empty(), shut_down: true, ..self },
            effects: Seq::new(
                self.requesters.len(),
                |i: int| EffectView::Shutdown { requester_id: self.requesters[i].id },
            ),
            error: None,
        }
    }

    /// What an event leads to.
    pub open spec fn handle_event(self, event: CollectorEventView) -> Outcome {
        match event {
            CollectorEventView::MessageAndMeta(requester_id, try_ms_index, message_id, full) => {
                self.on_message_and_meta(requester_id, try_ms_index, message_id, full)
            },
            CollectorEventView::Message(id, message) => self.on_message(id, message),
            CollectorEventView::MessageReferenced(metadata) => self.on_message_referenced(metadata),
            CollectorEventView::Ask(AskCollector::FullMessage(solidifier_id, try_ms_index, id)) => {
                self.on_ask_full_message(solidifier_id, try_ms_index, id)
            },
            CollectorEventView::Ask(AskCollector::MilestoneMessage(milestone_index)) => {
                if self.api_endpoints.len() == 0 {
                    Outcome {
                        state: self,
                        effects: Seq::empty(),
                        error: Some(CollectorError::NoEndpoint),
                    }
                } else {
                    let (state, effects) = self.request_milestone(milestone_index);
                    Outcome { state, effects, error: None }
                }
            },
            CollectorEventView::Shutdown => self.on_shutdown(),
        }
    }
}

} // verus!
