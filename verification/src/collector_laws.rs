//! What holds of the collector whatever the sequence of events.
use vstd::prelude::*;
use crate::cache::{lookup, put, touched};
use crate::cache_laws::{distinct_keys, lemma_put, lemma_touched};
use crate::collector_model::{
    pending_pred, AskCollector, CollectorEventView, CollectorView, PendingView,
};
use crate::collector_model::CollectorConfig;
use crate::effect::{EffectView, RequesterEvent, RowView, WorkerKind};
use crate::ids::MessageId;
use crate::message::{
    LedgerInclusionState, MessageView, MetadataView, PayloadView, TransactionView,
};
use crate::partition::PartitionConfig;
use crate::seq_util::{first_where, lemma_first_where_exists};
use crate::store::{
    address_effects, cleanup_effects, confirmed_index, delete_address_effects,
    delete_addresses_effects, delete_index_effects, delete_parent_effects, hex_encoding,
    index_effects, input_effects, inputs_effects, insert_effect, message_payload_effects,
    output_effects, outputs_effects, parent_effects,
};

verus! {

/// No message has more than one pending request, and every pending message
/// is well formed.
pub open spec fn pending_wf(pending: Seq<PendingView>) -> bool {
    &&& forall|i: int, j: int|
        #![trigger pending[i], pending[j]]
        0 <= i < j < pending.len() ==> pending[i].message_id != pending[j].message_id
    &&& forall|i: int| 0 <= i < pending.len() ==> (#[trigger] pending[i]).message.wf()
}

/// Going through the pending requests changes nothing but the pending
/// requests and the loads of the requesters; what stays pending was pending,
/// in the same order.
pub proof fn lemma_sort_pending(c: CollectorView, milestone_index: u32, n: int)
    requires
        0 <= n <= c.pending.len(),
        pending_wf(c.pending),
    ensures
        c.sort_pending(milestone_index, n).0 == (CollectorView {
            pending: c.sort_pending(milestone_index, n).0.pending,
            requesters: c.sort_pending(milestone_index, n).0.requesters,
            ..c
        }),
        pending_wf(c.sort_pending(milestone_index, n).0.pending),
        forall|i: int|
            0 <= i < c.sort_pending(milestone_index, n).0.pending.len() ==> exists|a: int|
                0 <= a < n && c.pending[a] == #[trigger] c.sort_pending(milestone_index, n).0.pending[i],
    decreases n,
{
    if n > 0 {
        lemma_sort_pending(c, milestone_index, n - 1);
        let (sorted, effects) = c.sort_pending(milestone_index, n - 1);
        let p = c.pending[n - 1];
        let r = c.sort_pending(milestone_index, n).0;
        if p.requested_by < milestone_index {
            assert(r.pending == sorted.pending);
            assert forall|i: int| 0 <= i < r.pending.len() implies exists|a: int|
                0 <= a < n && c.pending[a] == #[trigger] r.pending[i] by {
                let a = choose|a: int| 0 <= a < n - 1 && c.pending[a] == sorted.pending[i];
                assert(c.pending[a] == r.pending[i]);
            }
        } else {
            assert(r.pending == sorted.pending.push(p));
            assert forall|i: int| 0 <= i < r.pending.len() implies exists|a: int|
                0 <= a < n && c.pending[a] == #[trigger] r.pending[i] by {
                if i < sorted.pending.len() {
                    let a = choose|a: int| 0 <= a < n - 1 && c.pending[a] == sorted.pending[i];
                    assert(c.pending[a] == r.pending[i]);
                } else {
                    assert(c.pending[n - 1] == r.pending[i]);
                }
            }
            assert forall|i: int, j: int|
                #![trigger r.pending[i], r.pending[j]]
                0 <= i < j < r.pending.len() implies r.pending[i].message_id
                != r.pending[j].message_id by {
                if j < sorted.pending.len() {
                    assert(sorted.pending[i].message_id != sorted.pending[j].message_id);
                } else {
                    let a = choose|a: int| 0 <= a < n - 1 && c.pending[a] == sorted.pending[i];
                    assert(c.pending[a].message_id != c.pending[n - 1].message_id);
                }
            }
            assert forall|i: int| 0 <= i < r.pending.len() implies (#[trigger] r.pending[i]).message.wf() by {
                if i < sorted.pending.len() {
                    assert(sorted.pending[i].message.wf());
                } else {
                    assert(c.pending[n - 1].message.wf());
                }
            }
        }
    }
}

/// Settling the pending request of a message changes nothing but the
/// pending requests, which stay well formed.
pub proof fn lemma_settle_pending(c: CollectorView, metadata: MetadataView, ref_ms: u32, deliver: bool)
    requires
        pending_wf(c.pending),
    ensures
        c.settle_pending(metadata, ref_ms, deliver).0 == (CollectorView {
            pending: c.settle_pending(metadata, ref_ms, deliver).0.pending,
            ..c
        }),
        pending_wf(c.settle_pending(metadata, ref_ms, deliver).0.pending),
{
    let k = first_where(c.pending, pending_pred(metadata.message_id));
    lemma_first_where_exists(c.pending, pending_pred(metadata.message_id));
    if k < c.pending.len() {
        let r = c.pending.remove(k);
        assert forall|i: int, j: int|
            #![trigger r[i], r[j]]
            0 <= i < j < r.len() implies r[i].message_id != r[j].message_id by {
            let a = if i < k { i } else { i + 1 };
            let b = if j < k { j } else { j + 1 };
            assert(r[i] == c.pending[a]);
            assert(r[j] == c.pending[b]);
        }
        assert forall|i: int| 0 <= i < r.len() implies (#[trigger] r[i]).message.wf() by {
            let a = if i < k { i } else { i + 1 };
            assert(r[i] == c.pending[a]);
        }
    }
}

/// The caches of a collector hold what they may hold.
pub open spec fn caches_wf(c: CollectorView) -> bool {
    &&& c.message_capacity > 0
    &&& c.metadata_capacity > 0
    &&& distinct_keys(c.messages)
    &&& distinct_keys(c.metadata)
    &&& c.messages.len() <= c.message_capacity
    &&& c.metadata.len() <= c.metadata_capacity
    &&& forall|id: MessageId| (#[trigger] lookup(c.messages, id)) matches Some(e) ==> e.1.wf()
    &&& forall|id: MessageId|
        (#[trigger] lookup(c.metadata, id)) matches Some(m)
            ==> m.referenced_by_milestone_index.is_some()
    &&& forall|id: MessageId|
        #![trigger lookup(c.messages, id), lookup(c.metadata, id)]
        lookup(c.messages, id) matches Some(e) ==> (lookup(c.metadata, id) matches Some(m)
            ==> m.referenced_by_milestone_index == Some(e.0))
}

/// A collector is well formed exactly if its configuration, its caches and
/// its pending requests are.
pub proof fn lemma_wf_parts(c: CollectorView)
    ensures
        c.wf() <==> c.config.wf() && c.est_ms >= c.ref_ms && caches_wf(c) && pending_wf(
            c.pending,
        ),
{
}

/// Reading a message keeps the caches well formed.
proof fn lemma_touch_message(c: CollectorView, id: MessageId)
    requires
        caches_wf(c),
    ensures
        caches_wf(CollectorView { messages: touched(c.messages, id), ..c }),
{
    lemma_touched(c.messages, id);
}

/// Reading metadata keeps the caches well formed.
proof fn lemma_touch_metadata(c: CollectorView, id: MessageId)
    requires
        caches_wf(c),
    ensures
        caches_wf(CollectorView { metadata: touched(c.metadata, id), ..c }),
{
    lemma_touched(c.metadata, id);
}

/// Caching a well-formed message under the milestone of its cached
/// metadata, if there is one, keeps the caches well formed.
proof fn lemma_put_message(c: CollectorView, id: MessageId, ms: u32, message: MessageView)
    requires
        caches_wf(c),
        message.wf(),
        lookup(c.metadata, id) matches Some(m) ==> m.referenced_by_milestone_index == Some(ms),
    ensures
        caches_wf(
            CollectorView { messages: put(c.messages, c.message_capacity, id, (ms, message)), ..c },
        ),
{
    lemma_put(c.messages, c.message_capacity, id, (ms, message));
    let r = CollectorView { messages: put(c.messages, c.message_capacity, id, (ms, message)), ..c };
    assert forall|x: MessageId| ((#[trigger] lookup(r.messages, x)) matches Some(e) ==> e.1.wf()) by {
        if x != id {
            assert(lookup(r.messages, x) == lookup(c.messages, x) || lookup(r.messages, x).is_none());
        }
    }
    assert forall|x: MessageId|
        #![trigger lookup(r.messages, x), lookup(r.metadata, x)]
        (lookup(r.messages, x) matches Some(e) ==> (lookup(r.metadata, x) matches Some(m)
            ==> m.referenced_by_milestone_index == Some(e.0))) by {
        if x != id {
            assert(lookup(r.messages, x) == lookup(c.messages, x) || lookup(r.messages, x).is_none());
        }
    }
}

/// Caching metadata that names the milestone of the cached message, if
/// there is one, keeps the caches well formed.
proof fn lemma_put_metadata(c: CollectorView, id: MessageId, metadata: MetadataView)
    requires
        caches_wf(c),
        metadata.referenced_by_milestone_index.is_some(),
        lookup(c.messages, id) matches Some(e) ==> metadata.referenced_by_milestone_index == Some(
            e.0,
        ),
    ensures
        caches_wf(
            CollectorView { metadata: put(c.metadata, c.metadata_capacity, id, metadata), ..c },
        ),
{
    lemma_put(c.metadata, c.metadata_capacity, id, metadata);
    let r = CollectorView { metadata: put(c.metadata, c.metadata_capacity, id, metadata), ..c };
    assert forall|x: MessageId|
        ((#[trigger] lookup(r.metadata, x)) matches Some(m)
            ==> m.referenced_by_milestone_index.is_some()) by {
        if x != id {
            assert(lookup(r.metadata, x) == lookup(c.metadata, x) || lookup(r.metadata, x).is_none());
        }
    }
    assert forall|x: MessageId|
        #![trigger lookup(r.messages, x), lookup(r.metadata, x)]
        (lookup(r.messages, x) matches Some(e) ==> (lookup(r.metadata, x) matches Some(m)
            ==> m.referenced_by_milestone_index == Some(e.0))) by {
        if x != id {
            assert(lookup(r.metadata, x) == lookup(c.metadata, x) || lookup(r.metadata, x).is_none());
        }
    }
}

/// Caching a message and its metadata under the same milestone keeps the
/// caches well formed.
proof fn lemma_put_both(
    c: CollectorView,
    id: MessageId,
    ms: u32,
    message: MessageView,
    metadata: MetadataView,
)
    requires
        caches_wf(c),
        message.wf(),
        metadata.referenced_by_milestone_index == Some(ms),
    ensures
        caches_wf(
            CollectorView {
                messages: put(c.messages, c.message_capacity, id, (ms, message)),
                metadata: put(c.metadata, c.metadata_capacity, id, metadata),
                ..c
            },
        ),
{
    lemma_put(c.messages, c.message_capacity, id, (ms, message));
    lemma_put(c.metadata, c.metadata_capacity, id, metadata);
    let r = CollectorView {
        messages: put(c.messages, c.message_capacity, id, (ms, message)),
        metadata: put(c.metadata, c.metadata_capacity, id, metadata),
        ..c
    };
    assert forall|x: MessageId| ((#[trigger] lookup(r.messages, x)) matches Some(e) ==> e.1.wf()) by {
        if x != id {
            assert(lookup(r.messages, x) == lookup(c.messages, x) || lookup(r.messages, x).is_none());
        }
    }
    assert forall|x: MessageId|
        ((#[trigger] lookup(r.metadata, x)) matches Some(m)
            ==> m.referenced_by_milestone_index.is_some()) by {
        if x != id {
            assert(lookup(r.metadata, x) == lookup(c.metadata, x) || lookup(r.metadata, x).is_none());
        }
    }
    assert forall|x: MessageId|
        #![trigger lookup(r.messages, x), lookup(r.metadata, x)]
        (lookup(r.messages, x) matches Some(e) ==> (lookup(r.metadata, x) matches Some(m)
            ==> m.referenced_by_milestone_index == Some(e.0))) by {
        if x != id {
            assert(lookup(r.messages, x) == lookup(c.messages, x) || lookup(r.messages, x).is_none());
            assert(lookup(r.metadata, x) == lookup(c.metadata, x) || lookup(r.metadata, x).is_none());
        }
    }
}


proof fn lemma_on_message_wf(c: CollectorView, id: MessageId, message: MessageView)
    requires
        c.wf(),
        message.wf(),
    ensures
        c.on_message(id, message).state.wf(),
{
    lemma_wf_parts(c);
    let r = c.on_message(id, message).state;
    if lookup(c.messages, id).is_some() {
        lemma_touch_message(c, id);
    } else {
        let metadata = lookup(c.metadata, id);
        let ms = crate::collector_model::milestone_of(metadata, c.est_ms);
        let used = CollectorView { metadata: touched(c.metadata, id), ..c };
        lemma_touch_metadata(c, id);
        lemma_touched(c.metadata, id);
        assert(lookup(used.metadata, id) == metadata);
        lemma_put_message(used, id, ms, message);
        let cached = CollectorView {
            messages: put(used.messages, used.message_capacity, id, (ms, message)),
            ..used
        };
        assert(caches_wf(cached));
        assert(r == cached);
    }
    lemma_wf_parts(r);
}

proof fn lemma_on_message_referenced_wf(c: CollectorView, metadata: MetadataView)
    requires
        c.wf(),
    ensures
        c.on_message_referenced(metadata).state.wf(),
{
    lemma_wf_parts(c);
    let r = c.on_message_referenced(metadata).state;
    match metadata.referenced_by_milestone_index {
        None => {},
        Some(ref_ms) => {
            if ref_ms != u32::MAX {
                let id = metadata.message_id;
                let noted = CollectorView {
                    ref_ms,
                    est_ms: if c.est_ms < ref_ms + 1 { (ref_ms + 1) as u32 } else { c.est_ms },
                    ..c
                };
                assert(caches_wf(noted));
                if lookup(c.metadata, id).is_some() {
                    lemma_touch_metadata(noted, id);
                } else {
                    match lookup(c.messages, id) {
                        Some((est_ms, message)) => {
                            lemma_put_both(noted, id, ref_ms, message, metadata);
                            let fixed = CollectorView {
                                messages: put(c.messages, c.message_capacity, id, (ref_ms, message)),
                                metadata: put(c.metadata, c.metadata_capacity, id, metadata),
                                ..noted
                            };
                            lemma_settle_pending(fixed, metadata, ref_ms, false);
                            let settled = fixed.settle_pending(metadata, ref_ms, false).0;
                            lemma_sort_pending(settled, ref_ms, settled.pending.len() as int);
                            assert(caches_wf(r));
                        },
                        None => {
                            lemma_put_metadata(noted, id, metadata);
                            let cached = CollectorView {
                                metadata: put(c.metadata, c.metadata_capacity, id, metadata),
                                ..noted
                            };
                            lemma_settle_pending(cached, metadata, ref_ms, true);
                            let settled = cached.settle_pending(metadata, ref_ms, true).0;
                            lemma_sort_pending(settled, ref_ms, settled.pending.len() as int);
                            assert(caches_wf(r));
                        },
                    }
                }
            }
        },
    }
    lemma_wf_parts(r);
}

proof fn lemma_on_message_and_meta_wf(
    c: CollectorView,
    requester_id: u8,
    try_ms_index: u32,
    message_id: Option<MessageId>,
    full: Option<crate::message::FullMessageView>,
)
    requires
        c.wf(),
        full matches Some(f) ==> f.wf(),
    ensures
        c.on_message_and_meta(requester_id, try_ms_index, message_id, full).state.wf(),
{
    lemma_wf_parts(c);
    let r = c.on_message_and_meta(requester_id, try_ms_index, message_id, full).state;
    let relieved = CollectorView {
        requesters: crate::collector_model::adjusted(c.requesters, requester_id),
        ..c
    };
    assert(caches_wf(relieved));
    match full {
        None => {},
        Some(full) => match message_id {
            None => {},
            Some(id) => {
                if full.metadata.referenced_by_milestone_index == Some(try_ms_index) {
                    let entry = lookup(c.messages, id);
                    let message = match entry {
                        Some(e) => e.1,
                        None => full.message,
                    };
                    lemma_put_both(relieved, id, try_ms_index, message, full.metadata);
                    assert(caches_wf(r));
                }
            },
        },
    }
    lemma_wf_parts(r);
}

proof fn lemma_on_ask_full_message_wf(
    c: CollectorView,
    solidifier_id: u8,
    try_ms_index: u32,
    id: MessageId,
)
    requires
        c.wf(),
    ensures
        c.on_ask_full_message(solidifier_id, try_ms_index, id).state.wf(),
{
    lemma_wf_parts(c);
    let r = c.on_ask_full_message(solidifier_id, try_ms_index, id).state;
    match lookup(c.messages, id) {
        None => {
            assert(caches_wf(r));
        },
        Some((_, message)) => {
            let used = CollectorView { messages: touched(c.messages, id), ..c };
            lemma_touch_message(c, id);
            match lookup(c.metadata, id) {
                Some(metadata) => {
                    lemma_touch_metadata(used, id);
                },
                None => {
                    if c.est_ms != 0 && try_ms_index >= c.est_ms - 1 {
                        let k = first_where(c.pending, pending_pred(id));
                        lemma_first_where_exists(c.pending, pending_pred(id));
                        if k < c.pending.len() {
                            let old_ms = c.pending[k].requested_by;
                            if old_ms > try_ms_index {
                                let p = c.pending.update(
                                    k,
                                    PendingView { requested_by: try_ms_index, ..c.pending[k] },
                                );
                                assert forall|i: int, j: int|
                                    #![trigger p[i], p[j]]
                                    0 <= i < j < p.len() implies p[i].message_id
                                    != p[j].message_id by {
                                    assert(c.pending[i].message_id != c.pending[j].message_id);
                                }
                                assert forall|i: int| 0 <= i < p.len() implies (#[trigger] p[i]).message.wf() by {
                                    assert(c.pending[i].message.wf());
                                }
                                assert(r == CollectorView { pending: p, ..used });
                                assert(caches_wf(r));
                            }
                        } else {
                            let p = c.pending.push(
                                PendingView { message_id: id, requested_by: try_ms_index, message },
                            );
                            assert forall|i: int, j: int|
                                #![trigger p[i], p[j]]
                                0 <= i < j < p.len() implies p[i].message_id != p[j].message_id by {
                                if j < c.pending.len() {
                                    assert(c.pending[i].message_id != c.pending[j].message_id);
                                } else {
                                    assert(!pending_pred(id)(c.pending[i]));
                                }
                            }
                            assert forall|i: int| 0 <= i < p.len() implies (#[trigger] p[i]).message.wf() by {
                                if i < c.pending.len() {
                                    assert(c.pending[i].message.wf());
                                }
                            }
                            assert(r == CollectorView { pending: p, ..used });
                            assert(caches_wf(r));
                        }
                    } else {
                        assert(caches_wf(r));
                    }
                },
            }
        },
    }
    lemma_wf_parts(r);
}

/// Writing a message keeps a collector well formed: it marks the metadata
/// of the message as used, nothing more.
pub proof fn lemma_insert_message_wf(c: CollectorView, id: MessageId)
    requires
        c.wf(),
    ensures
        (CollectorView { metadata: touched(c.metadata, id), ..c }).wf(),
{
    lemma_wf_parts(c);
    lemma_touch_metadata(c, id);
    lemma_wf_parts(CollectorView { metadata: touched(c.metadata, id), ..c });
}

/// After metadata with a milestone was taken, the estimate lies above the
/// milestone noted last, which is the milestone of that metadata.
pub proof fn lemma_estimate_above_reference(c: CollectorView, metadata: MetadataView, ref_ms: u32)
    requires
        metadata.referenced_by_milestone_index == Some(ref_ms),
        ref_ms < u32::MAX,
        pending_wf(c.pending),
    ensures
        c.on_message_referenced(metadata).error.is_none(),
        c.on_message_referenced(metadata).state.ref_ms == ref_ms,
        c.on_message_referenced(metadata).state.est_ms > ref_ms,
        c.on_message_referenced(metadata).state.est_ms >= c.est_ms,
{
    let id = metadata.message_id;
    let noted = CollectorView {
        ref_ms,
        est_ms: if c.est_ms < ref_ms + 1 { (ref_ms + 1) as u32 } else { c.est_ms },
        ..c
    };
    if !lookup(c.metadata, id).is_some() {
        let cached = CollectorView {
            metadata: put(c.metadata, c.metadata_capacity, id, metadata),
            ..noted
        };
        match lookup(c.messages, id) {
            Some((est_ms, message)) => {
                let fixed = CollectorView {
                    messages: put(c.messages, c.message_capacity, id, (ref_ms, message)),
                    ..cached
                };
                lemma_settle_pending(fixed, metadata, ref_ms, false);
                let settled = fixed.settle_pending(metadata, ref_ms, false).0;
                lemma_sort_pending(settled, ref_ms, settled.pending.len() as int);
            },
            None => {
                lemma_settle_pending(cached, metadata, ref_ms, true);
                let settled = cached.settle_pending(metadata, ref_ms, true).0;
                lemma_sort_pending(settled, ref_ms, settled.pending.len() as int);
            },
        }
    }
}

/// Whatever the event, a well-formed collector stays well formed.
///
/// In particular no message ever has more than one entry in either cache,
/// and a message that is in both caches is cached under the very milestone
/// that its metadata names.
pub proof fn lemma_handle_event_wf(c: CollectorView, event: CollectorEventView)
    requires
        c.wf(),
        event.wf(),
    ensures
        c.handle_event(event).state.wf(),
{
    match event {
        CollectorEventView::MessageAndMeta(requester_id, try_ms_index, message_id, full) => {
            lemma_on_message_and_meta_wf(c, requester_id, try_ms_index, message_id, full);
        },
        CollectorEventView::Message(id, message) => {
            lemma_on_message_wf(c, id, message);
        },
        CollectorEventView::MessageReferenced(metadata) => {
            lemma_on_message_referenced_wf(c, metadata);
        },
        CollectorEventView::Ask(AskCollector::FullMessage(solidifier_id, try_ms_index, id)) => {
            lemma_on_ask_full_message_wf(c, solidifier_id, try_ms_index, id);
        },
        CollectorEventView::Ask(AskCollector::MilestoneMessage(milestone_index)) => {
            lemma_wf_parts(c);
            lemma_wf_parts(c.handle_event(event).state);
        },
        CollectorEventView::Shutdown => {
            lemma_wf_parts(c);
            lemma_wf_parts(c.handle_event(event).state);
        },
    }
}

/// Each cache holds at most one entry for a message.
pub proof fn lemma_one_entry_each(c: CollectorView, i: int, j: int)
    requires
        c.wf(),
        0 <= i < j,
    ensures
        j < c.messages.len() ==> c.messages[i].0 != c.messages[j].0,
        j < c.metadata.len() ==> c.metadata[i].0 != c.metadata[j].0,
{
}

/// No effect of the list deletes a row.
pub open spec fn no_deletes(effects: Seq<EffectView>) -> bool {
    forall|i: int| 0 <= i < effects.len() ==> !((#[trigger] effects[i]) is Delete)
}

/// Every effect of the list deletes a row.
pub open spec fn only_deletes(effects: Seq<EffectView>) -> bool {
    forall|i: int| 0 <= i < effects.len() ==> (#[trigger] effects[i]) is Delete
}

proof fn lemma_no_deletes_concat(a: Seq<EffectView>, b: Seq<EffectView>)
    requires
        no_deletes(a),
        no_deletes(b),
    ensures
        no_deletes(a + b),
{
    assert forall|i: int| 0 <= i < (a + b).len() implies !((#[trigger] (a + b)[i]) is Delete) by {
        if i < a.len() {
            assert((a + b)[i] == a[i]);
        } else {
            assert((a + b)[i] == b[i - a.len()]);
        }
    }
}

proof fn lemma_only_deletes_concat(a: Seq<EffectView>, b: Seq<EffectView>)
    requires
        only_deletes(a),
        only_deletes(b),
    ensures
        only_deletes(a + b),
{
    assert forall|i: int| 0 <= i < (a + b).len() implies (#[trigger] (a + b)[i]) is Delete by {
        if i < a.len() {
            assert((a + b)[i] == a[i]);
        } else {
            assert((a + b)[i] == b[i - a.len()]);
        }
    }
}

proof fn lemma_inputs_no_deletes(
    worker: WorkerKind,
    id: MessageId,
    transaction: TransactionView,
    n: int,
    inclusion_state: Option<LedgerInclusionState>,
    milestone_index: Option<u32>,
)
    ensures
        no_deletes(inputs_effects(worker, id, transaction, n, inclusion_state, milestone_index)),
    decreases n,
{
    if n > 0 {
        lemma_inputs_no_deletes(worker, id, transaction, n - 1, inclusion_state, milestone_index);
        lemma_no_deletes_concat(
            inputs_effects(worker, id, transaction, n - 1, inclusion_state, milestone_index),
            input_effects(worker, id, transaction, n - 1, inclusion_state, milestone_index),
        );
    }
}

proof fn lemma_outputs_no_deletes(
    config: PartitionConfig,
    worker: WorkerKind,
    id: MessageId,
    transaction: TransactionView,
    n: int,
    milestone_index: u32,
    inclusion_state: Option<LedgerInclusionState>,
)
    ensures
        no_deletes(
            outputs_effects(config, worker, id, transaction, n, milestone_index, inclusion_state),
        ),
    decreases n,
{
    if n > 0 {
        lemma_outputs_no_deletes(
            config,
            worker,
            id,
            transaction,
            n - 1,
            milestone_index,
            inclusion_state,
        );
        let first = seq![
            insert_effect(
                worker,
                RowView::Output {
                    transaction_id: transaction.id,
                    index: (n - 1) as u16,
                    message_id: id,
                    output: transaction.outputs[n - 1],
                    inclusion_state,
                    milestone_index: confirmed_index(inclusion_state, milestone_index),
                },
            ),
        ];
        let rest = address_effects(
            config,
            worker,
            transaction.outputs[n - 1],
            transaction.id,
            (n - 1) as u16,
            milestone_index,
            inclusion_state,
        );
        lemma_no_deletes_concat(first, rest);
        lemma_no_deletes_concat(
            outputs_effects(
                config,
                worker,
                id,
                transaction,
                n - 1,
                milestone_index,
                inclusion_state,
            ),
            output_effects(config, worker, id, transaction, n - 1, milestone_index, inclusion_state),
        );
    }
}

/// Writing a message with its metadata deletes nothing.
pub proof fn lemma_reinsert_no_deletes(
    config: CollectorConfig,
    id: MessageId,
    message: MessageView,
    metadata: MetadataView,
    ms: u32,
)
    ensures
        no_deletes(config.message_with_metadata_effects(id, message, metadata, ms)),
{
    let worker = config.atomic(ms, id);
    let state = metadata.ledger_inclusion_state;
    let parents = parent_effects(config.partition_config, worker, id, message.parents, ms, state);
    let payload = message_payload_effects(
        config.partition_config,
        config.collectors_count,
        worker,
        id,
        message,
        ms,
        state,
        Some(metadata),
    );
    match message.payload {
        Some(PayloadView::Transaction(transaction)) => {
            let inputs = inputs_effects(
                worker,
                id,
                transaction,
                transaction.inputs.len() as int,
                state,
                confirmed_index(state, ms),
            );
            let outputs = outputs_effects(
                config.partition_config,
                worker,
                id,
                transaction,
                transaction.outputs.len() as int,
                ms,
                state,
            );
            lemma_inputs_no_deletes(
                worker,
                id,
                transaction,
                transaction.inputs.len() as int,
                state,
                confirmed_index(state, ms),
            );
            lemma_outputs_no_deletes(
                config.partition_config,
                worker,
                id,
                transaction,
                transaction.outputs.len() as int,
                ms,
                state,
            );
            lemma_no_deletes_concat(inputs, outputs);
            let index = match transaction.indexation {
                Some(index) => index_effects(
                    config.partition_config,
                    worker,
                    id,
                    hex_encoding(index),
                    ms,
                    state,
                ),
                None => Seq::empty(),
            };
            lemma_no_deletes_concat(inputs + outputs, index);
        },
        _ => {},
    }
    assert(no_deletes(payload));
    lemma_no_deletes_concat(parents, payload);
    lemma_no_deletes_concat(
        parents + payload,
        seq![
            insert_effect(
                worker,
                RowView::Message { message_id: id, message: message.raw, metadata: Some(metadata) },
            ),
        ],
    );
}

proof fn lemma_delete_addresses_only_deletes(
    config: PartitionConfig,
    transaction: TransactionView,
    n: int,
    ms: u32,
    retries: usize,
)
    ensures
        only_deletes(delete_addresses_effects(config, transaction, n, ms, retries)),
    decreases n,
{
    if n > 0 {
        lemma_delete_addresses_only_deletes(config, transaction, n - 1, ms, retries);
        lemma_only_deletes_concat(
            delete_addresses_effects(config, transaction, n - 1, ms, retries),
            delete_address_effects(
                config,
                transaction.outputs[n - 1],
                transaction.id,
                (n - 1) as u16,
                ms,
                retries,
            ),
        );
    }
}

/// The clean-up after a wrong estimate does nothing but delete.
pub proof fn lemma_cleanup_only_deletes(
    config: PartitionConfig,
    id: MessageId,
    message: MessageView,
    ms: u32,
    retries: usize,
)
    ensures
        only_deletes(cleanup_effects(config, id, message, ms, retries)),
{
    let parents = delete_parent_effects(config, id, message.parents, ms, retries);
    match message.payload {
        Some(PayloadView::Indexation(index)) => {
            lemma_only_deletes_concat(
                parents,
                delete_index_effects(config, id, hex_encoding(index), ms, retries),
            );
        },
        Some(PayloadView::Transaction(transaction)) => {
            let index = match transaction.indexation {
                Some(index) => delete_index_effects(config, id, hex_encoding(index), ms, retries),
                None => Seq::empty(),
            };
            let addresses = delete_addresses_effects(
                config,
                transaction,
                transaction.outputs.len() as int,
                ms,
                retries,
            );
            lemma_delete_addresses_only_deletes(
                config,
                transaction,
                transaction.outputs.len() as int,
                ms,
                retries,
            );
            lemma_only_deletes_concat(index, addresses);
            lemma_only_deletes_concat(parents, index + addresses);
        },
        _ => {
            lemma_only_deletes_concat(parents, Seq::empty());
        },
    }
}

proof fn lemma_sort_pending_no_deletes(c: CollectorView, milestone_index: u32, n: int)
    ensures
        no_deletes(c.sort_pending(milestone_index, n).1),
    decreases n,
{
    if n > 0 {
        lemma_sort_pending_no_deletes(c, milestone_index, n - 1);
        let (sorted, effects) = c.sort_pending(milestone_index, n - 1);
        let p = c.pending[n - 1];
        if p.requested_by < milestone_index {
            let more = sorted.request(
                RequesterEvent::RequestFullMessage(p.message_id, p.requested_by),
            ).1;
            lemma_no_deletes_concat(effects, more);
        }
    }
}

/// When metadata arrives for a message that is cached without metadata,
/// every row that the message left under another milestone than the one the
/// metadata names is deleted before anything is written under the right one,
/// and the cache entry of the message takes the right milestone. What comes
/// before the deletions deletes nothing, and neither do the writes that
/// follow. Where the message was cached under the right milestone already,
/// nothing is deleted at all. Metadata that names the largest index is
/// refused, and nothing is done.
pub proof fn lemma_cleanup_precedes_reinsert(
    c: CollectorView,
    metadata: MetadataView,
    ref_ms: u32,
    est_ms: u32,
    message: MessageView,
)
    requires
        c.wf(),
        metadata.referenced_by_milestone_index == Some(ref_ms),
        lookup(c.metadata, metadata.message_id).is_none(),
        lookup(c.messages, metadata.message_id) == Some((est_ms, message)),
    ensures
        c.on_message_referenced(metadata).error.is_none() <==> ref_ms < u32::MAX,
        ref_ms == u32::MAX ==> c.on_message_referenced(metadata).effects == Seq::<
            EffectView,
        >::empty() && c.on_message_referenced(metadata).state == c,
        ref_ms < u32::MAX ==> exists|before: Seq<EffectView>|
            #![trigger no_deletes(before)]
            {
                &&& no_deletes(before)
                &&& c.on_message_referenced(metadata).effects == before + (if est_ms != ref_ms {
                    cleanup_effects(
                        c.config.partition_config,
                        metadata.message_id,
                        message,
                        est_ms,
                        c.config.confirmed_retries,
                    )
                } else {
                    Seq::empty()
                }) + c.config.message_with_metadata_effects(
                    metadata.message_id,
                    message,
                    metadata,
                    ref_ms,
                )
            },
        only_deletes(
            cleanup_effects(
                c.config.partition_config,
                metadata.message_id,
                message,
                est_ms,
                c.config.confirmed_retries,
            ),
        ),
        no_deletes(
            c.config.message_with_metadata_effects(metadata.message_id, message, metadata, ref_ms),
        ),
        ref_ms < u32::MAX && est_ms == ref_ms ==> no_deletes(
            c.on_message_referenced(metadata).effects,
        ),
        ref_ms < u32::MAX ==> lookup(
            c.on_message_referenced(metadata).state.messages,
            metadata.message_id,
        ) == Some((ref_ms, message)),
{
    lemma_wf_parts(c);
    let id = metadata.message_id;
    let count = c.config.collectors_count;
    lemma_cleanup_only_deletes(
        c.config.partition_config,
        id,
        message,
        est_ms,
        c.config.confirmed_retries,
    );
    lemma_reinsert_no_deletes(c.config, id, message, metadata, ref_ms);
    if ref_ms < u32::MAX {
        let noted = CollectorView {
            ref_ms,
            est_ms: if c.est_ms < ref_ms + 1 { (ref_ms + 1) as u32 } else { c.est_ms },
            ..c
        };
        let fixed = CollectorView {
            messages: put(c.messages, c.message_capacity, id, (ref_ms, message)),
            metadata: put(c.metadata, c.metadata_capacity, id, metadata),
            ..noted
        };
        let (settled, closing) = fixed.settle_pending(metadata, ref_ms, false);
        let (sorted, requests) = settled.process_pending_requests(ref_ms);
        lemma_settle_pending(fixed, metadata, ref_ms, false);
        lemma_sort_pending(settled, ref_ms, settled.pending.len() as int);
        lemma_sort_pending_no_deletes(settled, ref_ms, settled.pending.len() as int);
        lemma_put(c.messages, c.message_capacity, id, (ref_ms, message));
        let delivered = crate::fanout::to_solidifier(
            count,
            crate::store::solidifier_of(ref_ms, count),
            crate::effect::SolidifierEventView::Message(
                crate::message::FullMessageView { message, metadata },
            ),
        );
        lemma_no_deletes_concat(delivered, closing);
        lemma_no_deletes_concat(delivered + closing, requests);
        let before = delivered + closing + requests;
        let cleaning = if est_ms != ref_ms {
            cleanup_effects(
                c.config.partition_config,
                id,
                message,
                est_ms,
                c.config.confirmed_retries,
            )
        } else {
            Seq::<EffectView>::empty()
        };
        let writes = c.config.message_with_metadata_effects(id, message, metadata, ref_ms);
        assert(c.on_message_referenced(metadata).effects == before + cleaning + writes);
        assert(no_deletes(before));
        if est_ms == ref_ms {
            lemma_no_deletes_concat(before, cleaning);
            lemma_no_deletes_concat(before + cleaning, writes);
        }
    }
}

/// The estimate never falls and never lies below the milestone noted last,
/// and only metadata of the live stream moves either of them.
pub proof fn lemma_estimate_never_falls(c: CollectorView, event: CollectorEventView)
    requires
        pending_wf(c.pending),
    ensures
        c.handle_event(event).state.est_ms >= c.est_ms,
        c.est_ms >= c.ref_ms ==> c.handle_event(event).state.est_ms >= c.handle_event(
            event,
        ).state.ref_ms,
        !(event is MessageReferenced) ==> c.handle_event(event).state.est_ms == c.est_ms
            && c.handle_event(event).state.ref_ms == c.ref_ms,
{
    match event {
        CollectorEventView::MessageReferenced(metadata) => {
            match metadata.referenced_by_milestone_index {
                Some(ref_ms) => {
                    if ref_ms < u32::MAX {
                        lemma_estimate_above_reference(c, metadata, ref_ms);
                    }
                },
                None => {},
            }
        },
        _ => {},
    }
}

} // verus!
