use std::collections::VecDeque;

use chronicle_broker::collector::{Collector, CollectorEvent};
use chronicle_broker::collector_model::{
    AskCollector, CollectorConfig, CollectorError, RequesterHandle,
};
use chronicle_broker::effect::{
    DeleteKey, Effect, Hint, MilestoneMessage, RequesterEvent, Row, SolidifierEvent, WorkerKind,
};
use chronicle_broker::ids::{Ed25519Address, MessageId, TransactionId};
use chronicle_broker::keyspace::ChronicleKeyspace;
use chronicle_broker::message::{
    Address, FullMessage, Input, LedgerInclusionState, Message, MessageMetadata, MilestonePayload,
    Output, Payload, TransactionPayload, UnlockBlock,
};
use chronicle_broker::partition::PartitionConfig;

fn id(n: u8) -> MessageId {
    MessageId([n; 32])
}

fn config() -> CollectorConfig {
    CollectorConfig {
        collectors_count: 4,
        partition_config: PartitionConfig { partition_count: 7, milestone_chunk_size: 10 },
        retries_per_query: 5,
        confirmed_retries: 9,
    }
}

fn collector(message_capacity: usize, metadata_capacity: usize, requesters: Vec<u8>) -> Collector {
    Collector::new(
        config(),
        message_capacity,
        metadata_capacity,
        ChronicleKeyspace::new("chronicle".to_owned()),
        endpoints(&["https://a/api/v1", "https://b/api/v1", "https://c/api/v1"]),
        requesters,
    )
    .unwrap()
}

fn endpoints(urls: &[&str]) -> VecDeque<String> {
    urls.iter().map(|url| url.to_string()).collect()
}

fn plain(parents: Vec<MessageId>, raw: &[u8]) -> Message {
    Message { parents, payload: None, raw: raw.to_vec() }
}

fn metadata(message_id: MessageId, referenced: Option<u32>) -> MessageMetadata {
    MessageMetadata {
        message_id,
        parent_message_ids: vec![id(200), id(201)],
        is_solid: true,
        referenced_by_milestone_index: referenced,
        ledger_inclusion_state: Some(LedgerInclusionState::NoTransaction),
        should_promote: None,
        should_reattach: None,
    }
}

fn simple() -> WorkerKind {
    WorkerKind::Simple { retries: 5 }
}

fn atomic(ms: u32, message_id: MessageId) -> WorkerKind {
    WorkerKind::Atomic { solidifier_id: (ms % 4) as u8, milestone_index: ms, message_id, retries: 9 }
}

fn partition(ms: u32) -> u16 {
    ((ms / 10) % 7) as u16
}

fn parent_rows(
    worker: WorkerKind,
    message_id: MessageId,
    parents: &[MessageId],
    ms: u32,
    inclusion_state: Option<LedgerInclusionState>,
) -> Vec<Effect> {
    let mut rows = Vec::new();
    for parent in parents {
        rows.push(Effect::Insert {
            worker,
            row: Row::Parent {
                parent_id: *parent,
                partition_id: partition(ms),
                milestone_index: ms,
                message_id,
                inclusion_state,
            },
        });
        rows.push(Effect::Insert {
            worker,
            row: Row::Hint {
                hint: Hint::Parent(*parent),
                partition_id: partition(ms),
                milestone_index: ms,
            },
        });
    }
    rows
}

fn set_estimate(collector: &mut Collector, est_ms: u32) {
    // metadata of some other message, referenced by the milestone before
    let effects = collector
        .handle_event(CollectorEvent::MessageReferenced(metadata(id(250), Some(est_ms - 1))))
        .unwrap();
    assert!(!effects.is_empty());
    assert_eq!(collector.est_ms(), est_ms);
}

#[test]
fn new_collector_needs_positive_numbers() {
    let keyspace = || ChronicleKeyspace::new("chronicle".to_owned());
    assert!(Collector::new(config(), 0, 1, keyspace(), endpoints(&[]), vec![]).is_none());
    assert!(Collector::new(config(), 1, 0, keyspace(), endpoints(&[]), vec![]).is_none());
    let mut bad = config();
    bad.collectors_count = 0;
    assert!(Collector::new(bad, 1, 1, keyspace(), endpoints(&[]), vec![]).is_none());
    let mut bad = config();
    bad.partition_config.partition_count = 0;
    assert!(Collector::new(bad, 1, 1, keyspace(), endpoints(&[]), vec![]).is_none());
    let collector =
        Collector::new(config(), 1, 1, keyspace(), endpoints(&["u"]), vec![3, 8]).unwrap();
    assert_eq!(collector.api_endpoints(), &endpoints(&["u"]));
    assert_eq!(
        collector.requesters(),
        &vec![RequesterHandle { id: 3, load: 0 }, RequesterHandle { id: 8, load: 0 }]
    );
    assert_eq!(collector.est_ms(), 0);
    assert_eq!(collector.ref_ms(), 0);
    assert_eq!(collector.config(), config());
    assert_eq!(collector.get_keyspace().name(), "chronicle");
    assert!(!collector.is_shut_down());
}

#[test]
fn events_with_ill_formed_transactions_are_told_apart() {
    let mut tx = transaction();
    assert!(tx.is_wf());
    let good =
        Message { parents: vec![], payload: Some(Payload::Transaction(tx.clone())), raw: vec![] };
    assert!(CollectorEvent::Message(id(1), good.clone()).is_wf());
    tx.unlock_blocks.pop();
    assert!(!tx.is_wf());
    let bad = Message { parents: vec![], payload: Some(Payload::Transaction(tx)), raw: vec![] };
    assert!(!bad.is_wf());
    assert!(!CollectorEvent::Message(id(1), bad.clone()).is_wf());
    assert!(!CollectorEvent::MessageAndMeta(
        0,
        1,
        None,
        Some(FullMessage(bad, metadata(id(1), Some(1))))
    )
    .is_wf());
    assert!(CollectorEvent::MessageAndMeta(0, 1, None, None).is_wf());
    assert!(CollectorEvent::Shutdown.is_wf());
    assert_eq!(CollectorConfig::new(4, PartitionConfig::default(), 1, 2).map(|c| c.collectors_count), Some(4));
    assert!(CollectorConfig::new(0, PartitionConfig::default(), 1, 2).is_none());
    assert!(CollectorConfig::new(
        1,
        PartitionConfig { partition_count: 0, milestone_chunk_size: 1 },
        1,
        2
    )
    .is_none());
}

#[test]
fn test_create_keyspace() {
    let key_space = ChronicleKeyspace::new("chroincle_test".to_owned());
    assert_eq!(key_space.name(), "chroincle_test");
}

#[test]
fn message_is_stored_once() {
    let mut collector = collector(10, 10, vec![0]);
    let message = plain(vec![id(1), id(2)], b"body");
    let effects = collector.handle_event(CollectorEvent::Message(id(9), message.clone())).unwrap();
    let mut expected = vec![Effect::Insert {
        worker: simple(),
        row: Row::Message { message_id: id(9), message: b"body".to_vec(), metadata: None },
    }];
    expected.extend(parent_rows(simple(), id(9), &[id(1), id(2)], 0, None));
    assert_eq!(effects, expected);
    assert_eq!(collector.cached_milestone(&id(9)), Some(0));
    // the second time nothing is written
    let effects = collector.handle_event(CollectorEvent::Message(id(9), message)).unwrap();
    assert!(effects.is_empty());
}

#[test]
fn metadata_corrects_an_estimate() {
    let mut collector = collector(10, 10, vec![0]);
    set_estimate(&mut collector, 500);
    let body = plain(vec![id(1)], b"body");
    collector.handle_event(CollectorEvent::Message(id(7), body.clone())).unwrap();
    assert_eq!(collector.cached_milestone(&id(7)), Some(500));

    let meta = metadata(id(7), Some(497));
    let effects = collector.handle_event(CollectorEvent::MessageReferenced(meta.clone())).unwrap();
    let state = Some(LedgerInclusionState::NoTransaction);
    let mut expected = vec![
        // the message goes to the solidifier of milestone 497
        Effect::Solidifier {
            solidifier_id: 1,
            event: SolidifierEvent::Message(FullMessage(body.clone(), meta.clone())),
        },
        // the row under the wrong milestone is deleted first
        Effect::Delete {
            key: DeleteKey::Parent {
                parent_id: id(1),
                partition_id: partition(500),
                milestone_index: 500,
                message_id: id(7),
            },
            retries: 9,
        },
    ];
    // and then written under the right one
    expected.extend(parent_rows(atomic(497, id(7)), id(7), &[id(1)], 497, state));
    expected.push(Effect::Insert {
        worker: atomic(497, id(7)),
        row: Row::Message {
            message_id: id(7),
            message: b"body".to_vec(),
            metadata: Some(meta.clone()),
        },
    });
    assert_eq!(effects, expected);
    assert_ne!(partition(500), partition(497));
    assert_eq!(collector.cached_milestone(&id(7)), Some(497));
    assert_eq!(collector.ref_ms(), 497);
    assert_eq!(collector.est_ms(), 500);

    // known metadata is not handled again
    let effects = collector.handle_event(CollectorEvent::MessageReferenced(meta)).unwrap();
    assert!(effects.is_empty());
}

#[test]
fn metadata_that_confirms_the_estimate_deletes_nothing() {
    let mut collector = collector(10, 10, vec![0]);
    set_estimate(&mut collector, 500);
    let body = plain(vec![id(1)], b"body");
    collector.handle_event(CollectorEvent::Message(id(7), body)).unwrap();
    let effects = collector
        .handle_event(CollectorEvent::MessageReferenced(metadata(id(7), Some(500))))
        .unwrap();
    assert!(effects.iter().all(|e| !matches!(e, Effect::Delete { .. })));
    assert_eq!(collector.cached_milestone(&id(7)), Some(500));
    assert_eq!(collector.est_ms(), 501);
}

#[test]
fn metadata_without_milestone_is_discarded() {
    let mut collector = collector(10, 10, vec![0]);
    let effects =
        collector.handle_event(CollectorEvent::MessageReferenced(metadata(id(7), None))).unwrap();
    assert!(effects.is_empty());
    assert_eq!(collector.est_ms(), 0);
    // it was not cached: the same metadata with a milestone is handled
    let effects = collector
        .handle_event(CollectorEvent::MessageReferenced(metadata(id(7), Some(3))))
        .unwrap();
    assert!(!effects.is_empty());
}

#[test]
fn metadata_alone_is_written_alone() {
    let mut collector = collector(10, 10, vec![0]);
    let meta = metadata(id(7), Some(12));
    let effects = collector.handle_event(CollectorEvent::MessageReferenced(meta.clone())).unwrap();
    let mut expected = vec![Effect::Insert {
        worker: simple(),
        row: Row::Metadata { message_id: id(7), metadata: meta.clone() },
    }];
    expected.extend(parent_rows(
        simple(),
        id(7),
        &[id(200), id(201)],
        12,
        Some(LedgerInclusionState::NoTransaction),
    ));
    assert_eq!(effects, expected);
    assert_eq!(collector.ref_ms(), 12);
    assert_eq!(collector.est_ms(), 13);
    assert_eq!(collector.cached_milestone(&id(7)), None);
}

#[test]
fn message_after_its_metadata_goes_under_the_exact_milestone() {
    let mut collector = collector(10, 10, vec![0]);
    let meta = metadata(id(7), Some(12));
    collector.handle_event(CollectorEvent::MessageReferenced(meta.clone())).unwrap();
    collector
        .handle_event(CollectorEvent::MessageReferenced(metadata(id(8), Some(40))))
        .unwrap();
    assert_eq!(collector.est_ms(), 41);
    let body = plain(vec![id(1)], b"late");
    let effects = collector.handle_event(CollectorEvent::Message(id(7), body)).unwrap();
    let mut expected = vec![Effect::Insert {
        worker: atomic(12, id(7)),
        row: Row::Message {
            message_id: id(7),
            message: b"late".to_vec(),
            metadata: Some(meta.clone()),
        },
    }];
    expected.extend(parent_rows(
        atomic(12, id(7)),
        id(7),
        &[id(1)],
        12,
        Some(LedgerInclusionState::NoTransaction),
    ));
    assert_eq!(effects, expected);
    assert_eq!(collector.cached_milestone(&id(7)), Some(12));
    // the estimate and the milestone noted last stay as they are
    assert_eq!(collector.est_ms(), 41);
    assert_eq!(collector.ref_ms(), 40);
}

#[test]
fn milestone_overflow_is_refused() {
    let mut collector = collector(10, 10, vec![0]);
    let result =
        collector.handle_event(CollectorEvent::MessageReferenced(metadata(id(7), Some(u32::MAX))));
    assert_eq!(result, Err(CollectorError::MilestoneOverflow));
    assert_eq!(collector.ref_ms(), 0);
    assert_eq!(collector.est_ms(), 0);
}

#[test]
fn ask_with_message_and_metadata_cached() {
    let mut collector = collector(10, 10, vec![0]);
    let body = plain(vec![id(1)], b"body");
    let meta = metadata(id(7), Some(12));
    collector.handle_event(CollectorEvent::Message(id(7), body.clone())).unwrap();
    collector.handle_event(CollectorEvent::MessageReferenced(meta.clone())).unwrap();
    // the milestone that the metadata names
    let effects = collector
        .handle_event(CollectorEvent::Ask(AskCollector::FullMessage(3, 12, id(7))))
        .unwrap();
    assert_eq!(
        effects,
        vec![Effect::Solidifier {
            solidifier_id: 3,
            event: SolidifierEvent::Message(FullMessage(body, meta)),
        }]
    );
    // another milestone
    let effects = collector
        .handle_event(CollectorEvent::Ask(AskCollector::FullMessage(3, 11, id(7))))
        .unwrap();
    assert_eq!(
        effects,
        vec![Effect::Solidifier { solidifier_id: 3, event: SolidifierEvent::Close(id(7), 11) }]
    );
    // a solidifier that does not exist gets nothing
    let effects = collector
        .handle_event(CollectorEvent::Ask(AskCollector::FullMessage(4, 11, id(7))))
        .unwrap();
    assert!(effects.is_empty());
}

#[test]
fn ask_for_unknown_message_goes_to_the_network() {
    let mut collector = collector(10, 10, vec![5, 6]);
    let effects = collector
        .handle_event(CollectorEvent::Ask(AskCollector::FullMessage(1, 12, id(7))))
        .unwrap();
    assert_eq!(
        effects,
        vec![Effect::Requester {
            requester_id: 5,
            request: RequesterEvent::RequestFullMessage(id(7), 12),
        }]
    );
    // the next request goes to the other requester, which has less to do
    let effects = collector
        .handle_event(CollectorEvent::Ask(AskCollector::MilestoneMessage(13)))
        .unwrap();
    assert_eq!(
        effects,
        vec![Effect::Requester { requester_id: 6, request: RequesterEvent::RequestMilestone(13) }]
    );
    assert_eq!(
        collector.requesters(),
        &vec![RequesterHandle { id: 5, load: 1 }, RequesterHandle { id: 6, load: 1 }]
    );
}

#[test]
fn ask_with_message_cached_and_old_milestone_goes_to_the_network() {
    let mut collector = collector(10, 10, vec![5]);
    set_estimate(&mut collector, 500);
    collector.handle_event(CollectorEvent::Message(id(7), plain(vec![], b"b"))).unwrap();
    let effects = collector
        .handle_event(CollectorEvent::Ask(AskCollector::FullMessage(1, 498, id(7))))
        .unwrap();
    assert_eq!(
        effects,
        vec![Effect::Requester {
            requester_id: 5,
            request: RequesterEvent::RequestFullMessage(id(7), 498),
        }]
    );
    assert_eq!(collector.pending_len(), 0);
}

#[test]
fn ask_with_estimate_zero_goes_to_the_network() {
    let mut collector = collector(10, 10, vec![5]);
    collector.handle_event(CollectorEvent::Message(id(7), plain(vec![], b"b"))).unwrap();
    let effects = collector
        .handle_event(CollectorEvent::Ask(AskCollector::FullMessage(1, 0, id(7))))
        .unwrap();
    assert_eq!(effects.len(), 1);
    assert_eq!(collector.pending_len(), 0);
}

#[test]
fn ask_with_message_cached_and_recent_milestone_is_kept_pending() {
    let mut collector = collector(10, 10, vec![5]);
    set_estimate(&mut collector, 500);
    let body = plain(vec![id(1)], b"b");
    collector.handle_event(CollectorEvent::Message(id(7), body.clone())).unwrap();
    // 499 is the milestone before the estimate
    let effects = collector
        .handle_event(CollectorEvent::Ask(AskCollector::FullMessage(3, 499, id(7))))
        .unwrap();
    assert!(effects.is_empty());
    assert_eq!(collector.pending_len(), 1);
    // a later milestone asks too: it is closed, the lower one stays
    let effects = collector
        .handle_event(CollectorEvent::Ask(AskCollector::FullMessage(2, 502, id(7))))
        .unwrap();
    assert_eq!(
        effects,
        vec![Effect::Solidifier { solidifier_id: 2, event: SolidifierEvent::Close(id(7), 502) }]
    );
    assert_eq!(collector.pending_len(), 1);
    // asking twice for the same milestone is refused
    let result =
        collector.handle_event(CollectorEvent::Ask(AskCollector::FullMessage(3, 499, id(7))));
    assert_eq!(result, Err(CollectorError::DuplicateRequest));
    assert_eq!(collector.pending_len(), 1);
}

#[test]
fn ask_for_a_lower_milestone_takes_over_the_pending_request() {
    let mut collector = collector(10, 10, vec![5]);
    set_estimate(&mut collector, 500);
    let body = plain(vec![id(1)], b"b");
    collector.handle_event(CollectorEvent::Message(id(7), body.clone())).unwrap();
    collector
        .handle_event(CollectorEvent::Ask(AskCollector::FullMessage(2, 502, id(7))))
        .unwrap();
    let effects = collector
        .handle_event(CollectorEvent::Ask(AskCollector::FullMessage(3, 499, id(7))))
        .unwrap();
    // the request for 502 is closed at the solidifier of 502
    assert_eq!(
        effects,
        vec![Effect::Solidifier { solidifier_id: 2, event: SolidifierEvent::Close(id(7), 502) }]
    );
    assert_eq!(collector.pending_len(), 1);
    // metadata for 499 now answers the pending request once, through the
    // message cache
    let meta = metadata(id(7), Some(499));
    let effects = collector.handle_event(CollectorEvent::MessageReferenced(meta.clone())).unwrap();
    assert_eq!(
        effects[0],
        Effect::Solidifier {
            solidifier_id: 3,
            event: SolidifierEvent::Message(FullMessage(body, meta)),
        }
    );
    assert!(effects
        .iter()
        .all(|e| !matches!(e, Effect::Solidifier { event: SolidifierEvent::Close(..), .. })));
    assert_eq!(collector.pending_len(), 0);
}

#[test]
fn pending_request_for_another_milestone_is_closed_by_metadata() {
    let mut collector = collector(10, 10, vec![5]);
    set_estimate(&mut collector, 500);
    let body = plain(vec![], b"b");
    collector.handle_event(CollectorEvent::Message(id(7), body.clone())).unwrap();
    collector
        .handle_event(CollectorEvent::Ask(AskCollector::FullMessage(2, 502, id(7))))
        .unwrap();
    let meta = metadata(id(7), Some(501));
    let effects = collector.handle_event(CollectorEvent::MessageReferenced(meta.clone())).unwrap();
    assert_eq!(
        &effects[..2],
        &[
            Effect::Solidifier {
                solidifier_id: 1,
                event: SolidifierEvent::Message(FullMessage(body, meta)),
            },
            Effect::Solidifier { solidifier_id: 2, event: SolidifierEvent::Close(id(7), 502) },
        ]
    );
    assert_eq!(collector.pending_len(), 0);
}

#[test]
fn pending_request_is_answered_when_the_message_left_the_cache() {
    // a message cache of one entry
    let mut collector = collector(1, 10, vec![5]);
    set_estimate(&mut collector, 500);
    let body = plain(vec![id(1)], b"b");
    collector.handle_event(CollectorEvent::Message(id(7), body.clone())).unwrap();
    collector
        .handle_event(CollectorEvent::Ask(AskCollector::FullMessage(0, 500, id(7))))
        .unwrap();
    assert_eq!(collector.pending_len(), 1);
    // another message drives it out of the cache
    collector.handle_event(CollectorEvent::Message(id(8), plain(vec![], b"c"))).unwrap();
    assert_eq!(collector.cached_milestone(&id(7)), None);
    assert_eq!(collector.cached_milestone(&id(8)), Some(500));
    let meta = metadata(id(7), Some(500));
    let effects = collector.handle_event(CollectorEvent::MessageReferenced(meta.clone())).unwrap();
    let mut expected = vec![Effect::Solidifier {
        solidifier_id: 0,
        event: SolidifierEvent::Message(FullMessage(body, meta.clone())),
    }];
    expected.extend(parent_rows(
        atomic(500, id(7)),
        id(7),
        &[id(1)],
        500,
        Some(LedgerInclusionState::NoTransaction),
    ));
    expected.push(Effect::Insert {
        worker: atomic(500, id(7)),
        row: Row::Message { message_id: id(7), message: b"b".to_vec(), metadata: Some(meta) },
    });
    assert_eq!(effects, expected);
    assert_eq!(collector.pending_len(), 0);
}

#[test]
fn older_pending_requests_become_network_requests() {
    let mut collector = collector(10, 10, vec![5, 6]);
    set_estimate(&mut collector, 500);
    for n in [7u8, 8, 9] {
        collector.handle_event(CollectorEvent::Message(id(n), plain(vec![], b"b"))).unwrap();
    }
    collector
        .handle_event(CollectorEvent::Ask(AskCollector::FullMessage(0, 500, id(7))))
        .unwrap();
    collector
        .handle_event(CollectorEvent::Ask(AskCollector::FullMessage(0, 504, id(8))))
        .unwrap();
    collector
        .handle_event(CollectorEvent::Ask(AskCollector::FullMessage(0, 499, id(9))))
        .unwrap();
    assert_eq!(collector.pending_len(), 3);
    let effects = collector.process_pending_requests(504);
    assert_eq!(
        effects,
        vec![
            Effect::Requester {
                requester_id: 5,
                request: RequesterEvent::RequestFullMessage(id(7), 500),
            },
            Effect::Requester {
                requester_id: 6,
                request: RequesterEvent::RequestFullMessage(id(9), 499),
            },
        ]
    );
    assert_eq!(collector.pending_len(), 1);
    assert!(collector.process_pending_requests(504).is_empty());
    assert_eq!(collector.process_pending_requests(505).len(), 1);
    assert_eq!(collector.pending_len(), 0);
}

#[test]
fn answer_of_a_requester_with_the_right_message() {
    let mut collector = collector(10, 10, vec![5]);
    collector.request_full_message(id(7), 30);
    assert_eq!(collector.requesters(), &vec![RequesterHandle { id: 5, load: 1 }]);
    let body = plain(vec![id(1)], b"b");
    let meta = metadata(id(7), Some(30));
    let effects = collector
        .handle_event(CollectorEvent::MessageAndMeta(
            5,
            30,
            Some(id(7)),
            Some(FullMessage(body.clone(), meta.clone())),
        ))
        .unwrap();
    let mut expected = vec![Effect::Solidifier {
        solidifier_id: 2,
        event: SolidifierEvent::Message(FullMessage(body, meta.clone())),
    }];
    expected.extend(parent_rows(
        atomic(30, id(7)),
        id(7),
        &[id(1)],
        30,
        Some(LedgerInclusionState::NoTransaction),
    ));
    expected.push(Effect::Insert {
        worker: atomic(30, id(7)),
        row: Row::Message { message_id: id(7), message: b"b".to_vec(), metadata: Some(meta) },
    });
    assert_eq!(effects, expected);
    assert_eq!(collector.requesters(), &vec![RequesterHandle { id: 5, load: 0 }]);
    assert_eq!(collector.cached_milestone(&id(7)), Some(30));
    // an answer moves neither the milestone noted last nor the estimate
    assert_eq!(collector.ref_ms(), 0);
    assert_eq!(collector.est_ms(), 0);
}

#[test]
fn answer_of_a_requester_corrects_an_estimate() {
    let mut collector = collector(10, 10, vec![5]);
    set_estimate(&mut collector, 500);
    let body = plain(vec![id(1)], b"b");
    collector.handle_event(CollectorEvent::Message(id(7), body.clone())).unwrap();
    let meta = metadata(id(7), Some(30));
    let effects = collector
        .handle_event(CollectorEvent::MessageAndMeta(
            5,
            30,
            Some(id(7)),
            Some(FullMessage(body, meta)),
        ))
        .unwrap();
    assert_eq!(
        effects[1],
        Effect::Delete {
            key: DeleteKey::Parent {
                parent_id: id(1),
                partition_id: partition(500),
                milestone_index: 500,
                message_id: id(7),
            },
            retries: 9,
        }
    );
    let first_insert = effects.iter().position(|e| matches!(e, Effect::Insert { .. })).unwrap();
    let last_delete = effects.iter().rposition(|e| matches!(e, Effect::Delete { .. })).unwrap();
    assert!(last_delete < first_insert);
    assert_eq!(collector.cached_milestone(&id(7)), Some(30));
}

#[test]
fn answer_of_a_requester_with_a_message_of_another_milestone() {
    let mut collector = collector(10, 10, vec![5]);
    let body = plain(vec![id(1)], b"b");
    for referenced in [Some(31), None] {
        let effects = collector
            .handle_event(CollectorEvent::MessageAndMeta(
                5,
                30,
                Some(id(7)),
                Some(FullMessage(body.clone(), metadata(id(7), referenced))),
            ))
            .unwrap();
        assert_eq!(
            effects,
            vec![Effect::Solidifier { solidifier_id: 2, event: SolidifierEvent::Close(id(7), 30) }]
        );
        assert_eq!(collector.cached_milestone(&id(7)), None);
        assert_eq!(collector.ref_ms(), 0);
    }
}

#[test]
fn answer_of_a_requester_without_message() {
    let mut collector = collector(10, 10, vec![5]);
    let effects =
        collector.handle_event(CollectorEvent::MessageAndMeta(5, 30, Some(id(7)), None)).unwrap();
    assert_eq!(
        effects,
        vec![Effect::Solidifier { solidifier_id: 2, event: SolidifierEvent::Solidify(Err(30)) }]
    );
    assert_eq!(collector.send_err_solidifiy(33), Effect::Solidifier {
        solidifier_id: 1,
        event: SolidifierEvent::Solidify(Err(33)),
    });
}

#[test]
fn answer_of_a_requester_without_identifier_is_refused() {
    let mut collector = collector(10, 10, vec![5]);
    collector.request_milestone_message(3);
    let result = collector.handle_event(CollectorEvent::MessageAndMeta(
        5,
        30,
        None,
        Some(FullMessage(plain(vec![], b"b"), metadata(id(7), Some(30)))),
    ));
    assert_eq!(result, Err(CollectorError::MissingMessageId));
    // the requester's load was taken down all the same
    assert_eq!(collector.requesters(), &vec![RequesterHandle { id: 5, load: 0 }]);
}

#[test]
fn loads_of_requesters() {
    let mut collector = collector(10, 10, vec![1, 2, 3]);
    for n in 0..5u32 {
        collector.request_milestone_message(n);
    }
    assert_eq!(
        collector.requesters(),
        &vec![
            RequesterHandle { id: 1, load: 2 },
            RequesterHandle { id: 2, load: 2 },
            RequesterHandle { id: 3, load: 1 },
        ]
    );
    collector.adjust_heap(2);
    collector.adjust_heap(2);
    collector.adjust_heap(2);
    collector.adjust_heap(9);
    assert_eq!(
        collector.requesters(),
        &vec![
            RequesterHandle { id: 1, load: 2 },
            RequesterHandle { id: 2, load: 0 },
            RequesterHandle { id: 3, load: 1 },
        ]
    );
    assert_eq!(
        collector.request_full_message(id(1), 5),
        vec![Effect::Requester {
            requester_id: 2,
            request: RequesterEvent::RequestFullMessage(id(1), 5),
        }]
    );
}

#[test]
fn shutdown_shuts_the_requesters_down() {
    let mut collector = collector(10, 10, vec![1, 2]);
    let effects = collector.handle_event(CollectorEvent::Shutdown).unwrap();
    assert_eq!(
        effects,
        vec![Effect::Shutdown { requester_id: 1 }, Effect::Shutdown { requester_id: 2 }]
    );
    assert!(collector.is_shut_down());
    assert!(collector.requesters().is_empty());
    // nothing is requested any more
    assert!(collector.request_milestone_message(3).is_empty());
    let effects = collector
        .handle_event(CollectorEvent::Ask(AskCollector::FullMessage(1, 12, id(7))))
        .unwrap();
    assert!(effects.is_empty());
}

#[test]
fn least_recently_used_message_makes_room() {
    let mut collector = collector(2, 10, vec![]);
    for n in [1u8, 2] {
        collector.handle_event(CollectorEvent::Message(id(n), plain(vec![], b"b"))).unwrap();
    }
    // message 1 is used again, so message 2 is the least recently used
    assert!(collector
        .handle_event(CollectorEvent::Message(id(1), plain(vec![], b"b")))
        .unwrap()
        .is_empty());
    collector.handle_event(CollectorEvent::Message(id(3), plain(vec![], b"b"))).unwrap();
    assert_eq!(collector.cached_milestone(&id(1)), Some(0));
    assert_eq!(collector.cached_milestone(&id(2)), None);
    assert_eq!(collector.cached_milestone(&id(3)), Some(0));
    // message 2 is written again when it comes again
    assert!(!collector
        .handle_event(CollectorEvent::Message(id(2), plain(vec![], b"b")))
        .unwrap()
        .is_empty());
    assert_eq!(collector.cached_milestone(&id(1)), None);
}

#[test]
fn least_recently_used_metadata_makes_room() {
    let mut collector = collector(10, 1, vec![]);
    collector.handle_event(CollectorEvent::MessageReferenced(metadata(id(1), Some(5)))).unwrap();
    collector.handle_event(CollectorEvent::MessageReferenced(metadata(id(2), Some(6)))).unwrap();
    // the metadata of message 1 is gone, so it is handled again
    assert!(!collector
        .handle_event(CollectorEvent::MessageReferenced(metadata(id(1), Some(5))))
        .unwrap()
        .is_empty());
    // that of message 1 is now cached, so it is not
    assert!(collector
        .handle_event(CollectorEvent::MessageReferenced(metadata(id(1), Some(5))))
        .unwrap()
        .is_empty());
}

#[test]
fn a_message_never_has_two_cache_entries() {
    // if a second entry were made for message 1, three writes would fill a
    // cache of three and drive message 2 out
    let mut collector = collector(3, 3, vec![5]);
    collector.handle_event(CollectorEvent::Message(id(2), plain(vec![], b"b"))).unwrap();
    collector.handle_event(CollectorEvent::Message(id(1), plain(vec![], b"b"))).unwrap();
    for ms in [10u32, 11, 12] {
        collector
            .handle_event(CollectorEvent::MessageAndMeta(
                5,
                ms,
                Some(id(1)),
                Some(FullMessage(plain(vec![], b"b"), metadata(id(1), Some(ms)))),
            ))
            .unwrap();
        assert_eq!(collector.cached_milestone(&id(1)), Some(ms));
    }
    assert_eq!(collector.cached_milestone(&id(2)), Some(0));
}

fn transaction() -> TransactionPayload {
    TransactionPayload {
        id: TransactionId([9; 32]),
        inputs: vec![
            Input::Utxo { transaction_id: TransactionId([1; 32]), index: 4 },
            Input::Treasury { milestone_id: [2; 32] },
        ],
        outputs: vec![
            Output::SignatureLockedSingle {
                address: Address::Ed25519(Ed25519Address([3; 32])),
                amount: 70,
            },
            Output::Treasury { amount: 5 },
            Output::SignatureLockedDustAllowance { address: Address::Other, amount: 1 },
            Output::SignatureLockedDustAllowance {
                address: Address::Ed25519(Ed25519Address([4; 32])),
                amount: 2,
            },
        ],
        unlock_blocks: vec![
            UnlockBlock::Signature { public_key: [5; 32], signature: [6; 64] },
            UnlockBlock::Reference(0),
        ],
        indexation: Some(vec![0x0f, 0xa0]),
    }
}

fn transaction_rows(worker: WorkerKind, ms: u32, confirmed: Option<u32>) -> Vec<Effect> {
    let tx = transaction();
    let state = confirmed.map(|_| LedgerInclusionState::Included);
    let insert = |row| Effect::Insert { worker, row };
    vec![
        insert(Row::Input {
            transaction_id: tx.id,
            index: 0,
            message_id: id(7),
            input: tx.inputs[0],
            unlock_block: Some(tx.unlock_blocks[0]),
            inclusion_state: state,
            milestone_index: confirmed,
        }),
        insert(Row::Unlock {
            transaction_id: TransactionId([1; 32]),
            index: 4,
            message_id: id(7),
            spent_by: tx.id,
            input_index: 0,
            unlock_block: tx.unlock_blocks[0],
            inclusion_state: state,
            milestone_index: confirmed,
        }),
        insert(Row::Input {
            transaction_id: tx.id,
            index: 1,
            message_id: id(7),
            input: tx.inputs[1],
            unlock_block: None,
            inclusion_state: state,
            milestone_index: confirmed,
        }),
        insert(Row::Output {
            transaction_id: tx.id,
            index: 0,
            message_id: id(7),
            output: tx.outputs[0],
            inclusion_state: state,
            milestone_index: confirmed,
        }),
        insert(Row::Address {
            address: Ed25519Address([3; 32]),
            partition_id: partition(ms),
            milestone_index: ms,
            output_type: 0,
            transaction_id: tx.id,
            index: 0,
            amount: 70,
            inclusion_state: state,
        }),
        insert(Row::Hint {
            hint: Hint::Address(Ed25519Address([3; 32])),
            partition_id: partition(ms),
            milestone_index: ms,
        }),
        insert(Row::Output {
            transaction_id: tx.id,
            index: 1,
            message_id: id(7),
            output: tx.outputs[1],
            inclusion_state: state,
            milestone_index: confirmed,
        }),
        insert(Row::Output {
            transaction_id: tx.id,
            index: 2,
            message_id: id(7),
            output: tx.outputs[2],
            inclusion_state: state,
            milestone_index: confirmed,
        }),
        insert(Row::Output {
            transaction_id: tx.id,
            index: 3,
            message_id: id(7),
            output: tx.outputs[3],
            inclusion_state: state,
            milestone_index: confirmed,
        }),
        insert(Row::Address {
            address: Ed25519Address([4; 32]),
            partition_id: partition(ms),
            milestone_index: ms,
            output_type: 1,
            transaction_id: tx.id,
            index: 3,
            amount: 2,
            inclusion_state: state,
        }),
        insert(Row::Hint {
            hint: Hint::Address(Ed25519Address([4; 32])),
            partition_id: partition(ms),
            milestone_index: ms,
        }),
        insert(Row::Index {
            key: "0fa0".to_owned(),
            partition_id: partition(ms),
            milestone_index: ms,
            message_id: id(7),
            inclusion_state: state,
        }),
        insert(Row::Hint {
            hint: Hint::Index("0fa0".to_owned()),
            partition_id: partition(ms),
            milestone_index: ms,
        }),
    ]
}

#[test]
fn rows_of_a_transaction() {
    let collector = collector(10, 10, vec![]);
    let worker = chronicle_broker::store::SimpleWorker { retries: 5 };
    let effects = collector.insert_transaction(&worker, &id(7), &transaction(), None, 123);
    assert_eq!(effects, transaction_rows(simple(), 123, None));
    let worker = chronicle_broker::store::AtomicWorker::new(3, 123, id(7), 9);
    let effects = collector.insert_transaction(
        &worker,
        &id(7),
        &transaction(),
        Some(LedgerInclusionState::Included),
        123,
    );
    assert_eq!(effects, transaction_rows(atomic(123, id(7)), 123, Some(123)));
}

#[test]
fn message_with_transaction_is_fanned_out() {
    let mut collector = collector(10, 10, vec![]);
    set_estimate(&mut collector, 77);
    let message = Message {
        parents: vec![id(1)],
        payload: Some(Payload::Transaction(transaction())),
        raw: b"tx".to_vec(),
    };
    let effects = collector.handle_event(CollectorEvent::Message(id(7), message)).unwrap();
    let mut expected = vec![Effect::Insert {
        worker: simple(),
        row: Row::Message { message_id: id(7), message: b"tx".to_vec(), metadata: None },
    }];
    expected.extend(parent_rows(simple(), id(7), &[id(1)], 77, None));
    expected.extend(transaction_rows(simple(), 77, None));
    assert_eq!(effects, expected);
}

#[test]
fn wrong_estimate_of_a_transaction_is_cleaned_up() {
    let collector = collector(10, 10, vec![]);
    let message = Message {
        parents: vec![id(1), id(2)],
        payload: Some(Payload::Transaction(transaction())),
        raw: b"tx".to_vec(),
    };
    let effects = collector.clean_up_wrong_est_msg(&id(7), &message, 500);
    let delete = |key| Effect::Delete { key, retries: 9 };
    assert_eq!(
        effects,
        vec![
            delete(DeleteKey::Parent {
                parent_id: id(1),
                partition_id: partition(500),
                milestone_index: 500,
                message_id: id(7),
            }),
            delete(DeleteKey::Parent {
                parent_id: id(2),
                partition_id: partition(500),
                milestone_index: 500,
                message_id: id(7),
            }),
            delete(DeleteKey::Index {
                key: "0fa0".to_owned(),
                partition_id: partition(500),
                milestone_index: 500,
                message_id: id(7),
            }),
            delete(DeleteKey::Address {
                address: Ed25519Address([3; 32]),
                partition_id: partition(500),
                milestone_index: 500,
                output_type: 0,
                transaction_id: TransactionId([9; 32]),
                index: 0,
            }),
            delete(DeleteKey::Address {
                address: Ed25519Address([4; 32]),
                partition_id: partition(500),
                milestone_index: 500,
                output_type: 1,
                transaction_id: TransactionId([9; 32]),
                index: 3,
            }),
        ]
    );
}

#[test]
fn wrong_estimate_of_an_indexation_is_cleaned_up() {
    let collector = collector(10, 10, vec![]);
    let message = Message {
        parents: vec![],
        payload: Some(Payload::Indexation(b"Hello world!".to_vec())),
        raw: b"ix".to_vec(),
    };
    assert_eq!(
        collector.clean_up_wrong_est_msg(&id(7), &message, 21),
        vec![Effect::Delete {
            key: DeleteKey::Index {
                key: "48656c6c6f20776f726c6421".to_owned(),
                partition_id: 2,
                milestone_index: 21,
                message_id: id(7),
            },
            retries: 9,
        }]
    );
    assert_eq!(
        collector.delete_indexation(&id(7), "ab".to_owned(), 21),
        vec![Effect::Delete {
            key: DeleteKey::Index {
                key: "ab".to_owned(),
                partition_id: 2,
                milestone_index: 21,
                message_id: id(7),
            },
            retries: 9,
        }]
    );
}

#[test]
fn indexation_is_filed_under_its_hex_key() {
    let mut collector = collector(10, 10, vec![]);
    let message = Message {
        parents: vec![],
        payload: Some(Payload::Indexation(vec![1, 2, 3, 15, 16, 255])),
        raw: b"ix".to_vec(),
    };
    let effects = collector.handle_event(CollectorEvent::Message(id(7), message)).unwrap();
    assert_eq!(
        &effects[1..],
        &[
            Effect::Insert {
                worker: simple(),
                row: Row::Index {
                    key: "0102030f10ff".to_owned(),
                    partition_id: 0,
                    milestone_index: 0,
                    message_id: id(7),
                    inclusion_state: None,
                },
            },
            Effect::Insert {
                worker: simple(),
                row: Row::Hint {
                    hint: Hint::Index("0102030f10ff".to_owned()),
                    partition_id: 0,
                    milestone_index: 0,
                },
            },
        ]
    );
}

#[test]
fn milestone_is_announced_when_its_message_is_known_with_metadata() {
    let mut collector = collector(10, 10, vec![]);
    let milestone = MilestonePayload { index: 42, timestamp: 1_600_000_000, parents: vec![id(1)] };
    let message = Message {
        parents: vec![id(1)],
        payload: Some(Payload::Milestone(milestone.clone())),
        raw: b"ms".to_vec(),
    };
    // without metadata nothing is announced
    let effects = collector.handle_event(CollectorEvent::Message(id(7), message.clone())).unwrap();
    assert_eq!(effects.len(), 3);
    let meta = metadata(id(7), Some(42));
    let effects = collector.handle_event(CollectorEvent::MessageReferenced(meta.clone())).unwrap();
    let announced = Effect::Solidifier {
        solidifier_id: 2,
        event: SolidifierEvent::Milestone(MilestoneMessage {
            message_id: id(7),
            milestone,
            message: message.clone(),
            metadata: Some(meta),
        }),
    };
    assert!(effects.contains(&announced));
    assert!(effects.contains(&Effect::Insert {
        worker: atomic(42, id(7)),
        row: Row::Milestone { milestone_index: 42, message_id: id(7), timestamp: 1_600_000_000 },
    }));
}

#[test]
fn milestone_with_other_parents_is_not_announced() {
    let collector = collector(10, 10, vec![]);
    let milestone = MilestonePayload { index: 42, timestamp: 1, parents: vec![id(2)] };
    let message = Message {
        parents: vec![id(1)],
        payload: Some(Payload::Milestone(milestone.clone())),
        raw: b"ms".to_vec(),
    };
    let worker = chronicle_broker::store::SimpleWorker { retries: 5 };
    let effects = collector.insert_payload(
        &worker,
        &id(7),
        &message,
        &Payload::Milestone(milestone),
        42,
        None,
        Some(metadata(id(7), Some(42))),
    );
    assert!(effects.is_empty());
    let effects = collector.insert_payload(&worker, &id(7), &message, &Payload::Other, 42, None, None);
    assert!(effects.is_empty());
}

#[test]
fn partitions_and_solidifiers() {
    let collector = collector(10, 10, vec![]);
    assert_eq!(collector.get_partition_id(0), 0);
    assert_eq!(collector.get_partition_id(9), 0);
    assert_eq!(collector.get_partition_id(10), 1);
    assert_eq!(collector.get_partition_id(69), 6);
    assert_eq!(collector.get_partition_id(70), 0);
    assert_eq!(collector.get_partition_id(497), 0);
    assert_eq!(collector.get_partition_id(500), 1);
    assert_eq!(collector.clone_solidifier_handle(497), 1);
    assert_eq!(collector.clone_solidifier_handle(8), 0);
    let standard = PartitionConfig::default();
    assert_eq!((standard.partition_count, standard.milestone_chunk_size), (1000, 60480));
    assert_eq!(standard.partition_id(60479), 0);
    assert_eq!(standard.partition_id(60480), 1);
    assert_eq!(standard.partition_id(60_480_000), 0);
    assert!(PartitionConfig::new(0, 1).is_none());
    assert!(PartitionConfig::new(1, 0).is_none());
    assert_eq!(
        PartitionConfig::new(3, 2),
        Some(PartitionConfig { partition_count: 3, milestone_chunk_size: 2 })
    );
}

#[test]
fn messages_for_solidifiers() {
    let collector = collector(10, 10, vec![]);
    let body = plain(vec![], b"b");
    let meta = metadata(id(7), Some(1));
    assert_eq!(
        collector.push_fullmsg_to_solidifier(3, body.clone(), meta.clone()),
        vec![Effect::Solidifier {
            solidifier_id: 3,
            event: SolidifierEvent::Message(FullMessage::new(body.clone(), meta.clone())),
        }]
    );
    assert!(collector.push_fullmsg_to_solidifier(4, body, meta).is_empty());
    assert_eq!(
        collector.push_close_to_solidifier(0, id(7), 8),
        vec![Effect::Solidifier { solidifier_id: 0, event: SolidifierEvent::Close(id(7), 8) }]
    );
    assert!(collector.push_close_to_solidifier(200, id(7), 8).is_empty());
}

#[test]
fn single_rows() {
    let collector = collector(10, 10, vec![]);
    let worker = chronicle_broker::store::SimpleWorker { retries: 2 };
    let kind = WorkerKind::Simple { retries: 2 };
    let tx = TransactionId([9; 32]);
    assert_eq!(
        collector.insert(&worker, Row::Milestone { milestone_index: 1, message_id: id(2), timestamp: 3 }),
        Effect::Insert {
            worker: kind,
            row: Row::Milestone { milestone_index: 1, message_id: id(2), timestamp: 3 },
        }
    );
    assert_eq!(
        collector.insert_index(&worker, &id(7), "beef".to_owned(), 25, None),
        vec![
            Effect::Insert {
                worker: kind,
                row: Row::Index {
                    key: "beef".to_owned(),
                    partition_id: 2,
                    milestone_index: 25,
                    message_id: id(7),
                    inclusion_state: None,
                },
            },
            Effect::Insert {
                worker: kind,
                row: Row::Hint {
                    hint: Hint::Index("beef".to_owned()),
                    partition_id: 2,
                    milestone_index: 25,
                },
            },
        ]
    );
    assert!(collector
        .insert_address(&worker, &Output::Treasury { amount: 1 }, &tx, 0, 25, None)
        .is_empty());
    assert!(collector.delete_address(&Output::Treasury { amount: 1 }, &tx, 0, 25).is_empty());
    assert_eq!(
        collector.delete_address(
            &Output::SignatureLockedSingle {
                address: Address::Ed25519(Ed25519Address([3; 32])),
                amount: 1,
            },
            &tx,
            6,
            25
        ),
        vec![Effect::Delete {
            key: DeleteKey::Address {
                address: Ed25519Address([3; 32]),
                partition_id: 2,
                milestone_index: 25,
                output_type: 0,
                transaction_id: tx,
                index: 6,
            },
            retries: 9,
        }]
    );
    assert_eq!(
        collector.delete_parents(&id(7), &vec![id(1)], 25),
        vec![collector.delete(DeleteKey::Parent {
            parent_id: id(1),
            partition_id: 2,
            milestone_index: 25,
            message_id: id(7),
        })]
    );
    assert_eq!(Output::Treasury { amount: 1 }.kind(), 2);
}

#[test]
fn identifiers_compare_by_their_bytes() {
    let mut bytes = [7u8; 32];
    assert!(MessageId(bytes) == id(7));
    bytes[31] = 8;
    assert!(MessageId(bytes) != id(7));
    assert!(chronicle_broker::ids::same_bytes(&[1; 32], &[1; 32]));
    assert!(!chronicle_broker::ids::same_bytes(&[1; 32], &bytes));
    assert!(chronicle_broker::fanout::same_ids(&vec![id(1), id(2)], &vec![id(1), id(2)]));
    assert!(!chronicle_broker::fanout::same_ids(&vec![id(1), id(2)], &vec![id(1)]));
    assert!(!chronicle_broker::fanout::same_ids(&vec![id(1), id(2)], &vec![id(1), id(3)]));
}

#[test]
fn estimate_never_falls_below_the_milestone_noted_last() {
    let mut collector = collector(10, 10, vec![5]);
    collector.handle_event(CollectorEvent::MessageReferenced(metadata(id(1), Some(5)))).unwrap();
    collector.handle_event(CollectorEvent::MessageReferenced(metadata(id(2), Some(10)))).unwrap();
    assert_eq!((collector.ref_ms(), collector.est_ms()), (10, 11));
    // the body of the first message comes late: its rows go under 5
    let effects =
        collector.handle_event(CollectorEvent::Message(id(1), plain(vec![id(3)], b"a"))).unwrap();
    assert!(effects.contains(&Effect::Insert {
        worker: atomic(5, id(1)),
        row: Row::Parent {
            parent_id: id(3),
            partition_id: partition(5),
            milestone_index: 5,
            message_id: id(1),
            inclusion_state: Some(LedgerInclusionState::NoTransaction),
        },
    }));
    assert_eq!(collector.cached_milestone(&id(1)), Some(5));
    assert_eq!((collector.ref_ms(), collector.est_ms()), (10, 11));
    // neither does an answer of a requester move them
    collector
        .handle_event(CollectorEvent::MessageAndMeta(
            5,
            7,
            Some(id(4)),
            Some(FullMessage(plain(vec![], b"b"), metadata(id(4), Some(7)))),
        ))
        .unwrap();
    assert_eq!(collector.cached_milestone(&id(4)), Some(7));
    assert_eq!((collector.ref_ms(), collector.est_ms()), (10, 11));
    // older metadata lowers the milestone noted last, never the estimate
    collector.handle_event(CollectorEvent::MessageReferenced(metadata(id(6), Some(8)))).unwrap();
    assert_eq!((collector.ref_ms(), collector.est_ms()), (8, 11));
}

#[test]
fn insert_message_leaves_the_estimate() {
    let mut collector = collector(10, 10, vec![]);
    collector.handle_event(CollectorEvent::MessageReferenced(metadata(id(1), Some(5)))).unwrap();
    collector.handle_event(CollectorEvent::MessageReferenced(metadata(id(2), Some(10)))).unwrap();
    let effects = collector.insert_message(&id(1), &plain(vec![], b"a"));
    assert_eq!(
        effects,
        vec![Effect::Insert {
            worker: atomic(5, id(1)),
            row: Row::Message {
                message_id: id(1),
                message: b"a".to_vec(),
                metadata: Some(metadata(id(1), Some(5))),
            },
        }]
    );
    assert_eq!((collector.ref_ms(), collector.est_ms()), (10, 11));
    // with metadata, the rows go under the milestone that the metadata names
    let effects =
        collector.insert_message_with_metadata(id(3), plain(vec![], b"c"), metadata(id(3), Some(7)));
    assert_eq!(
        effects,
        vec![Effect::Insert {
            worker: atomic(7, id(3)),
            row: Row::Message {
                message_id: id(3),
                message: b"c".to_vec(),
                metadata: Some(metadata(id(3), Some(7))),
            },
        }]
    );
    // and under the milestone noted last if it names none
    let effects =
        collector.insert_message_with_metadata(id(3), plain(vec![], b"c"), metadata(id(3), None));
    assert_eq!(
        effects,
        vec![Effect::Insert {
            worker: atomic(10, id(3)),
            row: Row::Message {
                message_id: id(3),
                message: b"c".to_vec(),
                metadata: Some(metadata(id(3), None)),
            },
        }]
    );
}

#[test]
fn endpoints_take_turns() {
    let mut collector = collector(10, 10, vec![5]);
    assert_eq!(
        collector.request_milestone_message(3),
        vec![Effect::Requester { requester_id: 5, request: RequesterEvent::RequestMilestone(3) }]
    );
    assert_eq!(
        collector.api_endpoints(),
        &endpoints(&["https://c/api/v1", "https://a/api/v1", "https://b/api/v1"])
    );
    collector.handle_event(CollectorEvent::Ask(AskCollector::MilestoneMessage(4))).unwrap();
    assert_eq!(
        collector.api_endpoints(),
        &endpoints(&["https://b/api/v1", "https://c/api/v1", "https://a/api/v1"])
    );
    // a request for a message leaves them
    collector.request_full_message(id(1), 4);
    assert_eq!(collector.api_endpoints().len(), 3);
    assert_eq!(collector.api_endpoints()[0], "https://b/api/v1");
}

#[test]
fn milestone_request_without_endpoint_is_refused() {
    let mut collector = Collector::new(
        config(),
        1,
        1,
        ChronicleKeyspace::new("chronicle".to_owned()),
        endpoints(&[]),
        vec![5],
    )
    .unwrap();
    let result = collector.handle_event(CollectorEvent::Ask(AskCollector::MilestoneMessage(4)));
    assert_eq!(result, Err(CollectorError::NoEndpoint));
    assert_eq!(collector.requesters(), &vec![RequesterHandle { id: 5, load: 0 }]);
}

#[test]
fn hashed_index_is_filed_under_its_hash() {
    let collector = collector(10, 10, vec![]);
    let worker = chronicle_broker::store::SimpleWorker { retries: 2 };
    let kind = WorkerKind::Simple { retries: 2 };
    assert_eq!(
        collector.insert_hashed_index(
            &worker,
            &id(7),
            [9; 32],
            25,
            Some(LedgerInclusionState::Included)
        ),
        vec![
            Effect::Insert {
                worker: kind,
                row: Row::HashedIndex {
                    hashed_index: [9; 32],
                    partition_id: 2,
                    milestone_index: 25,
                    message_id: id(7),
                    inclusion_state: Some(LedgerInclusionState::Included),
                },
            },
            Effect::Insert {
                worker: kind,
                row: Row::Hint {
                    hint: Hint::HashedIndex([9; 32]),
                    partition_id: 2,
                    milestone_index: 25,
                },
            },
        ]
    );
}
