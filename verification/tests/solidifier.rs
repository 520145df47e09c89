use chronicle_broker::collector_model::AskCollector;
use chronicle_broker::config::{candidate_paths, target_path, CONFIG_PATH, HISTORICAL_CONFIG_PATH};
use chronicle_broker::effect::{Effect, MilestoneMessage, SolidifierEvent};
use chronicle_broker::ids::MessageId;
use chronicle_broker::lifecycle::{init, init_logger, start_archiver, DirOutcome, Need};
use chronicle_broker::message::{FullMessage, Message, MessageMetadata, MilestonePayload, Payload};
use chronicle_broker::milestone::CreatedBy;
use chronicle_broker::solidifier::{Assembly, Solidifier, SolidifierEffect};
use chronicle_broker::solidifier_model::{PendingMessage, SolidifierConfig};
use chronicle_broker::store::{AtomicSolidifierHandle, AtomicWorker};

fn id(n: u8) -> MessageId {
    MessageId([n; 32])
}

fn solidifier() -> Solidifier {
    Solidifier::new(SolidifierConfig { partition_id: 2, collectors_count: 4, max_retries: 2 })
        .unwrap()
}

fn full(n: u8, parents: Vec<MessageId>, referenced: Option<u32>) -> FullMessage {
    FullMessage(
        Message { parents: parents.clone(), payload: None, raw: vec![n] },
        MessageMetadata {
            message_id: id(n),
            parent_message_ids: parents,
            is_solid: true,
            referenced_by_milestone_index: referenced,
            ledger_inclusion_state: None,
            should_promote: None,
            should_reattach: None,
        },
    )
}

fn milestone(index: u32, n: u8, parents: Vec<MessageId>) -> MilestoneMessage {
    let payload = MilestonePayload { index, timestamp: 0, parents: parents.clone() };
    let FullMessage(mut message, metadata) = full(n, parents, Some(index));
    message.payload = Some(Payload::Milestone(payload.clone()));
    MilestoneMessage { message_id: id(n), milestone: payload, message, metadata: Some(metadata) }
}

fn ask(ms: u32, n: u8) -> SolidifierEffect {
    SolidifierEffect::Ask { collector_id: 2, ask: AskCollector::FullMessage(2, ms, id(n)) }
}

fn done(ms: u32, n: u8) -> SolidifierEvent {
    SolidifierEvent::CqlResult { milestone_index: ms, message_id: id(n), ok: true }
}

#[test]
fn partition_must_be_one_of_the_partitions() {
    assert!(Solidifier::new(SolidifierConfig { partition_id: 4, collectors_count: 4, max_retries: 0 })
        .is_none());
    assert!(Solidifier::new(SolidifierConfig { partition_id: 0, collectors_count: 0, max_retries: 0 })
        .is_none());
    let s = solidifier();
    assert!(s.assemblies().is_empty());
    assert!(s.owns(6));
    assert!(!s.owns(7));
}

#[test]
fn milestone_opens_an_assembly_and_seeds_it() {
    let mut s = solidifier();
    let effects =
        s.handle_event(SolidifierEvent::Milestone(milestone(6, 60, vec![id(1), id(2), id(1)])));
    assert_eq!(effects, vec![ask(6, 1), ask(6, 2)]);
    assert_eq!(s.assemblies().len(), 1);
    let assembly = &s.assemblies()[0];
    assert_eq!(assembly.milestone_index, 6);
    assert_eq!(assembly.created_by, CreatedBy::Incoming);
    assert!(assembly.milestone.is_some());
    assert_eq!(
        assembly.pending,
        vec![
            PendingMessage { message_id: id(1), retries: 0 },
            PendingMessage { message_id: id(2), retries: 0 },
        ]
    );
    assert!(assembly.is_pending(&id(1)));
    assert!(!assembly.has_message(&id(1)));
    assert!(!assembly.is_complete());
}

#[test]
fn events_of_other_partitions_are_ignored() {
    let mut s = solidifier();
    assert!(s.handle_event(SolidifierEvent::Milestone(milestone(7, 60, vec![id(1)]))).is_empty());
    assert!(s.handle_event(SolidifierEvent::Message(full(1, vec![], Some(7)))).is_empty());
    assert!(s.handle_event(SolidifierEvent::Message(full(1, vec![], None))).is_empty());
    assert!(s.handle_event(SolidifierEvent::Solidify(Ok(5))).is_empty());
    assert!(s.handle_event(SolidifierEvent::Close(id(1), 6)).is_empty());
    assert!(s.handle_event(done(6, 1)).is_empty());
    assert!(s.assemblies().is_empty());
}

#[test]
fn milestone_becomes_solid() {
    let mut s = solidifier();
    assert_eq!(
        s.handle_event(SolidifierEvent::Milestone(milestone(6, 60, vec![id(1)]))),
        vec![ask(6, 1)]
    );
    // message 1 arrives and names a parent that is not known yet
    assert_eq!(
        s.handle_event(SolidifierEvent::Message(full(1, vec![id(3)], Some(6)))),
        vec![ask(6, 3)]
    );
    // message 3 arrives; its parent is resolved already
    assert_eq!(s.handle_event(SolidifierEvent::Message(full(3, vec![id(1)], Some(6)))), vec![]);
    // the same message again changes nothing
    assert_eq!(s.handle_event(SolidifierEvent::Message(full(3, vec![id(1)], Some(6)))), vec![]);
    assert_eq!(s.assemblies()[0].messages.len(), 2);
    assert!(s.assemblies()[0].pending.is_empty());
    // the writes are reported one by one
    assert_eq!(s.handle_event(done(6, 1)), vec![]);
    assert_eq!(s.handle_event(done(6, 1)), vec![]);
    assert_eq!(s.assemblies()[0].acknowledged, vec![id(1)]);
    assert_eq!(
        s.handle_event(done(6, 3)),
        vec![
            SolidifierEffect::Archive {
                milestone_index: 6,
                created_by: CreatedBy::Incoming,
                messages: vec![full(1, vec![id(3)], Some(6)), full(3, vec![id(1)], Some(6))],
            },
            SolidifierEffect::Sync { milestone_index: 6, synced_by: 2 },
        ]
    );
    // the assembly is closed
    assert!(s.assemblies().is_empty());
    assert_eq!(s.handle_event(done(6, 3)), vec![]);
}

#[test]
fn messages_may_come_before_the_milestone() {
    let mut s = solidifier();
    assert_eq!(s.handle_event(SolidifierEvent::Message(full(1, vec![], Some(10)))), vec![]);
    assert_eq!(s.handle_event(done(10, 1)), vec![]);
    // nothing is handed on before the milestone is known
    assert_eq!(s.assemblies().len(), 1);
    assert!(s.assemblies()[0].milestone.is_none());
    let effects = s.handle_event(SolidifierEvent::Milestone(milestone(10, 60, vec![id(1)])));
    assert_eq!(
        effects,
        vec![
            SolidifierEffect::Archive {
                milestone_index: 10,
                created_by: CreatedBy::Incoming,
                messages: vec![full(1, vec![], Some(10))],
            },
            SolidifierEffect::Sync { milestone_index: 10, synced_by: 2 },
        ]
    );
}

#[test]
fn failed_writes_keep_the_milestone_back() {
    let mut s = solidifier();
    s.handle_event(SolidifierEvent::Milestone(milestone(6, 60, vec![id(1)])));
    s.handle_event(SolidifierEvent::Message(full(1, vec![], Some(6))));
    let failed = SolidifierEvent::CqlResult { milestone_index: 6, message_id: id(1), ok: false };
    assert_eq!(s.handle_event(failed), vec![]);
    assert!(s.assemblies()[0].error);
    assert_eq!(s.handle_event(done(6, 1)), vec![]);
    assert_eq!(s.assemblies().len(), 1);
}

#[test]
fn refused_question_is_asked_again_a_few_times() {
    let mut s = solidifier();
    s.handle_event(SolidifierEvent::Milestone(milestone(6, 60, vec![id(1)])));
    // a message that is not pending
    assert_eq!(s.handle_event(SolidifierEvent::Close(id(9), 6)), vec![]);
    assert_eq!(s.handle_event(SolidifierEvent::Close(id(1), 6)), vec![ask(6, 1)]);
    assert_eq!(s.handle_event(SolidifierEvent::Close(id(1), 6)), vec![ask(6, 1)]);
    assert_eq!(
        s.assemblies()[0].pending,
        vec![PendingMessage { message_id: id(1), retries: 2 }]
    );
    // the third refusal is one too many
    assert_eq!(
        s.handle_event(SolidifierEvent::Close(id(1), 6)),
        vec![SolidifierEffect::Failed { milestone_index: 6 }]
    );
    assert!(s.assemblies().is_empty());
}

#[test]
fn solidify_for_the_back_fill() {
    let mut s = solidifier();
    assert_eq!(
        s.handle_event(SolidifierEvent::Solidify(Ok(14))),
        vec![SolidifierEffect::Ask { collector_id: 2, ask: AskCollector::MilestoneMessage(14) }]
    );
    assert_eq!(s.assemblies()[0].created_by, CreatedBy::Syncer);
    // asking twice opens nothing new
    assert_eq!(s.handle_event(SolidifierEvent::Solidify(Ok(14))), vec![]);
    assert_eq!(s.assemblies().len(), 1);
    // the message could not be fetched
    assert_eq!(
        s.handle_event(SolidifierEvent::Solidify(Err(14))),
        vec![SolidifierEffect::Failed { milestone_index: 14 }]
    );
    assert!(s.assemblies().is_empty());
    assert_eq!(
        s.handle_event(SolidifierEvent::Solidify(Err(14))),
        vec![SolidifierEffect::Failed { milestone_index: 14 }]
    );
}

#[test]
fn no_milestone_has_two_assemblies() {
    let mut s = solidifier();
    for n in [1u8, 2, 3] {
        s.handle_event(SolidifierEvent::Message(full(n, vec![], Some(6))));
        s.handle_event(SolidifierEvent::Message(full(n, vec![], Some(10))));
        s.handle_event(SolidifierEvent::Milestone(milestone(6, 60, vec![id(n)])));
    }
    let indexes: Vec<u32> = s.assemblies().iter().map(|a| a.milestone_index).collect();
    assert_eq!(indexes, vec![6, 10]);
}

#[test]
fn assembly_by_hand() {
    let mut assembly = Assembly::new(6, CreatedBy::Syncer);
    let config = SolidifierConfig { partition_id: 1, collectors_count: 4, max_retries: 0 };
    let asks = assembly.seed(&config, &vec![id(1), id(2)]);
    assert_eq!(
        asks,
        vec![
            SolidifierEffect::Ask { collector_id: 1, ask: AskCollector::FullMessage(1, 6, id(1)) },
            SolidifierEffect::Ask { collector_id: 1, ask: AskCollector::FullMessage(1, 6, id(2)) },
        ]
    );
    assembly.resolve(full(2, vec![], Some(6)));
    assert!(assembly.has_message(&id(2)));
    assert!(!assembly.is_pending(&id(2)));
    assert!(assembly.is_pending(&id(1)));
    assembly.acknowledge(id(2), true);
    assert!(assembly.is_acknowledged(&id(2)));
    assert!(!assembly.is_acknowledged(&id(1)));
    assembly.acknowledge(id(1), false);
    assert!(assembly.error);
}

#[test]
fn write_group_reports_once() {
    let worker = AtomicWorker::new(3, 7, id(1), 5);
    let mut group = AtomicSolidifierHandle::new(worker, 3);
    assert_eq!(group.complete(true), None);
    assert_eq!(group.complete(true), None);
    assert_eq!(
        group.complete(true),
        Some(Effect::Solidifier {
            solidifier_id: 3,
            event: SolidifierEvent::CqlResult { milestone_index: 7, message_id: id(1), ok: true },
        })
    );
    assert_eq!(group.remaining, 0);
    assert_eq!(group.complete(true), None);
    assert_eq!(group.complete(false), None);
    assert!(!group.any_error);
}

#[test]
fn write_group_reports_a_failure() {
    let worker = AtomicWorker::new(3, 7, id(1), 5);
    let mut group = AtomicSolidifierHandle::new(worker, 2);
    assert_eq!(group.complete(false), None);
    assert_eq!(
        group.complete(true),
        Some(Effect::Solidifier {
            solidifier_id: 3,
            event: SolidifierEvent::CqlResult { milestone_index: 7, message_id: id(1), ok: false },
        })
    );
    let mut empty = AtomicSolidifierHandle::new(worker, 0);
    assert_eq!(empty.complete(true), None);
}

#[test]
fn components_start_or_give_up() {
    assert_eq!(init(Ok(()), true), Ok(()));
    assert_eq!(init(Err(Need::Restart), true), Err(Need::Restart));
    assert_eq!(init(Ok(()), false), Err(Need::Abort));
    assert_eq!(init(Err(Need::Restart), false), Err(Need::Abort));
    assert_eq!(init_logger(DirOutcome::Created), Ok(()));
    assert_eq!(init_logger(DirOutcome::AlreadyExists), Ok(()));
    assert_eq!(init_logger(DirOutcome::Failed), Err(Need::Abort));
    let archiver = start_archiver(Ok(()), Some(100), 1024, 4).ok().unwrap();
    assert_eq!(archiver.next(), 100);
    assert_eq!(start_archiver(Ok(()), None, 1024, 4).err(), Some(Need::Abort));
    assert_eq!(start_archiver(Err(Need::Restart), Some(1), 1024, 4).err(), Some(Need::Restart));
    assert_eq!(start_archiver(Err(Need::Restart), None, 1024, 4).err(), Some(Need::Restart));
}

#[test]
fn configuration_paths() {
    assert_eq!(CONFIG_PATH, "./config.ron");
    assert_eq!(HISTORICAL_CONFIG_PATH, "./historical_config");
    let a = || Some("a.ron".to_owned());
    let b = || Some("b.ron".to_owned());
    assert_eq!(candidate_paths(a(), b()), vec!["a.ron", "b.ron", "./config.ron"]);
    assert_eq!(candidate_paths(None, b()), vec!["b.ron", "./config.ron"]);
    assert_eq!(candidate_paths(a(), None), vec!["a.ron", "./config.ron"]);
    assert_eq!(candidate_paths(None, None), vec!["./config.ron"]);
    assert_eq!(target_path(a(), b()), "a.ron");
    assert_eq!(target_path(None, b()), "b.ron");
    assert_eq!(target_path(None, None), "./config.ron");
}
