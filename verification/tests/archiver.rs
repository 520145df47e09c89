use chronicle_broker::archiver::{Archiver, ArchiverEvent};
use chronicle_broker::log_file::{decimal, FileAction, LogFile, MsRange};
use chronicle_broker::milestone::{CreatedBy, MilestoneData};

fn bundle(index: u32, created_by: CreatedBy, json: &str) -> MilestoneData {
    MilestoneData::new(index, created_by, json.as_bytes().to_vec()).unwrap()
}

fn incoming(index: u32) -> ArchiverEvent {
    ArchiverEvent::MilestoneData(bundle(index, CreatedBy::Incoming, "{}"), None)
}

fn syncer(index: u32, upper: Option<u32>) -> ArchiverEvent {
    ArchiverEvent::MilestoneData(bundle(index, CreatedBy::Syncer, "{}"), upper)
}

fn create(from: u32) -> FileAction {
    FileAction::Create { from_ms_index: from }
}

fn append(from: u32, ms: u32) -> FileAction {
    FileAction::Append { from_ms_index: from, ms_index: ms, line: b"{}\n".to_vec() }
}

fn finish(from: u32, to: u32) -> FileAction {
    FileAction::Finish { from_ms_index: from, to_ms_index: to }
}

fn ranges(archiver: &Archiver) -> Vec<(u32, u32)> {
    archiver.processed().iter().map(|r| (r.start, r.end)).collect()
}

fn files(archiver: &Archiver) -> Vec<(u32, u32, u32)> {
    archiver.logs().iter().map(|l| (l.from_ms_index, l.to_ms_index, l.upper_ms_limit)).collect()
}

fn disjoint(ranges: &[(u32, u32)]) -> bool {
    for (i, a) in ranges.iter().enumerate() {
        for b in ranges.iter().skip(i + 1) {
            if a.0 < b.1 && b.0 < a.1 {
                return false;
            }
        }
    }
    true
}

#[test]
fn simple_ordered_run() {
    let mut archiver = Archiver::new(100, 1_000_000, 4);
    assert_eq!(archiver.handle_event(incoming(100)), vec![create(100), append(100, 100)]);
    assert_eq!(archiver.handle_event(incoming(101)), vec![append(100, 101)]);
    assert_eq!(archiver.handle_event(incoming(102)), vec![append(100, 102)]);
    assert_eq!(archiver.next(), 103);
    assert_eq!(files(&archiver), vec![(100, 103, u32::MAX)]);
    let log = archiver.logs()[0];
    assert_eq!(log.sealed_name(), "100to103.log");
    assert_eq!(log.part_name(), "100.part");
    assert_eq!(log.len(), 9);
    assert_eq!(log.milestones_range(), 3);
    assert!(!log.finished);
}

#[test]
fn rotation_at_max_log_size() {
    // a line has three bytes; the second line would make six
    let mut archiver = Archiver::new(100, 5, 4);
    assert_eq!(archiver.handle_event(incoming(100)), vec![create(100), append(100, 100)]);
    assert_eq!(
        archiver.handle_event(incoming(101)),
        vec![finish(100, 101), create(101), append(101, 101)]
    );
    assert_eq!(ranges(&archiver), vec![(100, 101)]);
    assert_eq!(files(&archiver), vec![(101, 102, u32::MAX)]);
    assert_eq!(archiver.next(), 102);
    assert_eq!(
        LogFile { from_ms_index: 100, to_ms_index: 101, upper_ms_limit: 5, len: 3, finished: true }
            .sealed_name(),
        "100to101.log"
    );
}

#[test]
fn a_line_that_fills_the_file_exactly_is_appended() {
    let mut archiver = Archiver::new(100, 6, 4);
    archiver.handle_event(incoming(100));
    assert_eq!(archiver.handle_event(incoming(101)), vec![append(100, 101)]);
    assert_eq!(archiver.logs()[0].len(), 6);
    // the next one does not fit
    assert_eq!(
        archiver.handle_event(incoming(102)),
        vec![finish(100, 102), create(102), append(102, 102)]
    );
}

#[test]
fn first_line_of_a_file_may_exceed_the_limit() {
    let mut archiver = Archiver::new(7, 1, 4);
    assert_eq!(archiver.handle_event(incoming(7)), vec![create(7), append(7, 7)]);
    assert_eq!(archiver.logs()[0].len(), 3);
}

#[test]
fn buffered_out_of_order_within_window() {
    let mut archiver = Archiver::new(100, 1_000_000, 4);
    assert!(archiver.handle_event(incoming(101)).is_empty());
    assert!(archiver.handle_event(incoming(102)).is_empty());
    assert!(archiver.handle_event(incoming(103)).is_empty());
    assert_eq!(archiver.buffered(), 3);
    assert_eq!(archiver.next(), 100);
    assert_eq!(
        archiver.handle_event(incoming(100)),
        vec![create(100), append(100, 100), append(100, 101), append(100, 102), append(100, 103)]
    );
    assert_eq!(archiver.buffered(), 0);
    assert_eq!(archiver.next(), 104);
    assert_eq!(files(&archiver), vec![(100, 104, u32::MAX)]);
    assert_eq!(archiver.logs()[0].sealed_name(), "100to104.log");
}

#[test]
fn gap_recovery() {
    let mut archiver = Archiver::new(98, 1_000_000, 4);
    archiver.handle_event(incoming(98));
    archiver.handle_event(incoming(99));
    assert_eq!(archiver.next(), 100);
    for index in 105..109 {
        assert!(archiver.handle_event(incoming(index)).is_empty());
        assert_eq!(archiver.next(), 100);
    }
    assert_eq!(archiver.buffered(), 4);
    // the fifth one exceeds the window of four
    assert_eq!(
        archiver.handle_event(incoming(109)),
        vec![
            finish(98, 100),
            create(105),
            append(105, 105),
            append(105, 106),
            append(105, 107),
            append(105, 108),
            append(105, 109),
        ]
    );
    assert_eq!(ranges(&archiver), vec![(98, 100)]);
    assert_eq!(files(&archiver), vec![(105, 110, u32::MAX)]);
    assert_eq!(archiver.next(), 110);
    assert_eq!(archiver.buffered(), 0);
}

#[test]
fn gap_recovery_without_a_current_file() {
    let mut archiver = Archiver::new(100, 1_000_000, 0);
    assert_eq!(archiver.handle_event(incoming(105)), vec![create(105), append(105, 105)]);
    assert_eq!(archiver.next(), 106);
    assert!(ranges(&archiver).is_empty());
}

#[test]
fn syncer_below_watermark_in_processed_range_is_ignored() {
    let mut archiver = Archiver::new(200, 1_000_000, 4);
    assert_eq!(
        archiver.handle_event(syncer(100, Some(160))),
        vec![create(100), append(100, 100)]
    );
    for index in 101..159 {
        assert_eq!(archiver.handle_event(syncer(index, Some(160))), vec![append(100, index)]);
    }
    assert_eq!(
        archiver.handle_event(syncer(159, Some(160))),
        vec![append(100, 159), finish(100, 160)]
    );
    assert_eq!(ranges(&archiver), vec![(100, 160)]);
    assert!(archiver.logs().is_empty());
    assert!(archiver.is_processed(150));
    assert!(!archiver.is_processed(160));
    // the record is ignored: no file is created for it
    assert!(archiver.handle_event(syncer(150, None)).is_empty());
    assert!(archiver.logs().is_empty());
    assert_eq!(ranges(&archiver), vec![(100, 160)]);
    assert_eq!(archiver.next(), 200);
}

#[test]
fn syncer_at_watermark_is_handled_as_incoming() {
    let mut archiver = Archiver::new(10, 1_000_000, 4);
    // the upper limit is not taken over
    assert_eq!(archiver.handle_event(syncer(10, Some(11))), vec![create(10), append(10, 10)]);
    assert_eq!(archiver.next(), 11);
    assert_eq!(files(&archiver), vec![(10, 11, u32::MAX)]);
}

#[test]
fn syncer_ahead_of_watermark_is_buffered() {
    let mut archiver = Archiver::new(10, 1_000_000, 4);
    assert!(archiver.handle_event(syncer(12, None)).is_empty());
    assert_eq!(archiver.buffered(), 1);
    assert_eq!(archiver.handle_event(incoming(10)), vec![create(10), append(10, 10)]);
    assert_eq!(archiver.handle_event(incoming(11)), vec![append(10, 11), append(10, 12)]);
    assert_eq!(archiver.next(), 13);
}

#[test]
fn bundle_behind_watermark_is_dropped() {
    let mut archiver = Archiver::new(10, 1_000_000, 4);
    assert!(archiver.handle_event(incoming(9)).is_empty());
    assert_eq!(archiver.buffered(), 0);
    assert_eq!(archiver.next(), 10);
    assert!(archiver.logs().is_empty());
}

#[test]
fn file_for_one_milestone_is_sealed_at_once() {
    let mut archiver = Archiver::new(50, 1_000_000, 4);
    assert_eq!(
        archiver.handle_event(syncer(20, Some(21))),
        vec![create(20), append(20, 20), finish(20, 21)]
    );
    assert_eq!(ranges(&archiver), vec![(20, 21)]);
    assert!(archiver.logs().is_empty());
}

#[test]
fn upper_limits_are_cut_back_to_the_next_file() {
    let mut archiver = Archiver::new(50, 1_000_000, 4);
    archiver.handle_event(incoming(50));
    assert_eq!(files(&archiver), vec![(50, 51, u32::MAX)]);
    // a file of the back-fill below it may grow up to 50 only
    assert_eq!(archiver.handle_event(syncer(40, None)), vec![create(40), append(40, 40)]);
    assert_eq!(files(&archiver), vec![(40, 41, 50), (50, 51, u32::MAX)]);
    // and one right below the live file is full at once
    assert_eq!(
        archiver.handle_event(syncer(49, None)),
        vec![create(49), append(49, 49), finish(49, 50)]
    );
    assert_eq!(files(&archiver), vec![(40, 41, 49), (50, 51, u32::MAX)]);
    assert_eq!(ranges(&archiver), vec![(49, 50)]);
}

#[test]
fn close_is_obeyed_only_behind_the_watermark() {
    let mut archiver = Archiver::new(50, 1_000_000, 4);
    archiver.handle_event(incoming(50));
    archiver.handle_event(syncer(40, None));
    // the file of the live stream waits for 51, which is the watermark
    assert!(archiver.handle_event(ArchiverEvent::Close(51)).is_empty());
    assert_eq!(archiver.handle_event(ArchiverEvent::Close(41)), vec![finish(40, 41)]);
    assert_eq!(ranges(&archiver), vec![(40, 41)]);
    assert_eq!(files(&archiver), vec![(50, 51, u32::MAX)]);
    // nothing waits for 41 any more
    assert!(archiver.handle_event(ArchiverEvent::Close(41)).is_empty());
}

#[test]
fn processed_ranges_are_ordered_from_the_highest_start() {
    let mut archiver = Archiver::new(1000, 1_000_000, 4);
    archiver.handle_event(syncer(20, Some(21)));
    archiver.handle_event(syncer(40, Some(41)));
    archiver.handle_event(syncer(30, Some(31)));
    assert_eq!(ranges(&archiver), vec![(40, 41), (30, 31), (20, 21)]);
    archiver.push_to_processed(LogFile {
        from_ms_index: 35,
        to_ms_index: 38,
        upper_ms_limit: 38,
        len: 0,
        finished: true,
    });
    assert_eq!(ranges(&archiver), vec![(40, 41), (35, 38), (30, 31), (20, 21)]);
    assert!(archiver.is_processed(37));
    assert!(!archiver.is_processed(38));
}

#[test]
fn sealed_ranges_never_overlap() {
    let mut archiver = Archiver::new(100, 7, 2);
    let mut all = Vec::new();
    for index in [100u32, 101, 102, 110, 111, 112, 113, 103, 120, 121, 122] {
        all.extend(archiver.handle_event(incoming(index)));
    }
    for index in [104u32, 105, 106, 107, 108, 109] {
        all.extend(archiver.handle_event(syncer(index, Some(110))));
    }
    let sealed = ranges(&archiver);
    assert!(!sealed.is_empty());
    assert!(disjoint(&sealed));
    let mut owned = sealed.clone();
    owned.extend(archiver.logs().iter().map(|l| (l.from_ms_index, l.to_ms_index)));
    assert!(disjoint(&owned));
    for log in archiver.logs().iter() {
        assert!(log.from_ms_index <= log.to_ms_index && log.to_ms_index <= log.upper_ms_limit);
    }
    // every sealed range was announced by a finish action
    for (start, end) in sealed {
        assert!(all.contains(&finish(start, end)));
    }
}

#[test]
fn watermark_never_moves_back_and_lines_rise() {
    let mut archiver = Archiver::new(5, 1_000_000, 1);
    let mut last_next = archiver.next();
    let mut written = Vec::new();
    for index in [7u32, 5, 3, 6, 6, 12, 9, 13, 14, 8, 15] {
        let before = archiver.next();
        for action in archiver.handle_event(incoming(index)) {
            if let FileAction::Append { ms_index, .. } = action {
                assert!(before <= ms_index);
                written.push(ms_index);
            }
        }
        assert!(archiver.next() >= last_next);
        for ms_index in written.iter() {
            assert!(*ms_index < archiver.next());
        }
        last_next = archiver.next();
    }
    assert!(written.windows(2).all(|w| w[0] < w[1]));
    assert_eq!(written, vec![5, 6, 7, 9, 12, 13, 14, 15]);
}

#[test]
fn equal_indexes_leave_the_buffer_in_order_of_arrival() {
    let mut archiver = Archiver::new(1, 1_000_000, 10);
    let first = MilestoneData::new(2, CreatedBy::Incoming, b"first".to_vec()).unwrap();
    let second = MilestoneData::new(2, CreatedBy::Incoming, b"second".to_vec()).unwrap();
    archiver.handle_event(ArchiverEvent::MilestoneData(first, None));
    archiver.handle_event(ArchiverEvent::MilestoneData(second, None));
    let actions = archiver.handle_event(incoming(1));
    // the second bundle for milestone 2 lies behind the watermark by then
    assert_eq!(
        actions,
        vec![
            create(1),
            append(1, 1),
            FileAction::Append { from_ms_index: 1, ms_index: 2, line: b"first\n".to_vec() },
        ]
    );
    assert_eq!(archiver.next(), 3);
    assert_eq!(archiver.buffered(), 0);
}

#[test]
fn handle_milestone_data_reports_what_it_did() {
    let mut archiver = Archiver::new(0, 1_000_000, 4);
    let actions = archiver.handle_milestone_data(bundle(30, CreatedBy::Syncer, "[1]"), Some(32));
    assert_eq!(
        actions,
        vec![
            create(30),
            FileAction::Append { from_ms_index: 30, ms_index: 30, line: b"[1]\n".to_vec() },
        ]
    );
    let actions = archiver.handle_milestone_data(bundle(31, CreatedBy::Syncer, "{}"), Some(99));
    assert_eq!(actions, vec![append(30, 31), finish(30, 32)]);
    assert_eq!(ranges(&archiver), vec![(30, 32)]);
    assert_eq!(archiver.next(), 0);
}

#[test]
fn create_and_append_and_close_log_file() {
    let mut archiver = Archiver::new(0, 1_000_000, 4);
    let line = b"{}\n".to_vec();
    assert_eq!(archiver.create_and_append(8, &line, None), vec![create(8), append(8, 8)]);
    assert_eq!(archiver.create_and_append(4, &line, None), vec![create(4), append(4, 4)]);
    assert_eq!(files(&archiver), vec![(4, 5, 8), (8, 9, u32::MAX)]);
    assert_eq!(archiver.close_log_file(9), vec![finish(8, 9)]);
    assert_eq!(archiver.close_log_file(9), vec![]);
    assert_eq!(ranges(&archiver), vec![(8, 9)]);
}

#[test]
fn append_and_finish_keep_the_books() {
    let mut log = LogFile::create(3, Some(10));
    assert_eq!(
        log,
        LogFile { from_ms_index: 3, to_ms_index: 3, upper_ms_limit: 10, len: 0, finished: false }
    );
    assert_eq!(LogFile::create(3, None).upper_ms_limit, u32::MAX);
    let action = Archiver::append(&mut log, &b"abcd\n".to_vec(), 3);
    assert_eq!(
        action,
        FileAction::Append { from_ms_index: 3, ms_index: 3, line: b"abcd\n".to_vec() }
    );
    assert_eq!((log.to_ms_index, log.len), (4, 5));
    assert!(log.has_room_for(5, 10));
    assert!(!log.has_room_for(6, 10));
    assert!(!log.has_room_for(0, 4));
    let action = Archiver::finish_log_file(&mut log);
    assert_eq!(action, finish(3, 4));
    assert!(log.finished);
    log.append_line(&b"x".to_vec());
    assert_eq!((log.to_ms_index, log.len), (5, 6));
}

#[test]
fn bundles_and_lines() {
    let data = bundle(7, CreatedBy::Incoming, "{\"milestone_index\":7}");
    assert_eq!(data.milestone_index(), 7);
    assert_eq!(data.created_by(), CreatedBy::Incoming);
    assert_eq!(data.line(), b"{\"milestone_index\":7}\n".to_vec());
    assert!(MilestoneData::new(u32::MAX, CreatedBy::Syncer, Vec::new()).is_none());
    assert!(MilestoneData::new(u32::MAX - 1, CreatedBy::Syncer, Vec::new()).is_some());
}

#[test]
fn decimal_notation() {
    assert_eq!(decimal(0), "0");
    assert_eq!(decimal(9), "9");
    assert_eq!(decimal(10), "10");
    assert_eq!(decimal(4_294_967_295), "4294967295");
    assert_eq!(decimal(1_002_030), "1002030");
}

#[test]
fn ranges_are_half_open() {
    let r = MsRange { start: 3, end: 5 };
    assert!(!r.contains(2));
    assert!(r.contains(3));
    assert!(r.contains(4));
    assert!(!r.contains(5));
}

#[test]
fn bundle_for_a_milestone_of_an_active_file_opens_a_second_file() {
    // the live file holds milestone 100 and waits for 101
    let mut archiver = Archiver::new(100, 1_000_000, 4);
    archiver.handle_event(incoming(100));
    assert_eq!(files(&archiver), vec![(100, 101, u32::MAX)]);
    // the back-fill brings milestone 100 again: no file waits for it and no
    // sealed range holds it, so a file is opened for it
    assert_eq!(archiver.handle_event(syncer(100, None)), vec![create(100), append(100, 100)]);
    assert_eq!(archiver.logs().len(), 2);
    assert!(archiver.logs().iter().all(|l| l.from_ms_index == 100));
}

#[test]
fn bundle_of_a_sealed_range_is_appended_to_the_file_that_waits_for_it() {
    let mut archiver = Archiver::new(1000, 1_000_000, 4);
    archiver.handle_event(syncer(20, Some(21)));
    assert_eq!(ranges(&archiver), vec![(20, 21)]);
    archiver.handle_event(syncer(19, None));
    assert_eq!(files(&archiver), vec![(19, 20, u32::MAX)]);
    // a file waits for 20 and has room: the line is appended although a
    // sealed range holds the milestone
    assert_eq!(archiver.handle_event(syncer(20, None)), vec![append(19, 20)]);
}
