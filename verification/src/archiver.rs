//! The archiver: a strictly ordered writer of rotating, append-only log
//! files.
//!
//! The archiver decides; its caller acts. Every operation returns the list of
//! [`FileAction`]s that the caller has to perform, in order, on the files
//! under the log directory.
use vstd::prelude::*;
use crate::log_file::{FileAction, FileActionView, LogFile, MsRange};
use crate::milestone::{CreatedBy, MilestoneData, MilestoneDataView};
use crate::archiver_laws::{admits, consistent, event_admitted, owned};
use crate::seq_util::{first_where, is_first_where, lemma_first_where_exists, lemma_first_where_unique};

verus! {

/// Files that take milestone `m` as their next line.
pub open spec fn ready_pred(m: u32) -> spec_fn(LogFile) -> bool {
    |l: LogFile| l.ready_for(m)
}

/// Files whose watermark is `m`.
pub open spec fn to_pred(m: u32) -> spec_fn(LogFile) -> bool {
    |l: LogFile| l.to_ms_index == m
}

/// Files that start at `from`.
pub open spec fn from_pred(from: u32) -> spec_fn(LogFile) -> bool {
    |l: LogFile| l.from_ms_index == from
}

/// Files that start after `from`.
pub open spec fn from_above_pred(from: u32) -> spec_fn(LogFile) -> bool {
    |l: LogFile| l.from_ms_index > from
}

/// Ranges that start before `start`.
pub open spec fn start_below_pred(start: u32) -> spec_fn(MsRange) -> bool {
    |r: MsRange| r.start < start
}

/// Bundles with an index above `index`.
pub open spec fn index_above_pred(index: u32) -> spec_fn(MilestoneDataView) -> bool {
    |d: MilestoneDataView| d.milestone_index > index
}

/// The upper limit of the file at position `i` once it is cut back to the
/// start of the file that follows it.
pub open spec fn clamped_upper(logs: Seq<LogFile>, i: int) -> u32 {
    if i + 1 < logs.len() && logs[i].upper_ms_limit > logs[i + 1].from_ms_index {
        logs[i + 1].from_ms_index
    } else {
        logs[i].upper_ms_limit
    }
}

/// Cutting back the file at position `i` leaves it full, so it is sealed.
pub open spec fn seals(logs: Seq<LogFile>, i: int) -> bool {
    i + 1 < logs.len() && clamped_upper(logs, i) == logs[i].to_ms_index && !logs[i].finished
}

/// The file at position `i` after the limits were cut back.
pub open spec fn clamped(logs: Seq<LogFile>, i: int) -> LogFile {
    LogFile {
        upper_ms_limit: clamped_upper(logs, i),
        finished: logs[i].finished || seals(logs, i),
        ..logs[i]
    }
}

/// All files after the limits were cut back.
pub open spec fn clamp_all(logs: Seq<LogFile>) -> Seq<LogFile> {
    Seq::new(logs.len(), |i: int| clamped(logs, i))
}

/// The starts of the files at positions `n` and above that are sealed by
/// cutting back the limits, the last position first.
pub open spec fn sealed_froms(logs: Seq<LogFile>, n: int) -> Seq<u32>
    decreases logs.len() - n,
{
    if n + 1 >= logs.len() {
        Seq::empty()
    } else if seals(logs, n) {
        sealed_froms(logs, n + 1).push(logs[n].from_ms_index)
    } else {
        sealed_froms(logs, n + 1)
    }
}

/// The actions that seal the files at positions `n` and above that are left
/// full by cutting back the limits, the last position first.
pub open spec fn sealed_finishes(logs: Seq<LogFile>, n: int) -> Seq<FileActionView>
    decreases logs.len() - n,
{
    if n + 1 >= logs.len() {
        Seq::empty()
    } else if seals(logs, n) {
        sealed_finishes(logs, n + 1).push(finish_of(logs[n]))
    } else {
        sealed_finishes(logs, n + 1)
    }
}

/// The action that seals a file.
pub open spec fn finish_of(l: LogFile) -> FileActionView {
    FileActionView::Finish { from_ms_index: l.from_ms_index, to_ms_index: l.to_ms_index }
}

/// Mathematical model of the archiver's files: the active log files in the
/// order of their start, the closed ranges, and the files that wait to be
/// moved from the first to the second.
pub struct FilesView {
    pub logs: Seq<LogFile>,
    pub processed: Seq<MsRange>,
    pub cleanup: Seq<u32>,
    pub max_log_size: u64,
}

impl FilesView {
    /// Active files are ordered by their start, closed ranges by their start
    /// from the highest down.
    pub open spec fn wf(self) -> bool {
        &&& forall|i: int, j: int|
            0 <= i < j < self.logs.len() ==> self.logs[i].from_ms_index
                <= self.logs[j].from_ms_index
        &&& forall|i: int, j: int|
            0 <= i < j < self.processed.len() ==> self.processed[i].start
                >= self.processed[j].start
    }

    /// Some closed range holds milestone `m`.
    pub open spec fn covered(self, m: u32) -> bool {
        exists|i: int| 0 <= i < self.processed.len() && (#[trigger] self.processed[i]).spec_contains(m)
    }

    /// The range of `log` joins the closed ranges, which stay ordered.
    pub open spec fn push_to_processed(self, log: LogFile) -> FilesView {
        let k = first_where(self.processed, start_below_pred(log.from_ms_index));
        FilesView { processed: self.processed.insert(k, log.range()), ..self }
    }

    /// The first active file whose watermark is `m` is sealed and its range
    /// closed.
    pub open spec fn close_log_file(self, m: u32) -> (FilesView, Seq<FileActionView>) {
        let i = first_where(self.logs, to_pred(m));
        if i < self.logs.len() {
            let log = self.logs[i];
            (
                (FilesView { logs: self.logs.remove(i), ..self }).push_to_processed(log),
                seq![finish_of(log)],
            )
        } else {
            (self, Seq::empty())
        }
    }

    /// A new file that starts at `m` takes the line of milestone `m`.
    /// A file that is full at once is sealed and closed at once; otherwise it
    /// joins the active files, each of which is cut back to the start of the
    /// next, and those left full by that are sealed.
    pub open spec fn create_and_append(self, m: u32, line: Seq<u8>, opt_upper_limit: Option<u32>) -> (
        FilesView,
        Seq<FileActionView>,
    ) {
        let log = LogFile::spec_create(m, opt_upper_limit).spec_append(line.len());
        let opened = seq![
            FileActionView::Create { from_ms_index: m },
            FileActionView::Append { from_ms_index: m, ms_index: m, line },
        ];
        if log.upper_ms_limit == log.to_ms_index {
            (self.push_to_processed(log), opened.push(finish_of(log)))
        } else {
            let k = first_where(self.logs, from_above_pred(m));
            let inserted = self.logs.insert(k, log);
            (
                FilesView {
                    logs: clamp_all(inserted),
                    cleanup: self.cleanup + sealed_froms(inserted, 0),
                    ..self
                },
                opened + sealed_finishes(inserted, 0),
            )
        }
    }

    /// Where the line of milestone `m` goes: onto the active file that waits
    /// for it, if the line fits; into a new file after sealing that one, if
    /// it does not; into a new file if none waits. A milestone that a closed
    /// range holds already opens no file.
    pub open spec fn place(self, m: u32, line: Seq<u8>, opt_upper_limit: Option<u32>) -> (
        FilesView,
        Seq<FileActionView>,
    ) {
        let i = first_where(self.logs, ready_pred(m));
        if i < self.logs.len() {
            let log = self.logs[i];
            if log.fits(line.len(), self.max_log_size) {
                let grown = log.spec_append(line.len());
                let append = FileActionView::Append {
                    from_ms_index: log.from_ms_index,
                    ms_index: m,
                    line,
                };
                if grown.upper_ms_limit == grown.to_ms_index {
                    (
                        FilesView {
                            logs: self.logs.update(i, LogFile { finished: true, ..grown }),
                            cleanup: self.cleanup.push(log.from_ms_index),
                            ..self
                        },
                        seq![append, finish_of(grown)],
                    )
                } else {
                    (FilesView { logs: self.logs.update(i, grown), ..self }, seq![append])
                }
            } else {
                let closed = FilesView {
                    logs: self.logs.update(i, LogFile { finished: true, ..log }),
                    cleanup: self.cleanup.push(log.from_ms_index),
                    ..self
                };
                if closed.covered(m) {
                    (closed, seq![finish_of(log)])
                } else {
                    let (files, actions) = closed.create_and_append(m, line, Some(log.upper_ms_limit));
                    (files, seq![finish_of(log)] + actions)
                }
            }
        } else if self.covered(m) {
            (self, Seq::empty())
        } else {
            self.create_and_append(m, line, opt_upper_limit)
        }
    }

    /// Every file that waits in `cleanup` leaves the active files and its
    /// range joins the closed ranges, the last one that was queued first.
    pub open spec fn sweep(self) -> FilesView
        decreases self.cleanup.len(),
    {
        if self.cleanup.len() == 0 {
            self
        } else {
            let k = first_where(self.logs, from_pred(self.cleanup.last()));
            let rest = FilesView { cleanup: self.cleanup.drop_last(), ..self };
            if k < self.logs.len() {
                (FilesView { logs: self.logs.remove(k), ..rest }).push_to_processed(
                    self.logs[k],
                ).sweep()
            } else {
                rest.sweep()
            }
        }
    }

    /// The files after one bundle was handled, and what the caller has to do.
    pub open spec fn handle_milestone_data(
        self,
        data: MilestoneDataView,
        opt_upper_limit: Option<u32>,
    ) -> (FilesView, Seq<FileActionView>) {
        let (files, actions) = self.place(data.milestone_index, data.line(), opt_upper_limit);
        (files.sweep(), actions)
    }
}

/// The bundles that wait for their turn, lowest index first; among equal
/// indexes the one that came first.
pub open spec fn buffered(buffer: Seq<MilestoneDataView>, data: MilestoneDataView) -> Seq<
    MilestoneDataView,
> {
    buffer.insert(first_where(buffer, index_above_pred(data.milestone_index)), data)
}

/// What comes out of draining the buffer: the watermark, the files, the
/// bundles that stay buffered, and the actions.
pub struct Drained {
    pub next: u32,
    pub files: FilesView,
    pub buffer: Seq<MilestoneDataView>,
    pub actions: Seq<FileActionView>,
}

/// Drains the buffer of waiting bundles. The lowest one is handled while it
/// is the expected one. When it lies ahead and more than `solidifiers_count`
/// bundles wait, a gap is declared: the file that waits for `next` is closed,
/// the bundle is handled all the same and the watermark jumps behind it. When
/// it lies ahead and the window is not exceeded, everything stays buffered.
/// A bundle behind the watermark is dropped.
pub open spec fn drain(
    next: u32,
    files: FilesView,
    buffer: Seq<MilestoneDataView>,
    solidifiers_count: u8,
    opt_upper_limit: Option<u32>,
) -> Drained
    decreases buffer.len(),
{
    if buffer.len() == 0 {
        Drained { next, files, buffer, actions: Seq::empty() }
    } else {
        let top = buffer[0];
        if top.milestone_index == next {
            let (handled, actions) = files.handle_milestone_data(top, opt_upper_limit);
            let rest = drain(
                (next + 1) as u32,
                handled,
                buffer.drop_first(),
                solidifiers_count,
                opt_upper_limit,
            );
            Drained { actions: actions + rest.actions, ..rest }
        } else if top.milestone_index > next {
            if buffer.len() > solidifiers_count {
                let (closed, closing) = files.close_log_file(next);
                let (handled, actions) = closed.handle_milestone_data(top, opt_upper_limit);
                let rest = drain(
                    (top.milestone_index + 1) as u32,
                    handled,
                    buffer.drop_first(),
                    solidifiers_count,
                    opt_upper_limit,
                );
                Drained { actions: closing + actions + rest.actions, ..rest }
            } else {
                Drained { next, files, buffer, actions: Seq::empty() }
            }
        } else {
            drain(next, files, buffer.drop_first(), solidifiers_count, opt_upper_limit)
        }
    }
}

/// Mathematical model of the archiver.
pub struct ArchiverView {
    pub next: u32,
    pub files: FilesView,
    pub milestones_data: Seq<MilestoneDataView>,
    pub solidifiers_count: u8,
}

/// Mathematical model of an [`ArchiverEvent`].
pub enum ArchiverEventView {
    MilestoneData(MilestoneDataView, Option<u32>),
    Close(u32),
}

impl ArchiverView {
    /// The files are well formed; the waiting bundles are ordered by index
    /// and each leaves room for the watermark that follows it.
    pub open spec fn wf(self) -> bool {
        &&& self.files.wf()
        &&& forall|i: int, j: int|
            0 <= i < j < self.milestones_data.len() ==> self.milestones_data[i].milestone_index
                <= self.milestones_data[j].milestone_index
        &&& forall|i: int|
            0 <= i < self.milestones_data.len() ==> (#[trigger] self.milestones_data[i]).wf()
    }

    /// The archiver after an event, and what the caller has to do.
    ///
    /// A bundle of the live stream joins the waiting bundles, which are then
    /// drained. A bundle of the back-fill is handled at once when it lies
    /// behind the watermark, handled as a live one (without upper limit, and
    /// moving the watermark) when it is the expected one, and buffered when
    /// it lies ahead. A request to close a file is obeyed only behind the
    /// watermark.
    pub open spec fn handle_event(self, event: ArchiverEventView) -> (
        ArchiverView,
        Seq<FileActionView>,
    ) {
        match event {
            ArchiverEventView::Close(m) => {
                if m < self.next {
                    let (files, actions) = self.files.close_log_file(m);
                    (ArchiverView { files, ..self }, actions)
                } else {
                    (self, Seq::empty())
                }
            },
            ArchiverEventView::MilestoneData(data, opt_upper_limit) => {
                if data.created_by != CreatedBy::Syncer {
                    let d = drain(
                        self.next,
                        self.files,
                        buffered(self.milestones_data, data),
                        self.solidifiers_count,
                        opt_upper_limit,
                    );
                    (
                        ArchiverView {
                            next: d.next,
                            files: d.files,
                            milestones_data: d.buffer,
                            ..self
                        },
                        d.actions,
                    )
                } else if data.milestone_index < self.next {
                    let (files, actions) = self.files.handle_milestone_data(data, opt_upper_limit);
                    (ArchiverView { files, ..self }, actions)
                } else if data.milestone_index == self.next {
                    let (files, actions) = self.files.handle_milestone_data(data, None);
                    (ArchiverView { next: (self.next + 1) as u32, files, ..self }, actions)
                } else {
                    (
                        ArchiverView {
                            milestones_data: buffered(self.milestones_data, data),
                            ..self
                        },
                        Seq::empty(),
                    )
                }
            },
        }
    }
}


/// What reaches the archiver: a milestone bundle with an optional upper
/// limit for the file it may open, or a request to close the file whose
/// watermark is the given index.
#[derive(Debug, PartialEq, Eq)]
pub enum ArchiverEvent {
    MilestoneData(MilestoneData, Option<u32>),
    Close(u32),
}

impl DeepView for ArchiverEvent {
    type V = ArchiverEventView;

    open spec fn deep_view(&self) -> ArchiverEventView {
        match self {
            ArchiverEvent::MilestoneData(data, opt_upper_limit) => ArchiverEventView::MilestoneData(
                data.deep_view(),
                *opt_upper_limit,
            ),
            ArchiverEvent::Close(m) => ArchiverEventView::Close(*m),
        }
    }
}

impl ArchiverEventView {
    /// A bundle leaves room for the watermark that follows it.
    pub open spec fn wf(self) -> bool {
        match self {
            ArchiverEventView::MilestoneData(data, _) => data.wf(),
            ArchiverEventView::Close(_) => true,
        }
    }
}

/// The archiver: the watermark `next` of the live stream, the active log
/// files, the closed ranges, and the bundles that came ahead of their turn.
pub struct Archiver {
    next: u32,
    logs: Vec<LogFile>,
    processed: Vec<MsRange>,
    milestones_data: Vec<MilestoneData>,
    cleanup: Vec<u32>,
    max_log_size: u64,
    solidifiers_count: u8,
}

impl View for Archiver {
    type V = ArchiverView;

    closed spec fn view(&self) -> ArchiverView {
        ArchiverView {
            next: self.next,
            files: FilesView {
                logs: self.logs@,
                processed: self.processed@,
                cleanup: self.cleanup@,
                max_log_size: self.max_log_size,
            },
            milestones_data: self.milestones_data.deep_view(),
            solidifiers_count: self.solidifiers_count,
        }
    }
}

fn push_action(actions: &mut Vec<FileAction>, action: FileAction)
    ensures
        final(actions).deep_view() == old(actions).deep_view().push(action.deep_view()),
{
    actions.push(action);
    assert(actions.deep_view() =~= old(actions).deep_view().push(action.deep_view()));
}

fn extend_actions(actions: &mut Vec<FileAction>, more: Vec<FileAction>)
    ensures
        final(actions).deep_view() == old(actions).deep_view() + more.deep_view(),
{
    let mut more = more;
    let ghost added = more.deep_view();
    actions.append(&mut more);
    assert(actions.deep_view() =~= old(actions).deep_view() + added);
}

fn position_ready(logs: &Vec<LogFile>, m: u32) -> (k: usize)
    ensures
        k <= logs.len(),
        k == first_where(logs@, ready_pred(m)),
{
    let mut k: usize = 0;
    while k < logs.len()
        invariant
            k <= logs.len(),
            forall|j: int| 0 <= j < k ==> !ready_pred(m)(#[trigger] logs@[j]),
        decreases logs.len() - k,
    {
        if logs[k].to_ms_index == m && logs[k].upper_ms_limit > m {
            proof {
                lemma_first_where_unique(logs@, ready_pred(m), k as int);
            }
            return k;
        }
        k += 1;
    }
    proof {
        lemma_first_where_unique(logs@, ready_pred(m), k as int);
    }
    k
}

fn position_to(logs: &Vec<LogFile>, m: u32) -> (k: usize)
    ensures
        k <= logs.len(),
        k == first_where(logs@, to_pred(m)),
{
    let mut k: usize = 0;
    while k < logs.len()
        invariant
            k <= logs.len(),
            forall|j: int| 0 <= j < k ==> !to_pred(m)(#[trigger] logs@[j]),
        decreases logs.len() - k,
    {
        if logs[k].to_ms_index == m {
            proof {
                lemma_first_where_unique(logs@, to_pred(m), k as int);
            }
            return k;
        }
        k += 1;
    }
    proof {
        lemma_first_where_unique(logs@, to_pred(m), k as int);
    }
    k
}

fn position_from(logs: &Vec<LogFile>, from: u32) -> (k: usize)
    ensures
        k <= logs.len(),
        k == first_where(logs@, from_pred(from)),
{
    let mut k: usize = 0;
    while k < logs.len()
        invariant
            k <= logs.len(),
            forall|j: int| 0 <= j < k ==> !from_pred(from)(#[trigger] logs@[j]),
        decreases logs.len() - k,
    {
        if logs[k].from_ms_index == from {
            proof {
                lemma_first_where_unique(logs@, from_pred(from), k as int);
            }
            return k;
        }
        k += 1;
    }
    proof {
        lemma_first_where_unique(logs@, from_pred(from), k as int);
    }
    k
}

fn position_from_above(logs: &Vec<LogFile>, from: u32) -> (k: usize)
    ensures
        k <= logs.len(),
        k == first_where(logs@, from_above_pred(from)),
        is_first_where(logs@, from_above_pred(from), k as int),
{
    let mut k: usize = 0;
    while k < logs.len()
        invariant
            k <= logs.len(),
            forall|j: int| 0 <= j < k ==> !from_above_pred(from)(#[trigger] logs@[j]),
        decreases logs.len() - k,
    {
        if logs[k].from_ms_index > from {
            proof {
                lemma_first_where_unique(logs@, from_above_pred(from), k as int);
            }
            return k;
        }
        k += 1;
    }
    proof {
        lemma_first_where_unique(logs@, from_above_pred(from), k as int);
    }
    k
}

fn position_start_below(processed: &Vec<MsRange>, start: u32) -> (k: usize)
    ensures
        k <= processed.len(),
        k == first_where(processed@, start_below_pred(start)),
        is_first_where(processed@, start_below_pred(start), k as int),
{
    let mut k: usize = 0;
    while k < processed.len()
        invariant
            k <= processed.len(),
            forall|j: int| 0 <= j < k ==> !start_below_pred(start)(#[trigger] processed@[j]),
        decreases processed.len() - k,
    {
        if processed[k].start < start {
            proof {
                lemma_first_where_unique(processed@, start_below_pred(start), k as int);
            }
            return k;
        }
        k += 1;
    }
    proof {
        lemma_first_where_unique(processed@, start_below_pred(start), k as int);
    }
    k
}

fn position_index_above(buffer: &Vec<MilestoneData>, index: u32) -> (k: usize)
    ensures
        k <= buffer.len(),
        k == first_where(buffer.deep_view(), index_above_pred(index)),
        is_first_where(buffer.deep_view(), index_above_pred(index), k as int),
{
    let mut k: usize = 0;
    while k < buffer.len()
        invariant
            k <= buffer.len(),
            forall|j: int|
                0 <= j < k ==> !index_above_pred(index)(#[trigger] buffer.deep_view()[j]),
        decreases buffer.len() - k,
    {
        if buffer[k].milestone_index > index {
            proof {
                lemma_first_where_unique(buffer.deep_view(), index_above_pred(index), k as int);
            }
            return k;
        }
        k += 1;
    }
    proof {
        lemma_first_where_unique(buffer.deep_view(), index_above_pred(index), k as int);
    }
    k
}

/// Cuts the upper limit of every file but the last back to the start of the
/// file that follows it, from the last file down, and seals the files that
/// this leaves full.
fn clamp_limits(logs: &mut Vec<LogFile>, cleanup: &mut Vec<u32>, actions: &mut Vec<FileAction>)
    ensures
        final(logs)@ == clamp_all(old(logs)@),
        final(cleanup)@ == old(cleanup)@ + sealed_froms(old(logs)@, 0),
        final(actions).deep_view() == old(actions).deep_view() + sealed_finishes(old(logs)@, 0),
{
    let ghost before = logs@;
    let ghost queued = cleanup@;
    let ghost done = actions.deep_view();
    if logs.len() == 0 {
        assert(logs@ =~= clamp_all(before));
        assert(cleanup@ =~= queued + sealed_froms(before, 0));
        assert(actions.deep_view() =~= done + sealed_finishes(before, 0));
        return ;
    }
    let mut i: usize = logs.len() - 1;
    assert(cleanup@ =~= queued + sealed_froms(before, i as int));
    assert(actions.deep_view() =~= done + sealed_finishes(before, i as int));
    while i > 0
        invariant
            logs@.len() == before.len(),
            0 <= i < before.len(),
            forall|j: int| i <= j < before.len() ==> #[trigger] logs@[j] == clamped(before, j),
            forall|j: int| 0 <= j < i ==> #[trigger] logs@[j] == before[j],
            cleanup@ == queued + sealed_froms(before, i as int),
            actions.deep_view() == done + sealed_finishes(before, i as int),
        decreases i,
    {
        let next_from = logs[i].from_ms_index;
        let mut log_file = logs[i - 1];
        assert(next_from == before[i as int].from_ms_index);
        if log_file.upper_ms_limit > next_from {
            log_file.upper_ms_limit = next_from;
        }
        assert(log_file.upper_ms_limit == clamped_upper(before, i - 1));
        if log_file.upper_ms_limit == log_file.to_ms_index && !log_file.finished {
            assert(seals(before, i - 1));
            cleanup.push(log_file.from_ms_index);
            let finish = Archiver::finish_log_file(&mut log_file);
            push_action(actions, finish);
            assert(cleanup@ =~= queued + sealed_froms(before, i - 1));
            assert(actions.deep_view() =~= done + sealed_finishes(before, i - 1));
        }
        assert(log_file == clamped(before, i - 1));
        logs.set(i - 1, log_file);
        i -= 1;
    }
    assert(logs@ =~= clamp_all(before));
}

impl Archiver {
    /// An archiver that expects `next` as the first milestone of the live
    /// stream, keeps each file within `max_log_size` bytes and lets
    /// `solidifiers_count` bundles wait before it declares a gap.
    pub fn new(next: u32, max_log_size: u64, solidifiers_count: u8) -> (archiver: Archiver)
        ensures
            archiver@.wf(),
            archiver@ == (ArchiverView {
                next,
                files: FilesView {
                    logs: Seq::empty(),
                    processed: Seq::empty(),
                    cleanup: Seq::empty(),
                    max_log_size,
                },
                milestones_data: Seq::empty(),
                solidifiers_count,
            }),
            consistent(archiver@.files),
    {
        let archiver = Archiver {
            next,
            logs: Vec::new(),
            processed: Vec::new(),
            milestones_data: Vec::new(),
            cleanup: Vec::new(),
            max_log_size,
            solidifiers_count,
        };
        assert(archiver.milestones_data.deep_view() =~= Seq::empty());
        archiver
    }

    /// The next milestone that the live stream is expected to deliver.
    pub fn next(&self) -> (next: u32)
        ensures
            next == self@.next,
    {
        self.next
    }

    /// The active log files, ordered by the index they start at.
    pub fn logs(&self) -> (logs: &Vec<LogFile>)
        ensures
            logs@ == self@.files.logs,
    {
        &self.logs
    }

    /// The closed ranges, the one that starts highest first.
    pub fn processed(&self) -> (processed: &Vec<MsRange>)
        ensures
            processed@ == self@.files.processed,
    {
        &self.processed
    }

    /// How many bundles wait for their turn.
    pub fn buffered(&self) -> (n: usize)
        ensures
            n == self@.milestones_data.len(),
    {
        self.milestones_data.len()
    }

    /// Whether a closed range holds milestone `m`.
    pub fn is_processed(&self, m: u32) -> (r: bool)
        ensures
            r == self@.files.covered(m),
    {
        let mut i: usize = 0;
        while i < self.processed.len()
            invariant
                i <= self.processed.len(),
                forall|j: int| 0 <= j < i ==> !(#[trigger] self.processed@[j]).spec_contains(m),
            decreases self.processed.len() - i,
        {
            if self.processed[i].contains(m) {
                assert(self@.files.processed[i as int].spec_contains(m));
                assert(self@.files.covered(m));
                return true;
            }
            i += 1;
        }
        false
    }

    /// Seals a file and says so to the caller.
    pub fn finish_log_file(log_file: &mut LogFile) -> (action: FileAction)
        ensures
            *final(log_file) == (LogFile { finished: true, ..*old(log_file) }),
            action.deep_view() == finish_of(*old(log_file)),
    {
        log_file.set_finished();
        FileAction::Finish {
            from_ms_index: log_file.from_ms_index,
            to_ms_index: log_file.to_ms_index,
        }
    }

    /// Accounts for the line of milestone `ms_index` on a file and asks the
    /// caller to write it and to record the milestone as logged.
    pub fn append(log_file: &mut LogFile, milestone_data_line: &Vec<u8>, ms_index: u32) -> (action:
        FileAction)
        requires
            old(log_file).to_ms_index < u32::MAX,
            old(log_file).len + milestone_data_line@.len() <= u64::MAX,
        ensures
            *final(log_file) == old(log_file).spec_append(milestone_data_line@.len()),
            action.deep_view() == (FileActionView::Append {
                from_ms_index: old(log_file).from_ms_index,
                ms_index,
                line: milestone_data_line@,
            }),
    {
        log_file.append_line(milestone_data_line);
        FileAction::Append {
            from_ms_index: log_file.from_ms_index,
            ms_index,
            line: milestone_data_line.clone(),
        }
    }

    /// Adds the range of a log file to the closed ranges and keeps them
    /// ordered by their start, the highest first.
    pub fn push_to_processed(&mut self, log_file: LogFile)
        requires
            old(self)@.wf(),
        ensures
            final(self)@.wf(),
            final(self)@ == (ArchiverView {
                files: old(self)@.files.push_to_processed(log_file),
                ..old(self)@
            }),
    {
        let r = MsRange { start: log_file.from_ms_index, end: log_file.to_ms_index };
        let k = position_start_below(&self.processed, r.start);
        self.processed.insert(k, r);
    }

    /// Seals the first active file whose watermark is `milestone_index`, if
    /// there is one, and moves its range to the closed ranges.
    pub fn close_log_file(&mut self, milestone_index: u32) -> (actions: Vec<FileAction>)
        requires
            old(self)@.wf(),
        ensures
            final(self)@.wf(),
            final(self)@ == (ArchiverView {
                files: old(self)@.files.close_log_file(milestone_index).0,
                ..old(self)@
            }),
            actions.deep_view() == old(self)@.files.close_log_file(milestone_index).1,
            consistent(old(self)@.files) ==> consistent(final(self)@.files) && forall|y: u32|
                owned(old(self)@.files, y) <==> #[trigger] owned(final(self)@.files, y),
    {
        proof {
            if consistent(old(self)@.files) {
                crate::archiver_laws::lemma_close_log_file_consistent(
                    old(self)@.files,
                    milestone_index,
                );
            }
        }
        let mut actions: Vec<FileAction> = Vec::new();
        let i = position_to(&self.logs, milestone_index);
        if i < self.logs.len() {
            let mut log_file = self.logs.remove(i);
            let finish = Self::finish_log_file(&mut log_file);
            push_action(&mut actions, finish);
            self.push_to_processed(log_file);
            assert(actions.deep_view() =~= old(self)@.files.close_log_file(milestone_index).1);
        } else {
            assert(actions.deep_view() =~= old(self)@.files.close_log_file(milestone_index).1);
        }
        actions
    }

    /// Opens a file that starts at `milestone_index` and gives it the line.
    pub fn create_and_append(
        &mut self,
        milestone_index: u32,
        milestone_data_line: &Vec<u8>,
        opt_upper_limit: Option<u32>,
    ) -> (actions: Vec<FileAction>)
        requires
            old(self)@.wf(),
            milestone_index < u32::MAX,
        ensures
            final(self)@.wf(),
            final(self)@ == (ArchiverView {
                files: old(self)@.files.create_and_append(
                    milestone_index,
                    milestone_data_line@,
                    opt_upper_limit,
                ).0,
                ..old(self)@
            }),
            actions.deep_view() == old(self)@.files.create_and_append(
                milestone_index,
                milestone_data_line@,
                opt_upper_limit,
            ).1,
    {
        let ghost expected = old(self)@.files.create_and_append(
            milestone_index,
            milestone_data_line@,
            opt_upper_limit,
        );
        let mut actions: Vec<FileAction> = Vec::new();
        let mut log_file = LogFile::create(milestone_index, opt_upper_limit);
        let _ = milestone_data_line.len();
        push_action(&mut actions, FileAction::Create { from_ms_index: milestone_index });
        let append = Self::append(&mut log_file, milestone_data_line, milestone_index);
        push_action(&mut actions, append);
        let ghost opened = actions.deep_view();
        assert(opened =~= seq![
            FileActionView::Create { from_ms_index: milestone_index },
            FileActionView::Append {
                from_ms_index: milestone_index,
                ms_index: milestone_index,
                line: milestone_data_line@,
            },
        ]);
        if log_file.upper_ms_limit == log_file.to_ms_index {
            let ghost unsealed = log_file;
            let finish = Self::finish_log_file(&mut log_file);
            push_action(&mut actions, finish);
            self.push_to_processed(log_file);
            assert(log_file.range() == unsealed.range());
        } else {
            let k = position_from_above(&self.logs, milestone_index);
            self.logs.insert(k, log_file);
            clamp_limits(&mut self.logs, &mut self.cleanup, &mut actions);
        }
        actions
    }
}


fn pop_front(buffer: &mut Vec<MilestoneData>) -> (top: MilestoneData)
    requires
        old(buffer).len() > 0,
    ensures
        top.deep_view() == old(buffer).deep_view()[0],
        final(buffer).deep_view() == old(buffer).deep_view().drop_first(),
{
    let top = buffer.remove(0);
    assert(buffer.deep_view() =~= old(buffer).deep_view().drop_first());
    top
}

/// The watermark never moves back while the buffer is drained.
pub proof fn lemma_drain_next(
    next: u32,
    files: FilesView,
    buffer: Seq<MilestoneDataView>,
    solidifiers_count: u8,
    opt_upper_limit: Option<u32>,
)
    requires
        forall|i: int| 0 <= i < buffer.len() ==> (#[trigger] buffer[i]).wf(),
    ensures
        drain(next, files, buffer, solidifiers_count, opt_upper_limit).next >= next,
    decreases buffer.len(),
{
    if buffer.len() > 0 {
        let top = buffer[0];
        let rest = buffer.drop_first();
        assert(top.wf());
        assert forall|i: int| 0 <= i < rest.len() implies (#[trigger] rest[i]).wf() by {
            assert(rest[i] == buffer[i + 1]);
        }
        if top.milestone_index == next {
            let (handled, actions) = files.handle_milestone_data(top, opt_upper_limit);
            lemma_drain_next((next + 1) as u32, handled, rest, solidifiers_count, opt_upper_limit);
        } else if top.milestone_index > next {
            if buffer.len() > solidifiers_count {
                let (closed, closing) = files.close_log_file(next);
                let (handled, actions) = closed.handle_milestone_data(top, opt_upper_limit);
                lemma_drain_next(
                    (top.milestone_index + 1) as u32,
                    handled,
                    rest,
                    solidifiers_count,
                    opt_upper_limit,
                );
            }
        } else {
            lemma_drain_next(next, files, rest, solidifiers_count, opt_upper_limit);
        }
    }
}

impl Archiver {
    /// Moves every file that waits in the cleanup list from the active files
    /// to the closed ranges.
    fn sweep(&mut self)
        requires
            old(self)@.wf(),
        ensures
            final(self)@.wf(),
            final(self)@ == (ArchiverView { files: old(self)@.files.sweep(), ..old(self)@ }),
    {
        while self.cleanup.len() > 0
            invariant
                self@.wf(),
                self@.files.sweep() == old(self)@.files.sweep(),
                self@ == (ArchiverView { files: self@.files, ..old(self)@ }),
            decreases self.cleanup.len(),
        {
            let ghost before = self@.files;
            let from_ms_index = self.cleanup.pop().unwrap();
            assert(self.cleanup@ =~= before.cleanup.drop_last());
            let k = position_from(&self.logs, from_ms_index);
            if k < self.logs.len() {
                let log_file = self.logs.remove(k);
                self.push_to_processed(log_file);
            }
        }
    }

    /// Handles one milestone bundle: its line goes onto the active file that
    /// waits for it, or into a new file, or nowhere if a closed range holds
    /// the milestone already; files sealed on the way are closed.
    pub fn handle_milestone_data(
        &mut self,
        milestone_data: MilestoneData,
        opt_upper_limit: Option<u32>,
    ) -> (actions: Vec<FileAction>)
        requires
            old(self)@.wf(),
            milestone_data.wf(),
        ensures
            final(self)@.wf(),
            final(self)@ == (ArchiverView {
                files: old(self)@.files.handle_milestone_data(
                    milestone_data.deep_view(),
                    opt_upper_limit,
                ).0,
                ..old(self)@
            }),
            actions.deep_view() == old(self)@.files.handle_milestone_data(
                milestone_data.deep_view(),
                opt_upper_limit,
            ).1,
            consistent(old(self)@.files) && admits(
                old(self)@.files,
                milestone_data.deep_view().milestone_index,
                milestone_data.deep_view().line(),
                opt_upper_limit,
            ) ==> {
                &&& consistent(final(self)@.files)
                &&& owned(final(self)@.files, milestone_data.deep_view().milestone_index)
                &&& forall|y: u32|
                    owned(old(self)@.files, y) ==> #[trigger] owned(final(self)@.files, y)
            },
    {
        proof {
            if consistent(old(self)@.files) && admits(
                old(self)@.files,
                milestone_data.deep_view().milestone_index,
                milestone_data.deep_view().line(),
                opt_upper_limit,
            ) {
                crate::archiver_laws::lemma_handle_milestone_data_consistent(
                    old(self)@.files,
                    milestone_data.deep_view(),
                    opt_upper_limit,
                );
            }
        }
        let milestone_index = milestone_data.milestone_index();
        let milestone_data_line = milestone_data.line();
        let ghost expected = old(self)@.files.place(
            milestone_index,
            milestone_data_line@,
            opt_upper_limit,
        );
        let mut actions: Vec<FileAction> = Vec::new();
        assert(actions.deep_view() =~= Seq::empty());
        let i = position_ready(&self.logs, milestone_index);
        if i < self.logs.len() {
            let mut log_file = self.logs[i];
            assert(ready_pred(milestone_index)(self.logs@[i as int])) by {
                lemma_first_where_exists(self.logs@, ready_pred(milestone_index));
            }
            if log_file.has_room_for(milestone_data_line.len(), self.max_log_size) {
                let append = Self::append(&mut log_file, &milestone_data_line, milestone_index);
                push_action(&mut actions, append);
                if log_file.upper_ms_limit == log_file.to_ms_index {
                    self.cleanup.push(log_file.from_ms_index);
                    let finish = Self::finish_log_file(&mut log_file);
                    push_action(&mut actions, finish);
                }
                self.logs.set(i, log_file);
                assert(actions.deep_view() =~= expected.1);
            } else {
                self.cleanup.push(log_file.from_ms_index);
                let finish = Self::finish_log_file(&mut log_file);
                push_action(&mut actions, finish);
                self.logs.set(i, log_file);
                if !self.is_processed(milestone_index) {
                    let more = self.create_and_append(
                        milestone_index,
                        &milestone_data_line,
                        Some(log_file.upper_ms_limit),
                    );
                    extend_actions(&mut actions, more);
                }
                assert(actions.deep_view() =~= expected.1);
            }
        } else if !self.is_processed(milestone_index) {
            let more = self.create_and_append(milestone_index, &milestone_data_line, opt_upper_limit);
            extend_actions(&mut actions, more);
            assert(actions.deep_view() =~= expected.1);
        }
        assert(self@.files == expected.0);
        self.sweep();
        actions
    }

    /// Puts a bundle among the waiting ones, behind those with the same or a
    /// lower index.
    fn buffer(&mut self, milestone_data: MilestoneData)
        requires
            old(self)@.wf(),
            milestone_data.wf(),
        ensures
            final(self)@.wf(),
            final(self)@ == (ArchiverView {
                milestones_data: buffered(old(self)@.milestones_data, milestone_data.deep_view()),
                ..old(self)@
            }),
    {
        let k = position_index_above(&self.milestones_data, milestone_data.milestone_index);
        let ghost before = self.milestones_data.deep_view();
        self.milestones_data.insert(k, milestone_data);
        assert(self.milestones_data.deep_view() =~= before.insert(
            k as int,
            milestone_data.deep_view(),
        ));
    }

    /// Drains the waiting bundles as far as the watermark and the window
    /// allow.
    fn drain(&mut self, opt_upper_limit: Option<u32>) -> (actions: Vec<FileAction>)
        requires
            old(self)@.wf(),
        ensures
            final(self)@.wf(),
            ({
                let d = drain(
                    old(self)@.next,
                    old(self)@.files,
                    old(self)@.milestones_data,
                    old(self)@.solidifiers_count,
                    opt_upper_limit,
                );
                &&& final(self)@ == (ArchiverView {
                    next: d.next,
                    files: d.files,
                    milestones_data: d.buffer,
                    ..old(self)@
                })
                &&& actions.deep_view() == d.actions
            }),
    {
        let ghost target = drain(
            old(self)@.next,
            old(self)@.files,
            old(self)@.milestones_data,
            old(self)@.solidifiers_count,
            opt_upper_limit,
        );
        let mut actions: Vec<FileAction> = Vec::new();
        assert(actions.deep_view() =~= Seq::empty());
        loop
            invariant_except_break
                self@.wf(),
                self@.solidifiers_count == old(self)@.solidifiers_count,
                ({
                    let d = drain(
                        self@.next,
                        self@.files,
                        self@.milestones_data,
                        self@.solidifiers_count,
                        opt_upper_limit,
                    );
                    &&& target.next == d.next
                    &&& target.files == d.files
                    &&& target.buffer == d.buffer
                    &&& target.actions == actions.deep_view() + d.actions
                }),
            ensures
                self@.wf(),
                self@ == (ArchiverView {
                    next: target.next,
                    files: target.files,
                    milestones_data: target.buffer,
                    ..old(self)@
                }),
                actions.deep_view() == target.actions,
            decreases self.milestones_data.len(),
        {
            if self.milestones_data.len() == 0 {
                assert(actions.deep_view() + Seq::<FileActionView>::empty() =~= actions.deep_view());
                break ;
            }
            let ghost before = self@;
            let ghost done = actions.deep_view();
            let top_index = self.milestones_data[0].milestone_index();
            assert(before.milestones_data[0].wf());
            assert(self.milestones_data@[0].deep_view() == before.milestones_data[0]);
            if top_index == self.next {
                let top = pop_front(&mut self.milestones_data);
                let more = self.handle_milestone_data(top, opt_upper_limit);
                let ghost handled = more.deep_view();
                extend_actions(&mut actions, more);
                self.next = self.next + 1;
                proof {
                    let d = drain(
                        self@.next,
                        self@.files,
                        self@.milestones_data,
                        self@.solidifiers_count,
                        opt_upper_limit,
                    );
                    assert(done + (handled + d.actions) =~= (done + handled) + d.actions);
                }
            } else if top_index > self.next {
                if self.milestones_data.len() > self.solidifiers_count as usize {
                    let top = pop_front(&mut self.milestones_data);
                    let closing = self.close_log_file(self.next);
                    let ghost closed = closing.deep_view();
                    extend_actions(&mut actions, closing);
                    let more = self.handle_milestone_data(top, opt_upper_limit);
                    let ghost handled = more.deep_view();
                    extend_actions(&mut actions, more);
                    self.next = top_index + 1;
                    proof {
                        let d = drain(
                            self@.next,
                            self@.files,
                            self@.milestones_data,
                            self@.solidifiers_count,
                            opt_upper_limit,
                        );
                        assert(done + (closed + handled + d.actions) =~= ((done + closed) + handled)
                            + d.actions);
                    }
                } else {
                    assert(actions.deep_view() + Seq::<FileActionView>::empty()
                        =~= actions.deep_view());
                    break ;
                }
            } else {
                let _ = pop_front(&mut self.milestones_data);
            }
        }
        actions
    }

    /// Handles one event and returns what the caller has to do to the files.
    pub fn handle_event(&mut self, event: ArchiverEvent) -> (actions: Vec<FileAction>)
        requires
            old(self)@.wf(),
            event.deep_view().wf(),
        ensures
            final(self)@.wf(),
            final(self)@ == old(self)@.handle_event(event.deep_view()).0,
            actions.deep_view() == old(self)@.handle_event(event.deep_view()).1,
            final(self)@.next >= old(self)@.next,
            consistent(old(self)@.files) && event_admitted(old(self)@, event.deep_view()) ==> {
                &&& consistent(final(self)@.files)
                &&& forall|y: u32|
                    owned(old(self)@.files, y) ==> #[trigger] owned(final(self)@.files, y)
            },
    {
        proof {
            if consistent(old(self)@.files) && event_admitted(old(self)@, event.deep_view()) {
                crate::archiver_laws::lemma_handle_event_consistent(
                    old(self)@,
                    event.deep_view(),
                );
            }
        }
        match event {
            ArchiverEvent::Close(milestone_index) => {
                if milestone_index < self.next {
                    self.close_log_file(milestone_index)
                } else {
                    let actions: Vec<FileAction> = Vec::new();
                    assert(actions.deep_view() =~= Seq::empty());
                    actions
                }
            },
            ArchiverEvent::MilestoneData(milestone_data, opt_upper_limit) => {
                let milestone_index = milestone_data.milestone_index();
                match milestone_data.created_by() {
                    CreatedBy::Incoming => {
                        self.buffer(milestone_data);
                        proof {
                            lemma_drain_next(
                                self@.next,
                                self@.files,
                                self@.milestones_data,
                                self@.solidifiers_count,
                                opt_upper_limit,
                            );
                        }
                        self.drain(opt_upper_limit)
                    },
                    CreatedBy::Syncer => {
                        if milestone_index < self.next {
                            self.handle_milestone_data(milestone_data, opt_upper_limit)
                        } else if milestone_index == self.next {
                            let actions = self.handle_milestone_data(milestone_data, None);
                            self.next = self.next + 1;
                            actions
                        } else {
                            self.buffer(milestone_data);
                            let actions: Vec<FileAction> = Vec::new();
                            assert(actions.deep_view() =~= Seq::empty());
                            actions
                        }
                    },
                }
            },
        }
    }
}

} // verus!
