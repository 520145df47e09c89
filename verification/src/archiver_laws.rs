//! What holds of the archiver's files whatever the sequence of events:
//! every milestone has at most one owner, what is owned stays owned, and
//! lines reach a file in the order of their milestones.
use vstd::prelude::*;
use crate::archiver::{
    buffered, clamp_all, clamped_upper, drain, finish_of, from_above_pred, from_pred,
    index_above_pred, ready_pred, sealed_finishes, sealed_froms, seals, start_below_pred, to_pred,
    ArchiverEventView, ArchiverView, FilesView,
};
use crate::log_file::{FileActionView, LogFile, MsRange};
use crate::milestone::{CreatedBy, MilestoneDataView};
use crate::seq_util::{first_where, is_first_where, lemma_first_where_exists};

verus! {

/// A file holds at least one milestone and has not outgrown its limit.
pub open spec fn sized(l: LogFile) -> bool {
    l.from_ms_index < l.to_ms_index <= l.upper_ms_limit
}

/// The ranges that the files may grow into lie one after the other.
pub open spec fn spaced(logs: Seq<LogFile>) -> bool {
    forall|i: int, j: int|
        #![trigger logs[i], logs[j]]
        0 <= i < j < logs.len() ==> logs[i].upper_ms_limit <= logs[j].from_ms_index
}

/// The closed ranges are not empty and no two of them share a milestone.
pub open spec fn separate(processed: Seq<MsRange>) -> bool {
    &&& forall|i: int| 0 <= i < processed.len() ==> (#[trigger] processed[i]).start < processed[i].end
    &&& forall|i: int, j: int|
        #![trigger processed[i], processed[j]]
        0 <= i < j < processed.len() ==> processed[i].disjoint(processed[j])
}

/// No closed range shares a milestone with an active file.
pub open spec fn apart(processed: Seq<MsRange>, logs: Seq<LogFile>) -> bool {
    forall|i: int, j: int|
        #![trigger processed[i], logs[j]]
        0 <= i < processed.len() && 0 <= j < logs.len() ==> processed[i].disjoint(logs[j].range())
}

/// The files are consistent but for the sealed ones that still wait in the
/// cleanup list: exactly the files named there are sealed.
pub open spec fn pending(f: FilesView) -> bool {
    &&& spaced(f.logs)
    &&& forall|j: int| 0 <= j < f.logs.len() ==> sized(#[trigger] f.logs[j])
    &&& forall|j: int|
        0 <= j < f.logs.len() && !(#[trigger] f.logs[j]).finished ==> f.logs[j].to_ms_index
            < f.logs[j].upper_ms_limit
    &&& forall|j: int|
        0 <= j < f.logs.len() ==> ((#[trigger] f.logs[j]).finished <==> f.cleanup.contains(
            f.logs[j].from_ms_index,
        ))
    &&& separate(f.processed)
    &&& apart(f.processed, f.logs)
}

/// The files at rest: every active file is open, holds at least one
/// milestone and has room for more; the ranges that the active files may
/// grow into lie one after the other; no two closed ranges share a milestone
/// and none shares one with an active file.
pub open spec fn consistent(f: FilesView) -> bool {
    pending(f) && f.cleanup.len() == 0
}

/// Milestone `m` has an owner: a closed range or an active file holds it.
pub open spec fn owned(f: FilesView, m: u32) -> bool {
    f.covered(m) || exists|j: int| 0 <= j < f.logs.len() && (#[trigger] f.logs[j]).range().spec_contains(m)
}

/// The bundles on which consistent files stay consistent. Three kinds are
/// left out: a milestone that an active file holds already; a milestone that
/// a closed range holds while an active file waits for it and has room; and
/// an upper limit that does not lie above the milestone when a file is to be
/// opened for it.
pub open spec fn admits(f: FilesView, m: u32, line: Seq<u8>, opt_upper_limit: Option<u32>) -> bool {
    let i = first_where(f.logs, ready_pred(m));
    &&& forall|j: int| 0 <= j < f.logs.len() ==> !(#[trigger] f.logs[j]).range().spec_contains(m)
    &&& i < f.logs.len() && f.logs[i].fits(line.len(), f.max_log_size) ==> !f.covered(m)
    &&& i >= f.logs.len() && !f.covered(m) ==> (opt_upper_limit matches Some(upper) ==> upper > m)
}

proof fn lemma_distinct_from(logs: Seq<LogFile>, i: int, j: int)
    requires
        spaced(logs),
        forall|j: int| 0 <= j < logs.len() ==> sized(#[trigger] logs[j]),
        0 <= i < logs.len(),
        0 <= j < logs.len(),
        i != j,
    ensures
        logs[i].from_ms_index != logs[j].from_ms_index,
{
    assert(sized(logs[i]));
    assert(sized(logs[j]));
}

proof fn lemma_covered_after_push(f: FilesView, log: LogFile, m: u32)
    ensures
        f.push_to_processed(log).covered(m) <==> f.covered(m) || log.range().spec_contains(m),
        f.push_to_processed(log).logs == f.logs,
        f.push_to_processed(log).cleanup == f.cleanup,
{
    let k = first_where(f.processed, start_below_pred(log.from_ms_index));
    lemma_first_where_exists(f.processed, start_below_pred(log.from_ms_index));
    let p = f.processed;
    let q = f.push_to_processed(log).processed;
    assert(q == p.insert(k, log.range()));
    if f.covered(m) {
        let i = choose|i: int| 0 <= i < p.len() && (#[trigger] p[i]).spec_contains(m);
        if i < k {
            assert(q[i] == p[i]);
        } else {
            assert(q[i + 1] == p[i]);
        }
    }
    if log.range().spec_contains(m) {
        assert(q[k] == log.range());
    }
    if f.push_to_processed(log).covered(m) {
        let i = choose|i: int| 0 <= i < q.len() && (#[trigger] q[i]).spec_contains(m);
        if i < k {
            assert(q[i] == p[i]);
        } else if i > k {
            assert(q[i] == p[i - 1]);
        }
    }
}

proof fn lemma_push_keeps_separate(f: FilesView, log: LogFile)
    requires
        separate(f.processed),
        sized(log),
        forall|i: int| 0 <= i < f.processed.len() ==> (#[trigger] f.processed[i]).disjoint(log.range()),
    ensures
        separate(f.push_to_processed(log).processed),
        forall|logs: Seq<LogFile>|
            apart(f.processed, logs) && (forall|j: int|
                0 <= j < logs.len() ==> log.range().disjoint((#[trigger] logs[j]).range()))
                ==> #[trigger] apart(f.push_to_processed(log).processed, logs),
{
    let k = first_where(f.processed, start_below_pred(log.from_ms_index));
    lemma_first_where_exists(f.processed, start_below_pred(log.from_ms_index));
    let p = f.processed;
    let q = f.push_to_processed(log).processed;
    assert(q == p.insert(k, log.range()));
    assert forall|i: int| 0 <= i < q.len() implies (#[trigger] q[i]).start < q[i].end by {
        if i < k {
            assert(q[i] == p[i]);
        } else if i > k {
            assert(q[i] == p[i - 1]);
        }
    }
    assert forall|i: int, j: int|
        #![trigger q[i], q[j]]
        0 <= i < j < q.len() implies q[i].disjoint(q[j]) by {
        let a = if i < k { i } else { i - 1 };
        let b = if j < k { j } else { j - 1 };
        if i != k && j != k {
            assert(q[i] == p[a]);
            assert(q[j] == p[b]);
            assert(p[a].disjoint(p[b]));
        } else if i == k {
            assert(q[j] == p[b]);
            assert(p[b].disjoint(log.range()));
        } else {
            assert(q[i] == p[a]);
            assert(p[a].disjoint(log.range()));
        }
    }
    assert forall|logs: Seq<LogFile>|
        apart(p, logs) && (forall|j: int|
            0 <= j < logs.len() ==> log.range().disjoint((#[trigger] logs[j]).range()))
            implies #[trigger] apart(q, logs) by {
        assert forall|i: int, j: int|
            #![trigger q[i], logs[j]]
            0 <= i < q.len() && 0 <= j < logs.len() implies q[i].disjoint(logs[j].range()) by {
            if i < k {
                assert(q[i] == p[i]);
                assert(p[i].disjoint(logs[j].range()));
            } else if i > k {
                assert(q[i] == p[i - 1]);
                assert(p[i - 1].disjoint(logs[j].range()));
            }
        }
    }
}

/// Sweeping the cleanup list leaves consistent files, and every milestone
/// keeps its owner.
pub proof fn lemma_sweep(f: FilesView)
    requires
        pending(f),
    ensures
        consistent(f.sweep()),
        forall|m: u32| owned(f, m) <==> #[trigger] owned(f.sweep(), m),
        f.sweep().max_log_size == f.max_log_size,
    decreases f.cleanup.len(),
{
    if f.cleanup.len() > 0 {
        let x = f.cleanup.last();
        let k = first_where(f.logs, from_pred(x));
        lemma_first_where_exists(f.logs, from_pred(x));
        let rest = FilesView { cleanup: f.cleanup.drop_last(), ..f };
        assert forall|y: u32| y != x implies (rest.cleanup.contains(y) <==> f.cleanup.contains(
            y,
        )) by {
            if f.cleanup.contains(y) {
                let i = choose|i: int| 0 <= i < f.cleanup.len() && f.cleanup[i] == y;
                assert(rest.cleanup[i] == y);
            }
            if rest.cleanup.contains(y) {
                let i = choose|i: int| 0 <= i < rest.cleanup.len() && rest.cleanup[i] == y;
                assert(f.cleanup[i] == y);
            }
        }
        if k < f.logs.len() {
            let log = f.logs[k];
            let cut = FilesView { logs: f.logs.remove(k), ..rest };
            let g = cut.push_to_processed(log);
            assert(sized(log));
            assert forall|j: int| 0 <= j < cut.logs.len() implies log.range().disjoint(
                (#[trigger] cut.logs[j]).range(),
            ) && cut.logs[j].from_ms_index != x && sized(cut.logs[j]) by {
                let o = if j < k { j } else { j + 1 };
                assert(cut.logs[j] == f.logs[o]);
                assert(sized(f.logs[o]));
                if o < k {
                    assert(f.logs[o].upper_ms_limit <= f.logs[k].from_ms_index);
                } else {
                    assert(f.logs[k].upper_ms_limit <= f.logs[o].from_ms_index);
                }
            }
            assert forall|i: int| 0 <= i < f.processed.len() implies (#[trigger] f.processed[i]).disjoint(
                log.range(),
            ) by {
                assert(f.processed[i].disjoint(f.logs[k].range()));
            }
            assert(apart(cut.processed, cut.logs)) by {
                assert forall|i: int, j: int|
                    #![trigger cut.processed[i], cut.logs[j]]
                    0 <= i < cut.processed.len() && 0 <= j < cut.logs.len() implies cut.processed[i].disjoint(
                    cut.logs[j].range(),
                ) by {
                    let o = if j < k { j } else { j + 1 };
                    assert(cut.logs[j] == f.logs[o]);
                    assert(f.processed[i].disjoint(f.logs[o].range()));
                }
            }
            lemma_push_keeps_separate(cut, log);
            lemma_covered_after_push(cut, log, 0);
            assert(apart(g.processed, cut.logs));
            assert(spaced(g.logs)) by {
                assert forall|i: int, j: int|
                    #![trigger g.logs[i], g.logs[j]]
                    0 <= i < j < g.logs.len() implies g.logs[i].upper_ms_limit
                    <= g.logs[j].from_ms_index by {
                    let a = if i < k { i } else { i + 1 };
                    let b = if j < k { j } else { j + 1 };
                    assert(g.logs[i] == f.logs[a]);
                    assert(g.logs[j] == f.logs[b]);
                    assert(f.logs[a].upper_ms_limit <= f.logs[b].from_ms_index);
                }
            }
            assert forall|j: int| 0 <= j < g.logs.len() implies ((#[trigger] g.logs[j]).finished
                <==> g.cleanup.contains(g.logs[j].from_ms_index)) && (!g.logs[j].finished
                ==> g.logs[j].to_ms_index < g.logs[j].upper_ms_limit) by {
                let o = if j < k { j } else { j + 1 };
                assert(g.logs[j] == f.logs[o]);
                assert(cut.logs[j] == f.logs[o]);
            }
            assert(pending(g));
            lemma_sweep(g);
            assert forall|m: u32| owned(f, m) <==> #[trigger] owned(g, m) by {
                lemma_covered_after_push(cut, log, m);
                if owned(f, m) && !f.covered(m) {
                    let j = choose|j: int|
                        0 <= j < f.logs.len() && (#[trigger] f.logs[j]).range().spec_contains(m);
                    if j < k {
                        assert(g.logs[j] == f.logs[j]);
                    } else if j > k {
                        assert(g.logs[j - 1] == f.logs[j]);
                    }
                }
                if owned(g, m) && !g.covered(m) {
                    let j = choose|j: int|
                        0 <= j < g.logs.len() && (#[trigger] g.logs[j]).range().spec_contains(m);
                    let o = if j < k { j } else { j + 1 };
                    assert(g.logs[j] == f.logs[o]);
                }
            }
        } else {
            assert forall|j: int| 0 <= j < rest.logs.len() implies ((#[trigger] rest.logs[j]).finished
                <==> rest.cleanup.contains(rest.logs[j].from_ms_index)) by {
                assert(!from_pred(x)(f.logs[j]));
            }
            assert(pending(rest));
            lemma_sweep(rest);
            assert forall|m: u32| owned(f, m) <==> #[trigger] owned(rest, m) by {}
        }
    }
}


/// A file start is queued by cutting back the limits exactly when the file
/// at some position is sealed by it.
proof fn lemma_sealed_froms(logs: Seq<LogFile>, n: int, x: u32)
    requires
        0 <= n,
    ensures
        sealed_froms(logs, n).contains(x) <==> exists|j: int|
            n <= j < logs.len() && #[trigger] seals(logs, j) && logs[j].from_ms_index == x,
    decreases logs.len() - n,
{
    if n + 1 < logs.len() {
        lemma_sealed_froms(logs, n + 1, x);
        let rest = sealed_froms(logs, n + 1);
        if seals(logs, n) {
            let all = rest.push(logs[n].from_ms_index);
            if rest.contains(x) {
                let i = choose|i: int| 0 <= i < rest.len() && rest[i] == x;
                assert(all[i] == x);
            }
            if logs[n].from_ms_index == x {
                assert(all[rest.len() as int] == x);
            }
        }
    }
}

/// The files hold at least one milestone each, their ranges lie one after
/// the other, and every open one has room for more.
pub open spec fn chained(logs: Seq<LogFile>) -> bool {
    &&& forall|j: int| 0 <= j < logs.len() ==> sized(#[trigger] logs[j])
    &&& forall|a: int, b: int|
        #![trigger logs[a], logs[b]]
        0 <= a < b < logs.len() ==> logs[a].to_ms_index <= logs[b].from_ms_index
    &&& forall|j: int|
        0 <= j < logs.len() && !(#[trigger] logs[j]).finished ==> logs[j].to_ms_index
            < logs[j].upper_ms_limit
}

/// Cutting back the limits of chained files leaves them spaced, changes no
/// range, and seals exactly the open files that it leaves full.
proof fn lemma_clamp(ins: Seq<LogFile>)
    requires
        chained(ins),
    ensures
        clamp_all(ins).len() == ins.len(),
        spaced(clamp_all(ins)),
        forall|j: int|
            0 <= j < ins.len() ==> {
                &&& sized(#[trigger] clamp_all(ins)[j])
                &&& clamp_all(ins)[j].range() == ins[j].range()
                &&& clamp_all(ins)[j].finished == (ins[j].finished || seals(ins, j))
                &&& !clamp_all(ins)[j].finished ==> clamp_all(ins)[j].to_ms_index
                    < clamp_all(ins)[j].upper_ms_limit
            },
{
    let c = clamp_all(ins);
    assert forall|j: int| 0 <= j < ins.len() implies clamped_upper(ins, j)
        >= (#[trigger] ins[j]).to_ms_index && (j + 1 < ins.len() ==> clamped_upper(ins, j)
        <= ins[j + 1].from_ms_index) by {
        assert(sized(ins[j]));
        if j + 1 < ins.len() {
            assert(ins[j].to_ms_index <= ins[j + 1].from_ms_index);
        }
    }
    assert forall|a: int, b: int|
        #![trigger c[a], c[b]]
        0 <= a < b < c.len() implies c[a].upper_ms_limit <= c[b].from_ms_index by {
        assert(clamped_upper(ins, a) >= ins[a].to_ms_index);
        assert(sized(ins[a + 1]));
        if a + 1 < b {
            assert(ins[a + 1].to_ms_index <= ins[b].from_ms_index);
        }
    }
    assert forall|j: int| 0 <= j < ins.len() implies {
        &&& sized(#[trigger] c[j])
        &&& c[j].range() == ins[j].range()
        &&& c[j].finished == (ins[j].finished || seals(ins, j))
        &&& !c[j].finished ==> c[j].to_ms_index < c[j].upper_ms_limit
    } by {
        assert(sized(ins[j]));
        assert(clamped_upper(ins, j) >= ins[j].to_ms_index);
    }
}

/// A file for a milestone that no active file holds takes its place in a
/// chain of files.
proof fn lemma_insert_chained(logs: Seq<LogFile>, m: u32, log: LogFile)
    requires
        spaced(logs),
        forall|j: int| 0 <= j < logs.len() ==> sized(#[trigger] logs[j]),
        forall|j: int|
            0 <= j < logs.len() && !(#[trigger] logs[j]).finished ==> logs[j].to_ms_index
                < logs[j].upper_ms_limit,
        forall|j: int| 0 <= j < logs.len() ==> !(#[trigger] logs[j]).range().spec_contains(m),
        log.from_ms_index == m,
        log.to_ms_index == m + 1,
        log.upper_ms_limit > m + 1,
    ensures
        0 <= first_where(logs, from_above_pred(m)) <= logs.len(),
        chained(logs.insert(first_where(logs, from_above_pred(m)), log)),
{
    let k = first_where(logs, from_above_pred(m));
    lemma_first_where_exists(logs, from_above_pred(m));
    let ins = logs.insert(k, log);
    assert forall|j: int| 0 <= j < ins.len() implies sized(#[trigger] ins[j]) && (!ins[j].finished
        ==> ins[j].to_ms_index < ins[j].upper_ms_limit) by {
        if j < k {
            assert(sized(logs[j]));
        } else if j > k {
            assert(sized(logs[j - 1]));
        }
    }
    assert forall|a: int, b: int|
        #![trigger ins[a], ins[b]]
        0 <= a < b < ins.len() implies ins[a].to_ms_index <= ins[b].from_ms_index by {
        if b < k {
            assert(sized(logs[a]));
            assert(logs[a].upper_ms_limit <= logs[b].from_ms_index);
        } else if b == k {
            assert(!from_above_pred(m)(logs[a]));
            assert(!logs[a].range().spec_contains(m));
        } else if a == k {
            assert(sized(logs[k]));
            if b - 1 > k {
                assert(logs[k].upper_ms_limit <= logs[b - 1].from_ms_index);
            }
        } else if a > k {
            assert(sized(logs[a - 1]));
            assert(logs[a - 1].upper_ms_limit <= logs[b - 1].from_ms_index);
        } else {
            assert(sized(logs[a]));
            assert(sized(logs[k]));
            assert(!from_above_pred(m)(logs[a]));
            assert(!logs[a].range().spec_contains(m));
            if b - 1 > k {
                assert(logs[k].upper_ms_limit <= logs[b - 1].from_ms_index);
            }
        }
    }
}

/// The list `queued` names exactly the files that are sealed already or are
/// sealed by cutting back the limits.
pub open spec fn marked(ins: Seq<LogFile>, queued: Seq<u32>) -> bool {
    forall|j: int|
        0 <= j < ins.len() ==> (((#[trigger] ins[j]).finished || seals(ins, j)) <==> queued.contains(
            ins[j].from_ms_index,
        ))
}

/// After a file was inserted and the limits cut back, the cleanup list
/// names exactly the sealed files.
proof fn lemma_cleanup_marks(
    logs: Seq<LogFile>,
    cleanup: Seq<u32>,
    k: int,
    log: LogFile,
    ins: Seq<LogFile>,
)
    requires
        0 <= k <= logs.len(),
        ins == logs.insert(k, log),
        chained(ins),
        !log.finished,
        !cleanup.contains(log.from_ms_index),
        forall|j: int|
            0 <= j < logs.len() ==> ((#[trigger] logs[j]).finished <==> cleanup.contains(
                logs[j].from_ms_index,
            )),
    ensures
        marked(ins, cleanup + sealed_froms(ins, 0)),
{
    let sealed = sealed_froms(ins, 0);
    let all = cleanup + sealed;
    assert forall|j: int| 0 <= j < ins.len() implies (((#[trigger] ins[j]).finished || seals(ins, j))
        <==> all.contains(ins[j].from_ms_index)) by {
        let x = ins[j].from_ms_index;
        lemma_sealed_froms(ins, 0, x);
        if cleanup.contains(x) {
            let i = choose|i: int| 0 <= i < cleanup.len() && cleanup[i] == x;
            assert(all[i] == x);
        }
        if sealed.contains(x) {
            let i = choose|i: int| 0 <= i < sealed.len() && sealed[i] == x;
            assert(all[cleanup.len() + i] == x);
            let o = choose|o: int|
                0 <= o < ins.len() && #[trigger] seals(ins, o) && ins[o].from_ms_index == x;
            assert(sized(ins[o]));
            assert(sized(ins[j]));
            if o < j {
                assert(ins[o].to_ms_index <= ins[j].from_ms_index);
            } else if j < o {
                assert(ins[j].to_ms_index <= ins[o].from_ms_index);
            }
        }
        if all.contains(x) {
            let i = choose|i: int| 0 <= i < all.len() && all[i] == x;
            if i < cleanup.len() {
                assert(cleanup[i] == x);
            } else {
                assert(sealed[i - cleanup.len()] == x);
            }
        }
        if j < k {
            assert(logs[j].finished <==> cleanup.contains(x));
        } else if j > k {
            assert(logs[j - 1].finished <==> cleanup.contains(x));
        }
    }
}

/// Closing a range that shares no milestone with the closed ranges or the
/// active files keeps everything apart.
proof fn lemma_create_sealed(g: FilesView, m: u32, log: LogFile)
    requires
        pending(g),
        !g.covered(m),
        forall|j: int| 0 <= j < g.logs.len() ==> !(#[trigger] g.logs[j]).range().spec_contains(m),
        log.from_ms_index == m,
        log.to_ms_index == m + 1,
        log.upper_ms_limit == m + 1,
    ensures
        pending(g.push_to_processed(log)),
        owned(g.push_to_processed(log), m),
        forall|y: u32| owned(g, y) ==> #[trigger] owned(g.push_to_processed(log), y),
{
    let r = g.push_to_processed(log);
    assert forall|i: int| 0 <= i < g.processed.len() implies (#[trigger] g.processed[i]).disjoint(
        log.range(),
    ) by {
        assert(!g.processed[i].spec_contains(m));
    }
    lemma_push_keeps_separate(g, log);
    assert forall|j: int| 0 <= j < g.logs.len() implies log.range().disjoint(
        (#[trigger] g.logs[j]).range(),
    ) by {
        assert(!g.logs[j].range().spec_contains(m));
    }
    assert(apart(r.processed, g.logs));
    assert forall|y: u32| owned(g, y) implies #[trigger] owned(r, y) by {
        lemma_covered_after_push(g, log, y);
    }
    lemma_covered_after_push(g, log, m);
}

/// Opening a file for a milestone that has no owner leaves the files
/// consistent but for the sealed ones, gives the milestone an owner and
/// takes none away.
proof fn lemma_create(g: FilesView, m: u32, line: Seq<u8>, opt_upper_limit: Option<u32>)
    requires
        pending(g),
        m < u32::MAX,
        opt_upper_limit matches Some(upper) ==> upper > m,
        !g.covered(m),
        forall|j: int| 0 <= j < g.logs.len() ==> !(#[trigger] g.logs[j]).range().spec_contains(m),
        !g.cleanup.contains(m),
    ensures
        pending(g.create_and_append(m, line, opt_upper_limit).0),
        owned(g.create_and_append(m, line, opt_upper_limit).0, m),
        forall|y: u32| owned(g, y) ==> #[trigger] owned(g.create_and_append(m, line, opt_upper_limit).0, y),
        g.create_and_append(m, line, opt_upper_limit).0.max_log_size == g.max_log_size,
{
    let r = g.create_and_append(m, line, opt_upper_limit).0;
    let log = LogFile::spec_create(m, opt_upper_limit).spec_append(line.len());
    assert(log.from_ms_index == m && log.to_ms_index == m + 1 && !log.finished);
    assert(log.upper_ms_limit > m);
    if log.upper_ms_limit == log.to_ms_index {
        lemma_create_sealed(g, m, log);
    } else {
        let k = first_where(g.logs, from_above_pred(m));
        lemma_insert_chained(g.logs, m, log);
        let ins = g.logs.insert(k, log);
        let c = clamp_all(ins);
        lemma_clamp(ins);
        lemma_cleanup_marks(g.logs, g.cleanup, k, log, ins);
        assert(r.logs == c);
        assert forall|j: int| 0 <= j < c.len() implies ((#[trigger] c[j]).finished
            <==> r.cleanup.contains(c[j].from_ms_index)) by {
            assert(ins[j].finished || !ins[j].finished);
        }
        assert(apart(r.processed, c)) by {
            assert forall|i: int, j: int|
                #![trigger r.processed[i], c[j]]
                0 <= i < r.processed.len() && 0 <= j < c.len() implies r.processed[i].disjoint(
                c[j].range(),
            ) by {
                assert(c[j].range() == ins[j].range());
                if j < k {
                    assert(g.processed[i].disjoint(g.logs[j].range()));
                } else if j > k {
                    assert(g.processed[i].disjoint(g.logs[j - 1].range()));
                } else {
                    assert(!g.processed[i].spec_contains(m));
                }
            }
        }
        assert(c[k].range() == ins[k].range());
        assert(c[k].range().spec_contains(m));
        assert forall|y: u32| owned(g, y) implies #[trigger] owned(r, y) by {
            if !g.covered(y) {
                let j = choose|j: int|
                    0 <= j < g.logs.len() && (#[trigger] g.logs[j]).range().spec_contains(y);
                let o = if j < k { j } else { j + 1 };
                assert(c[o].range() == ins[o].range());
            }
        }
    }
}


/// Placing the line of an admitted milestone leaves the files consistent
/// but for the sealed ones, gives the milestone an owner and takes none
/// away.
proof fn lemma_place(f: FilesView, m: u32, line: Seq<u8>, opt_upper_limit: Option<u32>)
    requires
        consistent(f),
        m < u32::MAX,
        admits(f, m, line, opt_upper_limit),
    ensures
        pending(f.place(m, line, opt_upper_limit).0),
        owned(f.place(m, line, opt_upper_limit).0, m),
        forall|y: u32| owned(f, y) ==> #[trigger] owned(f.place(m, line, opt_upper_limit).0, y),
        f.place(m, line, opt_upper_limit).0.max_log_size == f.max_log_size,
{
    let r = f.place(m, line, opt_upper_limit).0;
    let i = first_where(f.logs, ready_pred(m));
    lemma_first_where_exists(f.logs, ready_pred(m));
    assert(f.cleanup =~= Seq::<u32>::empty());
    if i < f.logs.len() {
        let log = f.logs[i];
        assert(ready_pred(m)(log));
        assert(sized(log));
        let fits = log.fits(line.len(), f.max_log_size);
        let grown = log.spec_append(line.len());
        let full = fits && grown.upper_ms_limit == grown.to_ms_index;
        // the file at position `i` after the line was placed, before a new
        // file is opened
        let at = if fits {
            if full { LogFile { finished: true, ..grown } } else { grown }
        } else {
            LogFile { finished: true, ..log }
        };
        let s = FilesView {
            logs: f.logs.update(i, at),
            cleanup: if fits && !full { f.cleanup } else { f.cleanup.push(log.from_ms_index) },
            ..f
        };
        assert(sized(at));
        assert(at.finished ==> s.cleanup[0] == log.from_ms_index);
        assert forall|j: int| 0 <= j < s.logs.len() implies sized(#[trigger] s.logs[j]) && (
        !s.logs[j].finished ==> s.logs[j].to_ms_index < s.logs[j].upper_ms_limit) && (
        s.logs[j].finished <==> s.cleanup.contains(s.logs[j].from_ms_index)) && (j != i
            ==> !s.logs[j].range().spec_contains(m)) by {
            if j != i {
                assert(s.logs[j] == f.logs[j]);
                assert(sized(f.logs[j]));
                lemma_distinct_from(f.logs, i, j);
                assert(!f.logs[j].range().spec_contains(m));
            }
        }
        assert(spaced(s.logs)) by {
            assert forall|a: int, b: int|
                #![trigger s.logs[a], s.logs[b]]
                0 <= a < b < s.logs.len() implies s.logs[a].upper_ms_limit
                <= s.logs[b].from_ms_index by {
                assert(f.logs[a].upper_ms_limit <= f.logs[b].from_ms_index);
            }
        }
        assert(apart(s.processed, s.logs)) by {
            assert forall|p: int, j: int|
                #![trigger s.processed[p], s.logs[j]]
                0 <= p < s.processed.len() && 0 <= j < s.logs.len() implies s.processed[p].disjoint(
                s.logs[j].range(),
            ) by {
                assert(f.processed[p].disjoint(f.logs[j].range()));
                if j == i && fits {
                    assert(!f.processed[p].spec_contains(m));
                }
            }
        }
        assert(pending(s));
        assert forall|y: u32| owned(f, y) implies #[trigger] owned(s, y) by {
            if !f.covered(y) {
                let j = choose|j: int|
                    0 <= j < f.logs.len() && (#[trigger] f.logs[j]).range().spec_contains(y);
                assert(s.logs[j].range().spec_contains(y));
            }
        }
        if fits {
            assert(r == s);
            assert(s.logs[i].range().spec_contains(m));
        } else if s.covered(m) {
            assert(r == s);
        } else {
            assert(!s.cleanup.contains(m)) by {
                if s.cleanup.contains(m) {
                    let x = choose|x: int| 0 <= x < s.cleanup.len() && s.cleanup[x] == m;
                    assert(s.cleanup[x] == log.from_ms_index);
                }
            }
            assert forall|j: int| 0 <= j < s.logs.len() implies !(#[trigger] s.logs[j]).range().spec_contains(
                m,
            ) by {}
            lemma_create(s, m, line, Some(log.upper_ms_limit));
            assert(r == s.create_and_append(m, line, Some(log.upper_ms_limit)).0);
            assert forall|y: u32| owned(f, y) implies #[trigger] owned(r, y) by {
                assert(owned(s, y));
            }
        }
    } else if !f.covered(m) {
        assert(!f.cleanup.contains(m));
        lemma_create(f, m, line, opt_upper_limit);
    }
}

/// Consistent files stay consistent when an admitted bundle is handled; the
/// bundle's milestone has an owner afterwards, and no milestone loses its
/// owner.
///
/// With consistency this says that a handled milestone has exactly one
/// owner, an active file or a closed range, and keeps having exactly one.
pub proof fn lemma_handle_milestone_data_consistent(
    f: FilesView,
    data: MilestoneDataView,
    opt_upper_limit: Option<u32>,
)
    requires
        consistent(f),
        data.wf(),
        admits(f, data.milestone_index, data.line(), opt_upper_limit),
    ensures
        consistent(f.handle_milestone_data(data, opt_upper_limit).0),
        owned(f.handle_milestone_data(data, opt_upper_limit).0, data.milestone_index),
        forall|y: u32|
            owned(f, y) ==> #[trigger] owned(f.handle_milestone_data(data, opt_upper_limit).0, y),
        f.handle_milestone_data(data, opt_upper_limit).0.max_log_size == f.max_log_size,
{
    let placed = f.place(data.milestone_index, data.line(), opt_upper_limit).0;
    lemma_place(f, data.milestone_index, data.line(), opt_upper_limit);
    lemma_sweep(placed);
    assert forall|y: u32| owned(f, y) implies #[trigger] owned(placed.sweep(), y) by {
        assert(owned(placed, y));
    }
}

/// Consistent files stay consistent when a file is closed on request, and
/// no milestone loses its owner.
pub proof fn lemma_close_log_file_consistent(f: FilesView, m: u32)
    requires
        consistent(f),
    ensures
        consistent(f.close_log_file(m).0),
        forall|y: u32| owned(f, y) <==> #[trigger] owned(f.close_log_file(m).0, y),
        f.close_log_file(m).0.max_log_size == f.max_log_size,
{
    let i = first_where(f.logs, to_pred(m));
    lemma_first_where_exists(f.logs, to_pred(m));
    if i < f.logs.len() {
        let log = f.logs[i];
        // sealing the file and sweeping it is what closing does
        let s = FilesView {
            logs: f.logs.update(i, LogFile { finished: true, ..log }),
            cleanup: f.cleanup.push(log.from_ms_index),
            ..f
        };
        assert(f.cleanup =~= Seq::<u32>::empty());
        assert(s.cleanup[0] == log.from_ms_index);
        assert(sized(log));
        assert forall|j: int| 0 <= j < s.logs.len() implies sized(#[trigger] s.logs[j]) && (
        !s.logs[j].finished ==> s.logs[j].to_ms_index < s.logs[j].upper_ms_limit) && (
        s.logs[j].finished <==> s.cleanup.contains(s.logs[j].from_ms_index)) by {
            if j != i {
                assert(s.logs[j] == f.logs[j]);
                assert(sized(f.logs[j]));
                lemma_distinct_from(f.logs, i, j);
            }
        }
        assert(spaced(s.logs)) by {
            assert forall|a: int, b: int|
                #![trigger s.logs[a], s.logs[b]]
                0 <= a < b < s.logs.len() implies s.logs[a].upper_ms_limit
                <= s.logs[b].from_ms_index by {
                assert(f.logs[a].upper_ms_limit <= f.logs[b].from_ms_index);
            }
        }
        assert(apart(s.processed, s.logs)) by {
            assert forall|p: int, j: int|
                #![trigger s.processed[p], s.logs[j]]
                0 <= p < s.processed.len() && 0 <= j < s.logs.len() implies s.processed[p].disjoint(
                s.logs[j].range(),
            ) by {
                assert(f.processed[p].disjoint(f.logs[j].range()));
            }
        }
        assert(pending(s));
        lemma_sweep(s);
        // the sweep removes exactly that file
        assert(is_first_where(s.logs, from_pred(log.from_ms_index), i)) by {
            assert forall|j: int| 0 <= j < i implies !from_pred(log.from_ms_index)(
                #[trigger] s.logs[j],
            ) by {
                lemma_distinct_from(f.logs, i, j);
            }
        }
        crate::seq_util::lemma_first_where_unique(s.logs, from_pred(log.from_ms_index), i);
        assert(s.cleanup.last() == log.from_ms_index);
        assert(s.cleanup.drop_last() =~= Seq::<u32>::empty());
        assert(s.logs.remove(i) =~= f.logs.remove(i));
        let swept = (FilesView {
            logs: s.logs.remove(i),
            cleanup: s.cleanup.drop_last(),
            ..s
        }).push_to_processed(s.logs[i]);
        assert(s.sweep() == swept.sweep());
        assert(swept.sweep() == swept);
        assert(swept == f.close_log_file(m).0);
        assert forall|y: u32| owned(f, y) <==> #[trigger] owned(s, y) by {
            if owned(f, y) && !f.covered(y) {
                let j = choose|j: int|
                    0 <= j < f.logs.len() && (#[trigger] f.logs[j]).range().spec_contains(y);
                assert(s.logs[j].range().spec_contains(y));
            }
            if owned(s, y) && !s.covered(y) {
                let j = choose|j: int|
                    0 <= j < s.logs.len() && (#[trigger] s.logs[j]).range().spec_contains(y);
                assert(f.logs[j].range().spec_contains(y));
            }
        }
        assert forall|y: u32| owned(f, y) <==> #[trigger] owned(f.close_log_file(m).0, y) by {
            assert(owned(f, y) <==> owned(s, y));
            assert(owned(s, y) <==> owned(s.sweep(), y));
        }
    }
}

/// Every active file can be sealed: a request to close the file that waits
/// for `m` moves all its milestones to the sealed ranges.
pub proof fn lemma_close_seals(f: FilesView, m: u32, j: int, y: u32)
    requires
        consistent(f),
        0 <= j < f.logs.len(),
        f.logs[j].to_ms_index == m,
        f.logs[j].range().spec_contains(y),
    ensures
        f.close_log_file(m).0.covered(y),
        f.close_log_file(m).1 == seq![finish_of(f.logs[j])],
{
    let i = first_where(f.logs, to_pred(m));
    lemma_first_where_exists(f.logs, to_pred(m));
    if i > j {
        assert(!to_pred(m)(f.logs[j]));
    }
    assert(to_pred(m)(f.logs[i]));
    if i < j {
        assert(sized(f.logs[i]));
        assert(sized(f.logs[j]));
        assert(f.logs[i].upper_ms_limit <= f.logs[j].from_ms_index);
    }
    let cut = FilesView { logs: f.logs.remove(i), ..f };
    lemma_covered_after_push(cut, f.logs[i], y);
}

/// No two sealed files share a milestone, and no sealed file shares one
/// with an active file.
pub proof fn lemma_sealed_ranges_disjoint(f: FilesView, i: int, j: int)
    requires
        consistent(f),
        0 <= i < f.processed.len(),
        0 <= j < f.processed.len(),
        i != j,
    ensures
        f.processed[i].disjoint(f.processed[j]),
        forall|k: int|
            0 <= k < f.logs.len() ==> f.processed[i].disjoint((#[trigger] f.logs[k]).range()),
{
    if i < j {
        assert(f.processed[i].disjoint(f.processed[j]));
    } else {
        assert(f.processed[j].disjoint(f.processed[i]));
    }
    assert forall|k: int| 0 <= k < f.logs.len() implies f.processed[i].disjoint(
        (#[trigger] f.logs[k]).range(),
    ) by {}
}

/// Every active file of consistent files obeys `from <= to <= upper limit`.
pub proof fn lemma_active_file_bounds(f: FilesView, k: int)
    requires
        consistent(f),
        0 <= k < f.logs.len(),
    ensures
        f.logs[k].from_ms_index <= f.logs[k].to_ms_index <= f.logs[k].upper_ms_limit,
{
    assert(sized(f.logs[k]));
}


/// Every bundle that is handled while the buffer is drained is admitted by
/// the files as they are when its turn comes.
pub open spec fn drain_admitted(
    next: u32,
    files: FilesView,
    buffer: Seq<MilestoneDataView>,
    solidifiers_count: u8,
    opt_upper_limit: Option<u32>,
) -> bool
    decreases buffer.len(),
{
    if buffer.len() == 0 {
        true
    } else {
        let top = buffer[0];
        if top.milestone_index == next {
            &&& admits(files, top.milestone_index, top.line(), opt_upper_limit)
            &&& drain_admitted(
                (next + 1) as u32,
                files.handle_milestone_data(top, opt_upper_limit).0,
                buffer.drop_first(),
                solidifiers_count,
                opt_upper_limit,
            )
        } else if top.milestone_index > next {
            buffer.len() > solidifiers_count ==> {
                let closed = files.close_log_file(next).0;
                &&& admits(closed, top.milestone_index, top.line(), opt_upper_limit)
                &&& drain_admitted(
                    (top.milestone_index + 1) as u32,
                    closed.handle_milestone_data(top, opt_upper_limit).0,
                    buffer.drop_first(),
                    solidifiers_count,
                    opt_upper_limit,
                )
            }
        } else {
            drain_admitted(next, files, buffer.drop_first(), solidifiers_count, opt_upper_limit)
        }
    }
}

/// Every bundle that the event leads the archiver to handle is admitted by
/// the files as they are when its turn comes.
pub open spec fn event_admitted(a: ArchiverView, event: ArchiverEventView) -> bool {
    match event {
        ArchiverEventView::Close(_) => true,
        ArchiverEventView::MilestoneData(data, opt_upper_limit) => {
            if data.created_by != CreatedBy::Syncer {
                drain_admitted(
                    a.next,
                    a.files,
                    buffered(a.milestones_data, data),
                    a.solidifiers_count,
                    opt_upper_limit,
                )
            } else if data.milestone_index < a.next {
                admits(a.files, data.milestone_index, data.line(), opt_upper_limit)
            } else if data.milestone_index == a.next {
                admits(a.files, data.milestone_index, data.line(), None)
            } else {
                true
            }
        },
    }
}

proof fn lemma_drain_consistent(
    next: u32,
    files: FilesView,
    buffer: Seq<MilestoneDataView>,
    solidifiers_count: u8,
    opt_upper_limit: Option<u32>,
)
    requires
        consistent(files),
        forall|i: int| 0 <= i < buffer.len() ==> (#[trigger] buffer[i]).wf(),
        drain_admitted(next, files, buffer, solidifiers_count, opt_upper_limit),
    ensures
        consistent(drain(next, files, buffer, solidifiers_count, opt_upper_limit).files),
        forall|y: u32|
            owned(files, y) ==> #[trigger] owned(
                drain(next, files, buffer, solidifiers_count, opt_upper_limit).files,
                y,
            ),
    decreases buffer.len(),
{
    if buffer.len() > 0 {
        let top = buffer[0];
        let rest = buffer.drop_first();
        assert(top.wf());
        assert forall|i: int| 0 <= i < rest.len() implies (#[trigger] rest[i]).wf() by {
            assert(rest[i] == buffer[i + 1]);
        }
        let d = drain(next, files, buffer, solidifiers_count, opt_upper_limit);
        if top.milestone_index == next {
            let handled = files.handle_milestone_data(top, opt_upper_limit).0;
            lemma_handle_milestone_data_consistent(files, top, opt_upper_limit);
            lemma_drain_consistent(
                (next + 1) as u32,
                handled,
                rest,
                solidifiers_count,
                opt_upper_limit,
            );
            assert forall|y: u32| owned(files, y) implies #[trigger] owned(d.files, y) by {
                assert(owned(handled, y));
            }
        } else if top.milestone_index > next {
            if buffer.len() > solidifiers_count {
                let closed = files.close_log_file(next).0;
                lemma_close_log_file_consistent(files, next);
                let handled = closed.handle_milestone_data(top, opt_upper_limit).0;
                lemma_handle_milestone_data_consistent(closed, top, opt_upper_limit);
                lemma_drain_consistent(
                    (top.milestone_index + 1) as u32,
                    handled,
                    rest,
                    solidifiers_count,
                    opt_upper_limit,
                );
                assert forall|y: u32| owned(files, y) implies #[trigger] owned(d.files, y) by {
                    assert(owned(closed, y));
                    assert(owned(handled, y));
                }
            }
        } else {
            lemma_drain_consistent(next, files, rest, solidifiers_count, opt_upper_limit);
        }
    }
}

/// Whatever the event, consistent files stay consistent as long as every
/// bundle that is handled is admitted, and no milestone loses its owner:
/// no two sealed files ever share a milestone, and a milestone that was
/// written stays in exactly one file.
pub proof fn lemma_handle_event_consistent(a: ArchiverView, event: ArchiverEventView)
    requires
        consistent(a.files),
        forall|i: int| 0 <= i < a.milestones_data.len() ==> (#[trigger] a.milestones_data[i]).wf(),
        event.wf(),
        event_admitted(a, event),
    ensures
        consistent(a.handle_event(event).0.files),
        forall|y: u32| owned(a.files, y) ==> #[trigger] owned(a.handle_event(event).0.files, y),
{
    match event {
        ArchiverEventView::Close(m) => {
            if m < a.next {
                lemma_close_log_file_consistent(a.files, m);
            }
        },
        ArchiverEventView::MilestoneData(data, opt_upper_limit) => {
            if data.created_by != CreatedBy::Syncer {
                let k = first_where(a.milestones_data, index_above_pred(data.milestone_index));
                lemma_first_where_exists(a.milestones_data, index_above_pred(data.milestone_index));
                let b = buffered(a.milestones_data, data);
                assert forall|i: int| 0 <= i < b.len() implies (#[trigger] b[i]).wf() by {
                    if i < k {
                        assert(b[i] == a.milestones_data[i]);
                    } else if i > k {
                        assert(b[i] == a.milestones_data[i - 1]);
                    }
                }
                lemma_drain_consistent(
                    a.next,
                    a.files,
                    b,
                    a.solidifiers_count,
                    opt_upper_limit,
                );
            } else if data.milestone_index < a.next {
                lemma_handle_milestone_data_consistent(a.files, data, opt_upper_limit);
            } else if data.milestone_index == a.next {
                lemma_handle_milestone_data_consistent(a.files, data, None);
            }
        },
    }
}

/// The milestones whose lines the actions write, in the order of writing.
pub open spec fn appended(actions: Seq<FileActionView>) -> Seq<u32>
    decreases actions.len(),
{
    if actions.len() == 0 {
        Seq::empty()
    } else {
        match actions.last() {
            FileActionView::Append { ms_index, .. } => appended(actions.drop_last()).push(ms_index),
            _ => appended(actions.drop_last()),
        }
    }
}

/// The milestones rise strictly and lie in `[low, high)`.
pub open spec fn ascending_within(s: Seq<u32>, low: int, high: int) -> bool {
    &&& forall|k: int| 0 <= k < s.len() ==> low <= #[trigger] s[k] < high
    &&& forall|a: int, b: int| 0 <= a < b < s.len() ==> #[trigger] s[a] < #[trigger] s[b]
}

proof fn lemma_appended_concat(a: Seq<FileActionView>, b: Seq<FileActionView>)
    ensures
        appended(a + b) == appended(a) + appended(b),
    decreases b.len(),
{
    if b.len() == 0 {
        assert(a + b =~= a);
        assert(appended(a) + appended(b) =~= appended(a));
    } else {
        lemma_appended_concat(a, b.drop_last());
        assert((a + b).drop_last() =~= a + b.drop_last());
        assert((a + b).last() == b.last());
        match b.last() {
            FileActionView::Append { ms_index, .. } => {
                assert(appended(a + b) =~= appended(a) + appended(b));
            },
            _ => {},
        }
    }
}

proof fn lemma_appended_one(x: FileActionView)
    ensures
        appended(seq![x]) == match x {
            FileActionView::Append { ms_index, .. } => seq![ms_index],
            _ => Seq::<u32>::empty(),
        },
{
    let s = seq![x];
    assert(s.drop_last() =~= Seq::<FileActionView>::empty());
    assert(s.last() == x);
    assert(appended(s.drop_last()) =~= Seq::<u32>::empty());
    match x {
        FileActionView::Append { ms_index, .. } => {
            assert(appended(s) =~= seq![ms_index]);
        },
        _ => {},
    }
}

proof fn lemma_sealed_finishes_append_nothing(logs: Seq<LogFile>, n: int)
    requires
        0 <= n,
    ensures
        appended(sealed_finishes(logs, n)) == Seq::<u32>::empty(),
    decreases logs.len() - n,
{
    if n + 1 < logs.len() {
        lemma_sealed_finishes_append_nothing(logs, n + 1);
        if seals(logs, n) {
            let rest = sealed_finishes(logs, n + 1);
            assert(rest.push(finish_of(logs[n])).drop_last() =~= rest);
        }
    }
}

proof fn lemma_create_appends(g: FilesView, m: u32, line: Seq<u8>, opt_upper_limit: Option<u32>)
    ensures
        appended(g.create_and_append(m, line, opt_upper_limit).1) == seq![m],
{
    let log = LogFile::spec_create(m, opt_upper_limit).spec_append(line.len());
    let create = FileActionView::Create { from_ms_index: m };
    let append = FileActionView::Append { from_ms_index: m, ms_index: m, line };
    let opened = seq![create, append];
    assert(opened =~= seq![create] + seq![append]);
    lemma_appended_one(create);
    lemma_appended_one(append);
    lemma_appended_concat(seq![create], seq![append]);
    assert(appended(opened) =~= seq![m]);
    if log.upper_ms_limit == log.to_ms_index {
        assert(opened.push(finish_of(log)) =~= opened + seq![finish_of(log)]);
        lemma_appended_one(finish_of(log));
        lemma_appended_concat(opened, seq![finish_of(log)]);
        assert(appended(opened) + Seq::<u32>::empty() =~= appended(opened));
    } else {
        let k = first_where(g.logs, from_above_pred(m));
        let sealed = sealed_finishes(g.logs.insert(k, log), 0);
        lemma_sealed_finishes_append_nothing(g.logs.insert(k, log), 0);
        lemma_appended_concat(opened, sealed);
        assert(appended(opened) + Seq::<u32>::empty() =~= appended(opened));
    }
}

/// Handling a bundle writes at most one line, and only the bundle's own.
pub proof fn lemma_handle_appends(f: FilesView, data: MilestoneDataView, opt_upper_limit: Option<u32>)
    ensures
        appended(f.handle_milestone_data(data, opt_upper_limit).1) == seq![data.milestone_index]
            || appended(f.handle_milestone_data(data, opt_upper_limit).1) == Seq::<u32>::empty(),
{
    let m = data.milestone_index;
    let line = data.line();
    let actions = f.place(m, line, opt_upper_limit).1;
    let i = first_where(f.logs, ready_pred(m));
    if i < f.logs.len() {
        let log = f.logs[i];
        if log.fits(line.len(), f.max_log_size) {
            let grown = log.spec_append(line.len());
            let append = FileActionView::Append { from_ms_index: log.from_ms_index, ms_index: m, line };
            lemma_appended_one(append);
            if grown.upper_ms_limit == grown.to_ms_index {
                assert(actions =~= seq![append] + seq![finish_of(grown)]);
                lemma_appended_one(finish_of(grown));
                lemma_appended_concat(seq![append], seq![finish_of(grown)]);
                assert(appended(actions) =~= seq![m]);
            }
        } else {
            let closed = FilesView {
                logs: f.logs.update(i, LogFile { finished: true, ..log }),
                cleanup: f.cleanup.push(log.from_ms_index),
                ..f
            };
            lemma_appended_one(finish_of(log));
            if !closed.covered(m) {
                let more = closed.create_and_append(m, line, Some(log.upper_ms_limit)).1;
                lemma_create_appends(closed, m, line, Some(log.upper_ms_limit));
                lemma_appended_concat(seq![finish_of(log)], more);
                assert(appended(actions) =~= seq![m]);
            }
        }
    } else if !f.covered(m) {
        lemma_create_appends(f, m, line, opt_upper_limit);
    }
}

/// A line is written to a file only when the file's watermark is the line's
/// milestone: either the file is opened for that milestone, or it is an
/// active file that waits for it. So the lines of a file are those of
/// consecutive milestones, in rising order.
pub proof fn lemma_lines_follow_watermark(
    f: FilesView,
    data: MilestoneDataView,
    opt_upper_limit: Option<u32>,
    k: int,
)
    requires
        0 <= k < f.handle_milestone_data(data, opt_upper_limit).1.len(),
        f.handle_milestone_data(data, opt_upper_limit).1[k] is Append,
    ensures
        f.handle_milestone_data(data, opt_upper_limit).1[k] matches FileActionView::Append {
            from_ms_index,
            ms_index,
            line,
        } ==> {
            &&& ms_index == data.milestone_index
            &&& line == data.line()
            &&& from_ms_index == ms_index || exists|j: int|
                0 <= j < f.logs.len() && (#[trigger] f.logs[j]).from_ms_index == from_ms_index
                    && f.logs[j].to_ms_index == ms_index && (consistent(f)
                    ==> !f.logs[j].finished)
        },
{
    let m = data.milestone_index;
    let line = data.line();
    let actions = f.place(m, line, opt_upper_limit).1;
    let i = first_where(f.logs, ready_pred(m));
    lemma_first_where_exists(f.logs, ready_pred(m));
    if i < f.logs.len() {
        let log = f.logs[i];
        assert(ready_pred(m)(log));
        if log.fits(line.len(), f.max_log_size) {
        } else {
            let closed = FilesView {
                logs: f.logs.update(i, LogFile { finished: true, ..log }),
                cleanup: f.cleanup.push(log.from_ms_index),
                ..f
            };
            if !closed.covered(m) {
                lemma_create_writes_own(closed, m, line, Some(log.upper_ms_limit), k - 1);
            }
        }
    } else if !f.covered(m) {
        lemma_create_writes_own(f, m, line, opt_upper_limit, k);
    }
}

proof fn lemma_sealed_finishes_are_finishes(logs: Seq<LogFile>, n: int, k: int)
    requires
        0 <= n,
        0 <= k < sealed_finishes(logs, n).len(),
    ensures
        sealed_finishes(logs, n)[k] is Finish,
    decreases logs.len() - n,
{
    if n + 1 < logs.len() {
        if seals(logs, n) {
            if k < sealed_finishes(logs, n + 1).len() {
                lemma_sealed_finishes_are_finishes(logs, n + 1, k);
            }
        } else {
            lemma_sealed_finishes_are_finishes(logs, n + 1, k);
        }
    }
}

proof fn lemma_create_writes_own(
    g: FilesView,
    m: u32,
    line: Seq<u8>,
    opt_upper_limit: Option<u32>,
    k: int,
)
    requires
        0 <= k < g.create_and_append(m, line, opt_upper_limit).1.len(),
        g.create_and_append(m, line, opt_upper_limit).1[k] is Append,
    ensures
        g.create_and_append(m, line, opt_upper_limit).1[k] == (FileActionView::Append {
            from_ms_index: m,
            ms_index: m,
            line,
        }),
{
    let log = LogFile::spec_create(m, opt_upper_limit).spec_append(line.len());
    if log.upper_ms_limit != log.to_ms_index {
        let ins = g.logs.insert(first_where(g.logs, from_above_pred(m)), log);
        if k >= 2 {
            lemma_sealed_finishes_are_finishes(ins, 0, k - 2);
        }
    }
}

/// While the buffer is drained, the milestones are written in strictly
/// rising order, none below the watermark at the start and all below the
/// watermark at the end.
pub proof fn lemma_drain_in_order(
    next: u32,
    files: FilesView,
    buffer: Seq<MilestoneDataView>,
    solidifiers_count: u8,
    opt_upper_limit: Option<u32>,
)
    requires
        forall|i: int| 0 <= i < buffer.len() ==> (#[trigger] buffer[i]).wf(),
    ensures
        drain(next, files, buffer, solidifiers_count, opt_upper_limit).next >= next,
        ascending_within(
            appended(drain(next, files, buffer, solidifiers_count, opt_upper_limit).actions),
            next as int,
            drain(next, files, buffer, solidifiers_count, opt_upper_limit).next as int,
        ),
    decreases buffer.len(),
{
    if buffer.len() > 0 {
        let top = buffer[0];
        let rest = buffer.drop_first();
        assert(top.wf());
        assert forall|i: int| 0 <= i < rest.len() implies (#[trigger] rest[i]).wf() by {
            assert(rest[i] == buffer[i + 1]);
        }
        let d = drain(next, files, buffer, solidifiers_count, opt_upper_limit);
        if top.milestone_index == next {
            let (handled, actions) = files.handle_milestone_data(top, opt_upper_limit);
            lemma_handle_appends(files, top, opt_upper_limit);
            let r = drain((next + 1) as u32, handled, rest, solidifiers_count, opt_upper_limit);
            lemma_drain_in_order((next + 1) as u32, handled, rest, solidifiers_count, opt_upper_limit);
            lemma_appended_concat(actions, r.actions);
            assert(d.actions == actions + r.actions);
        } else if top.milestone_index > next {
            if buffer.len() > solidifiers_count {
                let (closed, closing) = files.close_log_file(next);
                let (handled, actions) = closed.handle_milestone_data(top, opt_upper_limit);
                lemma_handle_appends(closed, top, opt_upper_limit);
                let r = drain(
                    (top.milestone_index + 1) as u32,
                    handled,
                    rest,
                    solidifiers_count,
                    opt_upper_limit,
                );
                lemma_drain_in_order(
                    (top.milestone_index + 1) as u32,
                    handled,
                    rest,
                    solidifiers_count,
                    opt_upper_limit,
                );
                assert(appended(closing) == Seq::<u32>::empty()) by {
                    let i = first_where(files.logs, to_pred(next));
                    if i < files.logs.len() {
                        lemma_appended_one(finish_of(files.logs[i]));
                    }
                }
                lemma_appended_concat(closing, actions);
                lemma_appended_concat(closing + actions, r.actions);
                assert(d.actions == closing + actions + r.actions);
                assert(appended(closing + actions) =~= appended(actions));
            }
        } else {
            lemma_drain_in_order(next, files, rest, solidifiers_count, opt_upper_limit);
        }
    }
}

/// The watermark `next` never moves back, and the lines that an event of the
/// live stream (or one of the back-fill at or ahead of the watermark) causes
/// to be written are those of milestones in strictly rising order between
/// the watermark before the event and the watermark after it.
pub proof fn lemma_incoming_in_order(a: ArchiverView, event: ArchiverEventView)
    requires
        forall|i: int| 0 <= i < a.milestones_data.len() ==> (#[trigger] a.milestones_data[i]).wf(),
        event.wf(),
    ensures
        a.handle_event(event).0.next >= a.next,
        event matches ArchiverEventView::MilestoneData(data, _) && (data.created_by
            != CreatedBy::Syncer || data.milestone_index >= a.next) ==> ascending_within(
            appended(a.handle_event(event).1),
            a.next as int,
            a.handle_event(event).0.next as int,
        ),
{
    match event {
        ArchiverEventView::Close(m) => {},
        ArchiverEventView::MilestoneData(data, opt_upper_limit) => {
            if data.created_by != CreatedBy::Syncer {
                let k = first_where(a.milestones_data, index_above_pred(data.milestone_index));
                lemma_first_where_exists(a.milestones_data, index_above_pred(data.milestone_index));
                let b = buffered(a.milestones_data, data);
                assert forall|i: int| 0 <= i < b.len() implies (#[trigger] b[i]).wf() by {
                    if i < k {
                        assert(b[i] == a.milestones_data[i]);
                    } else if i > k {
                        assert(b[i] == a.milestones_data[i - 1]);
                    }
                }
                lemma_drain_in_order(a.next, a.files, b, a.solidifiers_count, opt_upper_limit);
            } else if data.milestone_index == a.next {
                lemma_handle_appends(a.files, data, None);
            }
        },
    }
}

} // verus!
