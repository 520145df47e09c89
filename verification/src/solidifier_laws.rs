//! What holds of a solidifier whatever the sequence of events.
use vstd::prelude::*;
use crate::effect::SolidifierEventView;
use crate::seq_util::{first_where, lemma_first_where_exists};
use crate::solidifier_model::{
    assembly_pred, AssemblyView, SolidifierEffectView, SolidifierView,
};

verus! {

/// No milestone has two assemblies.
pub open spec fn distinct(assemblies: Seq<AssemblyView>) -> bool {
    forall|i: int, j: int|
        #![trigger assemblies[i], assemblies[j]]
        0 <= i < j < assemblies.len() ==> assemblies[i].milestone_index
            != assemblies[j].milestone_index
}

/// Seeding an assembly leaves its milestone as it is.
pub proof fn lemma_seed_index(
    a: AssemblyView,
    config: crate::solidifier_model::SolidifierConfig,
    parents: Seq<crate::ids::MessageId>,
    n: int,
)
    ensures
        a.seed(config, parents, n).0.milestone_index == a.milestone_index,
        a.seed(config, parents, n).0.milestone == a.milestone,
        a.seed(config, parents, n).0.created_by == a.created_by,
        a.seed(config, parents, n).0.messages == a.messages,
    decreases n,
{
    if n > 0 {
        lemma_seed_index(a, config, parents, n - 1);
    }
}

proof fn lemma_remove_distinct(assemblies: Seq<AssemblyView>, k: int)
    requires
        distinct(assemblies),
        0 <= k < assemblies.len(),
    ensures
        distinct(assemblies.remove(k)),
        forall|j: int|
            0 <= j < assemblies.remove(k).len() ==> (#[trigger] assemblies.remove(k)[j]).milestone_index
                != assemblies[k].milestone_index,
{
    let r = assemblies.remove(k);
    assert forall|i: int, j: int|
        #![trigger r[i], r[j]]
        0 <= i < j < r.len() implies r[i].milestone_index != r[j].milestone_index by {
        let a = if i < k { i } else { i + 1 };
        let b = if j < k { j } else { j + 1 };
        assert(r[i] == assemblies[a]);
        assert(r[j] == assemblies[b]);
    }
    assert forall|j: int| 0 <= j < r.len() implies (#[trigger] r[j]).milestone_index
        != assemblies[k].milestone_index by {
        let b = if j < k { j } else { j + 1 };
        assert(r[j] == assemblies[b]);
        if b < k {
            assert(assemblies[b].milestone_index != assemblies[k].milestone_index);
        } else {
            assert(assemblies[k].milestone_index != assemblies[b].milestone_index);
        }
    }
}

proof fn lemma_update_distinct(assemblies: Seq<AssemblyView>, k: int, a: AssemblyView)
    requires
        distinct(assemblies),
        0 <= k < assemblies.len(),
        a.milestone_index == assemblies[k].milestone_index,
    ensures
        distinct(assemblies.update(k, a)),
{
    let r = assemblies.update(k, a);
    assert forall|i: int, j: int|
        #![trigger r[i], r[j]]
        0 <= i < j < r.len() implies r[i].milestone_index != r[j].milestone_index by {
        assert(assemblies[i].milestone_index != assemblies[j].milestone_index);
    }
}

proof fn lemma_open(s: SolidifierView, ms: u32, created_by: crate::milestone::CreatedBy)
    requires
        distinct(s.assemblies),
    ensures
        distinct(s.open(ms, created_by).assemblies),
        0 <= s.open(ms, created_by).position(ms) < s.open(ms, created_by).assemblies.len(),
        s.open(ms, created_by).assemblies[s.open(ms, created_by).position(ms)].milestone_index
            == ms,
        s.open(ms, created_by).config == s.config,
{
    lemma_first_where_exists(s.assemblies, assembly_pred(ms));
    let k = s.position(ms);
    let o = s.open(ms, created_by);
    if k < s.assemblies.len() {
        assert(assembly_pred(ms)(s.assemblies[k]));
    } else {
        assert forall|i: int, j: int|
            #![trigger o.assemblies[i], o.assemblies[j]]
            0 <= i < j < o.assemblies.len() implies o.assemblies[i].milestone_index
            != o.assemblies[j].milestone_index by {
            if j < s.assemblies.len() {
                assert(s.assemblies[i].milestone_index != s.assemblies[j].milestone_index);
            } else {
                assert(!assembly_pred(ms)(s.assemblies[i]));
            }
        }
        lemma_first_where_exists(o.assemblies, assembly_pred(ms));
        let p = o.position(ms);
        if p >= o.assemblies.len() {
            assert(!assembly_pred(ms)(o.assemblies[k]));
        }
        assert(assembly_pred(ms)(o.assemblies[p]));
    }
}

proof fn lemma_settle(s: SolidifierView, k: int)
    requires
        distinct(s.assemblies),
        0 <= k < s.assemblies.len(),
    ensures
        distinct(s.settle(k).0.assemblies),
        s.settle(k).0.config == s.config,
{
    if s.assemblies[k].is_complete() {
        lemma_remove_distinct(s.assemblies, k);
    }
}

/// Whatever the event, a well-formed solidifier stays well formed: no
/// milestone ever has two assemblies.
pub proof fn lemma_handle_event_wf(s: SolidifierView, event: SolidifierEventView)
    requires
        s.wf(),
    ensures
        s.handle_event(event).0.wf(),
{
    match event {
        SolidifierEventView::Milestone(m) => {
            let ms = m.milestone.index;
            if s.config.owns(ms) {
                let opened = s.open(ms, crate::milestone::CreatedBy::Incoming);
                lemma_open(s, ms, crate::milestone::CreatedBy::Incoming);
                let k = opened.position(ms);
                let a = opened.assemblies[k];
                let known = AssemblyView {
                    milestone: if a.milestone.is_some() { a.milestone } else { Some(m) },
                    ..a
                };
                lemma_seed_index(
                    known,
                    s.config,
                    m.milestone.parents,
                    m.milestone.parents.len() as int,
                );
                let seeded = known.seed(
                    s.config,
                    m.milestone.parents,
                    m.milestone.parents.len() as int,
                ).0;
                lemma_update_distinct(opened.assemblies, k, seeded);
                lemma_settle(
                    SolidifierView { assemblies: opened.assemblies.update(k, seeded), ..opened },
                    k,
                );
            }
        },
        SolidifierEventView::Message(full) => {
            match full.metadata.referenced_by_milestone_index {
                None => {},
                Some(ms) => {
                    if s.config.owns(ms) {
                        let opened = s.open(ms, crate::milestone::CreatedBy::Incoming);
                        lemma_open(s, ms, crate::milestone::CreatedBy::Incoming);
                        let k = opened.position(ms);
                        let resolved = opened.assemblies[k].resolve(full);
                        lemma_seed_index(
                            resolved,
                            s.config,
                            full.message.parents,
                            full.message.parents.len() as int,
                        );
                        let seeded = resolved.seed(
                            s.config,
                            full.message.parents,
                            full.message.parents.len() as int,
                        ).0;
                        lemma_update_distinct(opened.assemblies, k, seeded);
                        lemma_settle(
                            SolidifierView {
                                assemblies: opened.assemblies.update(k, seeded),
                                ..opened
                            },
                            k,
                        );
                    }
                },
            }
        },
        SolidifierEventView::Close(id, ms) => {
            lemma_first_where_exists(s.assemblies, assembly_pred(ms));
            let k = s.position(ms);
            if k < s.assemblies.len() {
                let a = s.assemblies[k];
                let j = first_where(a.pending, crate::solidifier_model::waiting_pred(id));
                if j < a.pending.len() {
                    if a.pending[j].retries < s.config.max_retries {
                        lemma_update_distinct(s.assemblies, k, s.handle_event(event).0.assemblies[k]);
                    } else {
                        lemma_remove_distinct(s.assemblies, k);
                    }
                }
            }
        },
        SolidifierEventView::Solidify(result) => {
            match result {
                Ok(ms) => {
                    lemma_open(s, ms, crate::milestone::CreatedBy::Syncer);
                },
                Err(ms) => {
                    lemma_first_where_exists(s.assemblies, assembly_pred(ms));
                    let k = s.position(ms);
                    if k < s.assemblies.len() {
                        lemma_remove_distinct(s.assemblies, k);
                    }
                },
            }
        },
        SolidifierEventView::CqlResult { milestone_index, message_id, ok } => {
            lemma_first_where_exists(s.assemblies, assembly_pred(milestone_index));
            let k = s.position(milestone_index);
            if k < s.assemblies.len() {
                let a = s.assemblies[k].acknowledge(message_id, ok);
                lemma_update_distinct(s.assemblies, k, a);
                lemma_settle(SolidifierView { assemblies: s.assemblies.update(k, a), ..s }, k);
            }
        },
    }
}

/// A bundle goes to the archiver only when its milestone is solid (its
/// message known, nothing left to resolve, every write reported as done),
/// it goes there with every resolved message, and its assembly is closed
/// with that: as long as the milestone is not opened again, it is handed on
/// no second time.
pub proof fn lemma_archived_is_complete(s: SolidifierView, k: int)
    requires
        s.wf(),
        0 <= k < s.assemblies.len(),
    ensures
        s.settle(k).1.len() > 0 <==> s.assemblies[k].is_complete(),
        s.assemblies[k].is_complete() ==> {
            &&& s.settle(k).1[0] == (SolidifierEffectView::Archive {
                milestone_index: s.assemblies[k].milestone_index,
                created_by: s.assemblies[k].created_by,
                messages: s.assemblies[k].messages,
            })
            &&& s.settle(k).0.position(s.assemblies[k].milestone_index) == s.settle(
                k,
            ).0.assemblies.len()
        },
{
    if s.assemblies[k].is_complete() {
        lemma_remove_distinct(s.assemblies, k);
        let r = s.settle(k).0;
        let ms = s.assemblies[k].milestone_index;
        lemma_first_where_exists(r.assemblies, assembly_pred(ms));
        let p = r.position(ms);
        if p < r.assemblies.len() {
            assert(assembly_pred(ms)(r.assemblies[p]));
        }
    }
}

} // verus!
