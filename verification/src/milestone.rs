//! Milestone bundles as the archiver sees them.
use vstd::prelude::*;

verus! {

/// Who produced a milestone bundle: the live stream or the back-fill.
#[derive(Clone, Copy, Debug, PartialEq, Eq, Structural)]
pub enum CreatedBy {
    Incoming,
    Syncer,
}

/// The byte that terminates every line of a log file.
pub const LINE_FEED: u8 = 10;

/// The line written for a bundle: its JSON document followed by a line feed.
pub open spec fn spec_line(json: Seq<u8>) -> Seq<u8> {
    json.push(LINE_FEED)
}

/// A complete milestone bundle: its index, its creator tag and the JSON
/// document that describes its messages.
#[derive(Debug, PartialEq, Eq)]
pub struct MilestoneData {
    pub milestone_index: u32,
    pub created_by: CreatedBy,
    pub json: Vec<u8>,
}

/// Mathematical model of a [`MilestoneData`].
pub struct MilestoneDataView {
    pub milestone_index: u32,
    pub created_by: CreatedBy,
    pub json: Seq<u8>,
}

impl DeepView for MilestoneData {
    type V = MilestoneDataView;

    open spec fn deep_view(&self) -> MilestoneDataView {
        MilestoneDataView {
            milestone_index: self.milestone_index,
            created_by: self.created_by,
            json: self.json@,
        }
    }
}

impl MilestoneDataView {
    /// The watermark that follows this bundle must fit in 32 bits.
    pub open spec fn wf(self) -> bool {
        self.milestone_index < u32::MAX
    }

    /// The line written for this bundle.
    pub open spec fn line(self) -> Seq<u8> {
        spec_line(self.json)
    }
}

impl MilestoneData {
    /// The watermark that follows this bundle must fit in 32 bits.
    pub open spec fn wf(&self) -> bool {
        self.deep_view().wf()
    }

    /// Builds a bundle; refuses the one index after which no watermark exists.
    pub fn new(milestone_index: u32, created_by: CreatedBy, json: Vec<u8>) -> (r: Option<
        MilestoneData,
    >)
        ensures
            r.is_some() <==> milestone_index < u32::MAX,
            r matches Some(d) ==> d.wf() && d.deep_view() == (MilestoneDataView {
                milestone_index,
                created_by,
                json: json@,
            }),
    {
        if milestone_index == u32::MAX {
            None
        } else {
            Some(MilestoneData { milestone_index, created_by, json })
        }
    }

    pub fn milestone_index(&self) -> (r: u32)
        ensures
            r == self.deep_view().milestone_index,
    {
        self.milestone_index
    }

    pub fn created_by(&self) -> (r: CreatedBy)
        ensures
            r == self.deep_view().created_by,
    {
        self.created_by
    }

    /// The line written for this bundle: the JSON document and a line feed.
    pub fn line(&self) -> (line: Vec<u8>)
        ensures
            line@ == self.deep_view().line(),
    {
        let mut line = self.json.clone();
        line.push(LINE_FEED);
        line
    }
}

} // verus!
