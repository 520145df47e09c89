//! How a component starts: what it needs of its supervisor, and when it
//! gives up.
use vstd::prelude::*;
use crate::archiver::{Archiver, ArchiverView, FilesView};

verus! {

/// What a component asks of its supervisor when it ends.
#[derive(Clone, Copy, Debug, PartialEq, Eq, Structural)]
pub enum Need {
    /// The component is to be started again.
    Restart,
    /// The component gives up.
    Abort,
}

/// The state of a component as its supervisor sees it.
#[derive(Clone, Copy, Debug, PartialEq, Eq, Structural)]
pub enum ServiceStatus {
    Starting,
    Initializing,
    Running,
    Stopping,
    Stopped,
}

/// How the attempt to make the directory of the log files ended.
#[derive(Clone, Copy, Debug, PartialEq, Eq, Structural)]
pub enum DirOutcome {
    Created,
    AlreadyExists,
    Failed,
}

/// A component that reports to a supervisor starts as its status says if
/// it has a supervisor, and gives up if it has none.
pub fn init(status: Result<(), Need>, supervised: bool) -> (r: Result<(), Need>)
    ensures
        r == if supervised {
            status
        } else {
            Err::<(), Need>(Need::Abort)
        },
{
    if supervised {
        status
    } else {
        Err(Need::Abort)
    }
}

/// The logger starts if the directory of the log files is there, made just
/// now or before; it gives up if the directory cannot be made.
pub fn init_logger(outcome: DirOutcome) -> (r: Result<(), Need>)
    ensures
        r.is_ok() <==> outcome != DirOutcome::Failed,
        r.is_err() ==> r == Err::<(), Need>(Need::Abort),
{
    match outcome {
        DirOutcome::Created => Ok(()),
        DirOutcome::AlreadyExists => Ok(()),
        DirOutcome::Failed => Err(Need::Abort),
    }
}

/// The archiver starts as its status says once it is told the first
/// milestone to expect; it gives up if it is never told.
pub fn start_archiver(
    status: Result<(), Need>,
    first: Option<u32>,
    max_log_size: u64,
    solidifiers_count: u8,
) -> (r: Result<Archiver, Need>)
    ensures
        match r {
            Ok(archiver) => status.is_ok() && first.is_some() && archiver@.wf() && archiver@ == (
            ArchiverView {
                next: first.unwrap(),
                files: FilesView {
                    logs: Seq::empty(),
                    processed: Seq::empty(),
                    cleanup: Seq::empty(),
                    max_log_size,
                },
                milestones_data: Seq::empty(),
                solidifiers_count,
            }),
            Err(need) => match status {
                Err(e) => need == e,
                Ok(_) => first.is_none() && need == Need::Abort,
            },
        },
{
    match status {
        Err(need) => Err(need),
        Ok(_) => match first {
            Some(next) => Ok(Archiver::new(next, max_log_size, solidifiers_count)),
            None => Err(Need::Abort),
        },
    }
}

} // verus!
