//! The bookkeeping of one append-only log file, the closed ranges it leaves
//! behind, and the file actions the archiver asks its caller to perform.
use vstd::prelude::*;

verus! {

/// A half-open range `[start, end)` of milestone indexes.
#[derive(Clone, Copy, Debug, PartialEq, Eq, Structural)]
pub struct MsRange {
    pub start: u32,
    pub end: u32,
}

impl MsRange {
    pub open spec fn spec_contains(&self, m: u32) -> bool {
        self.start <= m < self.end
    }

    /// Two ranges share no index.
    pub open spec fn disjoint(self, other: MsRange) -> bool {
        self.end <= other.start || other.end <= self.start || self.start >= self.end
            || other.start >= other.end
    }

    #[verifier::when_used_as_spec(spec_contains)]
    pub fn contains(&self, m: u32) -> (r: bool)
        ensures
            r == self.spec_contains(m),
    {
        self.start <= m && m < self.end
    }
}

/// An open log file bound to the range `[from_ms_index, upper_ms_limit)`.
/// `to_ms_index` is the watermark: the index of the next line it takes.
#[derive(Clone, Copy, Debug, PartialEq, Eq, Structural)]
pub struct LogFile {
    pub from_ms_index: u32,
    pub to_ms_index: u32,
    pub upper_ms_limit: u32,
    pub len: u64,
    pub finished: bool,
}

impl LogFile {
    /// The file as it is right after creation.
    pub open spec fn spec_create(from_ms_index: u32, opt_upper_limit: Option<u32>) -> LogFile {
        LogFile {
            from_ms_index,
            to_ms_index: from_ms_index,
            upper_ms_limit: match opt_upper_limit {
                Some(upper) => upper,
                None => u32::MAX,
            },
            len: 0,
            finished: false,
        }
    }

    /// The file after one more line of `n` bytes.
    pub open spec fn spec_append(self, n: nat) -> LogFile {
        LogFile {
            to_ms_index: (self.to_ms_index + 1) as u32,
            len: (self.len + n) as u64,
            ..self
        }
    }

    /// The milestones the file holds.
    pub open spec fn range(self) -> MsRange {
        MsRange { start: self.from_ms_index, end: self.to_ms_index }
    }

    /// The file takes milestone `m` as its next line.
    pub open spec fn ready_for(self, m: u32) -> bool {
        self.to_ms_index == m && self.upper_ms_limit > m
    }

    /// A line of `n` bytes keeps the file within `max_log_size` bytes.
    pub open spec fn fits(self, n: nat, max_log_size: u64) -> bool {
        self.len + n <= max_log_size
    }

    /// A new, empty file that starts at `from_ms_index`; without an upper
    /// limit it may grow up to the largest index.
    pub fn create(from_ms_index: u32, opt_upper_limit: Option<u32>) -> (log: LogFile)
        ensures
            log == LogFile::spec_create(from_ms_index, opt_upper_limit),
    {
        let upper_ms_limit = match opt_upper_limit {
            Some(upper) => upper,
            None => u32::MAX,
        };
        LogFile { from_ms_index, to_ms_index: from_ms_index, upper_ms_limit, len: 0, finished: false }
    }

    /// Accounts for one more line: the length grows by the line's size and
    /// the watermark moves to the next milestone.
    pub fn append_line(&mut self, bytes: &Vec<u8>)
        requires
            old(self).to_ms_index < u32::MAX,
            old(self).len + bytes@.len() <= u64::MAX,
        ensures
            *final(self) == old(self).spec_append(bytes@.len()),
    {
        self.len = self.len + bytes.len() as u64;
        self.to_ms_index = self.to_ms_index + 1;
    }

    /// Marks the file as sealed.
    pub fn set_finished(&mut self)
        ensures
            *final(self) == (LogFile { finished: true, ..*old(self) }),
    {
        self.finished = true;
    }

    pub fn len(&self) -> (r: u64)
        ensures
            r == self.len,
    {
        self.len
    }

    /// How many milestones the file holds.
    pub fn milestones_range(&self) -> (r: u32)
        ensures
            r == if self.to_ms_index >= self.from_ms_index {
                self.to_ms_index - self.from_ms_index
            } else {
                0
            },
    {
        if self.to_ms_index >= self.from_ms_index {
            self.to_ms_index - self.from_ms_index
        } else {
            0
        }
    }

    /// Whether a line of `n` bytes keeps the file within `max_log_size`.
    pub fn has_room_for(&self, n: usize, max_log_size: u64) -> (r: bool)
        ensures
            r == self.fits(n as nat, max_log_size),
    {
        self.len <= max_log_size && n as u64 <= max_log_size - self.len
    }

    /// Name of the file while it is open: `<from>.part`.
    pub fn part_name(&self) -> (name: String)
        ensures
            name@ == spec_part_name(self.from_ms_index),
    {
        let mut name = decimal(self.from_ms_index);
        name.append(".part");
        name
    }

    /// Name of the file once it is sealed: `<from>to<to>.log`.
    pub fn sealed_name(&self) -> (name: String)
        ensures
            name@ == spec_sealed_name(self.from_ms_index, self.to_ms_index),
    {
        let mut name = decimal(self.from_ms_index);
        name.append("to");
        let to = decimal(self.to_ms_index);
        name.append(to.as_str());
        name.append(".log");
        name
    }
}

/// The decimal digit for `d < 10`.
pub open spec fn spec_digit(d: nat) -> char {
    if d == 0 {
        '0'
    } else if d == 1 {
        '1'
    } else if d == 2 {
        '2'
    } else if d == 3 {
        '3'
    } else if d == 4 {
        '4'
    } else if d == 5 {
        '5'
    } else if d == 6 {
        '6'
    } else if d == 7 {
        '7'
    } else if d == 8 {
        '8'
    } else {
        '9'
    }
}

/// The decimal notation of `n`, most significant digit first, without
/// leading zeros.
pub open spec fn spec_decimal(n: nat) -> Seq<char>
    decreases n,
{
    if n < 10 {
        seq![spec_digit(n)]
    } else {
        spec_decimal(n / 10).push(spec_digit(n % 10))
    }
}

pub open spec fn spec_part_name(from_ms_index: u32) -> Seq<char> {
    spec_decimal(from_ms_index as nat) + ".part"@
}

pub open spec fn spec_sealed_name(from_ms_index: u32, to_ms_index: u32) -> Seq<char> {
    spec_decimal(from_ms_index as nat) + "to"@ + spec_decimal(to_ms_index as nat) + ".log"@
}

fn digit(d: u32) -> (s: &'static str)
    requires
        d < 10,
    ensures
        s@ == seq![spec_digit(d as nat)],
{
    proof {
        reveal_strlit("0");
        reveal_strlit("1");
        reveal_strlit("2");
        reveal_strlit("3");
        reveal_strlit("4");
        reveal_strlit("5");
        reveal_strlit("6");
        reveal_strlit("7");
        reveal_strlit("8");
        reveal_strlit("9");
    }
    let s = if d == 0 {
        "0"
    } else if d == 1 {
        "1"
    } else if d == 2 {
        "2"
    } else if d == 3 {
        "3"
    } else if d == 4 {
        "4"
    } else if d == 5 {
        "5"
    } else if d == 6 {
        "6"
    } else if d == 7 {
        "7"
    } else if d == 8 {
        "8"
    } else {
        "9"
    };
    assert(s@ =~= seq![spec_digit(d as nat)]);
    s
}

/// Writes `n` in decimal notation.
pub fn decimal(n: u32) -> (s: String)
    ensures
        s@ == spec_decimal(n as nat),
    decreases n,
{
    if n < 10 {
        String::from_str(digit(n))
    } else {
        let mut s = decimal(n / 10);
        s.append(digit(n % 10));
        assert(s@ =~= spec_decimal(n as nat));
        s
    }
}

/// One thing the archiver asks its caller to do to a file. Files are named
/// by the index they start at.
#[derive(Debug, PartialEq, Eq)]
pub enum FileAction {
    /// Open `<from>.part` for appending.
    Create { from_ms_index: u32 },
    /// Write `line` (the bundle of `ms_index`) to the file, flush it and
    /// record the milestone as logged.
    Append { from_ms_index: u32, ms_index: u32, line: Vec<u8> },
    /// Flush and close the file and rename it to `<from>to<to>.log`.
    Finish { from_ms_index: u32, to_ms_index: u32 },
}

/// Mathematical model of a [`FileAction`].
pub enum FileActionView {
    Create { from_ms_index: u32 },
    Append { from_ms_index: u32, ms_index: u32, line: Seq<u8> },
    Finish { from_ms_index: u32, to_ms_index: u32 },
}

impl DeepView for FileAction {
    type V = FileActionView;

    open spec fn deep_view(&self) -> FileActionView {
        match self {
            FileAction::Create { from_ms_index } => FileActionView::Create {
                from_ms_index: *from_ms_index,
            },
            FileAction::Append { from_ms_index, ms_index, line } => FileActionView::Append {
                from_ms_index: *from_ms_index,
                ms_index: *ms_index,
                line: line@,
            },
            FileAction::Finish { from_ms_index, to_ms_index } => FileActionView::Finish {
                from_ms_index: *from_ms_index,
                to_ms_index: *to_ms_index,
            },
        }
    }
}

} // verus!
