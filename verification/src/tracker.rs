//! The file tracker: which file is being consumed, and up to which line.
use vstd::prelude::*;

verus! {

/// Number of preamble lines at the head of every source file. Data begins at
/// the line with this index.
pub const PREAMBLE_LINES: usize = 17;

/// What a [`FileTracker`] remembers.
pub struct TrackerState {
    /// The file being consumed, or `None` while no file has been seen.
    pub active_file: Option<Seq<char>>,
    /// Zero-based index of the last line of that file that became a record.
    pub last_consumed_offset: nat,
}

impl TrackerState {
    /// Whether `file_name` is the file being consumed.
    pub open spec fn is_tracking(self, file_name: Seq<char>) -> bool {
        self.active_file == Some(file_name)
    }

    /// The state after turning to `file_name`: unchanged if that file is
    /// already being consumed, else placed on the last preamble line of it.
    pub open spec fn turned_to(self, file_name: Seq<char>) -> TrackerState {
        if self.is_tracking(file_name) {
            self
        } else {
            TrackerState {
                active_file: Some(file_name),
                last_consumed_offset: (PREAMBLE_LINES - 1) as nat,
            }
        }
    }

    /// The offset at which a cycle on `file_name` starts reading: just past
    /// the last consumed line of the active file, or at the first data line
    /// of any other file.
    pub open spec fn start_for(self, file_name: Seq<char>) -> nat {
        (self.turned_to(file_name).last_consumed_offset + 1) as nat
    }
}

/// Remembers, across polling cycles, the file that is being consumed and the
/// zero-based index of the last line of it that became a record.
pub struct FileTracker {
    last_file_name: Option<String>,
    last_line_index: usize,
}

impl View for FileTracker {
    type V = TrackerState;

    closed spec fn view(&self) -> TrackerState {
        TrackerState {
            active_file: match self.last_file_name {
                Some(name) => Some(name@),
                None => None,
            },
            last_consumed_offset: self.last_line_index as nat,
        }
    }
}

impl FileTracker {
    /// The offset always leaves room for the line after it.
    #[verifier::type_invariant]
    spec fn offset_has_successor(self) -> bool {
        self.last_line_index < usize::MAX
    }

    /// A tracker that has seen no file yet.
    pub fn new() -> (tracker: Self)
        ensures
            tracker@ == (TrackerState { active_file: None, last_consumed_offset: 0 }),
    {
        Self { last_file_name: None, last_line_index: 0 }
    }

    /// Switches to `file_name` and places the offset on the last preamble line,
    /// so that the next line to read is the first data line.
    pub fn reset(&mut self, file_name: &str)
        ensures
            final(self)@ == (TrackerState {
                active_file: Some(file_name@),
                last_consumed_offset: (PREAMBLE_LINES - 1) as nat,
            }),
    {
        *self = Self {
            last_file_name: Some(file_name.to_owned()),
            last_line_index: PREAMBLE_LINES - 1,
        };
    }

    /// Records `line_index` as the last consumed line of the active file.
    /// Offsets never move backwards within a file.
    pub fn update_last_line(&mut self, line_index: usize)
        requires
            old(self)@.last_consumed_offset <= line_index < usize::MAX,
        ensures
            final(self)@ == (TrackerState {
                last_consumed_offset: line_index as nat,
                ..old(self)@
            }),
    {
        self.last_line_index = line_index;
    }

    /// Decides where a cycle on `candidate_file` starts reading. For the active
    /// file that is the line after the last consumed one and the tracker stays
    /// as it is; for any other file the tracker switches to it and reading
    /// starts at the first data line, whatever the offset was before.
    pub fn resolve_start(&mut self, candidate_file: &str) -> (start_offset: usize)
        ensures
            final(self)@ == old(self)@.turned_to(candidate_file@),
            start_offset == old(self)@.start_for(candidate_file@),
            !old(self)@.is_tracking(candidate_file@) ==> start_offset == PREAMBLE_LINES,
            old(self)@.is_tracking(candidate_file@) ==> start_offset
                == old(self)@.last_consumed_offset + 1,
    {
        proof {
            use_type_invariant(&*self);
        }
        let candidate = candidate_file.to_owned();
        let same = match &self.last_file_name {
            Some(name) => *name == candidate,
            None => false,
        };
        if same {
            self.last_line_index + 1
        } else {
            *self = Self { last_file_name: Some(candidate), last_line_index: PREAMBLE_LINES - 1 };
            PREAMBLE_LINES
        }
    }

    /// The file being consumed, for diagnostics.
    pub fn current_file(&self) -> (name: Option<&str>)
        ensures
            match name {
                Some(n) => self@.active_file == Some(n@),
                None => self@.active_file is None,
            },
    {
        match &self.last_file_name {
            Some(name) => Some(name.as_str()),
            None => None,
        }
    }

    /// The index of the last consumed line, for diagnostics.
    pub fn current_offset(&self) -> (offset: usize)
        ensures
            offset == self@.last_consumed_offset,
    {
        self.last_line_index
    }
}

} // verus!
