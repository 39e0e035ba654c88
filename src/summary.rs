use vstd::prelude::*;

verus! {

/// A span of time: whole seconds and the nanoseconds beyond them.
#[derive(Clone, Copy, Debug, PartialEq, Eq, Structural)]
pub struct Elapsed {
    pub secs: u64,
    pub nanos: u32,
}

impl Elapsed {
    pub open spec fn valid(self) -> bool {
        self.nanos < 1_000_000_000
    }

    pub fn zero() -> (r: Elapsed)
        ensures
            r == (Elapsed { secs: 0, nanos: 0 }),
    {
        Elapsed { secs: 0, nanos: 0 }
    }
}

/// The outcome of one run: a counter per classification, the paths kept for
/// some of them (in the order the files were met), the bytes copied and the
/// time taken.
#[derive(Debug)]
pub struct Summary {
    pub scan_error_count: u32,
    pub error_count: u32,
    pub skipped_count: u32,
    pub duplicate_count: u32,
    pub exif_error_count: u32,
    pub copy_count: u32,
    pub copied_bytes: u64,
    pub duration: Elapsed,
    pub errored_files: Vec<String>,
    pub duplicate_files: Vec<String>,
    pub exif_errored_files: Vec<String>,
}

/// The abstract value of a `Summary`.
pub struct SummaryView {
    pub scan_error_count: nat,
    pub error_count: nat,
    pub skipped_count: nat,
    pub duplicate_count: nat,
    pub exif_error_count: nat,
    pub copy_count: nat,
    pub copied_bytes: nat,
    pub duration: Elapsed,
    pub errored_files: Seq<String>,
    pub duplicate_files: Seq<String>,
    pub exif_errored_files: Seq<String>,
}

impl View for Summary {
    type V = SummaryView;

    open spec fn view(&self) -> SummaryView {
        SummaryView {
            scan_error_count: self.scan_error_count as nat,
            error_count: self.error_count as nat,
            skipped_count: self.skipped_count as nat,
            duplicate_count: self.duplicate_count as nat,
            exif_error_count: self.exif_error_count as nat,
            copy_count: self.copy_count as nat,
            copied_bytes: self.copied_bytes as nat,
            duration: self.duration,
            errored_files: self.errored_files@,
            duplicate_files: self.duplicate_files@,
            exif_errored_files: self.exif_errored_files@,
        }
    }
}

impl SummaryView {
    /// Each list holds one path per count of its classification.
    pub open spec fn wf(self) -> bool {
        &&& self.errored_files.len() == self.error_count
        &&& self.duplicate_files.len() == self.duplicate_count
        &&& self.exif_errored_files.len() == self.exif_error_count
        &&& self.duration.valid()
    }

    pub open spec fn empty() -> SummaryView {
        SummaryView {
            scan_error_count: 0,
            error_count: 0,
            skipped_count: 0,
            duplicate_count: 0,
            exif_error_count: 0,
            copy_count: 0,
            copied_bytes: 0,
            duration: Elapsed { secs: 0, nanos: 0 },
            errored_files: Seq::empty(),
            duplicate_files: Seq::empty(),
            exif_errored_files: Seq::empty(),
        }
    }
}

impl Summary {
    /// A summary with every counter at zero and every list empty.
    pub fn init() -> (r: Self)
        ensures
            r@ == SummaryView::empty(),
            r@.wf(),
    {
        let r = Summary {
            scan_error_count: 0,
            error_count: 0,
            skipped_count: 0,
            duplicate_count: 0,
            exif_error_count: 0,
            copy_count: 0,
            copied_bytes: 0,
            duration: Elapsed::zero(),
            errored_files: Vec::new(),
            duplicate_files: Vec::new(),
            exif_errored_files: Vec::new(),
        };
        assert(r@.errored_files =~= Seq::empty());
        assert(r@.duplicate_files =~= Seq::empty());
        assert(r@.exif_errored_files =~= Seq::empty());
        r
    }

    /// Counts an entry that the walk could not read.
    pub fn mark_scan_error(&mut self)
        requires
            old(self).scan_error_count < u32::MAX,
        ensures
            final(self)@ == (SummaryView {
                scan_error_count: old(self)@.scan_error_count + 1,
                ..old(self)@
            }),
            old(self)@.wf() ==> final(self)@.wf(),
    {
        self.scan_error_count = self.scan_error_count + 1;
    }

    /// Counts a file that failed, and keeps its path.
    pub fn mark_error(&mut self, path: String)
        requires
            old(self).error_count < u32::MAX,
        ensures
            final(self)@ == (SummaryView {
                error_count: old(self)@.error_count + 1,
                errored_files: old(self)@.errored_files.push(path),
                ..old(self)@
            }),
            old(self)@.wf() ==> final(self)@.wf(),
    {
        self.error_count = self.error_count + 1;
        self.errored_files.push(path);
    }

    /// Counts a file that was already present at the target.
    pub fn mark_skipped(&mut self)
        requires
            old(self).skipped_count < u32::MAX,
        ensures
            final(self)@ == (SummaryView {
                skipped_count: old(self)@.skipped_count + 1,
                ..old(self)@
            }),
            old(self)@.wf() ==> final(self)@.wf(),
    {
        self.skipped_count = self.skipped_count + 1;
    }

    /// Counts a file whose destination holds a file of another size, and keeps
    /// its path.
    pub fn mark_duplicate(&mut self, path: String)
        requires
            old(self).duplicate_count < u32::MAX,
        ensures
            final(self)@ == (SummaryView {
                duplicate_count: old(self)@.duplicate_count + 1,
                duplicate_files: old(self)@.duplicate_files.push(path),
                ..old(self)@
            }),
            old(self)@.wf() ==> final(self)@.wf(),
    {
        self.duplicate_count = self.duplicate_count + 1;
        self.duplicate_files.push(path);
    }

    /// Counts a file whose embedded date could not be read, and keeps its path.
    pub fn mark_exif_error(&mut self, path: String)
        requires
            old(self).exif_error_count < u32::MAX,
        ensures
            final(self)@ == (SummaryView {
                exif_error_count: old(self)@.exif_error_count + 1,
                exif_errored_files: old(self)@.exif_errored_files.push(path),
                ..old(self)@
            }),
            old(self)@.wf() ==> final(self)@.wf(),
    {
        self.exif_error_count = self.exif_error_count + 1;
        self.exif_errored_files.push(path);
    }

    /// Counts a copied file of `len` bytes.
    pub fn mark_copied(&mut self, len: u64)
        requires
            old(self).copy_count < u32::MAX,
            old(self).copied_bytes + len <= u64::MAX,
        ensures
            final(self)@ == (SummaryView {
                copy_count: old(self)@.copy_count + 1,
                copied_bytes: old(self)@.copied_bytes + len as nat,
                ..old(self)@
            }),
            old(self)@.wf() ==> final(self)@.wf(),
    {
        self.copy_count = self.copy_count + 1;
        self.copied_bytes = self.copied_bytes + len;
    }

    /// Records how long the run took.
    pub fn set_duration(&mut self, duration: Elapsed)
        ensures
            final(self)@ == (SummaryView { duration, ..old(self)@ }),
            old(self)@.wf() && duration.valid() ==> final(self)@.wf(),
    {
        self.duration = duration;
    }
}

} // verus!
