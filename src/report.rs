use vstd::prelude::*;
use colored::Colorize;
use crate::summary::{Summary, SummaryView};
use crate::text::{decimal, decimal_text};

verus! {

/// The reset sequence that ends a coloured span on a terminal.
pub open spec fn ansi_reset() -> Seq<char> {
    seq!['\u{1b}', '[', '0', 'm']
}

/// `text` is `word` as printed plain, or in the foreground colour whose code
/// is `code`.
pub open spec fn painted(word: Seq<char>, code: Seq<char>, text: Seq<char>) -> bool {
    text == word || text == seq!['\u{1b}', '['] + code + seq!['m'] + word + ansi_reset()
}

pub open spec fn no_escape(word: Seq<char>) -> bool {
    forall|i: int| 0 <= i < word.len() ==> word[i] != '\u{1b}'
}

/// Relies on colored's `Colorize::green` and the `Display` of `ColoredString`:
/// the word itself where colouring is off (by the environment or the lack of a
/// terminal), else the word between `ESC[32m` and `ESC[0m`.
#[verifier::external_body]
fn green(word: &str) -> (r: String)
    requires
        no_escape(word@),
    ensures
        painted(word@, seq!['3', '2'], r@),
{
    word.green().to_string()
}

/// Relies on colored's `Colorize::cyan`, as `green` does, with code 36.
#[verifier::external_body]
fn cyan(word: &str) -> (r: String)
    requires
        no_escape(word@),
    ensures
        painted(word@, seq!['3', '6'], r@),
{
    word.cyan().to_string()
}

/// Relies on colored's `Colorize::yellow`, as `green` does, with code 33.
#[verifier::external_body]
fn yellow(word: &str) -> (r: String)
    requires
        no_escape(word@),
    ensures
        painted(word@, seq!['3', '3'], r@),
{
    word.yellow().to_string()
}

/// Relies on colored's `Colorize::red`, as `green` does, with code 31.
#[verifier::external_body]
fn red(word: &str) -> (r: String)
    requires
        no_escape(word@),
    ensures
        painted(word@, seq!['3', '1'], r@),
{
    word.red().to_string()
}

/// How humantime writes a duration of `secs` seconds and `nanos` nanoseconds.
pub uninterp spec fn duration_text_of(secs: u64, nanos: u32) -> Seq<char>;

/// Relies on humantime's `format_duration` (through its `Display`), which
/// depends on the duration alone.
#[verifier::external_body]
fn duration_text(secs: u64, nanos: u32) -> (r: String)
    requires
        nanos < 1_000_000_000,
    ensures
        r@ == duration_text_of(secs, nanos),
{
    humantime::format_duration(std::time::Duration::new(secs, nanos)).to_string()
}

/// How bytesize writes a count of bytes with binary prefixes.
pub uninterp spec fn size_text_of(bytes: u64) -> Seq<char>;

/// Relies on bytesize's `to_string(bytes, true)`, which depends on the count
/// alone and writes a count under 1024 as `<n> B`.
#[verifier::external_body]
fn size_text(bytes: u64) -> (r: String)
    ensures
        r@ == size_text_of(bytes),
        bytes < 1024 ==> r@ == decimal(bytes as nat) + " B"@,
{
    bytesize::to_string(bytes, true)
}

/// The six coloured words that open the lines of a report.
pub struct Labels {
    pub completed: String,
    pub copied: String,
    pub skipped: String,
    pub exif_error: String,
    pub duplicate: String,
    pub failed: String,
}

impl Labels {
    /// The words as a terminal, or a pipe, may show them.
    pub open spec fn painted(self) -> bool {
        &&& painted("Completed"@, seq!['3', '2'], self.completed@)
        &&& painted("Copied"@, seq!['3', '2'], self.copied@)
        &&& painted("Skipped"@, seq!['3', '6'], self.skipped@)
        &&& painted("Error"@, seq!['3', '3'], self.exif_error@)
        &&& painted("Skipped"@, seq!['3', '1'], self.duplicate@)
        &&& painted("Failed"@, seq!['3', '1'], self.failed@)
    }
}

/// Each path on a line of its own.
pub open spec fn path_lines(paths: Seq<String>) -> Seq<char>
    decreases paths.len(),
{
    if paths.len() == 0 {
        Seq::empty()
    } else {
        path_lines(paths.drop_last()) + paths.last()@ + "\n"@
    }
}

/// The opening lines: time taken, files copied and their total size.
pub open spec fn header(s: SummaryView, l: Labels, elapsed: Seq<char>, size: Seq<char>) -> Seq<char> {
    "\n"@ + l.completed@ + " in "@ + elapsed + "\n"@ + l.copied@ + " "@ + decimal(s.copy_count)
        + " files totalling "@ + size + "\n"@
}

pub open spec fn skipped_block(s: SummaryView, l: Labels) -> Seq<char> {
    if s.skipped_count > 0 {
        l.skipped@ + " copying "@ + decimal(s.skipped_count)
            + " files since they were already present at the target\n"@
    } else {
        Seq::empty()
    }
}

pub open spec fn exif_error_block(s: SummaryView, l: Labels) -> Seq<char> {
    if s.exif_error_count > 0 {
        l.exif_error@ + " reading the exif data for "@ + decimal(s.exif_error_count)
            + " files. They were copied using the file modified time - \n"@ + path_lines(
            s.exif_errored_files,
        )
    } else {
        Seq::empty()
    }
}

pub open spec fn duplicate_block(s: SummaryView, l: Labels) -> Seq<char> {
    if s.duplicate_count > 0 {
        l.duplicate@ + " copying "@ + decimal(s.duplicate_count)
            + " files since they were present at the target but was of a different size - \n"@
            + path_lines(s.duplicate_files)
    } else {
        Seq::empty()
    }
}

pub open spec fn scan_error_block(s: SummaryView, l: Labels) -> Seq<char> {
    if s.scan_error_count > 0 {
        l.failed@ + " to scan "@ + decimal(s.scan_error_count) + " files.\n"@
    } else {
        Seq::empty()
    }
}

pub open spec fn error_block(s: SummaryView, l: Labels) -> Seq<char> {
    if s.error_count > 0 {
        l.failed@ + " to copy "@ + decimal(s.error_count)
            + " files. The following files were not copied - \n"@ + path_lines(s.errored_files)
    } else {
        Seq::empty()
    }
}

/// The whole report: the header, then one block per non-zero counter, in a
/// fixed order.
pub open spec fn report(s: SummaryView, l: Labels, elapsed: Seq<char>, size: Seq<char>) -> Seq<char> {
    header(s, l, elapsed, size) + skipped_block(s, l) + exif_error_block(s, l) + duplicate_block(s, l)
        + scan_error_block(s, l) + error_block(s, l)
}

/// A report holds no block for a counter at zero: with every counter but the
/// copies at zero it is the header alone, and each block of a zero counter is
/// empty.
pub proof fn lemma_zero_counters_render_nothing(
    s: SummaryView,
    l: Labels,
    elapsed: Seq<char>,
    size: Seq<char>,
)
    ensures
        s.skipped_count == 0 ==> skipped_block(s, l) == Seq::<char>::empty(),
        s.exif_error_count == 0 ==> exif_error_block(s, l) == Seq::<char>::empty(),
        s.duplicate_count == 0 ==> duplicate_block(s, l) == Seq::<char>::empty(),
        s.scan_error_count == 0 ==> scan_error_block(s, l) == Seq::<char>::empty(),
        s.error_count == 0 ==> error_block(s, l) == Seq::<char>::empty(),
        (s.skipped_count == 0 && s.exif_error_count == 0 && s.duplicate_count == 0
            && s.scan_error_count == 0 && s.error_count == 0) ==> report(s, l, elapsed, size)
            == header(s, l, elapsed, size),
{
    let h = header(s, l, elapsed, size);
    assert(h + Seq::<char>::empty() =~= h);
}

/// Appends each path and a line break.
fn append_path_lines(out: &mut String, paths: &Vec<String>)
    ensures
        final(out)@ == old(out)@ + path_lines(paths@),
{
    let ghost start = out@;
    let mut i: usize = 0;
    while i < paths.len()
        invariant
            i <= paths@.len(),
            out@ == start + path_lines(paths@.subrange(0, i as int)),
        decreases paths@.len() - i,
    {
        let ghost before = paths@.subrange(0, i as int);
        out.append(paths[i].as_str());
        out.append("\n");
        assert(paths@.subrange(0, i + 1).drop_last() =~= before);
        assert(out@ =~= start + path_lines(paths@.subrange(0, i + 1)));
        i = i + 1;
    }
    assert(paths@.subrange(0, paths@.len() as int) =~= paths@);
}

/// Appends the decimal notation of `n`.
fn append_count(out: &mut String, n: u64)
    ensures
        final(out)@ == old(out)@ + decimal(n as nat),
{
    let digits = decimal_text(n);
    out.append(digits.as_str());
}

impl Summary {
    fn append_header(&self, out: &mut String, labels: &Labels, elapsed: &str, size: &str)
        ensures
            final(out)@ == old(out)@ + header(self@, *labels, elapsed@, size@),
    {
        let ghost start = out@;
        out.append("\n");
        out.append(labels.completed.as_str());
        out.append(" in ");
        out.append(elapsed);
        out.append("\n");
        out.append(labels.copied.as_str());
        out.append(" ");
        append_count(out, self.copy_count as u64);
        out.append(" files totalling ");
        out.append(size);
        out.append("\n");
        assert(out@ =~= start + header(self@, *labels, elapsed@, size@));
    }

    fn append_skipped(&self, out: &mut String, labels: &Labels)
        ensures
            final(out)@ == old(out)@ + skipped_block(self@, *labels),
    {
        let ghost start = out@;
        if self.skipped_count > 0 {
            out.append(labels.skipped.as_str());
            out.append(" copying ");
            append_count(out, self.skipped_count as u64);
            out.append(" files since they were already present at the target\n");
        }
        assert(out@ =~= start + skipped_block(self@, *labels));
    }

    fn append_exif_errors(&self, out: &mut String, labels: &Labels)
        ensures
            final(out)@ == old(out)@ + exif_error_block(self@, *labels),
    {
        let ghost start = out@;
        if self.exif_error_count > 0 {
            out.append(labels.exif_error.as_str());
            out.append(" reading the exif data for ");
            append_count(out, self.exif_error_count as u64);
            out.append(" files. They were copied using the file modified time - \n");
            append_path_lines(out, &self.exif_errored_files);
        }
        assert(out@ =~= start + exif_error_block(self@, *labels));
    }

    fn append_duplicates(&self, out: &mut String, labels: &Labels)
        ensures
            final(out)@ == old(out)@ + duplicate_block(self@, *labels),
    {
        let ghost start = out@;
        if self.duplicate_count > 0 {
            out.append(labels.duplicate.as_str());
            out.append(" copying ");
            append_count(out, self.duplicate_count as u64);
            out.append(
                " files since they were present at the target but was of a different size - \n",
            );
            append_path_lines(out, &self.duplicate_files);
        }
        assert(out@ =~= start + duplicate_block(self@, *labels));
    }

    fn append_scan_errors(&self, out: &mut String, labels: &Labels)
        ensures
            final(out)@ == old(out)@ + scan_error_block(self@, *labels),
    {
        let ghost start = out@;
        if self.scan_error_count > 0 {
            out.append(labels.failed.as_str());
            out.append(" to scan ");
            append_count(out, self.scan_error_count as u64);
            out.append(" files.\n");
        }
        assert(out@ =~= start + scan_error_block(self@, *labels));
    }

    fn append_errors(&self, out: &mut String, labels: &Labels)
        ensures
            final(out)@ == old(out)@ + error_block(self@, *labels),
    {
        let ghost start = out@;
        if self.error_count > 0 {
            out.append(labels.failed.as_str());
            out.append(" to copy ");
            append_count(out, self.error_count as u64);
            out.append(" files. The following files were not copied - \n");
            append_path_lines(out, &self.errored_files);
        }
        assert(out@ =~= start + error_block(self@, *labels));
    }

    /// The report with the given coloured words, duration text and size text.
    pub fn render(&self, labels: &Labels, elapsed: &str, size: &str) -> (r: String)
        ensures
            r@ == report(self@, *labels, elapsed@, size@),
    {
        let mut out = String::new();
        self.append_header(&mut out, labels, elapsed, size);
        self.append_skipped(&mut out, labels);
        self.append_exif_errors(&mut out, labels);
        self.append_duplicates(&mut out, labels);
        self.append_scan_errors(&mut out, labels);
        self.append_errors(&mut out, labels);
        assert(out@ =~= report(self@, *labels, elapsed@, size@));
        out
    }

    /// The report as printed at the end of a run, coloured where the output
    /// allows it.
    pub fn display(&self) -> (r: String)
        requires
            self.duration.valid(),
        ensures
            exists|l: Labels|
                l.painted() && r@ == report(
                    self@,
                    l,
                    duration_text_of(self.duration.secs, self.duration.nanos),
                    size_text_of(self.copied_bytes),
                ),
    {
        proof {
            reveal_strlit("Completed");
            reveal_strlit("Copied");
            reveal_strlit("Skipped");
            reveal_strlit("Error");
            reveal_strlit("Failed");
        }
        let labels = Labels {
            completed: green("Completed"),
            copied: green("Copied"),
            skipped: cyan("Skipped"),
            exif_error: yellow("Error"),
            duplicate: red("Skipped"),
            failed: red("Failed"),
        };
        let elapsed = duration_text(self.duration.secs, self.duration.nanos);
        let size = size_text(self.copied_bytes);
        let r = self.render(&labels, elapsed.as_str(), size.as_str());
        assert(labels.painted());
        r
    }
}

} // verus!
