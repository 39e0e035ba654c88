use vstd::prelude::*;
use crate::calendar::{as_date, date_of_date_time_text, date_of_timestamp, parsed_day_of, utc_day_of, Date};
use crate::summary::{Summary, SummaryView};

verus! {

/// Why no embedded capture date came out of a file's contents.
#[derive(Clone, Copy, Debug, PartialEq, Eq, Structural)]
pub enum ExifMiss {
    /// The file holds no Exif block at all.
    NoMetadata,
    /// The file's format or its Exif block could not be read.
    Malformed,
    /// The Exif block has no original capture time.
    NoDateField,
}

/// The text of the original capture time that kamadak-exif finds in `data`,
/// or why there is none.
pub uninterp spec fn exif_date_field_of(data: Seq<u8>) -> Result<Seq<char>, ExifMiss>;

/// Relies on kamadak-exif's `Reader::read_from_container` (an image file held
/// in memory; `Error::NotFound` where it has no Exif block), `Exif::get_field`
/// for `DateTimeOriginal` of the primary image, and `Field::display_value`.
#[verifier::external_body]
fn exif_date_field(data: &[u8]) -> (r: Result<String, ExifMiss>)
    ensures
        match r {
            Ok(t) => exif_date_field_of(data@) == Ok::<Seq<char>, ExifMiss>(t@),
            Err(m) => exif_date_field_of(data@) == Err::<Seq<char>, ExifMiss>(m),
        },
{
    match exif::Reader::new().read_from_container(&mut std::io::Cursor::new(data)) {
        Ok(e) => match e.get_field(exif::Tag::DateTimeOriginal, exif::In::PRIMARY) {
            Some(f) => Ok(f.display_value().to_string()),
            None => Err(ExifMiss::NoDateField),
        },
        Err(exif::Error::NotFound(_)) => Err(ExifMiss::NoMetadata),
        Err(_) => Err(ExifMiss::Malformed),
    }
}

/// Index of the last `.` in `s`, or -1.
pub open spec fn last_dot(s: Seq<char>) -> int
    decreases s.len(),
{
    if s.len() == 0 {
        -1
    } else if s.last() == '.' {
        s.len() - 1
    } else {
        last_dot(s.drop_last())
    }
}

/// The extension of a file name: what follows its last `.`, where that `.`
/// is not the first character (and the name is not `..`).
pub open spec fn extension(name: Seq<char>) -> Option<Seq<char>> {
    if name == seq!['.', '.'] || last_dot(name) <= 0 {
        None
    } else {
        Some(name.subrange(last_dot(name) + 1, name.len() as int))
    }
}

/// `c` is the lower-case ASCII letter `w` in either case.
pub open spec fn folds_to(c: char, w: char) -> bool {
    c == w || c as u32 + 32 == w as u32
}

pub open spec fn equal_ignoring_case(s: Seq<char>, w: Seq<char>) -> bool {
    s.len() == w.len() && forall|i: int| 0 <= i < s.len() ==> folds_to(s[i], w[i])
}

/// Files whose extension is `jpg` or `jpeg`, in any case, may carry Exif data.
pub open spec fn exif_compatible(name: Seq<char>) -> bool {
    match extension(name) {
        Some(e) => equal_ignoring_case(e, seq!['j', 'p', 'g']) || equal_ignoring_case(
            e,
            seq!['j', 'p', 'e', 'g'],
        ),
        None => false,
    }
}

proof fn lemma_last_dot_range(s: Seq<char>)
    ensures
        -1 <= last_dot(s) < s.len(),
    decreases s.len(),
{
    if s.len() > 0 {
        lemma_last_dot_range(s.drop_last());
    }
}

fn last_dot_index(s: &str) -> (r: i64)
    requires
        s@.len() < i64::MAX,
    ensures
        r == last_dot(s@),
{
    let n = s.unicode_len();
    let mut i: usize = n;
    assert(s@.subrange(0, n as int) =~= s@);
    while i > 0
        invariant
            i <= n == s@.len(),
            n < i64::MAX,
            last_dot(s@) == last_dot(s@.subrange(0, i as int)),
        decreases i,
    {
        assert(s@.subrange(0, i as int).drop_last() =~= s@.subrange(0, i - 1));
        assert(s@.subrange(0, i as int).last() == s@[i - 1]);
        if s.get_char(i - 1) == '.' {
            return (i - 1) as i64;
        }
        i = i - 1;
    }
    -1
}

/// `ext` equals the lower-case ASCII word `word`, ignoring ASCII case.
fn matches_ignoring_case(ext: &str, word: &str) -> (r: bool)
    ensures
        r == equal_ignoring_case(ext@, word@),
{
    let n = ext.unicode_len();
    if n != word.unicode_len() {
        return false;
    }
    let mut i: usize = 0;
    while i < n
        invariant
            n == ext@.len() == word@.len(),
            i <= n,
            forall|j: int| 0 <= j < i ==> folds_to(ext@[j], word@[j]),
        decreases n - i,
    {
        let c = ext.get_char(i);
        let w = word.get_char(i);
        if !(c == w || c as u32 + 32 == w as u32) {
            return false;
        }
        i = i + 1;
    }
    true
}

/// Whether a file of this name may carry Exif data (a `jpg` or `jpeg`
/// extension, in any case).
pub fn exif_compatible_extension(file_name: &str) -> (r: bool)
    requires
        file_name@.len() < i64::MAX,
    ensures
        r == exif_compatible(file_name@),
{
    let n = file_name.unicode_len();
    if n == 2 && file_name.get_char(0) == '.' && file_name.get_char(1) == '.' {
        assert(file_name@ =~= seq!['.', '.']);
        return false;
    }
    assert(file_name@ != seq!['.', '.']) by {
        if file_name@ == seq!['.', '.'] {
            assert(file_name@[0] == '.' && file_name@[1] == '.');
        }
    }
    let dot = last_dot_index(file_name);
    proof {
        lemma_last_dot_range(file_name@);
    }
    if dot <= 0 {
        return false;
    }
    let ext = file_name.substring_char((dot + 1) as usize, n);
    proof {
        reveal_strlit("jpg");
        reveal_strlit("jpeg");
    }
    matches_ignoring_case(ext, "jpg") || matches_ignoring_case(ext, "jpeg")
}

/// The embedded capture date of a file, from its name and its contents
/// (`None` where they could not be read), and whether reading it deserves a
/// warning. A file that holds no Exif block at all is no warning.
pub open spec fn embedded_date(name: Seq<char>, contents: Option<Seq<u8>>) -> (Option<Date>, bool) {
    if !exif_compatible(name) {
        (None, false)
    } else {
        match contents {
            None => (None, true),
            Some(data) => match exif_date_field_of(data) {
                Err(ExifMiss::NoMetadata) => (None, false),
                Err(_) => (None, true),
                Ok(text) => match as_date(parsed_day_of(text)) {
                    Some(d) => (Some(d), false),
                    None => (None, true),
                },
            },
        }
    }
}

/// The date a file is filed under: its embedded capture date, else the UTC day
/// of its modification time (whole seconds since the epoch; `None` where it
/// could not be read).
pub open spec fn resolved_date(name: Seq<char>, contents: Option<Seq<u8>>, modified: Option<i64>) -> Option<Date> {
    match embedded_date(name, contents).0 {
        Some(d) => Some(d),
        None => match modified {
            Some(secs) => as_date(utc_day_of(secs as int)),
            None => None,
        },
    }
}

pub open spec fn view_of(contents: Option<&[u8]>) -> Option<Seq<u8>> {
    match contents {
        Some(c) => Some(c@),
        None => None,
    }
}

/// A file that cannot carry Exif data, or one whose Exif block lacks a
/// readable capture date, is still filed, under the day of its modification
/// time; in the second case reading it is a warning, in the first it is not.
pub proof fn lemma_fallback_to_modified_time(name: Seq<char>, contents: Option<Seq<u8>>, secs: i64)
    requires
        utc_day_of(secs as int) is Some,
        !exif_compatible(name) || contents is None || (contents matches Some(data) && match exif_date_field_of(data) {
            Ok(text) => parsed_day_of(text) is None,
            Err(m) => m != ExifMiss::NoMetadata,
        }),
    ensures
        resolved_date(name, contents, Some(secs)) == as_date(utc_day_of(secs as int)),
        resolved_date(name, contents, Some(secs)) is Some,
        embedded_date(name, contents).1 == exif_compatible(name),
{
}

/// The embedded capture date in a file's contents, if any, and whether it
/// deserves a warning.
pub fn date_from_exif(file_name: &str, contents: Option<&[u8]>) -> (r: (Option<Date>, bool))
    requires
        file_name@.len() < i64::MAX,
    ensures
        r == embedded_date(file_name@, view_of(contents)),
        r.0 matches Some(d) ==> d.valid(),
{
    if !exif_compatible_extension(file_name) {
        return (None, false);
    }
    match contents {
        None => (None, true),
        Some(data) => match exif_date_field(data) {
            Err(ExifMiss::NoMetadata) => (None, false),
            Err(_) => (None, true),
            Ok(text) => match date_of_date_time_text(text.as_str()) {
                Some(d) => (Some(d), false),
                None => (None, true),
            },
        },
    }
}

/// The summary after resolving the date of the file at `path`: a warning
/// recorded where its embedded date deserves one, then an error where no date
/// came out at all.
pub open spec fn after_resolve(
    s: SummaryView,
    path: String,
    name: Seq<char>,
    contents: Option<Seq<u8>>,
    modified: Option<i64>,
) -> SummaryView {
    let s1 = if embedded_date(name, contents).1 {
        SummaryView {
            exif_error_count: s.exif_error_count + 1,
            exif_errored_files: s.exif_errored_files.push(path),
            ..s
        }
    } else {
        s
    };
    if resolved_date(name, contents, modified) is None {
        SummaryView { error_count: s1.error_count + 1, errored_files: s1.errored_files.push(path), ..s1 }
    } else {
        s1
    }
}

/// Resolves the date of the file at `path`, named `file_name`, and records in
/// `summary` a warning where its embedded date could not be read and an error
/// where no date could be found at all.
pub fn resolve_date(
    summary: &mut Summary,
    path: String,
    file_name: &str,
    contents: Option<&[u8]>,
    modified: Option<i64>,
) -> (r: Option<Date>)
    requires
        file_name@.len() < i64::MAX,
        old(summary).exif_error_count < u32::MAX,
        old(summary).error_count < u32::MAX,
    ensures
        r == resolved_date(file_name@, view_of(contents), modified),
        r matches Some(d) ==> d.valid(),
        final(summary)@ == after_resolve(old(summary)@, path, file_name@, view_of(contents), modified),
{
    let (embedded, warned) = date_from_exif(file_name, contents);
    if warned {
        summary.mark_exif_error(path.clone());
    }
    match embedded {
        Some(d) => Some(d),
        None => {
            let from_time = match modified {
                Some(secs) => date_of_timestamp(secs),
                None => None,
            };
            if from_time.is_none() {
                summary.mark_error(path);
            }
            from_time
        },
    }
}

} // verus!
