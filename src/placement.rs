use vstd::prelude::*;
use crate::planner::{destination, target_path};
use crate::resolve::{after_resolve, resolve_date, resolved_date, view_of};
use crate::summary::{Summary, SummaryView};

verus! {

/// What to do with a file, given what its destination holds.
#[derive(Clone, Copy, Debug, PartialEq, Eq, Structural)]
pub enum Placement {
    /// The destination is free: copy.
    Copy,
    /// The destination holds a file of the same size: taken as already copied.
    SkipIdentical,
    /// The destination holds a file of another size: never overwritten.
    SkipConflict,
}

/// The placement of a file of `source_len` bytes whose destination holds a
/// file of `target_len` bytes, or nothing. Sizes alone decide: two files of
/// one size count as the same even where their bytes differ.
pub open spec fn placement_of(source_len: nat, target_len: Option<nat>) -> Placement {
    match target_len {
        None => Placement::Copy,
        Some(t) => if t == source_len {
            Placement::SkipIdentical
        } else {
            Placement::SkipConflict
        },
    }
}

pub open spec fn as_nat(o: Option<u64>) -> Option<nat> {
    match o {
        Some(n) => Some(n as nat),
        None => None,
    }
}

/// Decides what to do with a file of `source_len` bytes whose destination
/// holds a file of `target_len` bytes (`None`: no file there).
pub fn decide(source_len: u64, target_len: Option<u64>) -> (r: Placement)
    ensures
        r == placement_of(source_len as nat, as_nat(target_len)),
        target_len == Some(source_len) ==> r == Placement::SkipIdentical,
        (target_len matches Some(t) && t != source_len) ==> r == Placement::SkipConflict,
        r == Placement::Copy <==> target_len is None,
{
    match target_len {
        None => Placement::Copy,
        Some(t) => if t == source_len {
            Placement::SkipIdentical
        } else {
            Placement::SkipConflict
        },
    }
}

/// Where the file at `path`, named `file_name`, goes under `target_root`:
/// its date is resolved (recording a warning or an error in `summary` as
/// `resolve_date` does) and the destination planned from it; `None` where no
/// date could be found.
pub fn locate(
    summary: &mut Summary,
    path: String,
    file_name: &str,
    contents: Option<&[u8]>,
    modified: Option<i64>,
    target_root: &str,
) -> (r: Option<String>)
    requires
        file_name@.len() < i64::MAX,
        old(summary).exif_error_count < u32::MAX,
        old(summary).error_count < u32::MAX,
    ensures
        final(summary)@ == after_resolve(old(summary)@, path, file_name@, view_of(contents), modified),
        match resolved_date(file_name@, view_of(contents), modified) {
            Some(d) => r matches Some(p) && p@ == destination(target_root@, d, file_name@),
            None => r is None,
        },
{
    match resolve_date(summary, path, file_name, contents, modified) {
        Some(date) => Some(target_path(target_root, date, file_name)),
        None => None,
    }
}

/// Records a file at `path` whose destination already exists, given the sizes
/// of both (`None` where one could not be read): an error where a size is
/// missing, else skipped for equal sizes and a duplicate for different ones.
/// Such a file is never copied.
pub fn record_existing(
    summary: &mut Summary,
    path: String,
    source_len: Option<u64>,
    target_len: Option<u64>,
) -> (r: Option<Placement>)
    requires
        old(summary).error_count < u32::MAX,
        old(summary).skipped_count < u32::MAX,
        old(summary).duplicate_count < u32::MAX,
    ensures
        r == (match (source_len, target_len) {
            (Some(s), Some(t)) => Some(placement_of(s as nat, Some(t as nat))),
            _ => None,
        }),
        final(summary)@ == (match r {
            None => SummaryView {
                error_count: old(summary)@.error_count + 1,
                errored_files: old(summary)@.errored_files.push(path),
                ..old(summary)@
            },
            Some(Placement::SkipIdentical) => SummaryView {
                skipped_count: old(summary)@.skipped_count + 1,
                ..old(summary)@
            },
            _ => SummaryView {
                duplicate_count: old(summary)@.duplicate_count + 1,
                duplicate_files: old(summary)@.duplicate_files.push(path),
                ..old(summary)@
            },
        }),
{
    match (source_len, target_len) {
        (Some(s), Some(t)) => {
            let p = decide(s, Some(t));
            match p {
                Placement::SkipIdentical => summary.mark_skipped(),
                _ => summary.mark_duplicate(path),
            }
            Some(p)
        },
        _ => {
            summary.mark_error(path);
            None
        },
    }
}

/// Records the end of a copy of the file at `path`: the bytes copied, or
/// `None` where creating the directories or copying failed.
pub fn record_copy(summary: &mut Summary, path: String, copied: Option<u64>)
    requires
        old(summary).error_count < u32::MAX,
        old(summary).copy_count < u32::MAX,
        copied matches Some(n) ==> old(summary).copied_bytes + n <= u64::MAX,
    ensures
        final(summary)@ == (match copied {
            Some(n) => SummaryView {
                copy_count: old(summary)@.copy_count + 1,
                copied_bytes: old(summary)@.copied_bytes + n as nat,
                ..old(summary)@
            },
            None => SummaryView {
                error_count: old(summary)@.error_count + 1,
                errored_files: old(summary)@.errored_files.push(path),
                ..old(summary)@
            },
        }),
{
    match copied {
        Some(n) => summary.mark_copied(n),
        None => summary.mark_error(path),
    }
}

/// A run over files given as (destination, size), in order, against a target
/// whose files are given as sizes by path, where every read and copy
/// succeeds: the target after the run, and each file's placement.
pub open spec fn place_all(target: Map<Seq<char>, nat>, files: Seq<(Seq<char>, nat)>) -> (
    Map<Seq<char>, nat>,
    Seq<Placement>,
)
    decreases files.len(),
{
    if files.len() == 0 {
        (target, Seq::empty())
    } else {
        let (before, placements) = place_all(target, files.drop_last());
        let (dest, len) = files.last();
        let p = placement_of(len, if before.contains_key(dest) { Some(before[dest]) } else { None });
        (if p == Placement::Copy { before.insert(dest, len) } else { before }, placements.push(p))
    }
}

proof fn lemma_place_all_len(target: Map<Seq<char>, nat>, files: Seq<(Seq<char>, nat)>)
    ensures
        place_all(target, files).1.len() == files.len(),
    decreases files.len(),
{
    if files.len() > 0 {
        lemma_place_all_len(target, files.drop_last());
    }
}

/// A run keeps what the target held.
proof fn lemma_run_keeps(target: Map<Seq<char>, nat>, files: Seq<(Seq<char>, nat)>)
    ensures
        forall|k: Seq<char>| #[trigger]
            target.contains_key(k) ==> place_all(target, files).0.contains_key(k) && place_all(
                target,
                files,
            ).0[k] == target[k],
    decreases files.len(),
{
    if files.len() > 0 {
        let prefix = files.drop_last();
        lemma_run_keeps(target, prefix);
        let before = place_all(target, prefix).0;
        let dest = files.last().0;
        assert forall|k: Seq<char>| #[trigger]
            target.contains_key(k) implies place_all(target, files).0.contains_key(k) && place_all(
            target,
            files,
        ).0[k] == target[k] by {
            assert(before.contains_key(k));
            if k == dest {
                assert(before.contains_key(dest));
            }
        }
    }
}

/// After a run without conflicts the
/// destination of every file holds a file of its size.
proof fn lemma_first_run(target: Map<Seq<char>, nat>, files: Seq<(Seq<char>, nat)>)
    requires
        forall|i: int|
            0 <= i < files.len() ==> place_all(target, files).1[i] != Placement::SkipConflict,
    ensures
        forall|i: int|
            0 <= i < files.len() ==> place_all(target, files).0.contains_key(files[i].0) && place_all(
                target,
                files,
            ).0[files[i].0] == files[i].1,
    decreases files.len(),
{
    if files.len() > 0 {
        let prefix = files.drop_last();
        lemma_place_all_len(target, prefix);
        let (before, placements) = place_all(target, prefix);
        assert forall|i: int| 0 <= i < prefix.len() implies place_all(target, prefix).1[i]
            != Placement::SkipConflict by {
            assert(place_all(target, files).1[i] == placements[i]);
        }
        lemma_first_run(target, prefix);
        lemma_run_keeps(target, files);
        let n = files.len() - 1;
        assert(place_all(target, files).1[n] != Placement::SkipConflict);
        assert forall|i: int| 0 <= i < files.len() implies place_all(target, files).0.contains_key(
            files[i].0,
        ) && place_all(target, files).0[files[i].0] == files[i].1 by {
            if i < n {
                assert(prefix[i] == files[i]);
            }
        }
    }
}

/// Against a target where every file's destination already holds a file of
/// its size, a run skips every file and changes nothing.
proof fn lemma_all_present(target: Map<Seq<char>, nat>, files: Seq<(Seq<char>, nat)>)
    requires
        forall|i: int|
            0 <= i < files.len() ==> target.contains_key(files[i].0) && target[files[i].0]
                == files[i].1,
    ensures
        place_all(target, files).0 == target,
        place_all(target, files).1 == Seq::new(files.len(), |i: int| Placement::SkipIdentical),
    decreases files.len(),
{
    if files.len() > 0 {
        let prefix = files.drop_last();
        assert forall|i: int| 0 <= i < prefix.len() implies target.contains_key(prefix[i].0)
            && target[prefix[i].0] == prefix[i].1 by {
            assert(prefix[i] == files[i]);
        }
        lemma_all_present(target, prefix);
        assert(files.last() == files[files.len() - 1]);
        assert(place_all(target, files).1 =~= Seq::new(files.len(), |i: int| Placement::SkipIdentical));
    }
}

/// Running twice over unchanged files: where the first run met no conflict,
/// the second copies nothing, meets no conflict, skips every file, and leaves
/// the target as the first run left it.
pub proof fn lemma_second_run_skips_all(target: Map<Seq<char>, nat>, files: Seq<(Seq<char>, nat)>)
    requires
        forall|i: int|
            0 <= i < files.len() ==> place_all(target, files).1[i] != Placement::SkipConflict,
    ensures
        ({
            let after = place_all(target, files).0;
            &&& place_all(after, files).0 == after
            &&& place_all(after, files).1 == Seq::new(files.len(), |i: int| Placement::SkipIdentical)
        }),
{
    lemma_first_run(target, files);
    lemma_all_present(place_all(target, files).0, files);
}

} // verus!
