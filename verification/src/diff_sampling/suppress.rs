//! Leaving out the content of files under generated-code directories, and writing
//! file sections back into one patch.
use vstd::prelude::*;

use super::notices::DIFF_SUPPRESSED_CONTENT_NOTICE;
use crate::diff_parse::{file_views, texts, DiffFile, DiffFileView};
use crate::lines::concat;
use crate::text::{chars_of, has_prefix, push_str, string_of};

verus! {

/// A copy of a list of strings.
pub fn copy_strings(v: &Vec<String>) -> (r: Vec<String>)
    ensures
        texts(r@) == texts(v@),
        r@.len() == v@.len(),
{
    let mut r: Vec<String> = Vec::new();
    let mut i: usize = 0;
    while i < v.len()
        invariant
            0 <= i <= v@.len(),
            forall|j: int| 0 <= j < i ==> (#[trigger] r@[j])@ == v@[j]@,
            r@.len() == i,
        decreases v@.len() - i,
    {
        let c = v[i].clone();
        assert(c@ == v@[i as int]@);
        r.push(c);
        i = i + 1;
    }
    assert(texts(r@) =~= texts(v@));
    r
}

/// A copy of a file section.
pub fn copy_file(f: &DiffFile) -> (r: DiffFile)
    ensures
        r@ == f@,
{
    DiffFile {
        header: f.header.clone(),
        hunks: copy_strings(&f.hunks),
        kind: f.kind,
        path: f.path.clone(),
    }
}

/// Whether `path` is `dir` or lies under it.
pub open spec fn under_dir(path: Seq<char>, dir: Seq<char>) -> bool {
    path == dir || (has_prefix(path, dir) && path.len() > dir.len() && path[dir.len() as int]
        == '/')
}

/// Whether a non-empty `path` lies under one of `dirs`.
pub open spec fn path_in_dirs_spec(path: Seq<char>, dirs: Seq<Seq<char>>) -> bool {
    path.len() > 0 && exists|i: int| 0 <= i < dirs.len() && under_dir(path, dirs[i])
}

/// Whether a file's content is left out.
pub open spec fn is_suppressed(f: DiffFileView, dirs: Seq<Seq<char>>) -> bool {
    path_in_dirs_spec(f.path, dirs) && f.hunks.len() > 0
}

/// A file with its hunks dropped and the suppression notice added to its header.
pub open spec fn suppressed_file(f: DiffFileView) -> DiffFileView {
    let header = if f.header.len() > 0 && f.header.last() != '\n' {
        f.header.push('\n')
    } else {
        f.header
    };
    DiffFileView { header: header + DIFF_SUPPRESSED_CONTENT_NOTICE@, hunks: Seq::empty(), ..f }
}

/// A file as suppression leaves it.
pub open spec fn after_suppression(f: DiffFileView, dirs: Seq<Seq<char>>) -> DiffFileView {
    if is_suppressed(f, dirs) {
        suppressed_file(f)
    } else {
        f
    }
}

/// How many of `files` are suppressed.
pub open spec fn suppressed_count(files: Seq<DiffFileView>, dirs: Seq<Seq<char>>) -> nat
    decreases files.len(),
{
    if files.len() == 0 {
        0
    } else {
        suppressed_count(files.drop_last(), dirs) + if is_suppressed(files.last(), dirs) {
            1nat
        } else {
            0nat
        }
    }
}

/// The files with generated content left out, and how many were.
#[derive(Clone, Debug, PartialEq, Eq)]
pub struct SuppressionResult {
    pub files: Vec<DiffFile>,
    pub suppressed_count: usize,
}

/// Whether `path[..]` equals `dir` or lies under it.
fn under_dir_exec(path: &[char], dir: &[char]) -> (b: bool)
    ensures
        b == under_dir(path@, dir@),
{
    if dir.len() > path.len() {
        return false;
    }
    let m = crate::text::matches_at(path, 0, dir);
    if !m {
        assert(!(path@ =~= dir@)) by {
            if path@ == dir@ {
                assert(path@.subrange(0, dir@.len() as int) =~= dir@);
            }
        }
        return false;
    }
    assert(path@.subrange(0, dir@.len() as int) == dir@);
    if path.len() == dir.len() {
        assert(path@ =~= dir@);
        return true;
    }
    path[dir.len()] == '/'
}

/// Whether a non-empty `path` lies under one of `dirs`.
pub fn path_in_dirs(path: &str, dirs: &[String]) -> (b: bool)
    ensures
        b == path_in_dirs_spec(path@, texts(dirs@)),
{
    let p = chars_of(path);
    if p.len() == 0 {
        return false;
    }
    let mut i: usize = 0;
    while i < dirs.len()
        invariant
            0 <= i <= dirs@.len(),
            p@ == path@,
            p@.len() > 0,
            forall|j: int| 0 <= j < i ==> !under_dir(path@, #[trigger] texts(dirs@)[j]),
        decreases dirs@.len() - i,
    {
        let d = chars_of(dirs[i].as_str());
        if under_dir_exec(p.as_slice(), d.as_slice()) {
            assert(under_dir(path@, texts(dirs@)[i as int]));
            assert(path@.len() > 0);
            assert(0 <= i < texts(dirs@).len());
            return true;
        }
        i = i + 1;
    }
    false
}

/// Drops the hunks of every file under one of `dirs` that has any, adding the
/// suppression notice to its header; the other files are kept as they are.
pub fn suppress_generated_content(files: &[DiffFile], dirs: &[String]) -> (r: SuppressionResult)
    ensures
        file_views(r.files@) == file_views(files@).map_values(
            |f: DiffFileView| after_suppression(f, texts(dirs@)),
        ),
        r.suppressed_count == suppressed_count(file_views(files@), texts(dirs@)),
{
    let ghost ds = texts(dirs@);
    let ghost fv = file_views(files@);
    let mut out: Vec<DiffFile> = Vec::new();
    let mut count: usize = 0;
    let mut i: usize = 0;
    while i < files.len()
        invariant
            0 <= i <= files@.len(),
            ds == texts(dirs@),
            fv == file_views(files@),
            out@.len() == i,
            forall|j: int| 0 <= j < i ==> (#[trigger] out@[j])@ == after_suppression(fv[j], ds),
            count == suppressed_count(fv.take(i as int), ds),
            count <= i,
        decreases files@.len() - i,
    {
        let f = &files[i];
        assert(fv.take(i + 1).drop_last() =~= fv.take(i as int));
        assert(fv[i as int] == f@);
        if dirs.len() > 0 && f.hunks.len() > 0 && path_in_dirs(f.path.as_str(), dirs) {
            let mut header = chars_of(f.header.as_str());
            if header.len() > 0 && header[header.len() - 1] != '\n' {
                header.push('\n');
            }
            push_str(&mut header, DIFF_SUPPRESSED_CONTENT_NOTICE);
            let g = DiffFile {
                header: string_of(header),
                hunks: Vec::new(),
                kind: f.kind,
                path: f.path.clone(),
            };
            assert(texts(g.hunks@) =~= Seq::<Seq<char>>::empty());
            assert(g@ == suppressed_file(f@));
            out.push(g);
            count = count + 1;
        } else {
            assert(!is_suppressed(f@, ds)) by {
                if dirs@.len() == 0 {
                    assert(ds.len() == 0);
                }
                assert(f@.hunks.len() == f.hunks@.len());
            }
            out.push(copy_file(f));
        }
        i = i + 1;
    }
    assert(fv.take(i as int) =~= fv);
    assert(file_views(out@) =~= fv.map_values(|f: DiffFileView| after_suppression(f, ds)));
    SuppressionResult { files: out, suppressed_count: count }
}

/// A file's text: its header, then its hunks.
pub open spec fn file_text(f: DiffFileView) -> Seq<char> {
    f.header + concat(f.hunks)
}

/// The patch that the files make, one after another.
pub open spec fn rebuilt(files: Seq<DiffFileView>) -> Seq<char>
    decreases files.len(),
{
    if files.len() == 0 {
        Seq::empty()
    } else {
        rebuilt(files.drop_last()) + file_text(files.last())
    }
}

/// The patch written back from file sections: each header followed by its hunks.
pub fn rebuild_patch_from_files(files: &[DiffFile]) -> (r: String)
    ensures
        r@ == rebuilt(file_views(files@)),
{
    let ghost fv = file_views(files@);
    let mut patch: Vec<char> = Vec::new();
    let mut i: usize = 0;
    while i < files.len()
        invariant
            0 <= i <= files@.len(),
            fv == file_views(files@),
            patch@ == rebuilt(fv.take(i as int)),
        decreases files@.len() - i,
    {
        let f = &files[i];
        assert(fv.take(i + 1).drop_last() =~= fv.take(i as int));
        assert(fv[i as int] == f@);
        let ghost before = patch@;
        push_str(&mut patch, f.header.as_str());
        let mut j: usize = 0;
        while j < f.hunks.len()
            invariant
                0 <= j <= f.hunks@.len(),
                patch@ == before + f.header@ + concat(texts(f.hunks@).take(j as int)),
            decreases f.hunks@.len() - j,
        {
            let ghost hs = texts(f.hunks@);
            assert(hs.take(j + 1).drop_last() =~= hs.take(j as int));
            push_str(&mut patch, f.hunks[j].as_str());
            assert(patch@ =~= before + f.header@ + concat(hs.take(j + 1)));
            j = j + 1;
        }
        assert(texts(f.hunks@).take(j as int) =~= texts(f.hunks@));
        assert(patch@ =~= rebuilt(fv.take(i + 1)));
        i = i + 1;
    }
    assert(fv.take(i as int) =~= fv);
    string_of(patch)
}

} // verus!
