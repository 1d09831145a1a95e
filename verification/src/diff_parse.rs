//! Splitting a unified `git diff` into files, each with its header and hunks.
use vstd::prelude::*;

use crate::lines::{
    concat, lemma_concat_push, lemma_split_inclusive_shape, line_ranges, range_seqs,
    ranges_within, split_inclusive, split_inclusive_ranges, str_lines,
};
use crate::text::{
    all_ws, chars_of, contains, contains_str, has_prefix, matches_at, normalize_newlines,
    normalize_newlines_vec, push_range, slice_range, starts_with_str, string_of, trim,
    trim_bounds,
};

verus! {

/// What a file section of a diff changes.
#[derive(Clone, Copy, Debug, PartialEq, Eq, Structural)]
pub enum DiffFileKind {
    Modified,
    Deleted,
    Added,
    Renamed,
    Copied,
    Binary,
    ModeOnly,
    SubmoduleOrOtherHeaderOnly,
}

/// One file section of a diff: the header lines, the hunks, the kind and the
/// target path.
#[derive(Clone, Debug, PartialEq, Eq)]
pub struct DiffFile {
    pub header: String,
    pub hunks: Vec<String>,
    pub kind: DiffFileKind,
    pub path: String,
}

/// A file section as plain values.
pub struct DiffFileView {
    pub header: Seq<char>,
    pub hunks: Seq<Seq<char>>,
    pub kind: DiffFileKind,
    pub path: Seq<char>,
}

/// The texts of a list of strings.
pub open spec fn texts(v: Seq<String>) -> Seq<Seq<char>> {
    v.map_values(|s: String| s@)
}

impl View for DiffFile {
    type V = DiffFileView;

    open spec fn view(&self) -> DiffFileView {
        DiffFileView {
            header: self.header@,
            hunks: texts(self.hunks@),
            kind: self.kind,
            path: self.path@,
        }
    }
}

/// The views of a list of files.
pub open spec fn file_views(v: Seq<DiffFile>) -> Seq<DiffFileView> {
    v.map_values(|f: DiffFile| f@)
}

/// The kind a file section has, judged by its header and whether it has hunks.
pub open spec fn classify(header: Seq<char>, has_hunks: bool) -> DiffFileKind {
    if contains(header, "GIT binary patch"@) || contains(header, "Binary files "@) {
        DiffFileKind::Binary
    } else if contains(header, "rename from "@) && contains(header, "rename to "@) {
        DiffFileKind::Renamed
    } else if contains(header, "copy from "@) && contains(header, "copy to "@) {
        DiffFileKind::Copied
    } else if contains(header, "deleted file mode "@) {
        DiffFileKind::Deleted
    } else if contains(header, "new file mode "@) {
        DiffFileKind::Added
    } else if !has_hunks && (contains(header, "old mode "@) || contains(header, "new mode "@)) {
        DiffFileKind::ModeOnly
    } else if !has_hunks {
        DiffFileKind::SubmoduleOrOtherHeaderOnly
    } else {
        DiffFileKind::Modified
    }
}

/// The kind of a file section.
pub fn classify_diff_file(header: &[char], has_hunks: bool) -> (k: DiffFileKind)
    ensures
        k == classify(header@, has_hunks),
{
    if contains_str(header, "GIT binary patch") || contains_str(header, "Binary files ") {
        DiffFileKind::Binary
    } else if contains_str(header, "rename from ") && contains_str(header, "rename to ") {
        DiffFileKind::Renamed
    } else if contains_str(header, "copy from ") && contains_str(header, "copy to ") {
        DiffFileKind::Copied
    } else if contains_str(header, "deleted file mode ") {
        DiffFileKind::Deleted
    } else if contains_str(header, "new file mode ") {
        DiffFileKind::Added
    } else if !has_hunks && (contains_str(header, "old mode ") || contains_str(
        header,
        "new mode ",
    )) {
        DiffFileKind::ModeOnly
    } else if !has_hunks {
        DiffFileKind::SubmoduleOrOtherHeaderOnly
    } else {
        DiffFileKind::Modified
    }
}

pub open spec fn is_octal(c: char) -> bool {
    '0' <= c && c <= '7'
}

pub open spec fn octal_value(c: char) -> int {
    (c as int) - ('0' as int)
}

/// The bytes that a backslash escape inside a quoted path stands for, and how many
/// characters after the backslash it consumes.
pub open spec fn escape_bytes(rest: Seq<char>) -> (Seq<u8>, nat) {
    if rest.len() == 0 {
        (seq![92u8], 0)
    } else {
        let c = rest[0];
        if c == 'a' {
            (seq![7u8], 1)
        } else if c == 'b' {
            (seq![8u8], 1)
        } else if c == 't' {
            (seq![9u8], 1)
        } else if c == 'n' {
            (seq![10u8], 1)
        } else if c == 'v' {
            (seq![11u8], 1)
        } else if c == 'f' {
            (seq![12u8], 1)
        } else if c == 'r' {
            (seq![13u8], 1)
        } else if c == '"' {
            (seq![34u8], 1)
        } else if c == '\\' {
            (seq![92u8], 1)
        } else if is_octal(c) {
            let v0 = octal_value(c);
            if rest.len() > 1 && is_octal(rest[1]) {
                let v1 = v0 * 8 + octal_value(rest[1]);
                if rest.len() > 2 && is_octal(rest[2]) {
                    (seq![((v1 * 8 + octal_value(rest[2])) % 256) as u8], 3)
                } else {
                    (seq![(v1 % 256) as u8], 2)
                }
            } else {
                (seq![(v0 % 256) as u8], 1)
            }
        } else {
            (seq![92u8], 1)
        }
    }
}

/// The byte tokens of `cs[i..]`, split at spaces outside double quotes, with escapes
/// inside quotes decoded, continuing from a quote state, a token being built and the
/// tokens so far.
pub open spec fn path_tokens_from(
    cs: Seq<char>,
    i: int,
    in_quote: bool,
    cur: Seq<u8>,
    toks: Seq<Seq<u8>>,
) -> Seq<Seq<u8>>
    decreases (if i < cs.len() {
        cs.len() - i
    } else {
        0
    }),
{
    if i >= cs.len() {
        if cur.len() > 0 {
            toks.push(cur)
        } else {
            toks
        }
    } else {
        let c = cs[i];
        if c == '"' {
            path_tokens_from(cs, i + 1, !in_quote, cur, toks)
        } else if c == ' ' && !in_quote {
            if cur.len() > 0 {
                path_tokens_from(cs, i + 1, in_quote, Seq::empty(), toks.push(cur))
            } else {
                path_tokens_from(cs, i + 1, in_quote, cur, toks)
            }
        } else if c == '\\' && in_quote {
            let e = escape_bytes(cs.skip(i + 1));
            path_tokens_from(cs, i + 1 + e.1, in_quote, cur + e.0, toks)
        } else {
            path_tokens_from(cs, i + 1, in_quote, cur + vstd::utf8::encode_scalar(c as u32), toks)
        }
    }
}

/// The path tokens of the rest of a `diff --git` line.
pub open spec fn path_tokens(cs: Seq<char>) -> Seq<Seq<u8>> {
    path_tokens_from(cs, 0, false, Seq::empty(), Seq::empty())
}

fn octal_digit(c: char) -> (r: Option<u32>)
    ensures
        r is Some <==> is_octal(c),
        r matches Some(v) ==> v == octal_value(c),
{
    if '0' <= c && c <= '7' {
        Some((c as u32) - ('0' as u32))
    } else {
        None
    }
}

/// Decodes the escape after a backslash at `cs[i]`; returns the bytes and how many
/// characters it consumed.
fn decode_escape(cs: &[char], i: usize) -> (r: (Vec<u8>, usize))
    requires
        i < cs@.len(),
    ensures
        r.0@ == escape_bytes(cs@.skip(i + 1)).0,
        r.1 == escape_bytes(cs@.skip(i + 1)).1,
        i + 1 + r.1 <= cs@.len(),
{
    let ghost rest = cs@.skip(i + 1);
    let mut out: Vec<u8> = Vec::new();
    if i >= cs.len() - 1 {
        out.push(92u8);
        return (out, 0);
    }
    let c = cs[i + 1];
    assert(rest[0] == c);
    let b: u8 = if c == 'a' {
        7
    } else if c == 'b' {
        8
    } else if c == 't' {
        9
    } else if c == 'n' {
        10
    } else if c == 'v' {
        11
    } else if c == 'f' {
        12
    } else if c == 'r' {
        13
    } else if c == '"' {
        34
    } else if c == '\\' {
        92
    } else {
        0
    };
    if b != 0 {
        out.push(b);
        return (out, 1);
    }
    match octal_digit(c) {
        None => {
            out.push(92u8);
            (out, 1)
        },
        Some(v0) => {
            if i + 2 < cs.len() {
                assert(rest[1] == cs@[i + 2]);
                match octal_digit(cs[i + 2]) {
                    Some(d1) => {
                        let v1 = v0 * 8 + d1;
                        if i + 3 < cs.len() {
                            assert(rest[2] == cs@[i + 3]);
                            match octal_digit(cs[i + 3]) {
                                Some(d2) => {
                                    let v2 = v1 * 8 + d2;
                                    out.push((v2 % 256) as u8);
                                    return (out, 3);
                                },
                                None => {},
                            }
                        }
                        out.push((v1 % 256) as u8);
                        return (out, 2);
                    },
                    None => {},
                }
            }
            out.push((v0 % 256) as u8);
            (out, 1)
        },
    }
}

/// Splits the rest of a `diff --git` line into byte tokens at spaces outside double
/// quotes, decoding the escapes inside quotes.
pub fn split_diff_path_tokens(cs: &[char]) -> (r: Vec<Vec<u8>>)
    ensures
        r@.map_values(|t: Vec<u8>| t@) == path_tokens(cs@),
{
    let mut toks: Vec<Vec<u8>> = Vec::new();
    let mut cur: Vec<u8> = Vec::new();
    let mut in_quote = false;
    let mut i: usize = 0;
    assert(toks@.map_values(|t: Vec<u8>| t@) =~= Seq::<Seq<u8>>::empty());
    while i < cs.len()
        invariant
            0 <= i <= cs@.len(),
            path_tokens(cs@) == path_tokens_from(
                cs@,
                i as int,
                in_quote,
                cur@,
                toks@.map_values(|t: Vec<u8>| t@),
            ),
        decreases cs@.len() - i,
    {
        let c = cs[i];
        if c == '"' {
            in_quote = !in_quote;
            i = i + 1;
        } else if c == ' ' && !in_quote {
            if cur.len() > 0 {
                let ghost old_toks = toks@;
                toks.push(cur);
                assert(toks@.map_values(|t: Vec<u8>| t@) =~= old_toks.map_values(
                    |t: Vec<u8>| t@,
                ).push(cur@));
                cur = Vec::new();
            }
            i = i + 1;
        } else if c == '\\' && in_quote {
            let (bytes, used) = decode_escape(cs, i);
            let mut j: usize = 0;
            let ghost before = cur@;
            while j < bytes.len()
                invariant
                    0 <= j <= bytes@.len(),
                    cur@ == before + bytes@.take(j as int),
                decreases bytes@.len() - j,
            {
                cur.push(bytes[j]);
                assert(cur@ =~= before + bytes@.take(j + 1));
                j = j + 1;
            }
            assert(bytes@.take(j as int) =~= bytes@);
            i = i + 1 + used;
        } else {
            let bytes = crate::text::encode_char(c);
            let mut j: usize = 0;
            let ghost before = cur@;
            while j < bytes.len()
                invariant
                    0 <= j <= bytes@.len(),
                    cur@ == before + bytes@.take(j as int),
                decreases bytes@.len() - j,
            {
                cur.push(bytes[j]);
                assert(cur@ =~= before + bytes@.take(j + 1));
                j = j + 1;
            }
            assert(bytes@.take(j as int) =~= bytes@);
            i = i + 1;
        }
    }
    if cur.len() > 0 {
        let ghost old_toks = toks@;
        toks.push(cur);
        assert(toks@.map_values(|t: Vec<u8>| t@) =~= old_toks.map_values(|t: Vec<u8>| t@).push(
            cur@,
        ));
    }
    toks
}

/// The target path named on a `diff --git` line: the second path token, without its
/// `b/` prefix.
pub open spec fn target_path(line: Seq<char>) -> Option<Seq<char>> {
    let ls = str_lines(line);
    if ls.len() == 0 || !has_prefix(ls[0], "diff --git "@) {
        None
    } else {
        let toks = path_tokens(ls[0].skip(11));
        if toks.len() < 2 {
            None
        } else {
            let t = crate::text::utf8_lossy(toks[1]);
            if has_prefix(t, "b/"@) {
                Some(t.skip(2))
            } else {
                None
            }
        }
    }
}

/// The target path of a `diff --git` line.
pub fn parse_target_path(line: &[char]) -> (r: Option<Vec<char>>)
    ensures
        r matches Some(p) ==> target_path(line@) == Some(p@),
        r is None ==> target_path(line@) is None,
{
    let ranges = line_ranges(line, 0, line.len());
    assert(line@.subrange(0, line@.len() as int) =~= line@);
    if ranges.len() == 0 {
        return None;
    }
    let (a, b) = ranges[0];
    assert(ranges@[0].0 <= ranges@[0].1);
    let first = slice_range(line, a, b);
    proof {
        reveal_strlit("diff --git ");
        reveal_strlit("b/");
    }
    if !starts_with_str(first.as_slice(), "diff --git ") {
        return None;
    }
    let rest = slice_range(first.as_slice(), 11, first.len());
    assert(rest@ =~= first@.skip(11));
    let toks = split_diff_path_tokens(rest.as_slice());
    if toks.len() < 2 {
        return None;
    }
    assert(toks@.map_values(|t: Vec<u8>| t@)[1] == toks@[1]@);
    let t = crate::text::lossy_string(toks[1].as_slice());
    let tc = chars_of(t.as_str());
    if !starts_with_str(tc.as_slice(), "b/") {
        return None;
    }
    let p = slice_range(tc.as_slice(), 2, tc.len());
    assert(p@ =~= tc@.skip(2));
    Some(p)
}

/// The parser's state between lines: finished files, the file being read, the hunk
/// being read and whether a hunk is open.
pub struct ParseState {
    pub files: Seq<DiffFileView>,
    pub current: Option<DiffFileView>,
    pub hunk: Seq<char>,
    pub in_hunk: bool,
}

pub open spec fn initial_state() -> ParseState {
    ParseState { files: Seq::empty(), current: None, hunk: Seq::empty(), in_hunk: false }
}

/// `f` with `hunk` appended to its hunks when it is not empty.
pub open spec fn with_hunk(f: DiffFileView, hunk: Seq<char>) -> DiffFileView {
    if hunk.len() > 0 {
        DiffFileView { hunks: f.hunks.push(hunk), ..f }
    } else {
        f
    }
}

/// `f` with its kind set from its header and hunks.
pub open spec fn classified(f: DiffFileView) -> DiffFileView {
    DiffFileView { kind: classify(f.header, f.hunks.len() > 0), ..f }
}

/// Closes the file being read, with its open hunk.
pub open spec fn flush_file(st: ParseState) -> ParseState {
    match st.current {
        None => st,
        Some(f) => ParseState {
            files: st.files.push(classified(with_hunk(f, st.hunk))),
            current: None,
            hunk: Seq::empty(),
            in_hunk: false,
        },
    }
}

/// A file section opened by a `diff --git` line.
pub open spec fn new_file(line: Seq<char>) -> DiffFileView {
    DiffFileView {
        header: line,
        hunks: Seq::empty(),
        kind: DiffFileKind::Modified,
        path: match target_path(line) {
            Some(p) => p,
            None => Seq::empty(),
        },
    }
}

/// A file section for lines that come before any `diff --git` line.
pub open spec fn headless_file() -> DiffFileView {
    DiffFileView {
        header: Seq::empty(),
        hunks: Seq::empty(),
        kind: DiffFileKind::Modified,
        path: Seq::empty(),
    }
}

/// The parser's state after one more line (the line with its newline).
pub open spec fn parse_step(st: ParseState, line: Seq<char>) -> ParseState {
    if has_prefix(line, "diff --git "@) {
        ParseState { current: Some(new_file(line)), ..flush_file(st) }
    } else {
        let f = match st.current {
            Some(f) => f,
            None => headless_file(),
        };
        if has_prefix(line, "@@"@) {
            ParseState {
                files: st.files,
                current: Some(with_hunk(f, st.hunk)),
                hunk: line,
                in_hunk: true,
            }
        } else if st.in_hunk {
            ParseState { files: st.files, current: Some(f), hunk: st.hunk + line, in_hunk: true }
        } else {
            ParseState {
                files: st.files,
                current: Some(DiffFileView { header: f.header + line, ..f }),
                hunk: st.hunk,
                in_hunk: false,
            }
        }
    }
}

/// The parser's state after the given lines.
pub open spec fn parse_lines(lines: Seq<Seq<char>>) -> ParseState
    decreases lines.len(),
{
    if lines.len() == 0 {
        initial_state()
    } else {
        parse_step(parse_lines(lines.drop_last()), lines.last())
    }
}

/// The files of a diff: nothing for a blank diff; otherwise the file sections of
/// its lines (with `"\r\n"` read as `"\n"`), each opened by a `diff --git` line,
/// with hunks opened by `@@` lines.
pub open spec fn parsed_files(raw: Seq<char>) -> Seq<DiffFileView> {
    if trim(raw).len() == 0 {
        Seq::empty()
    } else {
        flush_file(parse_lines(split_inclusive(normalize_newlines(raw)))).files
    }
}

/// A file from its parts.
fn make_file(header: Vec<char>, hunks: Vec<String>, path: Vec<char>) -> (f: DiffFile)
    ensures
        f@ == classified(
            DiffFileView {
                header: header@,
                hunks: texts(hunks@),
                kind: DiffFileKind::Modified,
                path: path@,
            },
        ),
{
    let kind = classify_diff_file(header.as_slice(), hunks.len() > 0);
    DiffFile { header: string_of(header), hunks, kind, path: string_of(path) }
}

/// Splits a unified diff into file sections, each with its header lines, its hunks,
/// its kind and its target path.
pub fn parse_diff_files(raw_diff: &str) -> (r: Vec<DiffFile>)
    ensures
        file_views(r@) == parsed_files(raw_diff@),
{
    let raw = chars_of(raw_diff);
    let (ta, tb) = trim_bounds(raw.as_slice(), 0, raw.len());
    assert(raw@.subrange(0, raw@.len() as int) =~= raw@);
    if ta == tb {
        let r: Vec<DiffFile> = Vec::new();
        assert(file_views(r@) =~= Seq::<DiffFileView>::empty());
        return r;
    }
    let n = normalize_newlines_vec(raw.as_slice());
    let ranges = split_inclusive_ranges(n.as_slice(), 0, n.len());
    assert(n@.subrange(0, n@.len() as int) =~= n@);
    let ghost lines = split_inclusive(n@);
    let mut files: Vec<DiffFile> = Vec::new();
    let mut has_cur = false;
    let mut cur_header: Vec<char> = Vec::new();
    let mut cur_hunks: Vec<String> = Vec::new();
    let mut cur_path: Vec<char> = Vec::new();
    let mut hunk: Vec<char> = Vec::new();
    let mut in_hunk = false;
    let mut k: usize = 0;
    assert(file_views(files@) =~= Seq::<DiffFileView>::empty());
    assert(lines.take(0) =~= Seq::<Seq<char>>::empty());
    while k < ranges.len()
        invariant
            0 <= k <= ranges@.len(),
            range_seqs(n@, ranges@) == lines,
            ranges_within(ranges@, 0, n@.len() as int),
            ({
                let st = parse_lines(lines.take(k as int));
                &&& st.files == file_views(files@)
                &&& st.hunk == hunk@
                &&& st.in_hunk == in_hunk
                &&& (st.current is Some) == has_cur
                &&& has_cur ==> st.current == Some(
                    DiffFileView {
                        header: cur_header@,
                        hunks: texts(cur_hunks@),
                        kind: DiffFileKind::Modified,
                        path: cur_path@,
                    },
                )
            }),
            !has_cur ==> hunk@.len() == 0 && !in_hunk,
        decreases ranges@.len() - k,
    {
        let (a, b) = ranges[k];
        assert(ranges@[k as int].0 <= ranges@[k as int].1);
        let line = slice_range(n.as_slice(), a, b);
        assert(line@ == lines[k as int]);
        assert(lines.take(k + 1).drop_last() =~= lines.take(k as int));
        proof {
            reveal_strlit("diff --git ");
            reveal_strlit("@@");
        }
        if starts_with_str(line.as_slice(), "diff --git ") {
            if has_cur {
                if hunk.len() > 0 {
                    let ghost old_h = cur_hunks@;
                    cur_hunks.push(string_of(hunk));
                    assert(texts(cur_hunks@) =~= texts(old_h).push(hunk@));
                    hunk = Vec::new();
                }
                let ghost old_files = files@;
                let f = make_file(cur_header, cur_hunks, cur_path);
                files.push(f);
                assert(file_views(files@) =~= file_views(old_files).push(f@));
                hunk = Vec::new();
                in_hunk = false;
            }
            let p = parse_target_path(line.as_slice());
            cur_path = match p {
                Some(p) => p,
                None => Vec::new(),
            };
            cur_header = line;
            cur_hunks = Vec::new();
            assert(texts(cur_hunks@) =~= Seq::<Seq<char>>::empty());
            has_cur = true;
        } else {
            if !has_cur {
                cur_header = Vec::new();
                cur_hunks = Vec::new();
                cur_path = Vec::new();
                assert(texts(cur_hunks@) =~= Seq::<Seq<char>>::empty());
                assert(cur_header@ =~= Seq::<char>::empty());
                assert(cur_path@ =~= Seq::<char>::empty());
                has_cur = true;
            }
            if starts_with_str(line.as_slice(), "@@") {
                if hunk.len() > 0 {
                    let ghost old_h = cur_hunks@;
                    cur_hunks.push(string_of(hunk));
                    assert(texts(cur_hunks@) =~= texts(old_h).push(hunk@));
                }
                hunk = line;
                in_hunk = true;
            } else if in_hunk {
                push_range(&mut hunk, line.as_slice(), 0, line.len());
                assert(line@.subrange(0, line@.len() as int) =~= line@);
            } else {
                push_range(&mut cur_header, line.as_slice(), 0, line.len());
                assert(line@.subrange(0, line@.len() as int) =~= line@);
            }
        }
        k = k + 1;
    }
    assert(lines.take(k as int) =~= lines);
    if has_cur {
        if hunk.len() > 0 {
            let ghost old_h = cur_hunks@;
            cur_hunks.push(string_of(hunk));
            assert(texts(cur_hunks@) =~= texts(old_h).push(hunk@));
        }
        let ghost old_files = files@;
        let f = make_file(cur_header, cur_hunks, cur_path);
        files.push(f);
        assert(file_views(files@) =~= file_views(old_files).push(f@));
    }
    files
}

} // verus!
