//! Splitting text into pieces at a separator, and joining it back.
use vstd::prelude::*;

verus! {

/// The pieces of `s` between occurrences of `c`, as `str::split(c)`: never empty.
pub open spec fn split_char(s: Seq<char>, c: char) -> Seq<Seq<char>>
    decreases s.len(),
{
    if s.len() == 0 {
        seq![Seq::<char>::empty()]
    } else {
        let r = split_char(s.drop_last(), c);
        if s.last() == c {
            r.push(Seq::<char>::empty())
        } else {
            r.update(r.len() - 1, r.last().push(s.last()))
        }
    }
}

/// The pieces joined with `c` between them.
pub open spec fn join_char(pieces: Seq<Seq<char>>, c: char) -> Seq<char>
    decreases pieces.len(),
{
    if pieces.len() == 0 {
        Seq::<char>::empty()
    } else if pieces.len() == 1 {
        pieces[0]
    } else {
        join_char(pieces.drop_last(), c) + seq![c] + pieces.last()
    }
}

/// Removes one trailing carriage return.
pub open spec fn strip_cr(s: Seq<char>) -> Seq<char> {
    if s.len() > 0 && s.last() == '\r' {
        s.drop_last()
    } else {
        s
    }
}

/// The lines of `s`, as `str::lines`: pieces between newlines, a line that ends in
/// `"\r\n"` loses the `'\r'`, and a final newline does not start an empty line.
pub open spec fn str_lines(s: Seq<char>) -> Seq<Seq<char>> {
    if s.len() == 0 {
        Seq::empty()
    } else if s.last() == '\n' {
        split_char(s.drop_last(), '\n').map_values(|l: Seq<char>| strip_cr(l))
    } else {
        let p = split_char(s, '\n');
        Seq::new(p.len(), |k: int| if k < p.len() - 1 { strip_cr(p[k]) } else { p[k] })
    }
}

/// The subranges of `s` named by `ranges`.
pub open spec fn range_seqs(s: Seq<char>, ranges: Seq<(usize, usize)>) -> Seq<Seq<char>> {
    Seq::new(ranges.len(), |k: int| s.subrange(ranges[k].0 as int, ranges[k].1 as int))
}

pub open spec fn ranges_within(ranges: Seq<(usize, usize)>, lo: int, hi: int) -> bool {
    forall|k: int|
        0 <= k < ranges.len() ==> lo <= (#[trigger] ranges[k]).0 <= ranges[k].1 <= hi
}

pub proof fn lemma_split_len_pos(s: Seq<char>, c: char)
    ensures
        split_char(s, c).len() >= 1,
    decreases s.len(),
{
    if s.len() > 0 {
        lemma_split_len_pos(s.drop_last(), c);
    }
}

pub proof fn lemma_split_pieces_free(s: Seq<char>, c: char)
    ensures
        forall|k: int, j: int|
            0 <= k < split_char(s, c).len() && 0 <= j < split_char(s, c)[k].len() ==> split_char(
                s,
                c,
            )[k][j] != c,
    decreases s.len(),
{
    lemma_split_len_pos(s, c);
    if s.len() > 0 {
        lemma_split_pieces_free(s.drop_last(), c);
        lemma_split_len_pos(s.drop_last(), c);
    }
}

/// Joining the pieces of a split gives back the text.
pub proof fn lemma_join_split(s: Seq<char>, c: char)
    ensures
        join_char(split_char(s, c), c) == s,
    decreases s.len(),
{
    if s.len() == 0 {
    } else {
        let x = s.drop_last();
        lemma_join_split(x, c);
        lemma_split_len_pos(x, c);
        let r = split_char(x, c);
        if s.last() == c {
            assert(r.push(Seq::<char>::empty()).drop_last() =~= r);
            assert(s =~= x + seq![c] + Seq::<char>::empty());
        } else {
            let r2 = r.update(r.len() - 1, r.last().push(s.last()));
            if r.len() == 1 {
                assert(s =~= r[0].push(s.last()));
            } else {
                assert(r2.drop_last() =~= r.drop_last());
                assert(x == join_char(r.drop_last(), c) + seq![c] + r.last());
                assert(s =~= x.push(s.last()));
                assert(s =~= join_char(r.drop_last(), c) + seq![c] + r.last().push(s.last()));
                assert(join_char(r2, c) == join_char(r2.drop_last(), c) + seq![c] + r2.last());
            }
        }
    }
}

/// A text without the separator is its own single piece.
pub proof fn lemma_split_without_sep(s: Seq<char>, c: char)
    requires
        forall|j: int| 0 <= j < s.len() ==> s[j] != c,
    ensures
        split_char(s, c) == seq![s],
    decreases s.len(),
{
    if s.len() > 0 {
        lemma_split_without_sep(s.drop_last(), c);
        assert(s.drop_last().push(s.last()) =~= s);
        assert(split_char(s, c) =~= seq![s]);
    } else {
        assert(s =~= Seq::<char>::empty());
        assert(split_char(s, c) =~= seq![s]);
    }
}

/// A text that holds the separator splits into two pieces or more.
pub proof fn lemma_split_with_sep(s: Seq<char>, c: char, j: int)
    requires
        0 <= j < s.len(),
        s[j] == c,
    ensures
        split_char(s, c).len() >= 2,
    decreases s.len(),
{
    lemma_split_len_pos(s.drop_last(), c);
    if j < s.len() - 1 {
        lemma_split_with_sep(s.drop_last(), c, j);
    }
}

/// The first piece of a split is the text up to the first separator.
pub proof fn lemma_first_piece(s: Seq<char>, c: char, n: int)
    requires
        0 <= n <= s.len(),
        forall|j: int| 0 <= j < n ==> s[j] != c,
        n == s.len() || s[n] == c,
    ensures
        split_char(s, c)[0] == s.take(n),
    decreases s.len(),
{
    if n == s.len() {
        lemma_split_without_sep(s, c);
        assert(s.take(n) =~= s);
    } else if n == s.len() - 1 {
        let d = s.drop_last();
        assert forall|j: int| 0 <= j < d.len() implies d[j] != c by {}
        lemma_split_without_sep(d, c);
        assert(d =~= s.take(n));
    } else {
        let d = s.drop_last();
        lemma_first_piece(d, c, n);
        lemma_split_with_sep(d, c, n);
        assert(d.take(n) =~= s.take(n));
    }
}

/// Splitting a text, the separator and a piece without the separator gives the
/// pieces of the text and then that piece.
pub proof fn lemma_split_append(x: Seq<char>, c: char, y: Seq<char>)
    requires
        forall|j: int| 0 <= j < y.len() ==> y[j] != c,
    ensures
        split_char(x + seq![c] + y, c) == split_char(x, c).push(y),
    decreases y.len(),
{
    if y.len() == 0 {
        assert(x + seq![c] + y =~= x.push(c));
        assert(x.push(c).drop_last() =~= x);
        assert(y =~= Seq::<char>::empty());
    } else {
        lemma_split_append(x, c, y.drop_last());
        let s = x + seq![c] + y;
        assert(s.drop_last() =~= x + seq![c] + y.drop_last());
        assert(y.drop_last().push(y.last()) =~= y);
        assert(split_char(s, c) =~= split_char(x, c).push(y));
    }
}

/// Splitting pieces joined with a separator they do not hold gives the pieces back.
pub proof fn lemma_split_join(ps: Seq<Seq<char>>, c: char)
    requires
        ps.len() >= 1,
        forall|i: int, j: int| 0 <= i < ps.len() && 0 <= j < ps[i].len() ==> ps[i][j] != c,
    ensures
        split_char(join_char(ps, c), c) == ps,
    decreases ps.len(),
{
    if ps.len() == 1 {
        assert forall|j: int| 0 <= j < ps[0].len() implies ps[0][j] != c by {}
        lemma_split_without_sep(ps[0], c);
        assert(seq![ps[0]] =~= ps);
    } else {
        let d = ps.drop_last();
        assert forall|i: int, j: int| 0 <= i < d.len() && 0 <= j < d[i].len() implies d[i][j] != c by {
            assert(d[i] == ps[i]);
        }
        lemma_split_join(d, c);
        assert forall|j: int| 0 <= j < ps.last().len() implies ps.last()[j] != c by {}
        lemma_split_append(join_char(d, c), c, ps.last());
        assert(d.push(ps.last()) =~= ps);
    }
}

/// Joined pieces start with the first piece, followed by the separator when there is
/// another piece.
pub proof fn lemma_join_first(ps: Seq<Seq<char>>, c: char)
    requires
        ps.len() >= 1,
    ensures
        join_char(ps, c).len() >= ps[0].len(),
        join_char(ps, c).take(ps[0].len() as int) == ps[0],
        ps.len() == 1 ==> join_char(ps, c) == ps[0],
        ps.len() >= 2 ==> join_char(ps, c).len() > ps[0].len() && join_char(ps, c)[ps[0].len() as int] == c,
    decreases ps.len(),
{
    if ps.len() == 1 {
        assert(ps[0].take(ps[0].len() as int) =~= ps[0]);
    } else {
        let d = ps.drop_last();
        lemma_join_first(d, c);
        let j = join_char(d, c) + seq![c] + ps.last();
        assert(j.take(ps[0].len() as int) =~= join_char(d, c).take(ps[0].len() as int));
        if d.len() == 1 {
            assert(j[ps[0].len() as int] == c);
        } else {
            assert(j[ps[0].len() as int] == join_char(d, c)[ps[0].len() as int]);
        }
    }
}

/// Ranges of the pieces of `s[lo..hi]` between occurrences of `c`.
pub fn split_ranges(s: &[char], lo: usize, hi: usize, c: char) -> (r: Vec<(usize, usize)>)
    requires
        lo <= hi <= s@.len(),
    ensures
        range_seqs(s@, r@) == split_char(s@.subrange(lo as int, hi as int), c),
        ranges_within(r@, lo as int, hi as int),
        r@.len() >= 1,
        r@[0].0 == lo,
        r@.last().1 == hi,
{
    let mut r: Vec<(usize, usize)> = Vec::new();
    let mut start = lo;
    let mut i = lo;
    assert(range_seqs(s@, r@) =~= Seq::<Seq<char>>::empty());
    assert(s@.subrange(lo as int, lo as int) =~= Seq::<char>::empty());
    assert(range_seqs(s@, r@).push(s@.subrange(lo as int, lo as int)) =~= seq![Seq::<char>::empty()]);
    while i < hi
        invariant
            lo <= start <= i <= hi <= s@.len(),
            ranges_within(r@, lo as int, start as int),
            r@.len() > 0 ==> r@[0].0 == lo,
            r@.len() == 0 ==> start == lo,
            range_seqs(s@, r@).push(s@.subrange(start as int, i as int)) == split_char(
                s@.subrange(lo as int, i as int),
                c,
            ),
        decreases hi - i,
    {
        let ghost old_r = r@;
        let ghost x = s@.subrange(lo as int, i + 1);
        assert(x.drop_last() =~= s@.subrange(lo as int, i as int));
        assert(x.last() == s@[i as int]);
        if s[i] == c {
            r.push((start, i));
            assert(range_seqs(s@, r@) =~= range_seqs(s@, old_r).push(
                s@.subrange(start as int, i as int),
            ));
            assert(s@.subrange(i + 1, i + 1) =~= Seq::<char>::empty());
            start = i + 1;
        } else {
            assert(s@.subrange(start as int, i + 1) =~= s@.subrange(start as int, i as int).push(
                s@[i as int],
            ));
            assert(range_seqs(s@, r@).push(s@.subrange(start as int, i + 1)) =~= range_seqs(
                s@,
                r@,
            ).push(s@.subrange(start as int, i as int)).update(
                r@.len() as int,
                s@.subrange(start as int, i as int).push(s@[i as int]),
            ));
        }
        i = i + 1;
    }
    let ghost old_r = r@;
    r.push((start, hi));
    assert(range_seqs(s@, r@) =~= range_seqs(s@, old_r).push(
        s@.subrange(start as int, hi as int),
    ));
    r
}

/// Ranges of the lines of `s[lo..hi]`, as `str::lines`.
pub fn line_ranges(s: &[char], lo: usize, hi: usize) -> (r: Vec<(usize, usize)>)
    requires
        lo <= hi <= s@.len(),
    ensures
        range_seqs(s@, r@) == str_lines(s@.subrange(lo as int, hi as int)),
        ranges_within(r@, lo as int, hi as int),
{
    let ghost t = s@.subrange(lo as int, hi as int);
    if lo == hi {
        let r: Vec<(usize, usize)> = Vec::new();
        assert(range_seqs(s@, r@) =~= str_lines(t));
        return r;
    }
    let ends_nl = s[hi - 1] == '\n';
    let end = if ends_nl { hi - 1 } else { hi };
    assert(ends_nl ==> t.drop_last() =~= s@.subrange(lo as int, end as int));
    assert(!ends_nl ==> t =~= s@.subrange(lo as int, end as int));
    let pieces = split_ranges(s, lo, end, '\n');
    let ghost p = split_char(s@.subrange(lo as int, end as int), '\n');
    let mut r: Vec<(usize, usize)> = Vec::new();
    let mut k: usize = 0;
    while k < pieces.len()
        invariant
            0 <= k <= pieces@.len(),
            lo <= end <= hi <= s@.len(),
            range_seqs(s@, pieces@) == p,
            ranges_within(pieces@, lo as int, end as int),
            ranges_within(r@, lo as int, hi as int),
            r@.len() == k,
            forall|j: int|
                0 <= j < k ==> #[trigger] s@.subrange(r@[j].0 as int, r@[j].1 as int) == (if ends_nl
                    || j < p.len() - 1 {
                    strip_cr(p[j])
                } else {
                    p[j]
                }),
        decreases pieces@.len() - k,
    {
        let (a, b) = pieces[k];
        assert(s@.subrange(a as int, b as int) == p[k as int]);
        let strip = ends_nl || k + 1 < pieces.len();
        if strip && a < b && s[b - 1] == '\r' {
            assert(s@.subrange(a as int, b - 1) =~= p[k as int].drop_last());
            r.push((a, b - 1));
        } else {
            r.push((a, b));
        }
        k = k + 1;
    }
    if ends_nl {
        assert(range_seqs(s@, r@) =~= p.map_values(|l: Seq<char>| strip_cr(l)));
    } else {
        assert(range_seqs(s@, r@) =~= Seq::new(
            p.len(),
            |j: int| if j < p.len() - 1 { strip_cr(p[j]) } else { p[j] },
        ));
    }
    r
}

/// The lines of `s` each with its newline, as `str::split_inclusive('\n')`: no piece
/// is empty, and only the last may lack the newline.
pub open spec fn split_inclusive(s: Seq<char>) -> Seq<Seq<char>>
    decreases s.len(),
{
    if s.len() == 0 {
        Seq::empty()
    } else {
        let r = split_inclusive(s.drop_last());
        if r.len() > 0 && r.last().last() != '\n' {
            r.update(r.len() - 1, r.last().push(s.last()))
        } else {
            r.push(seq![s.last()])
        }
    }
}

/// The pieces written one after another.
pub open spec fn concat(pieces: Seq<Seq<char>>) -> Seq<char>
    decreases pieces.len(),
{
    if pieces.len() == 0 {
        Seq::empty()
    } else {
        concat(pieces.drop_last()) + pieces.last()
    }
}

pub proof fn lemma_concat_push(pieces: Seq<Seq<char>>, x: Seq<char>)
    ensures
        concat(pieces.push(x)) == concat(pieces) + x,
{
    assert(pieces.push(x).drop_last() =~= pieces);
}

pub proof fn lemma_split_inclusive_shape(s: Seq<char>)
    ensures
        concat(split_inclusive(s)) == s,
        forall|k: int|
            0 <= k < split_inclusive(s).len() ==> (#[trigger] split_inclusive(s)[k]).len() > 0,
        forall|k: int|
            0 <= k < split_inclusive(s).len() - 1 ==> (#[trigger] split_inclusive(s)[k]).last()
                == '\n',
    decreases s.len(),
{
    if s.len() > 0 {
        let d = s.drop_last();
        lemma_split_inclusive_shape(d);
        let r = split_inclusive(d);
        if r.len() > 0 && r.last().last() != '\n' {
            let r2 = r.update(r.len() - 1, r.last().push(s.last()));
            assert(r2.drop_last() =~= r.drop_last());
            assert(concat(r) == concat(r.drop_last()) + r.last());
            assert(s =~= d.push(s.last()));
            assert(concat(r2) == concat(r2.drop_last()) + r2.last());
            assert(concat(r2) =~= s);
        } else {
            lemma_concat_push(r, seq![s.last()]);
            assert(s =~= d + seq![s.last()]);
        }
    }
}

/// Ranges of the pieces of `s[lo..hi]` split after each newline.
pub fn split_inclusive_ranges(s: &[char], lo: usize, hi: usize) -> (r: Vec<(usize, usize)>)
    requires
        lo <= hi <= s@.len(),
    ensures
        range_seqs(s@, r@) == split_inclusive(s@.subrange(lo as int, hi as int)),
        ranges_within(r@, lo as int, hi as int),
{
    let mut r: Vec<(usize, usize)> = Vec::new();
    let mut start = lo;
    let mut i = lo;
    assert(range_seqs(s@, r@) =~= Seq::<Seq<char>>::empty());
    assert(s@.subrange(lo as int, lo as int) =~= Seq::<char>::empty());
    while i < hi
        invariant
            lo <= start <= i <= hi <= s@.len(),
            ranges_within(r@, lo as int, start as int),
            start < i ==> s@[i - 1] != '\n',
            start == i && r@.len() > 0 ==> s@[i - 1] == '\n',
            (if start < i {
                range_seqs(s@, r@).push(s@.subrange(start as int, i as int))
            } else {
                range_seqs(s@, r@)
            }) == split_inclusive(s@.subrange(lo as int, i as int)),
        decreases hi - i,
    {
        let ghost old_r = r@;
        let ghost x = s@.subrange(lo as int, i + 1);
        assert(x.drop_last() =~= s@.subrange(lo as int, i as int));
        assert(x.last() == s@[i as int]);
        let ghost prev = split_inclusive(s@.subrange(lo as int, i as int));
        if start < i {
            assert(prev.last() == s@.subrange(start as int, i as int));
            assert(s@.subrange(start as int, i + 1) =~= s@.subrange(start as int, i as int).push(
                s@[i as int],
            ));
        } else if r.len() > 0 {
            assert(prev.last() == s@.subrange(old_r.last().0 as int, old_r.last().1 as int));
            assert(prev.last().last() == s@[i - 1]);
        }
        if s[i] == '\n' {
            r.push((start, i + 1));
            assert(range_seqs(s@, r@) =~= range_seqs(s@, old_r).push(
                s@.subrange(start as int, i + 1),
            ));
            if start == i {
                assert(s@.subrange(i as int, i + 1) =~= seq![s@[i as int]]);
            }
            start = i + 1;
        } else {
            if start == i {
                assert(s@.subrange(i as int, i + 1) =~= seq![s@[i as int]]);
            }
        }
        i = i + 1;
    }
    if start < hi {
        let ghost old_r = r@;
        r.push((start, hi));
        assert(range_seqs(s@, r@) =~= range_seqs(s@, old_r).push(
            s@.subrange(start as int, hi as int),
        ));
    }
    r
}

} // verus!
