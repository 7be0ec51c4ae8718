//! Character-level text handling: the views of `str::lines`, `str::split`,
//! `str::split_once`, `str::trim`, `str::starts_with` and `str::contains` that the
//! rest of the library states its contracts over, and verified code that computes them.
use vstd::prelude::*;
use vstd::string::*;

verus! {

/// Whether `c` has the Unicode White_Space property (what `char::is_whitespace`
/// tests): tab, line feed, vertical tab, form feed, carriage return, space, next line,
/// no-break space, ogham space mark, the spaces from en quad to hair space, line
/// separator, paragraph separator, narrow no-break space, medium mathematical space
/// and ideographic space.
pub open spec fn white_space(c: char) -> bool {
    ||| '\u{9}' <= c <= '\u{d}'
    ||| c == ' '
    ||| c == '\u{85}'
    ||| c == '\u{a0}'
    ||| c == '\u{1680}'
    ||| '\u{2000}' <= c <= '\u{200a}'
    ||| c == '\u{2028}'
    ||| c == '\u{2029}'
    ||| c == '\u{202f}'
    ||| c == '\u{205f}'
    ||| c == '\u{3000}'
}

/// The Unicode lowercase mapping of `s`: the result of `str::to_lowercase`.
pub uninterp spec fn lowercase(s: Seq<char>) -> Seq<char>;

/// Whether `c` is white space.
pub fn is_white(c: char) -> (b: bool)
    ensures
        b == white_space(c),
{
    ('\u{9}' <= c && c <= '\u{d}') || c == ' ' || c == '\u{85}' || c == '\u{a0}' || c
        == '\u{1680}' || ('\u{2000}' <= c && c <= '\u{200a}') || c == '\u{2028}' || c
        == '\u{2029}' || c == '\u{202f}' || c == '\u{205f}' || c == '\u{3000}'
}

/// Calls `str::to_lowercase`. Trusted to return `lowercase(s@)`: the Unicode case
/// mapping itself is left to that name and not stated here.
#[verifier::external_body]
pub(crate) fn to_lowercase(s: &str) -> (r: String)
    ensures
        r@ == lowercase(s@),
{
    s.to_lowercase()
}

/// The characters of `s`, in order.
pub fn chars_of(s: &str) -> (v: Vec<char>)
    ensures
        v@ == s@,
{
    let mut v: Vec<char> = Vec::new();
    for c in it: s.chars()
        invariant
            v@ == it.seq().take(it.index() as int),
            it.seq() == s@,
    {
        v.push(c);
    }
    v
}

/// The text held by each of `ranges` (start and end character indices) in `chars`.
pub open spec fn pieces(chars: Seq<char>, ranges: Seq<(usize, usize)>) -> Seq<Seq<char>> {
    Seq::new(ranges.len(), |k: int| chars.subrange(ranges[k].0 as int, ranges[k].1 as int))
}

/// Every range lies within `chars` and is in order.
pub open spec fn ranges_within(chars: Seq<char>, ranges: Seq<(usize, usize)>) -> bool {
    forall|k: int| 0 <= k < ranges.len() ==> #[trigger] ranges[k].0 <= ranges[k].1 <= chars.len()
}

/// `s` without its leading white space.
pub open spec fn trim_start(s: Seq<char>) -> Seq<char>
    decreases s.len(),
{
    if s.len() > 0 && white_space(s[0]) {
        trim_start(s.drop_first())
    } else {
        s
    }
}

/// `s` without its trailing white space.
pub open spec fn trim_end(s: Seq<char>) -> Seq<char>
    decreases s.len(),
{
    if s.len() > 0 && white_space(s.last()) {
        trim_end(s.drop_last())
    } else {
        s
    }
}

/// `str::trim`: `s` without leading and trailing white space.
pub open spec fn trim(s: Seq<char>) -> Seq<char> {
    trim_end(trim_start(s))
}

/// The bounds, within `start..end`, of the trimmed text `chars[start..end]`.
pub fn trim_range(chars: &Vec<char>, start: usize, end: usize) -> (r: (usize, usize))
    requires
        start <= end <= chars@.len(),
    ensures
        start <= r.0 <= r.1 <= end,
        chars@.subrange(r.0 as int, r.1 as int) == trim(chars@.subrange(start as int, end as int)),
{
    let mut a = start;
    while a < end && is_white(chars[a])
        invariant
            start <= a <= end <= chars@.len(),
            trim_start(chars@.subrange(start as int, end as int)) == trim_start(
                chars@.subrange(a as int, end as int),
            ),
        decreases end - a,
    {
        assert(chars@.subrange(a as int, end as int).drop_first() =~= chars@.subrange(
            a + 1,
            end as int,
        ));
        a = a + 1;
    }
    let mut b = end;
    while b > a && is_white(chars[b - 1])
        invariant
            start <= a <= b <= end <= chars@.len(),
            trim_end(chars@.subrange(a as int, end as int)) == trim_end(
                chars@.subrange(a as int, b as int),
            ),
        decreases b - a,
    {
        assert(chars@.subrange(a as int, b as int).drop_last() =~= chars@.subrange(
            a as int,
            b - 1,
        ));
        b = b - 1;
    }
    (a, b)
}

/// The pieces of `s` between occurrences of `sep` that are complete, and the piece in progress.
pub open spec fn split_scan(s: Seq<char>, sep: char) -> (Seq<Seq<char>>, Seq<char>)
    decreases s.len(),
{
    if s.len() == 0 {
        (Seq::empty(), Seq::empty())
    } else {
        let (done, current) = split_scan(s.drop_last(), sep);
        if s.last() == sep {
            (done.push(current), Seq::empty())
        } else {
            (done, current.push(s.last()))
        }
    }
}

/// `str::split` on one character: the pieces of `s` between occurrences of `sep`
/// (one more piece than there are separators).
pub open spec fn split_on(s: Seq<char>, sep: char) -> Seq<Seq<char>> {
    split_scan(s, sep).0.push(split_scan(s, sep).1)
}

/// The ranges of the pieces of `chars[start..end]` between occurrences of `sep`.
pub fn split_ranges(chars: &Vec<char>, start: usize, end: usize, sep: char) -> (r: Vec<
    (usize, usize),
>)
    requires
        start <= end <= chars@.len(),
    ensures
        ranges_within(chars@, r@),
        pieces(chars@, r@) == split_on(chars@.subrange(start as int, end as int), sep),
{
    let mut done: Vec<(usize, usize)> = Vec::new();
    let mut current = start;
    let mut i = start;
    while i < end
        invariant
            start <= current <= i <= end <= chars@.len(),
            ranges_within(chars@, done@),
            split_scan(chars@.subrange(start as int, i as int), sep) == (
                pieces(chars@, done@),
                chars@.subrange(current as int, i as int),
            ),
        decreases end - i,
    {
        let ghost before = chars@.subrange(start as int, i as int);
        assert(chars@.subrange(start as int, i + 1).drop_last() =~= before);
        if chars[i] == sep {
            let ghost old_pieces = pieces(chars@, done@);
            done.push((current, i));
            assert(pieces(chars@, done@) =~= old_pieces.push(
                chars@.subrange(current as int, i as int),
            ));
            current = i + 1;
            assert(chars@.subrange(current as int, i + 1) =~= Seq::<char>::empty());
        } else {
            assert(chars@.subrange(current as int, i + 1) =~= chars@.subrange(
                current as int,
                i as int,
            ).push(chars[i as int]));
        }
        i = i + 1;
    }
    let ghost old_pieces = pieces(chars@, done@);
    done.push((current, end));
    assert(pieces(chars@, done@) =~= old_pieces.push(chars@.subrange(current as int, end as int)));
    done
}

/// `line` without the carriage return of a "\r\n" line break.
pub open spec fn strip_cr(line: Seq<char>) -> Seq<char> {
    if line.len() > 0 && line.last() == '\r' {
        line.drop_last()
    } else {
        line
    }
}

/// `str::lines`: the text between line breaks ('\n', or "\r\n", which loses its '\r');
/// a final empty piece (empty text, or text that ends with a line break) is no line.
pub open spec fn lines(s: Seq<char>) -> Seq<Seq<char>> {
    let parts = split_on(s, '\n');
    let count = if parts.last().len() == 0 {
        parts.len() - 1
    } else {
        parts.len() as int
    };
    Seq::new(
        count as nat,
        |k: int|
            if k + 1 < parts.len() {
                strip_cr(parts[k])
            } else {
                parts[k]
            },
    )
}

proof fn lemma_line_at(s: Seq<char>, k: int)
    requires
        0 <= k < lines(s).len(),
    ensures
        lines(s)[k] == if k + 1 < split_on(s, '\n').len() {
            strip_cr(split_on(s, '\n')[k])
        } else {
            split_on(s, '\n')[k]
        },
{
}

/// The ranges of the lines of `chars`.
pub fn line_ranges(chars: &Vec<char>) -> (r: Vec<(usize, usize)>)
    ensures
        ranges_within(chars@, r@),
        pieces(chars@, r@) == lines(chars@),
{
    let parts = split_ranges(chars, 0, chars.len(), '\n');
    assert(chars@.subrange(0, chars@.len() as int) =~= chars@);
    let ghost parts_view = split_on(chars@, '\n');
    assert(parts_view.len() == parts@.len());
    let n = parts.len();
    let last = parts[n - 1];
    assert(parts_view.last() == chars@.subrange(last.0 as int, last.1 as int));
    let count = if last.0 == last.1 {
        n - 1
    } else {
        n
    };
    let mut out: Vec<(usize, usize)> = Vec::new();
    let mut k: usize = 0;
    while k < count
        invariant
            count <= n == parts@.len() == parts_view.len(),
            parts_view == pieces(chars@, parts@),
            parts_view == split_on(chars@, '\n'),
            ranges_within(chars@, parts@),
            ranges_within(chars@, out@),
            k <= count,
            out@.len() == k,
            forall|j: int| 0 <= j < k ==> pieces(chars@, out@)[j] == lines(chars@)[j],
            lines(chars@).len() == count,
        decreases count - k,
    {
        let (s, e) = parts[k];
        assert(parts_view[k as int] == chars@.subrange(s as int, e as int));
        let mut e2 = e;
        if k + 1 < n && s < e && chars[e - 1] == '\r' {
            e2 = e - 1;
            assert(chars@.subrange(s as int, e as int).drop_last() =~= chars@.subrange(
                s as int,
                e2 as int,
            ));
        }
        if s < e {
            assert(chars@.subrange(s as int, e as int).last() == chars@[e - 1]);
        }
        assert(chars@.subrange(s as int, e2 as int) == if k + 1 < n {
            strip_cr(parts_view[k as int])
        } else {
            parts_view[k as int]
        });
        let ghost old_out = out@;
        out.push((s, e2));
        assert forall|j: int| 0 <= j < k + 1 implies pieces(chars@, out@)[j] == lines(
            chars@,
        )[j] by {
            if j < k {
                assert(out@[j] == old_out[j]);
                assert(pieces(chars@, old_out)[j] == lines(chars@)[j]);
            } else {
                lemma_line_at(chars@, j);
                assert(lines(chars@)[j] == if k + 1 < n {
                    strip_cr(parts_view[k as int])
                } else {
                    parts_view[k as int]
                });
            }
        }
        k = k + 1;
    }
    assert(pieces(chars@, out@) =~= lines(chars@));
    out
}

/// The first index below `n` at which `p` holds, if any.
pub open spec fn is_first(n: int, p: spec_fn(int) -> bool, i: int) -> bool {
    &&& 0 <= i < n
    &&& p(i)
    &&& forall|j: int| 0 <= j < i ==> !#[trigger] p(j)
}

/// The first index below `n` at which `p` holds, if there is one.
pub open spec fn first_where(n: int, p: spec_fn(int) -> bool) -> Option<int> {
    if exists|i: int| is_first(n, p, i) {
        Some(choose|i: int| is_first(n, p, i))
    } else {
        None
    }
}

/// An index that is first is the one that `first_where` picks.
pub proof fn lemma_first_where_found(n: int, p: spec_fn(int) -> bool, i: int)
    requires
        is_first(n, p, i),
    ensures
        first_where(n, p) == Some(i),
{
    let k = choose|k: int| is_first(n, p, k);
    assert(is_first(n, p, k));
    if k < i {
        assert(!p(k));
    } else if i < k {
        assert(!p(i));
    }
}

/// Where `p` holds nowhere below `n`, `first_where` finds nothing.
pub proof fn lemma_first_where_absent(n: int, p: spec_fn(int) -> bool)
    requires
        forall|j: int| 0 <= j < n ==> !#[trigger] p(j),
    ensures
        first_where(n, p) is None,
{
}

/// `str::split_once(':')`, trimmed on both sides: the text before the first colon
/// and the text after it, or nothing where `line` has no colon.
pub open spec fn entry(line: Seq<char>) -> Option<(Seq<char>, Seq<char>)> {
    match first_where(line.len() as int, |j: int| line[j] == ':') {
        Some(j) => Some((trim(line.take(j)), trim(line.skip(j + 1)))),
        None => None,
    }
}

/// The ranges of the trimmed key and value of the line `chars[start..end]`.
pub fn entry_ranges(chars: &Vec<char>, start: usize, end: usize) -> (r: Option<
    ((usize, usize), (usize, usize)),
>)
    requires
        start <= end <= chars@.len(),
    ensures
        match entry(chars@.subrange(start as int, end as int)) {
            Some((key, value)) => r matches Some((k, v)) && k.0 <= k.1 <= chars@.len() && v.0
                <= v.1 <= chars@.len() && chars@.subrange(k.0 as int, k.1 as int) == key
                && chars@.subrange(v.0 as int, v.1 as int) == value,
            None => r is None,
        },
{
    let ghost line = chars@.subrange(start as int, end as int);
    let ghost p = |j: int| line[j] == ':';
    let mut i = start;
    while i < end
        invariant
            start <= i <= end <= chars@.len(),
            line == chars@.subrange(start as int, end as int),
            p == (|j: int| line[j] == ':'),
            forall|j: int| 0 <= j < i - start ==> !#[trigger] p(j),
        decreases end - i,
    {
        if chars[i] == ':' {
            assert(p((i - start) as int));
            assert(is_first(line.len() as int, p, (i - start) as int));
            proof {
                lemma_first_where_found(line.len() as int, p, (i - start) as int);
            }
            let key = trim_range(chars, start, i);
            let value = trim_range(chars, i + 1, end);
            assert(line.take((i - start) as int) =~= chars@.subrange(start as int, i as int));
            assert(line.skip((i - start) + 1) =~= chars@.subrange(i + 1, end as int));
            return Some((key, value));
        }
        assert(!p((i - start) as int));
        i = i + 1;
    }
    proof {
        lemma_first_where_absent(line.len() as int, p);
    }
    None
}

/// Whether `chars[start..end]` is the text `word`.
pub fn range_is(chars: &Vec<char>, start: usize, end: usize, word: &Vec<char>) -> (b: bool)
    requires
        start <= end <= chars@.len(),
    ensures
        b == (chars@.subrange(start as int, end as int) == word@),
{
    if end - start != word.len() {
        return false;
    }
    let mut i: usize = 0;
    while i < word.len()
        invariant
            end - start == word@.len(),
            start <= end <= chars@.len(),
            i <= word@.len(),
            forall|j: int| 0 <= j < i ==> chars@[start + j] == word@[j],
        decreases word@.len() - i,
    {
        if chars[start + i] != word[i] {
            assert(chars@.subrange(start as int, end as int)[i as int] != word@[i as int]);
            return false;
        }
        i = i + 1;
    }
    assert(chars@.subrange(start as int, end as int) =~= word@);
    true
}

/// Whether the strings `a` and `b` hold the same text.
pub fn same_text(a: &str, b: &str) -> (r: bool)
    ensures
        r == (a@ == b@),
{
    let ca = chars_of(a);
    let cb = chars_of(b);
    let r = range_is(&ca, 0, ca.len(), &cb);
    assert(ca@.subrange(0, ca@.len() as int) =~= ca@);
    r
}

/// `str::starts_with`: `prefix` is the beginning of `s`.
pub open spec fn has_prefix(s: Seq<char>, prefix: Seq<char>) -> bool {
    prefix.len() <= s.len() && s.subrange(0, prefix.len() as int) == prefix
}

/// Whether `s` begins with `prefix`.
pub fn starts_with(s: &str, prefix: &str) -> (r: bool)
    ensures
        r == has_prefix(s@, prefix@),
{
    let cs = chars_of(s);
    let cp = chars_of(prefix);
    if cp.len() > cs.len() {
        return false;
    }
    range_is(&cs, 0, cp.len(), &cp)
}

/// `str::contains`: `word` occurs somewhere in `s`.
pub open spec fn occurs_in(s: Seq<char>, word: Seq<char>) -> bool {
    exists|i: int| 0 <= i && i + word.len() <= s.len() && #[trigger] s.subrange(i, i + word.len()) == word
}

/// Whether `word` occurs in `s`.
pub fn contains(s: &str, word: &str) -> (r: bool)
    ensures
        r == occurs_in(s@, word@),
{
    let cs = chars_of(s);
    let cw = chars_of(word);
    if cw.len() > cs.len() {
        return false;
    }
    let total = cs.len();
    let last = total - cw.len();
    let mut i: usize = 0;
    loop
        invariant
            i <= last,
            cw@.len() <= cs@.len(),
            total == cs@.len(),
            last == cs@.len() - cw@.len(),
            cs@ == s@,
            cw@ == word@,
            forall|j: int| 0 <= j < i ==> #[trigger] cs@.subrange(j, j + cw@.len()) != cw@,
        ensures
            forall|j: int| 0 <= j <= last ==> #[trigger] cs@.subrange(j, j + cw@.len()) != cw@,
        decreases last - i,
    {
        if range_is(&cs, i, i + cw.len(), &cw) {
            return true;
        }
        if i == last {
            break;
        }
        i = i + 1;
    }
    assert forall|j: int| 0 <= j && j + word@.len() <= s@.len() implies #[trigger] s@.subrange(
        j,
        j + word@.len(),
    ) != word@ by {
        assert(j <= last);
    }
    false
}

} // verus!

verus! {

proof fn lemma_trim_start(s: Seq<char>) -> (a: int)
    ensures
        0 <= a <= s.len(),
        trim_start(s) == s.subrange(a, s.len() as int),
        forall|i: int| 0 <= i < a ==> white_space(#[trigger] s[i]),
        trim_start(s).len() > 0 ==> !white_space(trim_start(s)[0]),
    decreases s.len(),
{
    if s.len() > 0 && white_space(s[0]) {
        let a = lemma_trim_start(s.drop_first());
        assert forall|i: int| 0 <= i < a + 1 implies white_space(#[trigger] s[i]) by {
            if i > 0 {
                assert(s[i] == s.drop_first()[i - 1]);
            }
        }
        assert(s.drop_first().subrange(a, s.drop_first().len() as int) =~= s.subrange(
            a + 1,
            s.len() as int,
        ));
        a + 1
    } else {
        assert(s.subrange(0, s.len() as int) =~= s);
        0
    }
}

proof fn lemma_trim_end(s: Seq<char>) -> (b: int)
    ensures
        0 <= b <= s.len(),
        trim_end(s) == s.subrange(0, b),
        forall|i: int| b <= i < s.len() ==> white_space(#[trigger] s[i]),
        trim_end(s).len() > 0 ==> !white_space(trim_end(s).last()),
    decreases s.len(),
{
    if s.len() > 0 && white_space(s.last()) {
        let b = lemma_trim_end(s.drop_last());
        assert forall|i: int| b <= i < s.len() implies white_space(#[trigger] s[i]) by {
            if i < s.len() - 1 {
                assert(s[i] == s.drop_last()[i]);
            }
        }
        assert(s.drop_last().subrange(0, b) =~= s.subrange(0, b));
        b
    } else {
        assert(s.subrange(0, s.len() as int) =~= s);
        s.len() as int
    }
}

/// Trimming cuts off exactly the white space at both ends: the result is a contiguous
/// part of `s`, everything cut off is white space, and the result neither starts nor
/// ends with white space.
pub proof fn law_trim_cuts_only_white_space(s: Seq<char>)
    ensures
        exists|a: int, b: int|
            0 <= a <= b <= s.len() && #[trigger] s.subrange(a, b) == trim(s) && (forall|i: int|
                0 <= i < a ==> white_space(#[trigger] s[i])) && (forall|i: int|
                b <= i < s.len() ==> white_space(#[trigger] s[i])),
        trim(s).len() > 0 ==> !white_space(trim(s)[0]) && !white_space(trim(s).last()),
{
    let a = lemma_trim_start(s);
    let t = trim_start(s);
    let b = lemma_trim_end(t);
    assert(s.subrange(a, a + b) =~= t.subrange(0, b));
    assert forall|i: int| a + b <= i < s.len() implies white_space(#[trigger] s[i]) by {
        assert(s[i] == t[i - a]);
    }
    if trim(s).len() > 0 {
        assert(trim(s)[0] == t[0]);
    }
    assert(0 <= a <= a + b <= s.len() && s.subrange(a, a + b) == trim(s));
}

} // verus!

verus! {

proof fn lemma_scan_without_sep(a: Seq<char>, b: Seq<char>, sep: char)
    requires
        forall|i: int| 0 <= i < b.len() ==> b[i] != sep,
    ensures
        split_scan(a + b, sep) == (split_scan(a, sep).0, split_scan(a, sep).1 + b),
    decreases b.len(),
{
    if b.len() == 0 {
        assert(a + b =~= a);
        assert(split_scan(a, sep).1 + b =~= split_scan(a, sep).1);
    } else {
        let c = b.drop_last();
        assert forall|i: int| 0 <= i < c.len() implies c[i] != sep by {
            assert(c[i] == b[i]);
        }
        lemma_scan_without_sep(a, c, sep);
        assert((a + b).drop_last() =~= a + c);
        assert((a + b).last() == b.last());
        assert(split_scan(a, sep).1 + c.push(b.last()) =~= split_scan(a, sep).1 + b);
        assert(c.push(b.last()) =~= b);
    }
}

proof fn lemma_scan_after_sep(x: Seq<char>, y: Seq<char>, sep: char)
    ensures
        split_scan(x.push(sep) + y, sep) == (split_on(x, sep) + split_scan(y, sep).0, split_scan(
            y,
            sep,
        ).1),
    decreases y.len(),
{
    if y.len() == 0 {
        assert(x.push(sep) + y =~= x.push(sep));
        assert(x.push(sep).drop_last() =~= x);
        assert(split_on(x, sep) + split_scan(y, sep).0 =~= split_on(x, sep));
    } else {
        let z = y.drop_last();
        lemma_scan_after_sep(x, z, sep);
        assert((x.push(sep) + y).drop_last() =~= x.push(sep) + z);
        assert((x.push(sep) + y).last() == y.last());
        if y.last() == sep {
            assert((split_on(x, sep) + split_scan(z, sep).0).push(split_scan(z, sep).1) =~= split_on(
                x,
                sep,
            ) + split_scan(z, sep).0.push(split_scan(z, sep).1));
        }
    }
}

/// Splitting at a separator splits both sides on their own: the pieces of `x`, the
/// separator, then `y` are those of `x` followed by those of `y`; text without the
/// separator is one piece.
pub proof fn law_split_at_separator(x: Seq<char>, y: Seq<char>, sep: char)
    ensures
        split_on(x.push(sep) + y, sep) == split_on(x, sep) + split_on(y, sep),
        (forall|i: int| 0 <= i < x.len() ==> x[i] != sep) ==> split_on(x, sep) == seq![x],
{
    lemma_scan_after_sep(x, y, sep);
    assert((split_on(x, sep) + split_scan(y, sep).0).push(split_scan(y, sep).1) =~= split_on(
        x,
        sep,
    ) + split_on(y, sep));
    if forall|i: int| 0 <= i < x.len() ==> x[i] != sep {
        lemma_scan_without_sep(Seq::empty(), x, sep);
        assert(Seq::<char>::empty() + x =~= x);
        assert(split_scan(Seq::<char>::empty(), sep).1 + x =~= x);
        assert(split_on(x, sep) =~= seq![x]);
    }
}

/// The lines of a text: no lines in empty text; a text without line break is one line;
/// and a line ended by '\n' (losing a '\r' before it) comes before the lines of the rest.
pub proof fn law_lines_one_by_one(line: Seq<char>, rest: Seq<char>)
    requires
        forall|i: int| 0 <= i < line.len() ==> line[i] != '\n',
    ensures
        lines(Seq::empty()).len() == 0,
        line.len() > 0 ==> lines(line) == seq![line],
        lines(line.push('\n') + rest) == seq![strip_cr(line)] + lines(rest),
{
    law_split_at_separator(line, rest, '\n');
    law_split_at_separator(line, Seq::empty(), '\n');
    law_split_at_separator(Seq::empty(), Seq::empty(), '\n');
    assert(split_on(Seq::<char>::empty(), '\n') =~= seq![Seq::<char>::empty()]);
    let parts = split_on(line.push('\n') + rest, '\n');
    let tail = split_on(rest, '\n');
    assert(parts == seq![line] + tail);
    assert(tail.len() >= 1);
    assert(parts.last() == tail.last());
    assert(lines(line.push('\n') + rest) =~= seq![strip_cr(line)] + lines(rest));
    if line.len() > 0 {
        assert(lines(line) =~= seq![line]);
    }
}

/// A line's entry is the trimmed text before its first colon and the trimmed text after
/// it; a line without a colon has no entry.
pub proof fn law_entry_splits_at_first_colon(key: Seq<char>, value: Seq<char>)
    requires
        forall|i: int| 0 <= i < key.len() ==> key[i] != ':',
    ensures
        entry(key.push(':') + value) == Some((trim(key), trim(value))),
        entry(key) is None,
{
    let line = key.push(':') + value;
    let p = |j: int| line[j] == ':';
    assert(is_first(line.len() as int, p, key.len() as int));
    lemma_first_where_found(line.len() as int, p, key.len() as int);
    assert(line.take(key.len() as int) =~= key);
    assert(line.skip(key.len() as int + 1) =~= value);
    let q = |j: int| key[j] == ':';
    lemma_first_where_absent(key.len() as int, q);
}

} // verus!
