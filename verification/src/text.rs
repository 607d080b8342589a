//! Character-level text utilities: whitespace trimming and splitting a
//! document into blank-line-separated blocks and newline-separated lines.

use vstd::prelude::*;

verus! {

/// The whitespace characters recognized when trimming a document: the
/// Unicode `White_Space` set — the ASCII spacing characters (space, tab,
/// line feed, vertical tab, form feed, carriage return) together with next
/// line, no-break space, ogham space mark, the en/em quads and spaces
/// (U+2000–U+200A), line separator, paragraph separator, narrow no-break
/// space, medium mathematical space and ideographic space.
pub open spec fn is_space_char(c: char) -> bool {
    ||| c == ' '
    ||| c == '\t'
    ||| c == '\n'
    ||| c == '\r'
    ||| c == '\u{b}'
    ||| c == '\u{c}'
    ||| c == '\u{85}'
    ||| c == '\u{a0}'
    ||| c == '\u{1680}'
    ||| c == '\u{2000}'
    ||| c == '\u{2001}'
    ||| c == '\u{2002}'
    ||| c == '\u{2003}'
    ||| c == '\u{2004}'
    ||| c == '\u{2005}'
    ||| c == '\u{2006}'
    ||| c == '\u{2007}'
    ||| c == '\u{2008}'
    ||| c == '\u{2009}'
    ||| c == '\u{200a}'
    ||| c == '\u{2028}'
    ||| c == '\u{2029}'
    ||| c == '\u{202f}'
    ||| c == '\u{205f}'
    ||| c == '\u{3000}'
}

fn is_space(c: char) -> (r: bool)
    ensures
        r == is_space_char(c),
{
    c == ' ' || c == '\t' || c == '\n' || c == '\r' || c == '\u{b}' || c == '\u{c}'
        || c == '\u{85}' || c == '\u{a0}' || c == '\u{1680}' || (c >= '\u{2000}' && c
        <= '\u{200a}') || c == '\u{2028}' || c == '\u{2029}' || c == '\u{202f}' || c == '\u{205f}'
        || c == '\u{3000}'
}

/// The text with its leading whitespace removed.
pub open spec fn trim_start_spec(s: Seq<char>) -> Seq<char>
    decreases s.len(),
{
    if s.len() > 0 && is_space_char(s[0]) {
        trim_start_spec(s.drop_first())
    } else {
        s
    }
}

/// The text with its trailing whitespace removed.
pub open spec fn trim_end_spec(s: Seq<char>) -> Seq<char>
    decreases s.len(),
{
    if s.len() > 0 && is_space_char(s.last()) {
        trim_end_spec(s.drop_last())
    } else {
        s
    }
}

/// The text with leading and trailing whitespace removed.
pub open spec fn trim_spec(s: Seq<char>) -> Seq<char> {
    trim_end_spec(trim_start_spec(s))
}

proof fn lemma_trim_start_skips_spaces(s: Seq<char>, i: int)
    requires
        0 <= i <= s.len(),
        forall|j: int| 0 <= j < i ==> is_space_char(s[j]),
    ensures
        trim_start_spec(s) == trim_start_spec(s.subrange(i, s.len() as int)),
    decreases i,
{
    if i > 0 {
        assert(is_space_char(s[0]));
        assert(trim_start_spec(s) == trim_start_spec(s.drop_first()));
        lemma_trim_start_skips_spaces(s.drop_first(), i - 1);
        assert(s.drop_first().subrange(i - 1, s.drop_first().len() as int) =~= s.subrange(
            i,
            s.len() as int,
        ));
    } else {
        assert(s.subrange(0, s.len() as int) =~= s);
    }
}

proof fn lemma_trim_end_skips_spaces(s: Seq<char>, k: int)
    requires
        0 <= k <= s.len(),
        forall|j: int| k <= j < s.len() ==> is_space_char(s[j]),
    ensures
        trim_end_spec(s) == trim_end_spec(s.subrange(0, k)),
    decreases s.len() - k,
{
    if k < s.len() {
        assert(is_space_char(s.last()));
        assert(trim_end_spec(s) == trim_end_spec(s.drop_last()));
        lemma_trim_end_skips_spaces(s.drop_last(), k);
        assert(s.drop_last().subrange(0, k) =~= s.subrange(0, k));
    } else {
        assert(s.subrange(0, s.len() as int) =~= s);
    }
}

/// Removes leading and trailing whitespace from `s`, as `trim_spec` says.
pub fn trim(s: &str) -> (r: &str)
    ensures
        r@ == trim_spec(s@),
{
    let n = s.unicode_len();
    let mut lo: usize = 0;
    while lo < n && is_space(s.get_char(lo))
        invariant
            n == s@.len(),
            lo <= n,
            forall|j: int| 0 <= j < lo ==> is_space_char(s@[j]),
        decreases n - lo,
    {
        lo = lo + 1;
    }
    proof {
        lemma_trim_start_skips_spaces(s@, lo as int);
    }
    let mut hi: usize = n;
    while hi > lo && is_space(s.get_char(hi - 1))
        invariant
            n == s@.len(),
            lo <= hi <= n,
            forall|j: int| hi <= j < n ==> is_space_char(s@[j]),
        decreases hi,
    {
        hi = hi - 1;
    }
    let r = s.substring_char(lo, hi);
    proof {
        let t = s@.subrange(lo as int, n as int);
        assert(trim_start_spec(s@) == t);
        assert(forall|j: int| (hi - lo) <= j < t.len() ==> is_space_char(t[j]));
        lemma_trim_end_skips_spaces(t, hi - lo);
        assert(t.subrange(0, hi - lo) =~= s@.subrange(lo as int, hi as int));
        if hi > lo {
            let u = s@.subrange(lo as int, hi as int);
            assert(!is_space_char(u.last()));
            assert(trim_end_spec(u) == u);
        } else {
            assert(s@.subrange(lo as int, hi as int).len() == 0);
        }
    }
    r
}

/// True when a blank-line separator (two consecutive line feeds) starts at
/// position `i` of `s`.
pub open spec fn is_sep_at(s: Seq<char>, i: int) -> bool {
    0 <= i && i + 2 <= s.len() && s[i] == '\n' && s[i + 1] == '\n'
}

/// The blank-line-separated blocks of `s`, leftmost separator first, in
/// document order. A text without a separator is a single block, so the
/// result is never empty.
pub open spec fn split_blocks(s: Seq<char>) -> Seq<Seq<char>>
    decreases s.len(),
{
    if s.len() >= 2 && s[0] == '\n' && s[1] == '\n' {
        seq![Seq::<char>::empty()] + split_blocks(s.subrange(2, s.len() as int))
    } else if s.len() == 0 {
        seq![s]
    } else {
        let r = split_blocks(s.drop_first());
        r.update(0, seq![s[0]] + r[0])
    }
}

pub proof fn lemma_split_blocks_len(s: Seq<char>)
    ensures
        split_blocks(s).len() >= 1,
    decreases s.len(),
{
    if s.len() >= 2 && s[0] == '\n' && s[1] == '\n' {
        lemma_split_blocks_len(s.subrange(2, s.len() as int));
    } else if s.len() > 0 {
        lemma_split_blocks_len(s.drop_first());
    }
}

/// A text without a blank-line separator is one single block.
pub proof fn lemma_split_blocks_no_sep(s: Seq<char>)
    requires
        forall|i: int| !is_sep_at(s, i),
    ensures
        split_blocks(s) == seq![s],
    decreases s.len(),
{
    assert(!is_sep_at(s, 0));
    if s.len() == 0 {
    } else {
        let t = s.drop_first();
        assert(forall|i: int| is_sep_at(t, i) ==> is_sep_at(s, i + 1));
        lemma_split_blocks_no_sep(t);
        assert(split_blocks(s) == seq![seq![s[0]] + t]);
        assert(seq![s[0]] + t =~= s);
    }
}

/// Splitting at the leftmost separator: the first block is everything before
/// it, and the remaining blocks are the split of everything after it.
pub proof fn lemma_split_blocks_first_sep(s: Seq<char>, i: int)
    requires
        is_sep_at(s, i),
        forall|j: int| 0 <= j < i ==> !is_sep_at(s, j),
    ensures
        split_blocks(s) == seq![s.subrange(0, i)] + split_blocks(
            s.subrange(i + 2, s.len() as int),
        ),
    decreases i,
{
    if i == 0 {
        assert(s.subrange(0, 0) =~= Seq::<char>::empty());
        assert(seq![s.subrange(0, 0)] =~= seq![Seq::<char>::empty()]);
    } else {
        assert(!is_sep_at(s, 0));
        let t = s.drop_first();
        assert(is_sep_at(t, i - 1)) by {
            assert(t[i - 1] == s[i]);
            assert(t[i] == s[i + 1]);
        }
        assert(forall|j: int| 0 <= j < i - 1 ==> !is_sep_at(t, j)) by {
            assert(forall|j: int| 0 <= j < i - 1 && is_sep_at(t, j) ==> is_sep_at(s, j + 1));
        }
        lemma_split_blocks_first_sep(t, i - 1);
        let r = split_blocks(t);
        let rest = split_blocks(t.subrange(i + 1, t.len() as int));
        lemma_split_blocks_len(t.subrange(i + 1, t.len() as int));
        assert(r == seq![t.subrange(0, i - 1)] + rest);
        assert(split_blocks(s) == r.update(0, seq![s[0]] + r[0]));
        assert(r[0] == t.subrange(0, i - 1));
        assert(seq![s[0]] + t.subrange(0, i - 1) =~= s.subrange(0, i));
        assert(r.update(0, s.subrange(0, i)) =~= seq![s.subrange(0, i)] + rest);
        assert(t.subrange(i + 1, t.len() as int) =~= s.subrange(i + 2, s.len() as int));
    }
}

/// The newline-separated lines of `s`, in order. A text without a line feed
/// is a single line, so the result is never empty.
pub open spec fn split_lines(s: Seq<char>) -> Seq<Seq<char>>
    decreases s.len(),
{
    if s.len() == 0 {
        seq![s]
    } else if s[0] == '\n' {
        seq![Seq::<char>::empty()] + split_lines(s.drop_first())
    } else {
        let r = split_lines(s.drop_first());
        r.update(0, seq![s[0]] + r[0])
    }
}

pub proof fn lemma_split_lines_len(s: Seq<char>)
    ensures
        split_lines(s).len() >= 1,
    decreases s.len(),
{
    if s.len() > 0 {
        lemma_split_lines_len(s.drop_first());
    }
}

/// A text without a line feed is one single line.
pub proof fn lemma_split_lines_no_nl(s: Seq<char>)
    requires
        forall|i: int| 0 <= i < s.len() ==> s[i] != '\n',
    ensures
        split_lines(s) == seq![s],
    decreases s.len(),
{
    if s.len() > 0 {
        let t = s.drop_first();
        lemma_split_lines_no_nl(t);
        assert(split_lines(s) == seq![seq![s[0]] + t]);
        assert(seq![s[0]] + t =~= s);
    }
}

/// Splitting at the leftmost line feed: the first line is everything before
/// it, and the remaining lines are the split of everything after it.
pub proof fn lemma_split_lines_first_nl(s: Seq<char>, i: int)
    requires
        0 <= i < s.len(),
        s[i] == '\n',
        forall|j: int| 0 <= j < i ==> s[j] != '\n',
    ensures
        split_lines(s) == seq![s.subrange(0, i)] + split_lines(s.subrange(i + 1, s.len() as int)),
    decreases i,
{
    if i == 0 {
        assert(s.subrange(0, 0) =~= Seq::<char>::empty());
        assert(seq![s.subrange(0, 0)] =~= seq![Seq::<char>::empty()]);
        assert(s.drop_first() =~= s.subrange(1, s.len() as int));
    } else {
        let t = s.drop_first();
        lemma_split_lines_first_nl(t, i - 1);
        let rest = split_lines(t.subrange(i, t.len() as int));
        lemma_split_lines_len(t.subrange(i, t.len() as int));
        let r = split_lines(t);
        assert(r == seq![t.subrange(0, i - 1)] + rest);
        assert(split_lines(s) == r.update(0, seq![s[0]] + r[0]));
        assert(r[0] == t.subrange(0, i - 1));
        assert(seq![s[0]] + t.subrange(0, i - 1) =~= s.subrange(0, i));
        assert(r.update(0, s.subrange(0, i)) =~= seq![s.subrange(0, i)] + rest);
        assert(t.subrange(i, t.len() as int) =~= s.subrange(i + 1, s.len() as int));
    }
}

/// The larger of two lengths.
pub open spec fn max_nat(a: nat, b: nat) -> nat {
    if a >= b {
        a
    } else {
        b
    }
}

/// The maximum length among a sequence of lines (zero when there are none).
pub open spec fn max_line_len(lines: Seq<Seq<char>>) -> nat
    decreases lines.len(),
{
    if lines.len() == 0 {
        0
    } else {
        max_nat(lines[0].len(), max_line_len(lines.drop_first()))
    }
}

/// The maximum character count among the newline-separated lines of `s`.
pub open spec fn longest_line_len(s: Seq<char>) -> nat {
    max_line_len(split_lines(s))
}

proof fn lemma_max_line_len_cons(a: Seq<char>, r: Seq<Seq<char>>)
    ensures
        max_line_len(seq![a] + r) == max_nat(a.len(), max_line_len(r)),
{
    assert((seq![a] + r).drop_first() =~= r);
    assert((seq![a] + r)[0] == a);
}

/// Returns the length of the longest newline-separated line of `s`, as
/// `longest_line_len` says.
pub fn longest_line(s: &str) -> (r: usize)
    ensures
        r as nat == longest_line_len(s@),
{
    let n = s.unicode_len();
    let mut best: usize = 0;
    let mut start: usize = 0;
    let mut i: usize = 0;
    proof {
        assert(s@.subrange(0, n as int) =~= s@);
    }
    while i < n
        invariant
            n == s@.len(),
            start <= i <= n,
            forall|j: int| start <= j < i ==> s@[j] != '\n',
            longest_line_len(s@) == max_nat(
                best as nat,
                max_line_len(split_lines(s@.subrange(start as int, n as int))),
            ),
        decreases n - i,
    {
        if s.get_char(i) == '\n' {
            proof {
                let t = s@.subrange(start as int, n as int);
                assert(t[i - start] == s@[i as int]);
                assert(forall|j: int| 0 <= j < i - start ==> t[j] == s@[j + start] && s@[j + start]
                    != '\n');
                lemma_split_lines_first_nl(t, i - start);
                lemma_max_line_len_cons(
                    t.subrange(0, i - start),
                    split_lines(t.subrange(i - start + 1, t.len() as int)),
                );
                assert(t.subrange(0, i - start).len() == i - start);
                assert(t.subrange(i - start + 1, t.len() as int) =~= s@.subrange(
                    i + 1,
                    n as int,
                ));
            }
            let linelen = i - start;
            if linelen > best {
                best = linelen;
            }
            start = i + 1;
        }
        i = i + 1;
    }
    proof {
        let t = s@.subrange(start as int, n as int);
        lemma_split_lines_no_nl(t);
        assert((seq![t]).drop_first() =~= Seq::<Seq<char>>::empty());
        assert(max_line_len(Seq::<Seq<char>>::empty()) == 0);
        assert(max_line_len(seq![t]) == t.len());
    }
    let lastlen = n - start;
    if lastlen > best {
        best = lastlen;
    }
    best
}

/// The first newline-separated line of `s` (all of `s` when it has none).
pub open spec fn first_line_spec(s: Seq<char>) -> Seq<char> {
    split_lines(s)[0]
}

/// Returns everything before the first line feed of `s`, as
/// `first_line_spec` says.
pub fn first_line(s: &str) -> (r: &str)
    ensures
        r@ == first_line_spec(s@),
{
    let n = s.unicode_len();
    let mut i: usize = 0;
    while i < n && s.get_char(i) != '\n'
        invariant
            n == s@.len(),
            i <= n,
            forall|j: int| 0 <= j < i ==> s@[j] != '\n',
        decreases n - i,
    {
        i = i + 1;
    }
    let r = s.substring_char(0, i);
    proof {
        if i < n {
            lemma_split_lines_first_nl(s@, i as int);
            assert((seq![s@.subrange(0, i as int)] + split_lines(s@.subrange(i + 1, n as int)))[0]
                == s@.subrange(0, i as int));
        } else {
            lemma_split_lines_no_nl(s@);
            assert(s@.subrange(0, n as int) =~= s@);
        }
    }
    r
}

/// The views of a vector of strings, in order.
pub open spec fn strings_view(v: Seq<String>) -> Seq<Seq<char>> {
    v.map_values(|b: String| b@)
}

/// Splits `s` into its blank-line-separated blocks, as `split_blocks` says.
pub fn split_blocks_exec(s: &str) -> (r: Vec<String>)
    ensures
        strings_view(r@) == split_blocks(s@),
{
    let n = s.unicode_len();
    let mut blocks: Vec<String> = Vec::new();
    let mut start: usize = 0;
    let mut i: usize = 0;
    proof {
        assert(s@.subrange(0, n as int) =~= s@);
        assert(strings_view(blocks@) + split_blocks(s@) =~= split_blocks(s@));
    }
    while n - i > 1
        invariant
            n == s@.len(),
            start <= i <= n,
            forall|j: int| start <= j < i ==> !is_sep_at(s@, j),
            split_blocks(s@) == strings_view(blocks@) + split_blocks(
                s@.subrange(start as int, n as int),
            ),
        decreases n - i,
    {
        if s.get_char(i) == '\n' && s.get_char(i + 1) == '\n' {
            let piece = s.substring_char(start, i);
            let owned = piece.to_owned();
            let ghost bs = blocks@;
            blocks.push(owned);
            proof {
                let t = s@.subrange(start as int, n as int);
                assert(is_sep_at(t, i - start)) by {
                    assert(t[i - start] == s@[i as int]);
                    assert(t[i - start + 1] == s@[i + 1]);
                }
                assert(forall|j: int| 0 <= j < i - start ==> !is_sep_at(t, j)) by {
                    assert(forall|j: int|
                        0 <= j < i - start && is_sep_at(t, j) ==> is_sep_at(s@, j + start));
                }
                lemma_split_blocks_first_sep(t, i - start);
                assert(t.subrange(0, i - start) =~= s@.subrange(start as int, i as int));
                assert(t.subrange(i - start + 2, t.len() as int) =~= s@.subrange(
                    i + 2,
                    n as int,
                ));
                assert(strings_view(blocks@) =~= strings_view(bs) + seq![s@.subrange(
                    start as int,
                    i as int,
                )]);
                assert(strings_view(bs) + seq![s@.subrange(start as int, i as int)]
                    + split_blocks(s@.subrange(i + 2, n as int)) =~= (strings_view(bs)
                    + seq![s@.subrange(start as int, i as int)]) + split_blocks(
                    s@.subrange(i + 2, n as int),
                ));
            }
            start = i + 2;
            i = i + 2;
        } else {
            i = i + 1;
        }
    }
    let last = s.substring_char(start, n);
    let owned_last = last.to_owned();
    let ghost bs = blocks@;
    blocks.push(owned_last);
    proof {
        let t = s@.subrange(start as int, n as int);
        assert(forall|j: int| is_sep_at(t, j) ==> start <= j + start < i && is_sep_at(
            s@,
            j + start,
        ));
        lemma_split_blocks_no_sep(t);
        assert(strings_view(blocks@) =~= strings_view(bs) + seq![t]);
        assert(strings_view(bs) + seq![t] =~= split_blocks(s@));
    }
    blocks
}

} // verus!
