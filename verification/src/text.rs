//! Character-level text handling shared by the rest of the library: conversion
//! between strings and character vectors, classes of characters, splitting,
//! trimming, case folding, searching, replacing, and decimal numbers.
use vstd::prelude::*;

verus! {

/// Appends one character to a string.
#[verifier::external_body]
fn push_char(s: &mut String, c: char)
    ensures
        final(s)@ == old(s)@.push(c),
{
    s.push(c);
}

/// The characters of a string slice, in order.
pub fn chars_of(s: &str) -> (v: Vec<char>)
    ensures
        v@ == s@,
{
    let mut v: Vec<char> = Vec::new();
    for c in it: s.chars()
        invariant
            v@ == it.seq().take(it.index() as int),
            it.seq() == s@,
    {
        v.push(c);
    }
    v
}

/// A string holding the given characters.
pub fn string_of(v: &[char]) -> (s: String)
    ensures
        s@ == v@,
{
    let mut s = String::new();
    let mut i: usize = 0;
    while i < v.len()
        invariant
            i <= v@.len(),
            s@ == v@.take(i as int),
        decreases v@.len() - i,
    {
        push_char(&mut s, v[i]);
        assert(v@.take(i as int).push(v@[i as int]) =~= v@.take(i + 1));
        i = i + 1;
    }
    assert(v@.take(v@.len() as int) =~= v@);
    s
}

/// A string holding the characters of a string slice.
pub fn owned(s: &str) -> (r: String)
    ensures
        r@ == s@,
{
    s.to_owned()
}

/// The concatenation of three pieces of text.
pub fn concat3(a: &str, b: &str, c: &str) -> (r: String)
    ensures
        r@ == a@ + b@ + c@,
{
    let mut r = a.to_owned();
    r.append(b);
    r.append(c);
    r
}

/// Unicode `White_Space` characters, the set that `char::is_whitespace` accepts.
pub open spec fn is_whitespace(c: char) -> bool {
    ||| ('\u{9}' <= c && c <= '\u{d}')
    ||| c == ' '
    ||| c == '\u{85}'
    ||| c == '\u{a0}'
    ||| c == '\u{1680}'
    ||| ('\u{2000}' <= c && c <= '\u{200a}')
    ||| c == '\u{2028}'
    ||| c == '\u{2029}'
    ||| c == '\u{202f}'
    ||| c == '\u{205f}'
    ||| c == '\u{3000}'
}

/// Classes of characters at which text is split or from which it is trimmed.
#[derive(Clone, Copy, PartialEq, Eq, Debug)]
pub enum CharClass {
    /// Unicode whitespace.
    Whitespace,
    /// `.` and the space character.
    DotOrSpace,
    /// Whitespace, `,`, the full-width comma `，` and the ideographic comma `、`.
    PageSeparator,
    /// The hyphen-minus `-`.
    Dash,
    /// `,`, tab and `;`.
    FieldSeparator,
    /// The line feed.
    LineFeed,
    /// The path separator `/`.
    Slash,
}

/// Whether `c` belongs to the class `k`.
pub open spec fn in_class(k: CharClass, c: char) -> bool {
    match k {
        CharClass::Whitespace => is_whitespace(c),
        CharClass::DotOrSpace => c == '.' || c == ' ',
        CharClass::PageSeparator => is_whitespace(c) || c == ',' || c == '，' || c == '、',
        CharClass::Dash => c == '-',
        CharClass::FieldSeparator => c == ',' || c == '\t' || c == ';',
        CharClass::LineFeed => c == '\n',
        CharClass::Slash => c == '/',
    }
}

/// Decides whether `c` belongs to the class `k`.
pub fn is_in_class(k: CharClass, c: char) -> (b: bool)
    ensures
        b == in_class(k, c),
{
    let ws = ('\u{9}' <= c && c <= '\u{d}') || c == ' ' || c == '\u{85}' || c == '\u{a0}'
        || c == '\u{1680}' || ('\u{2000}' <= c && c <= '\u{200a}') || c == '\u{2028}'
        || c == '\u{2029}' || c == '\u{202f}' || c == '\u{205f}' || c == '\u{3000}';
    match k {
        CharClass::Whitespace => ws,
        CharClass::DotOrSpace => c == '.' || c == ' ',
        CharClass::PageSeparator => ws || c == ',' || c == '，' || c == '、',
        CharClass::Dash => c == '-',
        CharClass::FieldSeparator => c == ',' || c == '\t' || c == ';',
        CharClass::LineFeed => c == '\n',
        CharClass::Slash => c == '/',
    }
}

/// The pieces of `s` between the characters of class `k`, as `str::split`
/// yields them: `n` separators give `n + 1` pieces, empty ones included.
pub open spec fn split_by(s: Seq<char>, k: CharClass) -> Seq<Seq<char>>
    decreases s.len(),
{
    if s.len() == 0 {
        seq![Seq::<char>::empty()]
    } else {
        let pieces = split_by(s.drop_last(), k);
        if in_class(k, s.last()) {
            pieces.push(Seq::<char>::empty())
        } else {
            pieces.update(pieces.len() - 1, pieces.last().push(s.last()))
        }
    }
}

/// `split_by` always yields at least one piece.
pub proof fn lemma_split_nonempty(s: Seq<char>, k: CharClass)
    ensures
        split_by(s, k).len() >= 1,
    decreases s.len(),
{
    if s.len() > 0 {
        lemma_split_nonempty(s.drop_last(), k);
    }
}

/// The non-empty members of a sequence of pieces, in order.
pub open spec fn non_empty(pieces: Seq<Seq<char>>) -> Seq<Seq<char>>
    decreases pieces.len(),
{
    if pieces.len() == 0 {
        Seq::empty()
    } else if pieces.last().len() == 0 {
        non_empty(pieces.drop_last())
    } else {
        non_empty(pieces.drop_last()).push(pieces.last())
    }
}

/// Splits `s` at the characters of class `k`, as `str::split` does.
pub fn split_chars(s: &[char], k: CharClass) -> (pieces: Vec<Vec<char>>)
    ensures
        pieces@.len() == split_by(s@, k).len(),
        forall|i: int| 0 <= i < pieces@.len() ==> #[trigger] pieces@[i]@ == split_by(s@, k)[i],
{
    let mut done: Vec<Vec<char>> = Vec::new();
    let mut cur: Vec<char> = Vec::new();
    let mut i: usize = 0;
    while i < s.len()
        invariant
            i <= s@.len(),
            split_by(s@.take(i as int), k).len() == done@.len() + 1,
            forall|j: int| 0 <= j < done@.len() ==> #[trigger] done@[j]@ == split_by(s@.take(i as int), k)[j],
            cur@ == split_by(s@.take(i as int), k).last(),
        decreases s@.len() - i,
    {
        let c = s[i];
        assert(s@.take(i + 1).drop_last() =~= s@.take(i as int));
        if is_in_class(k, c) {
            done.push(cur);
            cur = Vec::new();
        } else {
            cur.push(c);
        }
        i = i + 1;
    }
    assert(s@.take(s@.len() as int) =~= s@);
    done.push(cur);
    done
}

/// Keeps the non-empty pieces, in order.
pub fn keep_non_empty(pieces: Vec<Vec<char>>) -> (r: Vec<Vec<char>>)
    ensures
        r@.len() == non_empty(pieces@.map_values(|p: Vec<char>| p@)).len(),
        forall|i: int| 0 <= i < r@.len() ==> #[trigger] r@[i]@ == non_empty(pieces@.map_values(|p: Vec<char>| p@))[i],
{
    let ghost all = pieces@.map_values(|p: Vec<char>| p@);
    let mut r: Vec<Vec<char>> = Vec::new();
    let mut i: usize = 0;
    let n = pieces.len();
    let mut rest = pieces;
    // Reverse so that pieces can be taken from the back in original order.
    let mut rev: Vec<Vec<char>> = Vec::new();
    while rest.len() > 0
        invariant
            rev@.len() + rest@.len() == n,
            n == all.len(),
            forall|j: int| 0 <= j < rest@.len() ==> #[trigger] rest@[j]@ == all[j],
            forall|j: int| 0 <= j < rev@.len() ==> #[trigger] rev@[j]@ == all[n - 1 - j],
        decreases rest@.len(),
    {
        let p = rest.pop().unwrap();
        rev.push(p);
    }
    while i < n
        invariant
            i <= n,
            n == all.len(),
            rev@.len() == n - i,
            forall|j: int| 0 <= j < rev@.len() ==> #[trigger] rev@[j]@ == all[n - 1 - j],
            r@.len() == non_empty(all.take(i as int)).len(),
            forall|j: int| 0 <= j < r@.len() ==> #[trigger] r@[j]@ == non_empty(all.take(i as int))[j],
        decreases n - i,
    {
        let p = rev.pop().unwrap();
        assert(p@ == all[i as int]);
        assert(all.take(i + 1).drop_last() =~= all.take(i as int));
        if p.len() > 0 {
            r.push(p);
        }
        i = i + 1;
    }
    assert(all.take(n as int) =~= all);
    r
}

/// `s` without its leading characters of class `k`.
pub open spec fn trim_start_by(s: Seq<char>, k: CharClass) -> Seq<char>
    decreases s.len(),
{
    if s.len() > 0 && in_class(k, s[0]) {
        trim_start_by(s.drop_first(), k)
    } else {
        s
    }
}

/// `s` without its trailing characters of class `k`.
pub open spec fn trim_end_by(s: Seq<char>, k: CharClass) -> Seq<char>
    decreases s.len(),
{
    if s.len() > 0 && in_class(k, s.last()) {
        trim_end_by(s.drop_last(), k)
    } else {
        s
    }
}

/// `s` without its leading and trailing characters of class `k`.
pub open spec fn trim_by(s: Seq<char>, k: CharClass) -> Seq<char> {
    trim_end_by(trim_start_by(s, k), k)
}

/// `s` without leading and trailing whitespace, as `str::trim` gives it.
pub open spec fn trim(s: Seq<char>) -> Seq<char> {
    trim_by(s, CharClass::Whitespace)
}

/// Removes the leading and trailing characters of class `k`.
pub fn trim_chars(s: &[char], k: CharClass) -> (r: Vec<char>)
    ensures
        r@ == trim_by(s@, k),
{
    let n = s.len();
    let mut lo: usize = 0;
    assert(s@.subrange(0, n as int) =~= s@);
    while lo < n && is_in_class(k, s[lo])
        invariant
            lo <= n,
            n == s@.len(),
            trim_start_by(s@, k) == trim_start_by(s@.subrange(lo as int, n as int), k),
        decreases n - lo,
    {
        assert(s@.subrange(lo as int, n as int).drop_first() =~= s@.subrange(lo + 1, n as int));
        lo = lo + 1;
    }
    let ghost mid = s@.subrange(lo as int, n as int);
    assert(trim_start_by(s@, k) == mid);
    let mut hi: usize = n;
    while hi > lo && is_in_class(k, s[hi - 1])
        invariant
            lo <= hi <= n,
            n == s@.len(),
            mid == s@.subrange(lo as int, n as int),
            trim_end_by(mid, k) == trim_end_by(s@.subrange(lo as int, hi as int), k),
        decreases hi,
    {
        assert(s@.subrange(lo as int, hi as int).drop_last() =~= s@.subrange(lo as int, hi - 1));
        hi = hi - 1;
    }
    let mut r: Vec<char> = Vec::new();
    let mut i: usize = lo;
    while i < hi
        invariant
            lo <= i <= hi,
            hi <= n,
            n == s@.len(),
            r@ == s@.subrange(lo as int, i as int),
        decreases hi - i,
    {
        r.push(s[i]);
        assert(s@.subrange(lo as int, i + 1) =~= s@.subrange(lo as int, i as int).push(s@[i as int]));
        i = i + 1;
    }
    r
}

/// Removes leading and trailing whitespace.
pub fn trim_str(s: &str) -> (r: String)
    ensures
        r@ == trim(s@),
{
    let v = chars_of(s);
    let t = trim_chars(v.as_slice(), CharClass::Whitespace);
    string_of(t.as_slice())
}

/// A character with ASCII upper-case letters mapped to lower case.
pub open spec fn ascii_lower(c: char) -> char {
    if 'A' <= c && c <= 'Z' {
        ((c as u32) + 32) as char
    } else {
        c
    }
}

/// Text with ASCII upper-case letters mapped to lower case, as
/// `str::to_ascii_lowercase` gives it.
pub open spec fn to_ascii_lower(s: Seq<char>) -> Seq<char> {
    s.map_values(|c: char| ascii_lower(c))
}

/// Maps ASCII upper-case letters to lower case.
pub fn lower_ascii(s: &[char]) -> (r: Vec<char>)
    ensures
        r@ == to_ascii_lower(s@),
{
    let mut r: Vec<char> = Vec::new();
    let mut i: usize = 0;
    while i < s.len()
        invariant
            i <= s@.len(),
            r@ == to_ascii_lower(s@.take(i as int)),
        decreases s@.len() - i,
    {
        let c = s[i];
        let d = if 'A' <= c && c <= 'Z' {
            let code: u32 = c as u32;
            assert(65 <= code <= 90);
            ((code + 32) as u8) as char
        } else {
            c
        };
        r.push(d);
        assert(to_ascii_lower(s@.take(i + 1)) =~= to_ascii_lower(s@.take(i as int)).push(ascii_lower(c)));
        i = i + 1;
    }
    assert(s@.take(s@.len() as int) =~= s@);
    r
}

/// Whether `needle` occurs in `hay` as a contiguous run.
pub open spec fn contains_seq(hay: Seq<char>, needle: Seq<char>) -> bool {
    exists|i: int| 0 <= i <= hay.len() - needle.len() && #[trigger] hay.subrange(i, i + needle.len()) == needle
}

/// Whether `needle` occurs at position `i` of `hay`.
pub open spec fn occurs_at(hay: Seq<char>, needle: Seq<char>, i: int) -> bool {
    0 <= i <= hay.len() - needle.len() && hay.subrange(i, i + needle.len()) == needle
}

/// Decides whether `needle` occurs at position `i` of `hay`.
pub fn matches_at(hay: &[char], needle: &[char], i: usize) -> (b: bool)
    requires
        i <= hay@.len(),
    ensures
        b == occurs_at(hay@, needle@, i as int),
{
    let hl = hay.len();
    if hl - i < needle.len() {
        return false;
    }
    let mut j: usize = 0;
    while j < needle.len()
        invariant
            hl == hay@.len(),
            j <= needle@.len(),
            i + needle@.len() <= hay@.len(),
            hay@.subrange(i as int, i + j) == needle@.take(j as int),
        decreases needle@.len() - j,
    {
        assert(i + j < hl);
        if hay[i + j] != needle[j] {
            assert(hay@.subrange(i as int, i + needle@.len())[j as int] != needle@[j as int]);
            return false;
        }
        assert(hay@.subrange(i as int, i + j + 1) =~= hay@.subrange(i as int, i + j).push(hay@[i + j]));
        assert(needle@.take(j + 1) =~= needle@.take(j as int).push(needle@[j as int]));
        j = j + 1;
    }
    assert(needle@.take(needle@.len() as int) =~= needle@);
    true
}

/// Decides whether `needle` occurs in `hay`, as `str::contains` does.
pub fn contains_chars(hay: &[char], needle: &[char]) -> (b: bool)
    ensures
        b == contains_seq(hay@, needle@),
{
    if needle.len() > hay.len() {
        return false;
    }
    let last = hay.len() - needle.len();
    let mut i: usize = 0;
    loop
        invariant
            last == hay@.len() - needle@.len(),
            i <= last,
            forall|j: int| 0 <= j < i ==> !occurs_at(hay@, needle@, j),
        ensures
            forall|j: int| 0 <= j <= last ==> !occurs_at(hay@, needle@, j),
        decreases last - i,
    {
        if matches_at(hay, needle, i) {
            assert(occurs_at(hay@, needle@, i as int));
            return true;
        }
        if i == last {
            break;
        }
        i = i + 1;
    }
    assert forall|j: int| 0 <= j <= hay@.len() - needle@.len() implies #[trigger] hay@.subrange(j, j + needle@.len()) != needle@ by {
        assert(!occurs_at(hay@, needle@, j));
    }
    false
}

/// `s` with every non-overlapping occurrence of the non-empty `pat`, found from
/// left to right, replaced by `rep`, as `str::replace` gives it.
pub open spec fn replace_all(s: Seq<char>, pat: Seq<char>, rep: Seq<char>) -> Seq<char>
    recommends
        pat.len() > 0,
    decreases s.len(),
{
    if pat.len() == 0 || s.len() < pat.len() {
        s
    } else if s.take(pat.len() as int) == pat {
        rep + replace_all(s.skip(pat.len() as int), pat, rep)
    } else {
        seq![s[0]] + replace_all(s.drop_first(), pat, rep)
    }
}

/// Appends the characters of `tail` to `out`.
pub fn append_chars(out: &mut Vec<char>, tail: &[char])
    ensures
        final(out)@ == old(out)@ + tail@,
{
    let mut k: usize = 0;
    while k < tail.len()
        invariant
            k <= tail@.len(),
            out@ == old(out)@ + tail@.take(k as int),
        decreases tail@.len() - k,
    {
        out.push(tail[k]);
        assert(tail@.take(k + 1) =~= tail@.take(k as int).push(tail@[k as int]));
        k = k + 1;
    }
    assert(tail@.take(tail@.len() as int) =~= tail@);
}

/// Replaces every occurrence of the non-empty `pat` by `rep`.
pub fn replace_chars(s: &[char], pat: &[char], rep: &[char]) -> (r: Vec<char>)
    requires
        pat@.len() > 0,
    ensures
        r@ == replace_all(s@, pat@, rep@),
{
    let mut out: Vec<char> = Vec::new();
    let mut i: usize = 0;
    assert(s@.skip(0) =~= s@);
    while i < s.len()
        invariant
            i <= s@.len(),
            pat@.len() > 0,
            out@ + replace_all(s@.skip(i as int), pat@, rep@) == replace_all(s@, pat@, rep@),
        decreases s@.len() - i,
    {
        let ghost rest = s@.skip(i as int);
        let ghost before = out@;
        if matches_at(s, pat, i) {
            assert(rest.take(pat@.len() as int) =~= s@.subrange(i as int, i + pat@.len()));
            assert(rest.skip(pat@.len() as int) =~= s@.skip(i + pat@.len()));
            append_chars(&mut out, rep);
            assert(out@ + replace_all(s@.skip(i + pat@.len()), pat@, rep@) =~= before + replace_all(rest, pat@, rep@));
            i = i + pat.len();
        } else {
            assert(rest.drop_first() =~= s@.skip(i + 1));
            proof {
                if rest.len() < pat@.len() {
                    assert(rest =~= seq![rest[0]] + rest.drop_first());
                } else {
                    assert(rest.take(pat@.len() as int) =~= s@.subrange(i as int, i + pat@.len()));
                }
            }
            out.push(s[i]);
            assert(out@ + replace_all(s@.skip(i + 1), pat@, rep@) =~= before + replace_all(rest, pat@, rep@));
            i = i + 1;
        }
    }
    assert(s@.skip(s@.len() as int) =~= Seq::<char>::empty());
    out
}

/// Whether two character sequences are equal.
pub fn chars_equal(a: &[char], b: &[char]) -> (r: bool)
    ensures
        r == (a@ == b@),
{
    if a.len() != b.len() {
        return false;
    }
    let mut i: usize = 0;
    while i < a.len()
        invariant
            i <= a@.len(),
            a@.len() == b@.len(),
            forall|k: int| 0 <= k < i ==> a@[k] == b@[k],
        decreases a@.len() - i,
    {
        if a[i] != b[i] {
            return false;
        }
        i = i + 1;
    }
    assert(a@ =~= b@);
    true
}


/// Whether `s` ends with `suffix`.
pub open spec fn ends_with(s: Seq<char>, suffix: Seq<char>) -> bool {
    suffix.len() <= s.len() && s.subrange(s.len() - suffix.len(), s.len() as int) == suffix
}

/// Whether a string ends with a suffix.
pub fn str_ends_with(s: &str, suffix: &str) -> (b: bool)
    ensures
        b == ends_with(s@, suffix@),
{
    let a = chars_of(s);
    let b = chars_of(suffix);
    if b.len() > a.len() {
        return false;
    }
    let offset = a.len() - b.len();
    let mut i: usize = 0;
    while i < b.len()
        invariant
            i <= b@.len(),
            a@ == s@,
            b@ == suffix@,
            offset + b@.len() == a@.len(),
            a@.len() <= usize::MAX,
            forall|k: int| 0 <= k < i ==> a@[offset + k] == b@[k],
        decreases b@.len() - i,
    {
        if a[offset + i] != b[i] {
            assert(a@.subrange(offset as int, a@.len() as int)[i as int] != b@[i as int]);
            return false;
        }
        i = i + 1;
    }
    assert(a@.subrange(offset as int, a@.len() as int) =~= b@);
    true
}

} // verus!
