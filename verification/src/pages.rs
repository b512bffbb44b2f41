//! Page selection for print tasks: which pages of a document are printed
//! ("all", "odd", "even" or a custom list such as `1-3,5`), how many that
//! is, which pages are removed from the final PDF, and the normal form of a
//! custom list.
use std::collections::BTreeSet;
use vstd::prelude::*;
use vstd::std_specs::btree::spec_btree_keys_iter;
use vstd::std_specs::iter::IteratorSpec;

use crate::error::{is_bad_request, AppError};
use crate::number::{dec, dec_string, parse_u32, parse_u32_spec};
use crate::text::{
    chars_equal, chars_of, concat3, keep_non_empty, non_empty, split_by, split_chars, string_of,
    CharClass,
};

verus! {

// ----- messages -----

/// Message for a page number that is not a number.
pub open spec fn msg_invalid_page(value: Seq<char>) -> Seq<char> {
    "页码“"@ + value + "”无效，请使用数字或起止页（如 2-5）"@
}

/// Message for a page number outside `1..=total`.
pub open spec fn msg_out_of_range(page: nat, total: nat) -> Seq<char> {
    "页码 "@ + dec(page) + " 超出有效范围 1-"@ + dec(total)
}

/// Message for a token with more than one `-`.
pub open spec fn msg_bad_format(token: Seq<char>) -> Seq<char> {
    "页码格式“"@ + token + "”无效，请使用数字或起止页（如 2-5）"@
}

/// Message for a range whose start lies after its end.
pub open spec fn msg_reversed(token: Seq<char>) -> Seq<char> {
    "页码范围“"@ + token + "”的起始页不能大于结束页"@
}

/// Message for a page named twice.
pub open spec fn msg_duplicate(page: nat) -> Seq<char> {
    "自定义页码中重复指定了第 "@ + dec(page) + " 页"@
}

/// Message for a custom list that names no page.
pub open spec fn msg_no_custom_pages() -> Seq<char> {
    "请输入要打印的自定义页码"@
}

/// Message for a page count that does not fit in 32 bits.
pub open spec fn msg_total_too_large() -> Seq<char> {
    "文件页数超出支持范围"@
}

/// Message for a selection that is none of the known kinds.
pub open spec fn msg_bad_selection() -> Seq<char> {
    "页码范围必须是全部页、奇数页、偶数页或自定义页码"@
}

/// Message for a selection that leaves no page to print.
pub open spec fn msg_nothing_selected() -> Seq<char> {
    "所选页码中没有可打印页面"@
}

/// Message for a preview PDF without pages.
pub open spec fn msg_no_pdf_pages() -> Seq<char> {
    "preview PDF has no pages"@
}

// ----- the meaning of a custom page list -----

/// The pages `start..=end`.
pub open spec fn page_span(start: u32, end: u32) -> Set<u32> {
    Set::new(|p: u32| start <= p && p <= end)
}

/// The tokens of a custom list: the non-empty pieces between whitespace,
/// `,`, `，` and `、`.
pub open spec fn page_tokens(input: Seq<char>) -> Seq<Seq<char>> {
    non_empty(split_by(input, CharClass::PageSeparator))
}

/// One page number of a custom list, checked against the document's length.
pub open spec fn parse_page_spec(value: Seq<char>, total: u32) -> Result<u32, Seq<char>> {
    match parse_u32_spec(value) {
        None => Err(msg_invalid_page(value)),
        Some(p) => if p == 0 || p > total {
            Err(msg_out_of_range(p as nat, total as nat))
        } else {
            Ok(p)
        },
    }
}

/// `p` is the smallest page of `start..=end` that `acc` already holds.
pub open spec fn is_first_duplicate(acc: Set<u32>, start: u32, end: u32, p: u32) -> bool {
    &&& start <= p && p <= end
    &&& acc.contains(p)
    &&& forall|q: u32| start <= q && q < p ==> !acc.contains(q)
}

/// Adds the pages `start..=end` to `acc`; a page already there is an error
/// that names the smallest such page.
pub open spec fn add_span(acc: Set<u32>, start: u32, end: u32) -> Result<Set<u32>, Seq<char>> {
    if exists|p: u32| start <= p && p <= end && #[trigger] acc.contains(p) {
        Err(msg_duplicate((choose|p: u32| is_first_duplicate(acc, start, end, p)) as nat))
    } else {
        Ok(acc.union(page_span(start, end)))
    }
}

/// Adds the pages that one token names: `n` or `a-b`.
pub open spec fn add_token(acc: Set<u32>, token: Seq<char>, total: u32) -> Result<Set<u32>, Seq<char>> {
    let bounds = split_by(token, CharClass::Dash);
    match parse_page_spec(bounds[0], total) {
        Err(e) => Err(e),
        Ok(start) => {
            let end_r = if bounds.len() >= 2 {
                parse_page_spec(bounds[1], total)
            } else {
                Ok(start)
            };
            match end_r {
                Err(e) => Err(e),
                Ok(end) => if bounds.len() >= 3 {
                    Err(msg_bad_format(token))
                } else if start > end {
                    Err(msg_reversed(token))
                } else {
                    add_span(acc, start, end)
                },
            }
        },
    }
}

/// The pages that a sequence of tokens names, read from the first token on;
/// the first failing token decides the error.
pub open spec fn add_tokens(tokens: Seq<Seq<char>>, total: u32) -> Result<Set<u32>, Seq<char>>
    decreases tokens.len(),
{
    if tokens.len() == 0 {
        Ok(Set::empty())
    } else {
        match add_tokens(tokens.drop_last(), total) {
            Err(e) => Err(e),
            Ok(acc) => add_token(acc, tokens.last(), total),
        }
    }
}

/// The pages that a custom list names for a document of `total` pages.
pub open spec fn custom_pages_spec(total: u32, input: Seq<char>) -> Result<Set<u32>, Seq<char>> {
    match add_tokens(page_tokens(input), total) {
        Err(e) => Err(e),
        Ok(s) => if s.is_empty() {
            Err(msg_no_custom_pages())
        } else {
            Ok(s)
        },
    }
}

/// Whether `q` is strictly increasing.
pub open spec fn increasing(q: Seq<u32>) -> bool {
    forall|i: int, j: int| 0 <= i < j < q.len() ==> q[i] < q[j]
}

/// Whether `q` lists the members of `s` in increasing order.
pub open spec fn enumerates(q: Seq<u32>, s: Set<u32>) -> bool {
    increasing(q) && q.to_set() == s
}

/// The members of `s` in increasing order.
pub open spec fn ascending(s: Set<u32>) -> Seq<u32> {
    choose|q: Seq<u32>| enumerates(q, s)
}

/// The last member of an increasing sequence is its largest.
proof fn lemma_increasing_drop_last_set(q: Seq<u32>)
    requires
        increasing(q),
        q.len() > 0,
    ensures
        q.drop_last().to_set() == q.to_set().remove(q.last()),
        forall|x: u32| q.to_set().contains(x) ==> x <= q.last(),
{
    assert forall|x: u32| q.to_set().contains(x) implies x <= q.last() by {
        let i = choose|i: int| 0 <= i < q.len() && q[i] == x;
        if i < q.len() - 1 {
            assert(q[i] < q[q.len() - 1]);
        }
    }
    assert forall|x: u32| q.drop_last().to_set().contains(x) <==> q.to_set().remove(q.last()).contains(x) by {
        if q.drop_last().to_set().contains(x) {
            let i = choose|i: int| 0 <= i < q.drop_last().len() && q.drop_last()[i] == x;
            assert(q[i] == x);
            assert(q[i] < q[q.len() - 1]);
        }
        if q.to_set().remove(q.last()).contains(x) {
            let i = choose|i: int| 0 <= i < q.len() && q[i] == x;
            assert(i != q.len() - 1);
            assert(q.drop_last()[i] == x);
        }
    }
    assert(q.drop_last().to_set() =~= q.to_set().remove(q.last()));
}

/// A finite set has at most one increasing enumeration.
pub proof fn lemma_enumeration_unique(a: Seq<u32>, b: Seq<u32>)
    requires
        increasing(a),
        increasing(b),
        a.to_set() == b.to_set(),
    ensures
        a == b,
    decreases a.len() + b.len(),
{
    if a.len() == 0 {
        if b.len() > 0 {
            assert(b.to_set().contains(b[0]));
            assert(!a.to_set().contains(b[0]));
        }
        assert(a =~= b);
    } else if b.len() == 0 {
        assert(a.to_set().contains(a[0]));
    } else {
        lemma_increasing_drop_last_set(a);
        lemma_increasing_drop_last_set(b);
        assert(a.to_set().contains(a.last()));
        assert(b.to_set().contains(b.last()));
        assert(a.last() == b.last());
        lemma_enumeration_unique(a.drop_last(), b.drop_last());
        assert(a =~= a.drop_last().push(a.last()));
        assert(b =~= b.drop_last().push(b.last()));
    }
}

/// An increasing enumeration is the one that `ascending` names.
pub proof fn lemma_ascending(q: Seq<u32>, s: Set<u32>)
    requires
        enumerates(q, s),
    ensures
        ascending(s) == q,
{
    let a = ascending(s);
    assert(enumerates(a, s));
    lemma_enumeration_unique(a, q);
}

/// Every page that a token list names lies in `1..=total`.
pub proof fn lemma_add_tokens_in_range(tokens: Seq<Seq<char>>, total: u32)
    ensures
        add_tokens(tokens, total) matches Ok(s) ==> forall|p: u32| #[trigger] s.contains(p) ==> 1 <= p && p <= total,
    decreases tokens.len(),
{
    if tokens.len() > 0 {
        lemma_add_tokens_in_range(tokens.drop_last(), total);
    }
}

/// Every page that a custom list names lies in `1..=total`.
pub proof fn lemma_custom_pages_in_range(total: u32, input: Seq<char>)
    ensures
        custom_pages_spec(total, input) matches Ok(s) ==> forall|p: u32| #[trigger] s.contains(p) ==> 1 <= p && p <= total,
{
    lemma_add_tokens_in_range(page_tokens(input), total);
}

// ----- executable parsing -----

/// A string built from two pieces of text around a run of characters.
fn message_around(a: &str, mid: &[char], b: &str) -> (m: String)
    ensures
        m@ == a@ + mid@ + b@,
{
    let s = string_of(mid);
    concat3(a, s.as_str(), b)
}

/// Parses one page number of a custom list.
pub fn parse_page_number(value: &[char], total: u32) -> (r: Result<u32, AppError>)
    ensures
        match parse_page_spec(value@, total) {
            Ok(p) => r == Ok::<u32, AppError>(p),
            Err(m) => r is Err && is_bad_request(r->Err_0, m),
        },
{
    match parse_u32(value) {
        None => Err(AppError::BadRequest(
            message_around("页码“", value, "”无效，请使用数字或起止页（如 2-5）"),
        )),
        Some(p) => {
            if p == 0 || p > total {
                let a = dec_string(p as u64);
                let b = dec_string(total as u64);
                let mut m = concat3("页码 ", a.as_str(), " 超出有效范围 1-");
                m.append(b.as_str());
                Err(AppError::BadRequest(m))
            } else {
                Ok(p)
            }
        },
    }
}

/// The members of `q` that are below `x` all come before position `i`, and
/// those from `i` on are at least `x`.
spec fn splits_at(q: Seq<u32>, i: int, x: u32) -> bool {
    &&& 0 <= i <= q.len()
    &&& forall|k: int| 0 <= k < i ==> q[k] < x
    &&& forall|k: int| i <= k < q.len() ==> q[k] >= x
}

/// Adds the pages `start..=end` to the increasing list `pages`, or returns the
/// smallest page of the span that the list already holds.
fn insert_span(pages: &mut Vec<u32>, start: u32, end: u32) -> (r: Result<(), u32>)
    requires
        increasing(old(pages)@),
        start <= end,
    ensures
        match add_span(old(pages)@.to_set(), start, end) {
            Ok(s) => r is Ok && increasing(final(pages)@) && final(pages)@.to_set() == s,
            Err(m) => r matches Err(p) && m == msg_duplicate(p as nat),
        },
{
    let ghost acc = old(pages)@.to_set();
    let n = pages.len();
    let mut i: usize = 0;
    while i < n && pages[i] < start
        invariant
            n == pages@.len(),
            i <= n,
            pages@ == old(pages)@,
            forall|k: int| 0 <= k < i ==> pages@[k] < start,
        decreases n - i,
    {
        i = i + 1;
    }
    assert(splits_at(pages@, i as int, start)) by {
        assert forall|k: int| i <= k < pages@.len() implies pages@[k] >= start by {
            if k > i {
                assert(pages@[i as int] < pages@[k]);
            }
        }
    }
    if i < n && pages[i] <= end {
        let p = pages[i];
        proof {
            assert(acc.contains(p));
            assert(is_first_duplicate(acc, start, end, p)) by {
                assert forall|q: u32| start <= q && q < p implies !acc.contains(q) by {
                    if acc.contains(q) {
                        let k = choose|k: int| 0 <= k < pages@.len() && pages@[k] == q;
                        if k < i {
                        } else if k > i {
                            assert(pages@[i as int] < pages@[k]);
                        }
                    }
                }
            }
            let c = choose|c: u32| is_first_duplicate(acc, start, end, c);
            assert(is_first_duplicate(acc, start, end, c));
            if c < p {
                assert(!acc.contains(c));
            }
            if p < c {
                assert(!acc.contains(p));
            }
            assert(c == p);
        }
        return Err(p);
    }
    // No page of the span is present: every member is below `start` or above `end`.
    proof {
        assert forall|q: u32| start <= q && q <= end implies !#[trigger] acc.contains(q) by {
            if acc.contains(q) {
                let k = choose|k: int| 0 <= k < pages@.len() && pages@[k] == q;
                if k >= i {
                    if k > i {
                        assert(pages@[i as int] < pages@[k]);
                    }
                }
            }
        }
    }
    let mut out: Vec<u32> = Vec::new();
    let mut k: usize = 0;
    while k < i
        invariant
            k <= i <= n,
            n == pages@.len(),
            pages@ == old(pages)@,
            out@ == pages@.take(k as int),
        decreases i - k,
    {
        out.push(pages[k]);
        assert(pages@.take(k + 1) =~= pages@.take(k as int).push(pages@[k as int]));
        k = k + 1;
    }
    let mut p: u64 = start as u64;
    while p <= end as u64
        invariant
            start as u64 <= p <= end as u64 + 1,
            out@ == pages@.take(i as int) + Seq::new((p - start) as nat, |j: int| (start + j) as u32),
        decreases end as u64 + 1 - p,
    {
        out.push(p as u32);
        assert(out@ =~= pages@.take(i as int) + Seq::new((p + 1 - start) as nat, |j: int| (start + j) as u32));
        p = p + 1;
    }
    let ghost mid = out@;
    let mut k: usize = i;
    while k < n
        invariant
            i <= k <= n,
            n == pages@.len(),
            pages@ == old(pages)@,
            out@ == mid + pages@.subrange(i as int, k as int),
        decreases n - k,
    {
        out.push(pages[k]);
        assert(pages@.subrange(i as int, k + 1) =~= pages@.subrange(i as int, k as int).push(pages@[k as int]));
        k = k + 1;
    }
    let ghost span_seq = Seq::new((end - start + 1) as nat, |j: int| (start + j) as u32);
    assert(mid =~= pages@.take(i as int) + span_seq);
    proof {
        let o = out@;
        let old_q = pages@;
        assert(o =~= old_q.take(i as int) + span_seq + old_q.subrange(i as int, n as int));
        assert forall|a: int, b: int| 0 <= a < b < o.len() implies o[a] < o[b] by {
            let lo = i as int;
            let hi = lo + span_seq.len();
            if b < lo {
            } else if a < lo {
                if b >= hi {
                    assert(old_q[a] < old_q[b - span_seq.len()]);
                }
            } else if a < hi {
                if b >= hi {
                    assert(old_q[b - span_seq.len()] > end) by {
                        let kk = b - span_seq.len();
                        assert(old_q[kk] >= start);
                        assert(!acc.contains(old_q[kk]) || !(old_q[kk] <= end));
                        assert(old_q.to_set().contains(old_q[kk]));
                    }
                }
            } else {
                assert(old_q[a - span_seq.len()] < old_q[b - span_seq.len()]);
            }
        }
        assert forall|x: u32| o.to_set().contains(x) <==> acc.union(page_span(start, end)).contains(x) by {
            if o.to_set().contains(x) {
                let j = choose|j: int| 0 <= j < o.len() && o[j] == x;
                if j < i {
                    assert(old_q.to_set().contains(old_q[j]));
                } else if j < i + span_seq.len() {
                } else {
                    assert(old_q.to_set().contains(old_q[j - span_seq.len()]));
                }
            }
            if acc.contains(x) {
                let j = choose|j: int| 0 <= j < old_q.len() && old_q[j] == x;
                if j < i {
                    assert(o[j] == x);
                } else {
                    assert(o[j + span_seq.len()] == x);
                }
            } else if page_span(start, end).contains(x) {
                assert(o[i + (x - start)] == x);
            }
        }
        assert(o.to_set() =~= acc.union(page_span(start, end)));
    }
    *pages = out;
    Ok(())
}

/// Once reading a token list fails, reading a longer prefix fails alike.
proof fn lemma_add_tokens_error_sticks(tokens: Seq<Seq<char>>, total: u32, k: int, j: int)
    requires
        0 <= k <= j <= tokens.len(),
        add_tokens(tokens.take(k), total) is Err,
    ensures
        add_tokens(tokens.take(j), total) == add_tokens(tokens.take(k), total),
    decreases j - k,
{
    if k < j {
        lemma_add_tokens_error_sticks(tokens, total, k, j - 1);
        assert(tokens.take(j).drop_last() =~= tokens.take(j - 1));
    }
}

/// Adds the pages that one token of a custom list names.
fn add_token_pages(pages: &mut Vec<u32>, token: &[char], total: u32) -> (r: Result<(), AppError>)
    requires
        increasing(old(pages)@),
    ensures
        match add_token(old(pages)@.to_set(), token@, total) {
            Ok(s) => r is Ok && increasing(final(pages)@) && final(pages)@.to_set() == s,
            Err(m) => r is Err && is_bad_request(r->Err_0, m),
        },
{
    let bounds = split_chars(token, CharClass::Dash);
    proof {
        crate::text::lemma_split_nonempty(token@, CharClass::Dash);
    }
    let start = match parse_page_number(bounds[0].as_slice(), total) {
        Ok(p) => p,
        Err(e) => return Err(e),
    };
    let end = if bounds.len() >= 2 {
        match parse_page_number(bounds[1].as_slice(), total) {
            Ok(p) => p,
            Err(e) => return Err(e),
        }
    } else {
        start
    };
    if bounds.len() >= 3 {
        return Err(AppError::BadRequest(
            message_around("页码格式“", token, "”无效，请使用数字或起止页（如 2-5）"),
        ));
    }
    if start > end {
        return Err(AppError::BadRequest(message_around("页码范围“", token, "”的起始页不能大于结束页")));
    }
    match insert_span(pages, start, end) {
        Ok(()) => Ok(()),
        Err(p) => {
            let d = dec_string(p as u64);
            Err(AppError::BadRequest(concat3("自定义页码中重复指定了第 ", d.as_str(), " 页")))
        },
    }
}

/// The pages that a custom list names, in increasing order.
pub fn custom_page_list(total_pages: u32, input: &[char]) -> (r: Result<Vec<u32>, AppError>)
    ensures
        match custom_pages_spec(total_pages, input@) {
            Ok(s) => r is Ok && enumerates(r->Ok_0@, s),
            Err(m) => r is Err && is_bad_request(r->Err_0, m),
        },
{
    let pieces = split_chars(input, CharClass::PageSeparator);
    let ghost mapped = pieces@.map_values(|p: Vec<char>| p@);
    assert(mapped =~= split_by(input@, CharClass::PageSeparator));
    let tokens = keep_non_empty(pieces);
    let ghost toks = page_tokens(input@);
    let mut pages: Vec<u32> = Vec::new();
    let mut i: usize = 0;
    assert(toks.take(0) =~= Seq::<Seq<char>>::empty());
    assert(pages@.to_set() =~= Set::<u32>::empty());
    while i < tokens.len()
        invariant
            i <= tokens@.len(),
            tokens@.len() == toks.len(),
            toks == page_tokens(input@),
            forall|j: int| 0 <= j < tokens@.len() ==> #[trigger] tokens@[j]@ == toks[j],
            increasing(pages@),
            add_tokens(toks.take(i as int), total_pages) == Ok::<Set<u32>, Seq<char>>(pages@.to_set()),
        decreases tokens@.len() - i,
    {
        assert(toks.take(i + 1).drop_last() =~= toks.take(i as int));
        assert(toks.take(i + 1).last() == toks[i as int]);
        let ghost before = pages@.to_set();
        assert(add_tokens(toks.take(i + 1), total_pages) == add_token(before, toks[i as int], total_pages));
        match add_token_pages(&mut pages, tokens[i].as_slice(), total_pages) {
            Ok(()) => {},
            Err(e) => {
                proof {
                    assert(add_token(before, toks[i as int], total_pages) is Err);
                    let m = add_token(before, toks[i as int], total_pages)->Err_0;
                    assert(is_bad_request(e, m));
                    lemma_add_tokens_error_sticks(toks, total_pages, i + 1, toks.len() as int);
                    assert(toks.take(toks.len() as int) =~= toks);
                    assert(add_tokens(toks, total_pages) == Err::<Set<u32>, Seq<char>>(m));
                    assert(custom_pages_spec(total_pages, input@) == Err::<Set<u32>, Seq<char>>(m));
                }
                return Err(e);
            },
        }
        i = i + 1;
    }
    assert(toks.take(toks.len() as int) =~= toks);
    if pages.len() == 0 {
        assert(pages@.to_set().is_empty());
        return Err(AppError::BadRequest(crate::text::owned("请输入要打印的自定义页码")));
    }
    assert(pages@.to_set().contains(pages@[0]));
    Ok(pages)
}

// ----- the normal form of a page list -----

/// The maximal runs of consecutive pages in the increasing list `q`, each as
/// its first and last page.
pub open spec fn page_runs(q: Seq<u32>) -> Seq<(u32, u32)>
    decreases q.len(),
{
    if q.len() == 0 {
        Seq::empty()
    } else {
        let r = page_runs(q.drop_last());
        let x = q.last();
        if r.len() > 0 && r.last().1 as int + 1 == x as int {
            r.update(r.len() - 1, (r.last().0, x))
        } else {
            r.push((x, x))
        }
    }
}

/// The text of one run: `n` for a single page, `a-b` otherwise.
pub open spec fn run_text(run: (u32, u32)) -> Seq<char> {
    if run.0 == run.1 {
        dec(run.0 as nat)
    } else {
        dec(run.0 as nat) + seq!['-'] + dec(run.1 as nat)
    }
}

/// Pieces of text joined by commas.
pub open spec fn join_comma(parts: Seq<Seq<char>>) -> Seq<char>
    decreases parts.len(),
{
    if parts.len() == 0 {
        Seq::empty()
    } else if parts.len() == 1 {
        parts[0]
    } else {
        join_comma(parts.drop_last()) + seq![','] + parts.last()
    }
}

/// The texts of a list of runs.
pub open spec fn run_texts(runs: Seq<(u32, u32)>) -> Seq<Seq<char>> {
    runs.map_values(|r: (u32, u32)| run_text(r))
}

/// The normal text of an increasing page list: its runs, comma-separated.
pub open spec fn ranges_text(q: Seq<u32>) -> Seq<char> {
    join_comma(run_texts(page_runs(q)))
}

/// The runs of consecutive pages of an increasing list.
fn runs_of(pages: &[u32]) -> (runs: Vec<(u32, u32)>)
    ensures
        runs@ == page_runs(pages@),
{
    let mut runs: Vec<(u32, u32)> = Vec::new();
    let mut i: usize = 0;
    while i < pages.len()
        invariant
            i <= pages@.len(),
            runs@ == page_runs(pages@.take(i as int)),
        decreases pages@.len() - i,
    {
        let x = pages[i];
        assert(pages@.take(i + 1).drop_last() =~= pages@.take(i as int));
        let n = runs.len();
        if n > 0 && runs[n - 1].1 as u64 + 1 == x as u64 {
            let first = runs[n - 1].0;
            runs.set(n - 1, (first, x));
        } else {
            runs.push((x, x));
        }
        i = i + 1;
    }
    assert(pages@.take(pages@.len() as int) =~= pages@);
    runs
}

/// The text of the run of pages `start..=end`: `n` for a single page,
/// `a-b` otherwise.
pub fn format_page_range(start: u32, end: u32) -> (s: String)
    ensures
        s@ == run_text((start, end)),
{
    let run = (start, end);
    let mut s = dec_string(run.0 as u64);
    if run.0 != run.1 {
        let b = dec_string(run.1 as u64);
        s.append("-");
        s.append(b.as_str());
        proof {
            reveal_strlit("-");
        }
        assert(s@ =~= dec(run.0 as nat) + seq!['-'] + dec(run.1 as nat));
    }
    s
}

/// The normal text of an increasing page list, such as `1-3,5,7-8`.
pub fn format_page_list(pages: &[u32]) -> (s: String)
    ensures
        s@ == ranges_text(pages@),
{
    let runs = runs_of(pages);
    let ghost texts = run_texts(runs@);
    let mut s = String::new();
    let mut k: usize = 0;
    while k < runs.len()
        invariant
            k <= runs@.len(),
            texts == run_texts(runs@),
            s@ == join_comma(texts.take(k as int)),
        decreases runs@.len() - k,
    {
        let piece = format_page_range(runs[k].0, runs[k].1);
        assert(texts.take(k + 1).drop_last() =~= texts.take(k as int));
        if k > 0 {
            s.append(",");
            proof {
                reveal_strlit(",");
            }
        }
        s.append(piece.as_str());
        assert(s@ =~= join_comma(texts.take(k + 1)));
        k = k + 1;
    }
    assert(texts.take(runs@.len() as int) =~= texts);
    s
}

/// The pages that a custom list names, as a set.
pub fn parse_custom_pages(total_pages: u32, input: &str) -> (r: Result<BTreeSet<u32>, AppError>)
    ensures
        match custom_pages_spec(total_pages, input@) {
            Ok(s) => r matches Ok(set) && set@ == s,
            Err(m) => r is Err && is_bad_request(r->Err_0, m),
        },
{
    proof {
        crate::ordered_sets::lemma_u32_keys_ordered();
    }
    let chars = chars_of(input);
    let list = match custom_page_list(total_pages, chars.as_slice()) {
        Ok(list) => list,
        Err(e) => return Err(e),
    };
    let mut set: BTreeSet<u32> = BTreeSet::new();
    let mut i: usize = 0;
    while i < list.len()
        invariant
            i <= list@.len(),
            forall|p: u32| set@.contains(p) <==> exists|j: int| 0 <= j < i && #[trigger] list@[j] == p,
        decreases list@.len() - i,
    {
        let page = list[i];
        set.insert(page);
        assert forall|p: u32| set@.contains(p) <==> exists|j: int| 0 <= j < i + 1 && #[trigger] list@[j] == p by {
            if p == page {
                assert(list@[i as int] == p);
            }
        }
        i += 1;
    }
    assert(set@ =~= list@.to_set()) by {
        assert forall|p: u32| list@.to_set().contains(p) implies set@.contains(p) by {
            let j = choose|j: int| 0 <= j < list@.len() && list@[j] == p;
            assert(list@[j] == p);
        }
    }
    Ok(set)
}

/// The normal text of a set of pages, such as `1-3,5,7-8`: its pages in
/// increasing order, written as runs.
pub fn format_page_ranges(pages: &BTreeSet<u32>) -> (s: String)
    ensures
        s@ == ranges_text(ascending(pages@)),
{
    proof {
        crate::ordered_sets::lemma_u32_keys_ordered();
    }
    let mut list: Vec<u32> = Vec::new();
    for page in it: pages.iter()
        invariant
            list@.len() == it.index(),
            forall|j: int| 0 <= j < it.index() ==> list@[j] == *it.seq()[j],
    {
        list.push(*page);
    }
    let ghost keys = spec_btree_keys_iter(pages).remaining();
    proof {
        crate::ordered_sets::lemma_set_iteration_increasing(pages);
    }
    assert(list@ =~= keys.map_values(|k: &u32| *k));
    assert(increasing(list@));
    assert(list@.to_set() =~= pages@) by {
        assert forall|p: u32| pages@.contains(p) implies list@.to_set().contains(p) by {
            assert(keys.unref().to_set().contains(p));
            let j = choose|j: int| 0 <= j < keys.unref().len() && keys.unref()[j] == p;
            assert(list@[j] == p);
        }
        assert forall|p: u32| list@.to_set().contains(p) implies pages@.contains(p) by {
            let j = choose|j: int| 0 <= j < list@.len() && list@[j] == p;
            assert(keys.unref()[j] == p);
            assert(keys.unref().to_set().contains(p));
        }
    }
    proof {
        lemma_ascending(list@, pages@);
    }
    format_page_list(list.as_slice())
}

/// The outcome of normalizing a custom list for a document of `total` pages:
/// `custom:` followed by the normal text of the pages it names.
pub open spec fn normalize_spec(total: i64, input: Seq<char>) -> Result<Seq<char>, Seq<char>> {
    let t: int = if total < 1 { 1 } else { total as int };
    if t > u32::MAX {
        Err(msg_total_too_large())
    } else {
        match custom_pages_spec(t as u32, input) {
            Err(e) => Err(e),
            Ok(s) => Ok("custom:"@ + ranges_text(ascending(s))),
        }
    }
}

/// Checks a custom page list against a document of `total` pages and gives
/// its normal form, `custom:` followed by the comma-separated runs.
pub fn normalize_custom_page_range(total: i64, input: &str) -> (r: Result<String, AppError>)
    ensures
        match normalize_spec(total, input@) {
            Ok(t) => r matches Ok(s) && s@ == t,
            Err(m) => r is Err && is_bad_request(r->Err_0, m),
        },
{
    let t: i64 = if total < 1 { 1 } else { total };
    if t > 0xFFFF_FFFF {
        return Err(AppError::BadRequest(crate::text::owned("文件页数超出支持范围")));
    }
    let chars = chars_of(input);
    match custom_page_list(t as u32, chars.as_slice()) {
        Err(e) => Err(e),
        Ok(pages) => {
            proof {
                lemma_ascending(pages@, custom_pages_spec(t as u32, input@)->Ok_0);
            }
            let text = format_page_list(pages.as_slice());
            let mut r = crate::text::owned("custom:");
            r.append(text.as_str());
            Ok(r)
        },
    }
}

// ----- page selections -----

/// Whether `s` begins with `prefix`.
pub open spec fn has_prefix(s: Seq<char>, prefix: Seq<char>) -> bool {
    s.len() >= prefix.len() && s.take(prefix.len() as int) == prefix
}

/// The custom list that follows `custom:` in a selection.
pub open spec fn custom_part(sel: Seq<char>) -> Seq<char> {
    sel.skip("custom:"@.len() as int)
}

/// The pages of `1..=total` whose number has the given remainder mod 2.
pub open spec fn parity_pages(total: u32, rem: u32) -> Set<u32> {
    Set::new(|p: u32| 1 <= p && p <= total && p % 2 == rem)
}

/// The pages that a selection keeps of a document of `total` pages.
pub open spec fn selection_spec(total: u32, sel: Seq<char>) -> Result<Set<u32>, Seq<char>> {
    if sel == "all"@ {
        Ok(page_span(1, total))
    } else if sel == "odd"@ {
        Ok(parity_pages(total, 1))
    } else if sel == "even"@ {
        Ok(parity_pages(total, 0))
    } else if has_prefix(sel, "custom:"@) {
        custom_pages_spec(total, custom_part(sel))
    } else {
        Err(msg_bad_selection())
    }
}

/// The number of pages that a selection keeps of a document of `total`
/// pages (a count below one is taken as one page).
pub open spec fn selected_count_spec(total: i64, sel: Seq<char>) -> Result<i64, Seq<char>> {
    let t: int = if total < 1 { 1 } else { total as int };
    let count: Result<int, Seq<char>> = if sel == "all"@ {
        Ok(t)
    } else if sel == "odd"@ {
        Ok((t + 1) / 2)
    } else if sel == "even"@ {
        Ok(t / 2)
    } else if has_prefix(sel, "custom:"@) {
        if t > u32::MAX {
            Err(msg_total_too_large())
        } else {
            match custom_pages_spec(t as u32, custom_part(sel)) {
                Err(e) => Err(e),
                Ok(s) => Ok(s.len() as int),
            }
        }
    } else {
        Err(msg_bad_selection())
    };
    match count {
        Err(e) => Err(e),
        Ok(n) => if n == 0 {
            Err(msg_nothing_selected())
        } else {
            Ok(n as i64)
        },
    }
}

/// The pages to remove from a document of `total` pages so that only the
/// selected ones remain, in increasing order.
pub open spec fn pages_to_delete_spec(total: u32, sel: Seq<char>) -> Result<Seq<u32>, Seq<char>> {
    if total == 0 {
        Err(msg_no_pdf_pages())
    } else {
        match selection_spec(total, sel) {
            Err(e) => Err(e),
            Ok(s) => {
                let d = ascending(page_span(1, total).difference(s));
                if d.len() == total {
                    Err(msg_nothing_selected())
                } else {
                    Ok(d)
                }
            },
        }
    }
}

/// The `k`-th member of an increasing list of positive numbers is at least `k + 1`.
proof fn lemma_increasing_lower_bound(q: Seq<u32>, k: int)
    requires
        increasing(q),
        forall|i: int| 0 <= i < q.len() ==> q[i] >= 1,
        0 <= k < q.len(),
    ensures
        q[k] >= k + 1,
    decreases k,
{
    if k > 0 {
        lemma_increasing_lower_bound(q, k - 1);
        assert(q[k - 1] < q[k]);
    }
}

/// An increasing list has no repeated member, so it is as long as its set is large.
proof fn lemma_increasing_len(q: Seq<u32>)
    requires
        increasing(q),
    ensures
        q.no_duplicates(),
        q.to_set().len() == q.len(),
        q.to_set().finite(),
{
    assert forall|i: int, j: int| 0 <= i < q.len() && 0 <= j < q.len() && i != j implies q[i] != q[j] by {
        if i < j {
            assert(q[i] < q[j]);
        } else {
            assert(q[j] < q[i]);
        }
    }
    q.unique_seq_to_set();
    vstd::seq_lib::seq_to_set_is_finite(q);
}

/// The kind of a selection, read from its text.
enum Selection {
    All,
    Odd,
    Even,
    Custom,
    Unknown,
}

/// Reads the kind of a selection.
fn selection_kind(sel: &[char]) -> (k: Selection)
    ensures
        k is All <==> sel@ == "all"@,
        k is Odd <==> (sel@ != "all"@ && sel@ == "odd"@),
        k is Even <==> (sel@ != "all"@ && sel@ != "odd"@ && sel@ == "even"@),
        k is Custom <==> (sel@ != "all"@ && sel@ != "odd"@ && sel@ != "even"@ && has_prefix(sel@, "custom:"@)),
{
    let all = chars_of("all");
    let odd = chars_of("odd");
    let even = chars_of("even");
    let custom = chars_of("custom:");
    if chars_equal(sel, all.as_slice()) {
        Selection::All
    } else if chars_equal(sel, odd.as_slice()) {
        Selection::Odd
    } else if chars_equal(sel, even.as_slice()) {
        Selection::Even
    } else if crate::text::matches_at(sel, custom.as_slice(), 0) {
        assert(sel@.subrange(0, custom@.len() as int) =~= sel@.take(custom@.len() as int));
        Selection::Custom
    } else {
        proof {
            if has_prefix(sel@, "custom:"@) {
                assert(sel@.subrange(0, custom@.len() as int) =~= sel@.take(custom@.len() as int));
            }
        }
        Selection::Unknown
    }
}

/// The characters after `custom:` in a selection that starts with it.
fn custom_suffix(sel: &[char]) -> (r: Vec<char>)
    requires
        has_prefix(sel@, "custom:"@),
    ensures
        r@ == custom_part(sel@),
{
    let custom = chars_of("custom:");
    let mut r: Vec<char> = Vec::new();
    let mut i: usize = custom.len();
    while i < sel.len()
        invariant
            custom@.len() <= i <= sel@.len(),
            custom@ == "custom:"@,
            r@ == sel@.subrange(custom@.len() as int, i as int),
        decreases sel@.len() - i,
    {
        r.push(sel[i]);
        assert(sel@.subrange(custom@.len() as int, i + 1) =~= r@);
        i = i + 1;
    }
    assert(sel@.subrange(custom@.len() as int, sel@.len() as int) =~= custom_part(sel@));
    r
}

/// The number of pages that a selection keeps of a document of `total`
/// pages: all, the odd ones, the even ones, or the pages of a custom list.
pub fn selected_page_count(total: i64, odd_even: &str) -> (r: Result<i64, AppError>)
    requires
        odd_even@ == "odd"@ ==> total < i64::MAX,
    ensures
        match selected_count_spec(total, odd_even@) {
            Ok(n) => r == Ok::<i64, AppError>(n),
            Err(m) => r is Err && is_bad_request(r->Err_0, m),
        },
{
    let t: i64 = if total < 1 { 1 } else { total };
    let sel = chars_of(odd_even);
    let selected: i64 = match selection_kind(sel.as_slice()) {
        Selection::All => t,
        Selection::Odd => (t + 1) / 2,
        Selection::Even => t / 2,
        Selection::Custom => {
            if t > 0xFFFF_FFFF {
                return Err(AppError::BadRequest(crate::text::owned("文件页数超出支持范围")));
            }
            let list = custom_suffix(sel.as_slice());
            match custom_page_list(t as u32, list.as_slice()) {
                Err(e) => return Err(e),
                Ok(pages) => {
                    proof {
                        lemma_custom_pages_in_range(t as u32, list@);
                        lemma_increasing_len(pages@);
                        if pages@.len() > 0 {
                            assert forall|i: int| 0 <= i < pages@.len() implies pages@[i] >= 1 by {
                                assert(pages@.to_set().contains(pages@[i]));
                            }
                            lemma_increasing_lower_bound(pages@, pages@.len() - 1);
                            assert(pages@.to_set().contains(pages@.last()));
                        }
                    }
                    pages.len() as i64
                },
            }
        },
        Selection::Unknown => {
            return Err(AppError::BadRequest(
                crate::text::owned("页码范围必须是全部页、奇数页、偶数页或自定义页码"),
            ));
        },
    };
    if selected == 0 {
        Err(AppError::BadRequest(crate::text::owned("所选页码中没有可打印页面")))
    } else {
        Ok(selected)
    }
}

/// The pages of `1..=total` with the given remainder mod 2, in increasing order.
fn pages_with_parity(total: u32, rem: u32) -> (d: Vec<u32>)
    requires
        rem < 2,
    ensures
        enumerates(d@, parity_pages(total, rem)),
{
    let mut d: Vec<u32> = Vec::new();
    let mut p: u64 = 1;
    while p <= total as u64
        invariant
            1 <= p <= total as u64 + 1,
            rem < 2,
            increasing(d@),
            forall|k: int| 0 <= k < d@.len() ==> d@[k] < p,
            d@.to_set() == Set::new(|q: u32| 1 <= q && q < p && q % 2 == rem),
        decreases total as u64 + 1 - p,
    {
        let ghost before = d@;
        if (p as u32) % 2 == rem {
            d.push(p as u32);
        }
        assert(d@.to_set() =~= Set::new(|q: u32| 1 <= q && q < p + 1 && q % 2 == rem)) by {
            assert forall|q: u32| d@.to_set().contains(q) <==> (1 <= q && q < p + 1 && q % 2 == rem) by {
                if d@.to_set().contains(q) {
                    let k = choose|k: int| 0 <= k < d@.len() && d@[k] == q;
                    if k < before.len() {
                        assert(before.to_set().contains(before[k]));
                    }
                }
                if 1 <= q && q < p + 1 && q % 2 == rem {
                    if q < p {
                        assert(before.to_set().contains(q));
                        let k = choose|k: int| 0 <= k < before.len() && before[k] == q;
                        assert(d@[k] == q);
                    } else {
                        assert(d@[d@.len() - 1] == q);
                    }
                }
            }
        }
        p = p + 1;
    }
    assert(d@.to_set() =~= parity_pages(total, rem));
    d
}

/// The pages of `1..=total` that the increasing list `keep` leaves out, in
/// increasing order.
fn complement_pages(total: u32, keep: &[u32]) -> (d: Vec<u32>)
    requires
        increasing(keep@),
        forall|k: int| 0 <= k < keep@.len() ==> 1 <= #[trigger] keep@[k],
    ensures
        enumerates(d@, page_span(1, total).difference(keep@.to_set())),
{
    let mut d: Vec<u32> = Vec::new();
    let mut j: usize = 0;
    let mut p: u64 = 1;
    while p <= total as u64
        invariant
            1 <= p <= total as u64 + 1,
            j <= keep@.len(),
            increasing(keep@),
            forall|k: int| 0 <= k < j ==> keep@[k] < p,
            forall|k: int| j <= k < keep@.len() ==> keep@[k] >= p,
            increasing(d@),
            forall|k: int| 0 <= k < d@.len() ==> d@[k] < p,
            d@.to_set() == Set::new(|q: u32| 1 <= q && q < p && !keep@.to_set().contains(q)),
        decreases total as u64 + 1 - p,
    {
        let ghost before = d@;
        let ghost j0 = j;
        let kept = j < keep.len() && keep[j] as u64 == p;
        if kept {
            j = j + 1;
        } else {
            d.push(p as u32);
        }
        proof {
            assert forall|k: int| j <= k < keep@.len() implies keep@[k] >= p + 1 by {
                if kept {
                    assert(keep@[j0 as int] < keep@[k]);
                } else if k == j0 {
                } else {
                    assert(keep@[j0 as int] < keep@[k]);
                }
            }
            assert forall|q: u32| d@.to_set().contains(q) <==> (1 <= q && q < p + 1 && !keep@.to_set().contains(q)) by {
                if d@.to_set().contains(q) {
                    let k = choose|k: int| 0 <= k < d@.len() && d@[k] == q;
                    if k < before.len() {
                        assert(before.to_set().contains(before[k]));
                    } else {
                        assert(q == p);
                        if keep@.to_set().contains(q) {
                            let m = choose|m: int| 0 <= m < keep@.len() && keep@[m] == q;
                            if m < j0 {
                            } else if m > j0 {
                                assert(keep@[j0 as int] < keep@[m]);
                            }
                        }
                    }
                }
                if 1 <= q && q < p + 1 && !keep@.to_set().contains(q) {
                    if q < p {
                        assert(before.to_set().contains(q));
                        let k = choose|k: int| 0 <= k < before.len() && before[k] == q;
                        assert(d@[k] == q);
                    } else {
                        if kept {
                            assert(keep@.to_set().contains(keep@[j0 as int]));
                        }
                        assert(d@[d@.len() - 1] == q);
                    }
                }
            }
        }
        assert(d@.to_set() =~= Set::new(|q: u32| 1 <= q && q < p + 1 && !keep@.to_set().contains(q)));
        p = p + 1;
    }
    assert(d@.to_set() =~= page_span(1, total).difference(keep@.to_set()));
    d
}

/// The pages to remove from a document of `total_pages` pages so that only the
/// selected ones remain, in increasing order.
pub fn pages_to_delete(total_pages: u32, odd_even: &str) -> (r: Result<Vec<u32>, AppError>)
    ensures
        match pages_to_delete_spec(total_pages, odd_even@) {
            Ok(d) => r matches Ok(v) && v@ == d,
            Err(m) => r is Err && is_bad_request(r->Err_0, m),
        },
{
    if total_pages == 0 {
        return Err(AppError::BadRequest(crate::text::owned("preview PDF has no pages")));
    }
    let sel = chars_of(odd_even);
    let delete: Vec<u32> = match selection_kind(sel.as_slice()) {
        Selection::All => {
            let d: Vec<u32> = Vec::new();
            assert(d@.to_set() =~= page_span(1, total_pages).difference(page_span(1, total_pages)));
            d
        },
        Selection::Odd => {
            let d = pages_with_parity(total_pages, 0);
            assert(parity_pages(total_pages, 0) =~= page_span(1, total_pages).difference(parity_pages(total_pages, 1)));
            d
        },
        Selection::Even => {
            let d = pages_with_parity(total_pages, 1);
            assert(parity_pages(total_pages, 1) =~= page_span(1, total_pages).difference(parity_pages(total_pages, 0)));
            d
        },
        Selection::Custom => {
            let list = custom_suffix(sel.as_slice());
            match custom_page_list(total_pages, list.as_slice()) {
                Err(e) => return Err(e),
                Ok(pages) => {
                    proof {
                        lemma_custom_pages_in_range(total_pages, list@);
                        assert forall|k: int| 0 <= k < pages@.len() implies 1 <= #[trigger] pages@[k] by {
                            assert(pages@.to_set().contains(pages@[k]));
                        }
                    }
                    complement_pages(total_pages, pages.as_slice())
                },
            }
        },
        Selection::Unknown => {
            return Err(AppError::BadRequest(
                crate::text::owned("页码范围必须是全部页、奇数页、偶数页或自定义页码"),
            ));
        },
    };
    proof {
        let s = selection_spec(total_pages, odd_even@)->Ok_0;
        lemma_ascending(delete@, page_span(1, total_pages).difference(s));
    }
    if delete.len() == total_pages as usize {
        Err(AppError::BadRequest(crate::text::owned("所选页码中没有可打印页面")))
    } else {
        Ok(delete)
    }
}

} // verus!
