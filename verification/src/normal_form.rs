//! Why the normal form of a custom page list can be stored in place of what
//! the user typed: read back, it names the same pages.
use vstd::prelude::*;

use crate::number::{all_digits, dec, is_digit, parse_u32_spec, strip_plus};
use crate::pages::{
    add_token, add_tokens, ascending, custom_part, custom_pages_spec, enumerates, has_prefix, increasing,
    lemma_custom_pages_in_range, normalize_spec, pages_to_delete_spec, parity_pages, selected_count_spec, selection_spec, join_comma, page_runs, page_span, page_tokens, parse_page_spec,
    ranges_text, run_text, run_texts,
};
use crate::text::{in_class, is_whitespace, CharClass};

verus! {

/// The decimal text of a page number reads back as that number.
proof fn lemma_parse_dec(n: u32)
    ensures
        parse_u32_spec(dec(n as nat)) == Some(n),
{
    crate::number::lemma_dec(n as nat);
    let d = dec(n as nat);
    assert(is_digit(d[0]));
    assert(strip_plus(d) == d);
}

/// Whether no character of `s` belongs to class `k`.
pub open spec fn free_of(s: Seq<char>, k: CharClass) -> bool {
    forall|i: int| 0 <= i < s.len() ==> !in_class(k, #[trigger] s[i])
}

/// A string of digits holds no page separator and no dash.
proof fn lemma_digits_free(s: Seq<char>)
    requires
        all_digits(s),
    ensures
        free_of(s, CharClass::PageSeparator),
        free_of(s, CharClass::Dash),
{
    assert forall|i: int| 0 <= i < s.len() implies !in_class(CharClass::PageSeparator, #[trigger] s[i]) by {
        assert(is_digit(s[i]));
        assert(!is_whitespace(s[i]));
    }
    assert forall|i: int| 0 <= i < s.len() implies !in_class(CharClass::Dash, #[trigger] s[i]) by {
        assert(is_digit(s[i]));
    }
}

/// A text without separators splits into itself alone.
proof fn lemma_split_plain(s: Seq<char>, k: CharClass)
    requires
        free_of(s, k),
    ensures
        crate::text::split_by(s, k) == seq![s],
    decreases s.len(),
{
    if s.len() > 0 {
        assert(free_of(s.drop_last(), k)) by {
            assert forall|i: int| 0 <= i < s.drop_last().len() implies !in_class(k, #[trigger] s.drop_last()[i]) by {
                assert(s.drop_last()[i] == s[i]);
            }
        }
        lemma_split_plain(s.drop_last(), k);
        assert(!in_class(k, s[s.len() - 1]));
        assert(s.drop_last().push(s.last()) =~= s);
        let pieces = crate::text::split_by(s.drop_last(), k);
        assert(pieces.last() == s.drop_last());
        assert(crate::text::split_by(s, k) == pieces.update(pieces.len() - 1, pieces.last().push(s.last())));
        assert(seq![s.drop_last()].update(0, s.drop_last().push(s.last())) =~= seq![s]);
    } else {
        assert(s =~= Seq::<char>::empty());
    }
}

/// Splitting a text that ends with a separator and then a piece without
/// separators gives the pieces before the separator, then that piece.
proof fn lemma_split_after_sep(x: Seq<char>, c: char, s: Seq<char>, k: CharClass)
    requires
        in_class(k, c),
        free_of(s, k),
    ensures
        crate::text::split_by(x + seq![c] + s, k) == crate::text::split_by(x, k).push(s),
    decreases s.len(),
{
    if s.len() == 0 {
        assert(x + seq![c] + s =~= x.push(c));
        assert((x + seq![c] + s).drop_last() =~= x);
        assert((x + seq![c] + s).last() == c);
        assert(s =~= Seq::<char>::empty());
    } else {
        assert(free_of(s.drop_last(), k)) by {
            assert forall|i: int| 0 <= i < s.drop_last().len() implies !in_class(k, #[trigger] s.drop_last()[i]) by {
                assert(s.drop_last()[i] == s[i]);
            }
        }
        lemma_split_after_sep(x, c, s.drop_last(), k);
        let whole = x + seq![c] + s;
        assert(whole.drop_last() =~= x + seq![c] + s.drop_last());
        assert(whole.last() == s.last());
        assert(!in_class(k, s[s.len() - 1]));
        assert(s.drop_last().push(s.last()) =~= s);
        let before = crate::text::split_by(x, k);
        let pieces = crate::text::split_by(whole.drop_last(), k);
        assert(pieces == before.push(s.drop_last()));
        assert(pieces.last() == s.drop_last());
        assert(crate::text::split_by(whole, k) == pieces.update(pieces.len() - 1, pieces.last().push(whole.last())));
        assert(before.push(s.drop_last()).update(before.len() as int, s.drop_last().push(s.last())) =~= before.push(s));
    }
}

/// The text of a run is non-empty and holds no page separator.
proof fn lemma_run_text(run: (u32, u32))
    ensures
        run_text(run).len() >= 1,
        free_of(run_text(run), CharClass::PageSeparator),
{
    crate::number::lemma_dec(run.0 as nat);
    crate::number::lemma_dec(run.1 as nat);
    lemma_digits_free(dec(run.0 as nat));
    lemma_digits_free(dec(run.1 as nat));
    if run.0 != run.1 {
        let t = run_text(run);
        let a = dec(run.0 as nat);
        let b = dec(run.1 as nat);
        assert(t == a + seq!['-'] + b);
        assert forall|i: int| 0 <= i < t.len() implies !in_class(CharClass::PageSeparator, #[trigger] t[i]) by {
            if i < a.len() {
                assert(t[i] == a[i]);
            } else if i == a.len() {
                assert(t[i] == '-');
                assert(!is_whitespace('-'));
            } else {
                assert(t[i] == b[i - a.len() - 1]);
            }
        }
    }
}

/// Pieces without separators, joined by commas, split back into the same
/// pieces.
proof fn lemma_split_join(parts: Seq<Seq<char>>)
    requires
        parts.len() >= 1,
        forall|i: int| 0 <= i < parts.len() ==> free_of(#[trigger] parts[i], CharClass::PageSeparator),
    ensures
        crate::text::split_by(join_comma(parts), CharClass::PageSeparator) == parts,
    decreases parts.len(),
{
    if parts.len() == 1 {
        lemma_split_plain(parts[0], CharClass::PageSeparator);
        assert(seq![parts[0]] =~= parts);
    } else {
        let init = parts.drop_last();
        assert forall|i: int| 0 <= i < init.len() implies free_of(#[trigger] init[i], CharClass::PageSeparator) by {
            assert(init[i] == parts[i]);
        }
        lemma_split_join(init);
        assert(free_of(parts[parts.len() - 1], CharClass::PageSeparator));
        assert(in_class(CharClass::PageSeparator, ','));
        lemma_split_after_sep(join_comma(init), ',', parts.last(), CharClass::PageSeparator);
        assert(init.push(parts.last()) =~= parts);
    }
}

/// Keeping the non-empty pieces of non-empty pieces keeps them all.
proof fn lemma_non_empty_all(parts: Seq<Seq<char>>)
    requires
        forall|i: int| 0 <= i < parts.len() ==> (#[trigger] parts[i]).len() > 0,
    ensures
        crate::text::non_empty(parts) == parts,
    decreases parts.len(),
{
    if parts.len() > 0 {
        let init = parts.drop_last();
        assert forall|i: int| 0 <= i < init.len() implies (#[trigger] init[i]).len() > 0 by {
            assert(init[i] == parts[i]);
        }
        lemma_non_empty_all(init);
        assert(parts[parts.len() - 1].len() > 0);
        assert(init.push(parts.last()) =~= parts);
    }
}

/// The tokens of the normal text of some runs are the texts of the runs.
proof fn lemma_tokens_of_runs(runs: Seq<(u32, u32)>)
    ensures
        page_tokens(join_comma(run_texts(runs))) == run_texts(runs),
{
    let texts = run_texts(runs);
    assert forall|i: int| 0 <= i < texts.len() implies free_of(#[trigger] texts[i], CharClass::PageSeparator) && texts[i].len() > 0 by {
        lemma_run_text(runs[i]);
    }
    if texts.len() == 0 {
        assert(join_comma(texts) == Seq::<char>::empty());
        assert(crate::text::split_by(Seq::<char>::empty(), CharClass::PageSeparator) == seq![Seq::<char>::empty()]);
        let one = seq![Seq::<char>::empty()];
        assert(one.drop_last() =~= Seq::<Seq<char>>::empty());
        assert(crate::text::non_empty(one) == crate::text::non_empty(Seq::<Seq<char>>::empty()));
        assert(texts =~= Seq::<Seq<char>>::empty());
    } else {
        lemma_split_join(texts);
        lemma_non_empty_all(texts);
    }
}

/// Whether runs of pages lie in `1..=total`, each from its first to its last
/// page, and each wholly before the next.
pub open spec fn well_spaced(runs: Seq<(u32, u32)>, total: u32) -> bool {
    &&& forall|i: int| 0 <= i < runs.len() ==> 1 <= (#[trigger] runs[i]).0 && runs[i].0 <= runs[i].1 && runs[i].1 <= total
    &&& forall|i: int, j: int| 0 <= i < j < runs.len() ==> (#[trigger] runs[i]).1 < (#[trigger] runs[j]).0
}

/// The pages that some runs cover.
pub open spec fn runs_union(runs: Seq<(u32, u32)>) -> Set<u32>
    decreases runs.len(),
{
    if runs.len() == 0 {
        Set::empty()
    } else {
        runs_union(runs.drop_last()).union(page_span(runs.last().0, runs.last().1))
    }
}

/// The pages that well-spaced runs cover are at most the last run's end.
proof fn lemma_runs_union_below(runs: Seq<(u32, u32)>, total: u32)
    requires
        well_spaced(runs, total),
        runs.len() > 0,
    ensures
        forall|p: u32| #[trigger] runs_union(runs).contains(p) ==> p <= runs.last().1,
    decreases runs.len(),
{
    let init = runs.drop_last();
    if init.len() > 0 {
        assert(well_spaced(init, total)) by {
            assert forall|i: int| 0 <= i < init.len() implies 1 <= (#[trigger] init[i]).0 && init[i].0 <= init[i].1 && init[i].1 <= total by {
                assert(init[i] == runs[i]);
            }
            assert forall|i: int, j: int| 0 <= i < j < init.len() implies (#[trigger] init[i]).1 < (#[trigger] init[j]).0 by {
                assert(init[i] == runs[i]);
                assert(init[j] == runs[j]);
            }
        }
        lemma_runs_union_below(init, total);
        assert(init.last() == runs[runs.len() - 2]);
        assert(runs[runs.len() - 2].1 < runs[runs.len() - 1].0);
    }
    let last = runs[runs.len() - 1];
    assert(last.0 <= last.1);
    assert(runs_union(runs) == runs_union(init).union(page_span(last.0, last.1)));
    assert forall|p: u32| #[trigger] runs_union(runs).contains(p) implies p <= runs.last().1 by {
        if runs_union(init).contains(p) {
            if init.len() == 0 {
                assert(runs_union(init) == Set::<u32>::empty());
            }
        }
    }
}

/// The maximal runs of an increasing list of pages in `1..=total` are well
/// spaced and cover exactly its pages; the last one ends at its last page.
proof fn lemma_page_runs(q: Seq<u32>, total: u32)
    requires
        increasing(q),
        forall|i: int| 0 <= i < q.len() ==> 1 <= #[trigger] q[i] && q[i] <= total,
    ensures
        well_spaced(page_runs(q), total),
        runs_union(page_runs(q)) == q.to_set(),
        q.len() == 0 <==> page_runs(q).len() == 0,
        q.len() > 0 ==> page_runs(q).last().1 == q.last(),
    decreases q.len(),
{
    if q.len() == 0 {
        assert(q.to_set() =~= Set::<u32>::empty());
    } else {
        let init = q.drop_last();
        let x = q.last();
        assert forall|i: int| 0 <= i < init.len() implies 1 <= #[trigger] init[i] && init[i] <= total by {
            assert(init[i] == q[i]);
        }
        assert(increasing(init)) by {
            assert forall|i: int, j: int| 0 <= i < j < init.len() implies init[i] < init[j] by {
                assert(init[i] == q[i]);
                assert(init[j] == q[j]);
            }
        }
        lemma_page_runs(init, total);
        let r = page_runs(init);
        let n = r.len();
        assert(q.to_set() =~= init.to_set().insert(x)) by {
            assert forall|p: u32| q.to_set().contains(p) implies init.to_set().insert(x).contains(p) by {
                let i = choose|i: int| 0 <= i < q.len() && q[i] == p;
                if i < q.len() - 1 {
                    assert(init[i] == p);
                }
            }
            assert forall|p: u32| init.to_set().insert(x).contains(p) implies q.to_set().contains(p) by {
                if p != x {
                    let i = choose|i: int| 0 <= i < init.len() && init[i] == p;
                    assert(q[i] == p);
                } else {
                    assert(q[q.len() - 1] == x);
                }
            }
        }
        assert(1 <= x && x <= total);
        if n > 0 {
            assert(init.last() == q[q.len() - 2]);
            assert(q[q.len() - 2] < q[q.len() - 1]);
            assert(r.last().1 < x);
        }
        if n > 0 && r.last().1 as int + 1 == x as int {
            let nr = r.update(n - 1, (r.last().0, x));
            assert(page_runs(q) == nr);
            assert forall|i: int| 0 <= i < nr.len() implies 1 <= (#[trigger] nr[i]).0 && nr[i].0 <= nr[i].1 && nr[i].1 <= total by {
                if i < n - 1 {
                    assert(nr[i] == r[i]);
                }
            }
            assert forall|i: int, j: int| 0 <= i < j < nr.len() implies (#[trigger] nr[i]).1 < (#[trigger] nr[j]).0 by {
                assert(nr[i] == r[i]);
                assert(r[i].1 < r[j].0);
            }
            assert(nr.drop_last() =~= r.drop_last());
            let s0 = r.last().0;
            assert(page_span(s0, x) =~= page_span(s0, r.last().1).insert(x));
            assert(runs_union(nr) =~= runs_union(r).insert(x));
        } else {
            let nr = r.push((x, x));
            assert(page_runs(q) == nr);
            if n > 0 {
                lemma_runs_union_below(r, total);
            }
            assert forall|i: int| 0 <= i < nr.len() implies 1 <= (#[trigger] nr[i]).0 && nr[i].0 <= nr[i].1 && nr[i].1 <= total by {
                if i < n {
                    assert(nr[i] == r[i]);
                }
            }
            assert forall|i: int, j: int| 0 <= i < j < nr.len() implies (#[trigger] nr[i]).1 < (#[trigger] nr[j]).0 by {
                assert(nr[i] == r[i]);
                if j < n {
                    assert(nr[j] == r[j]);
                } else {
                    if i < n - 1 {
                        assert(r[i].1 < r[n - 1].0);
                    }
                    assert(r[i].1 <= r[n - 1].1);
                }
            }
            assert(nr.drop_last() =~= r);
            assert(page_span(x, x) =~= Set::<u32>::empty().insert(x));
            assert(runs_union(nr) =~= runs_union(r).insert(x));
        }
    }
}

/// Reading the text of a run after pages that all come before it adds the
/// run's pages.
proof fn lemma_add_run_token(acc: Set<u32>, run: (u32, u32), total: u32)
    requires
        1 <= run.0 <= run.1 <= total,
        forall|p: u32| #[trigger] acc.contains(p) ==> p < run.0,
    ensures
        add_token(acc, run_text(run), total) == Ok::<Set<u32>, Seq<char>>(acc.union(page_span(run.0, run.1))),
{
    let a = dec(run.0 as nat);
    let b = dec(run.1 as nat);
    crate::number::lemma_dec(run.0 as nat);
    crate::number::lemma_dec(run.1 as nat);
    lemma_digits_free(a);
    lemma_digits_free(b);
    lemma_parse_dec(run.0);
    lemma_parse_dec(run.1);
    lemma_split_plain(a, CharClass::Dash);
    let token = run_text(run);
    let bounds = crate::text::split_by(token, CharClass::Dash);
    if run.0 == run.1 {
        assert(bounds == seq![a]);
    } else {
        assert(token == a + seq!['-'] + b);
        lemma_split_after_sep(a, '-', b, CharClass::Dash);
        assert(bounds == seq![a].push(b));
        assert(bounds[0] == a);
        assert(bounds[1] == b);
    }
    assert(parse_page_spec(a, total) == Ok::<u32, Seq<char>>(run.0));
    assert(parse_page_spec(b, total) == Ok::<u32, Seq<char>>(run.1));
    assert(!exists|p: u32| run.0 <= p && p <= run.1 && #[trigger] acc.contains(p));
}

/// Reading the texts of well-spaced runs gives exactly the pages they
/// cover.
proof fn lemma_add_runs(runs: Seq<(u32, u32)>, total: u32)
    requires
        well_spaced(runs, total),
    ensures
        add_tokens(run_texts(runs), total) == Ok::<Set<u32>, Seq<char>>(runs_union(runs)),
    decreases runs.len(),
{
    let texts = run_texts(runs);
    if runs.len() == 0 {
        assert(texts.len() == 0);
    } else {
        let init = runs.drop_last();
        assert(well_spaced(init, total)) by {
            assert forall|i: int| 0 <= i < init.len() implies 1 <= (#[trigger] init[i]).0 && init[i].0 <= init[i].1 && init[i].1 <= total by {
                assert(init[i] == runs[i]);
            }
            assert forall|i: int, j: int| 0 <= i < j < init.len() implies (#[trigger] init[i]).1 < (#[trigger] init[j]).0 by {
                assert(init[i] == runs[i]);
                assert(init[j] == runs[j]);
            }
        }
        lemma_add_runs(init, total);
        assert(texts.drop_last() =~= run_texts(init));
        assert(texts.last() == run_text(runs.last()));
        let last = runs[runs.len() - 1];
        let acc = runs_union(init);
        if init.len() > 0 {
            lemma_runs_union_below(init, total);
            assert(init.last() == runs[runs.len() - 2]);
            assert(runs[runs.len() - 2].1 < last.0);
        } else {
            assert(acc == Set::<u32>::empty());
        }
        assert forall|p: u32| #[trigger] acc.contains(p) implies p < last.0 by {
            if init.len() > 0 {
                assert(p <= init.last().1);
            }
        }
        lemma_add_run_token(acc, last, total);
    }
}

/// The normal text of an increasing, non-empty list of pages in
/// `1..=total`, read as a custom list, names exactly those pages.
pub proof fn lemma_ranges_text_reads_back(q: Seq<u32>, total: u32)
    requires
        increasing(q),
        q.len() > 0,
        forall|i: int| 0 <= i < q.len() ==> 1 <= #[trigger] q[i] && q[i] <= total,
    ensures
        custom_pages_spec(total, ranges_text(q)) == Ok::<Set<u32>, Seq<char>>(q.to_set()),
{
    lemma_page_runs(q, total);
    let runs = page_runs(q);
    lemma_tokens_of_runs(runs);
    lemma_add_runs(runs, total);
    assert(q.to_set().contains(q[0]));
}

/// The members of `s` among `1..=k`, in increasing order.
pub open spec fn members_upto(s: Set<u32>, k: nat) -> Seq<u32>
    decreases k,
{
    if k == 0 {
        Seq::empty()
    } else {
        let before = members_upto(s, (k - 1) as nat);
        if k <= u32::MAX && s.contains(k as u32) {
            before.push(k as u32)
        } else {
            before
        }
    }
}

/// `members_upto` lists, in increasing order, exactly the members of `s` in
/// `1..=k`.
proof fn lemma_members_upto(s: Set<u32>, k: nat)
    requires
        k <= u32::MAX,
    ensures
        increasing(members_upto(s, k)),
        forall|i: int| 0 <= i < members_upto(s, k).len() ==> 1 <= #[trigger] members_upto(s, k)[i] && members_upto(s, k)[i] <= k,
        forall|p: u32| #[trigger] members_upto(s, k).to_set().contains(p) <==> (1 <= p && p <= k && s.contains(p)),
    decreases k,
{
    if k > 0 {
        let before = members_upto(s, (k - 1) as nat);
        lemma_members_upto(s, (k - 1) as nat);
        if s.contains(k as u32) {
            let now = before.push(k as u32);
            assert(now == members_upto(s, k));
            assert forall|i: int, j: int| 0 <= i < j < now.len() implies now[i] < now[j] by {
                assert(now[i] == before[i]);
                if j < before.len() {
                    assert(now[j] == before[j]);
                }
            }
            assert forall|i: int| 0 <= i < now.len() implies 1 <= #[trigger] now[i] && now[i] <= k by {
                if i < before.len() {
                    assert(now[i] == before[i]);
                }
            }
            assert forall|p: u32| #[trigger] now.to_set().contains(p) <==> (1 <= p && p <= k && s.contains(p)) by {
                if now.to_set().contains(p) {
                    let i = choose|i: int| 0 <= i < now.len() && now[i] == p;
                    if i < before.len() {
                        assert(before[i] == p);
                        assert(before.to_set().contains(p));
                    }
                }
                if 1 <= p && p <= k && s.contains(p) {
                    if p == k {
                        assert(now[before.len() as int] == p);
                    } else {
                        assert(before.to_set().contains(p));
                        let i = choose|i: int| 0 <= i < before.len() && before[i] == p;
                        assert(now[i] == p);
                    }
                }
            }
        } else {
            assert(before == members_upto(s, k));
            assert forall|p: u32| #[trigger] before.to_set().contains(p) <==> (1 <= p && p <= k && s.contains(p)) by {
                if 1 <= p && p <= k && s.contains(p) {
                    assert(p != k);
                }
            }
        }
    } else {
        assert forall|p: u32| #[trigger] members_upto(s, k).to_set().contains(p) <==> (1 <= p && p <= k && s.contains(p)) by {
            if members_upto(s, k).to_set().contains(p) {
                let i = choose|i: int| 0 <= i < members_upto(s, k).len() && members_upto(s, k)[i] == p;
            }
        }
    }
}

/// A set of pages in `1..=total` is listed in increasing order by
/// `ascending`.
proof fn lemma_ascending_exists(s: Set<u32>, total: u32)
    requires
        forall|p: u32| #[trigger] s.contains(p) ==> 1 <= p && p <= total,
    ensures
        enumerates(ascending(s), s),
{
    lemma_members_upto(s, total as nat);
    let q = members_upto(s, total as nat);
    assert(q.to_set() =~= s);
    assert(enumerates(q, s));
}

/// The number of pages that a normalized list is checked against.
pub open spec fn normalized_total(total: i64) -> u32 {
    if total < 1 {
        1
    } else {
        total as u32
    }
}

/// Storing the normal form of a custom page list loses nothing. For a
/// document of `total` pages, when a custom list normalizes, its normal form
/// is `custom:` and a list that names the same pages, the selection stored
/// with it keeps those pages, and normalizing that list again gives the same
/// normal form.
pub proof fn law_normal_form_is_stable(total: i64, input: Seq<char>)
    requires
        normalize_spec(total, input) is Ok,
    ensures
        has_prefix(normalize_spec(total, input)->Ok_0, "custom:"@),
        custom_pages_spec(normalized_total(total), custom_part(normalize_spec(total, input)->Ok_0))
            == custom_pages_spec(normalized_total(total), input),
        selection_spec(normalized_total(total), normalize_spec(total, input)->Ok_0)
            == custom_pages_spec(normalized_total(total), input),
        normalize_spec(total, custom_part(normalize_spec(total, input)->Ok_0)) == normalize_spec(total, input),
{
    let t = normalized_total(total);
    let pages = custom_pages_spec(t, input)->Ok_0;
    lemma_custom_pages_in_range(t, input);
    lemma_ascending_exists(pages, t);
    let q = ascending(pages);
    assert(q.len() > 0) by {
        let p = pages.choose();
        assert(pages.contains(p));
        assert(q.to_set().contains(p));
    }
    assert forall|i: int| 0 <= i < q.len() implies 1 <= #[trigger] q[i] && q[i] <= t by {
        assert(q.to_set().contains(q[i]));
    }
    lemma_ranges_text_reads_back(q, t);
    let s = normalize_spec(total, input)->Ok_0;
    let text = ranges_text(q);
    assert(s == "custom:"@ + text);
    assert(s.take("custom:"@.len() as int) =~= "custom:"@);
    assert(custom_part(s) =~= text);
    assert(!(s == "all"@)) by {
        reveal_strlit("all");
        reveal_strlit("custom:");
    }
    assert(!(s == "odd"@)) by {
        reveal_strlit("odd");
        reveal_strlit("custom:");
    }
    assert(!(s == "even"@)) by {
        reveal_strlit("even");
        reveal_strlit("custom:");
    }
}

/// How many members of `s` lie in `1..=k`.
pub open spec fn count_upto(s: Set<u32>, k: nat) -> nat {
    members_upto(s, k).len()
}

/// When every page of `1..=k` is in exactly one of `a` and `b`, their counts
/// up to `k` add up to `k`.
proof fn lemma_count_split(a: Set<u32>, b: Set<u32>, k: nat)
    requires
        k <= u32::MAX,
        forall|p: u32| 1 <= p && p <= k ==> (#[trigger] a.contains(p) != b.contains(p)),
    ensures
        count_upto(a, k) + count_upto(b, k) == k,
    decreases k,
{
    if k > 0 {
        lemma_count_split(a, b, (k - 1) as nat);
        assert(a.contains(k as u32) != b.contains(k as u32));
    }
}

/// All pages up to `k` of a document of at least `k` pages: `k` of them.
proof fn lemma_count_span(total: u32, k: nat)
    requires
        k <= total,
    ensures
        count_upto(page_span(1, total), k) == k,
    decreases k,
{
    if k > 0 {
        lemma_count_span(total, (k - 1) as nat);
        assert(page_span(1, total).contains(k as u32));
    }
}

/// The odd pages up to `k`: `(k + 1) / 2` of them; the even ones: `k / 2`.
proof fn lemma_count_parity(total: u32, k: nat)
    requires
        k <= total,
    ensures
        count_upto(parity_pages(total, 1), k) == (k + 1) / 2,
        count_upto(parity_pages(total, 0), k) == k / 2,
    decreases k,
{
    if k > 0 {
        lemma_count_parity(total, (k - 1) as nat);
        let p = k as u32;
        if p % 2 == 1 {
            assert(parity_pages(total, 1).contains(p));
            assert(!parity_pages(total, 0).contains(p));
        } else {
            assert(!parity_pages(total, 1).contains(p));
            assert(parity_pages(total, 0).contains(p));
        }
    }
}

/// A set of pages in `1..=total` has as many members as it has up to
/// `total`, and `ascending` lists that many.
proof fn lemma_count_is_len(s: Set<u32>, total: u32)
    requires
        forall|p: u32| #[trigger] s.contains(p) ==> 1 <= p && p <= total,
    ensures
        s.finite(),
        s.len() == count_upto(s, total as nat),
        ascending(s).len() == count_upto(s, total as nat),
        enumerates(ascending(s), s),
{
    lemma_members_upto(s, total as nat);
    let q = members_upto(s, total as nat);
    assert(q.to_set() =~= s);
    assert(q.no_duplicates()) by {
        assert forall|i: int, j: int| 0 <= i < q.len() && 0 <= j < q.len() && i != j implies q[i] != q[j] by {
            if i < j {
                assert(q[i] < q[j]);
            } else {
                assert(q[j] < q[i]);
            }
        }
    }
    q.unique_seq_to_set();
    lemma_ascending_exists(s, total);
    crate::pages::lemma_enumeration_unique(ascending(s), q);
}

/// The pages a selection keeps of a document of `total` pages lie in
/// `1..=total`.
proof fn lemma_selection_in_range(total: u32, sel: Seq<char>)
    ensures
        selection_spec(total, sel) matches Ok(s) ==> forall|p: u32| #[trigger] s.contains(p) ==> 1 <= p && p <= total,
{
    lemma_custom_pages_in_range(total, custom_part(sel));
}

/// What is printed and what is charged agree. For a document of `total`
/// pages and any selection, the page count charged against the quota is
/// given exactly when the pages to delete from the PDF are; then it counts
/// the pages that the selection keeps, the pages deleted are exactly the
/// others, listed in strictly increasing order, and the two add up to the
/// document's length.
pub proof fn law_charged_pages_are_printed(total: u32, sel: Seq<char>)
    requires
        total >= 1,
    ensures
        (selected_count_spec(total as i64, sel) is Ok) == (pages_to_delete_spec(total, sel) is Ok),
        selected_count_spec(total as i64, sel) is Ok ==> ({
            let kept = selection_spec(total, sel)->Ok_0;
            let n = selected_count_spec(total as i64, sel)->Ok_0;
            let d = pages_to_delete_spec(total, sel)->Ok_0;
            &&& selection_spec(total, sel) is Ok
            &&& n == kept.len()
            &&& increasing(d)
            &&& d.to_set() == page_span(1, total).difference(kept)
            &&& n + d.len() == total
        }),
{
    lemma_selection_in_range(total, sel);
    let t = total as nat;
    let all = page_span(1, total);
    lemma_count_span(total, t);
    lemma_count_is_len(all, total);
    match selection_spec(total, sel) {
        Err(e) => {
            if has_prefix(sel, "custom:"@) && !(sel == "all"@ || sel == "odd"@ || sel == "even"@) {
                assert(selected_count_spec(total as i64, sel) is Err);
            }
        },
        Ok(kept) => {
            let rest = all.difference(kept);
            assert forall|p: u32| #[trigger] rest.contains(p) implies 1 <= p && p <= total by {}
            lemma_count_is_len(kept, total);
            lemma_count_is_len(rest, total);
            assert forall|p: u32| 1 <= p && p <= t implies (#[trigger] kept.contains(p) != rest.contains(p)) by {
                assert(all.contains(p));
            }
            lemma_count_split(kept, rest, t);
            lemma_count_parity(total, t);
            let d = ascending(rest);
            if sel == "all"@ {
                assert(kept == all);
            } else if sel == "odd"@ {
                assert(kept == parity_pages(total, 1));
            } else if sel == "even"@ {
                assert(kept == parity_pages(total, 0));
            } else {
                assert(has_prefix(sel, "custom:"@));
                assert(!kept.is_empty());
                vstd::set_lib::lemma_set_empty_equivalency_len(kept);
                assert(kept.len() != 0);
            }
            assert(d.to_set() == rest);
        },
    }
}

/// A document without pages has no pages to delete: whatever the selection,
/// it is refused.
pub proof fn law_no_pages_is_refused(sel: Seq<char>)
    ensures
        pages_to_delete_spec(0, sel) is Err,
{
}

/// Normalizing a custom list keeps the charge: the normal form, read as a
/// selection, counts exactly the distinct pages that the list names.
pub proof fn law_normal_form_keeps_count(total: i64, input: Seq<char>)
    requires
        normalize_spec(total, input) is Ok,
    ensures
        custom_pages_spec(normalized_total(total), input) is Ok,
        custom_pages_spec(normalized_total(total), input)->Ok_0.len() >= 1,
        selected_count_spec(total, normalize_spec(total, input)->Ok_0)
            == Ok::<i64, Seq<char>>(custom_pages_spec(normalized_total(total), input)->Ok_0.len() as i64),
{
    law_normal_form_is_stable(total, input);
    let t = normalized_total(total);
    let pages = custom_pages_spec(t, input)->Ok_0;
    lemma_custom_pages_in_range(t, input);
    lemma_count_is_len(pages, t);
    let p = pages.choose();
    assert(pages.contains(p));
    vstd::set_lib::lemma_set_empty_equivalency_len(pages);
    assert(pages.len() >= 1);
    let s = normalize_spec(total, input)->Ok_0;
    assert(!(s == "all"@)) by {
        reveal_strlit("all");
        reveal_strlit("custom:");
    }
    assert(!(s == "odd"@)) by {
        reveal_strlit("odd");
        reveal_strlit("custom:");
    }
    assert(!(s == "even"@)) by {
        reveal_strlit("even");
        reveal_strlit("custom:");
    }
}

/// Whether each run of `runs` ends at least two pages before the next one
/// starts, so that no two runs could be joined.
pub open spec fn runs_apart(runs: Seq<(u32, u32)>) -> bool {
    forall|i: int| 0 <= i < runs.len() - 1 ==> (#[trigger] runs[i]).1 + 1 < runs[i + 1].0
}

/// The runs of an increasing list are apart, and the last ends at its last page.
proof fn lemma_runs_apart(q: Seq<u32>)
    requires
        increasing(q),
    ensures
        runs_apart(page_runs(q)),
        q.len() > 0 ==> page_runs(q).len() > 0 && page_runs(q).last().1 == q.last(),
    decreases q.len(),
{
    if q.len() > 0 {
        let init = q.drop_last();
        assert(increasing(init)) by {
            assert forall|i: int, j: int| 0 <= i < j < init.len() implies init[i] < init[j] by {
                assert(init[i] == q[i]);
                assert(init[j] == q[j]);
            }
        }
        lemma_runs_apart(init);
        let r = page_runs(init);
        let x = q.last();
        if r.len() > 0 && r.last().1 as int + 1 == x as int {
            let u = r.update(r.len() - 1, (r.last().0, x));
            assert(page_runs(q) == u);
            assert forall|i: int| 0 <= i < u.len() - 1 implies (#[trigger] u[i]).1 + 1 < u[i + 1].0 by {
                assert(u[i] == r[i]);
                if i + 1 < u.len() - 1 {
                    assert(u[i + 1] == r[i + 1]);
                } else {
                    assert(u[i + 1].0 == r[i + 1].0);
                }
            }
        } else {
            let u = r.push((x, x));
            assert(page_runs(q) == u);
            if r.len() > 0 {
                assert(init.last() == q[q.len() - 2]);
                assert(q[q.len() - 2] < q[q.len() - 1]);
            }
            assert forall|i: int| 0 <= i < u.len() - 1 implies (#[trigger] u[i]).1 + 1 < u[i + 1].0 by {
                assert(u[i] == r[i]);
                if i + 1 < u.len() - 1 {
                    assert(u[i + 1] == r[i + 1]);
                }
            }
        }
    }
}

/// The normal text of page ranges. For an increasing list of pages in
/// `1..=total`, the text is its maximal runs of consecutive pages joined by
/// commas, each written `a` for one page or `a-b` with `a < b`; the runs are
/// in increasing order with at least one page missing between two of them,
/// and together they cover exactly the listed pages. A non-empty text reads
/// back as those pages, and an empty list gives an empty text.
pub proof fn law_page_ranges_text(q: Seq<u32>, total: u32)
    requires
        increasing(q),
        forall|i: int| 0 <= i < q.len() ==> 1 <= #[trigger] q[i] && q[i] <= total,
    ensures
        ranges_text(q) == join_comma(run_texts(page_runs(q))),
        well_spaced(page_runs(q), total),
        runs_apart(page_runs(q)),
        runs_union(page_runs(q)) == q.to_set(),
        q.len() > 0 ==> custom_pages_spec(total, ranges_text(q)) == Ok::<Set<u32>, Seq<char>>(q.to_set()),
        q.len() == 0 ==> ranges_text(q) == Seq::<char>::empty(),
{
    lemma_page_runs(q, total);
    lemma_runs_apart(q);
    if q.len() > 0 {
        lemma_ranges_text_reads_back(q, total);
    } else {
        assert(run_texts(page_runs(q)) =~= Seq::<Seq<char>>::empty());
    }
}

} // verus!
