//! The PDF work of the platform, done with `lopdf`: counting the pages of a
//! preview, and keeping only the selected pages of a task's copy.
//!
//! A loaded document is treated as a collection of objects. What the logic
//! reads of it (the page objects in page order, and for each object the
//! `/Parent` it refers to and its `/Count`) is named over the document, and so
//! is the file written after pages are removed. Loading itself is not named:
//! `lopdf` may parse on a thread pool and merges some objects in an order that
//! is not fixed, so two loads of the same bytes need not agree.
use vstd::prelude::*;

use crate::error::{is_bad_request, is_external, AppError};
use crate::pages::{has_prefix, pages_to_delete, pages_to_delete_spec};

verus! {

/// A PDF document loaded in memory.
#[verifier::external_type_specification]
#[verifier::external_body]
pub struct ExDocument(lopdf::Document);

/// The page objects that `Document::get_pages` lists, in page-number order.
pub uninterp spec fn pdf_page_ids(document: lopdf::Document) -> Seq<(u32, u16)>;

/// For each object of the document, by identifier: the object its `/Parent`
/// entry refers to and its `/Count` integer, where it is a dictionary that
/// holds them.
pub uninterp spec fn pdf_tree_links(document: lopdf::Document) -> Map<(u32, u16), (Option<(u32, u16)>, Option<i64>)>;

/// What `Document::delete_pages` with these page numbers, then
/// `prune_objects`, `renumber_objects`, `compress` and `save_to` give for the
/// document: the bytes written, or the text of the error.
pub uninterp spec fn pdf_without_pages(document: lopdf::Document, pages: Seq<u32>) -> Result<Seq<u8>, Seq<char>>;

/// Parses a PDF held in memory with `Document::load_mem`; a failure gives the
/// text of `lopdf`'s error. Nothing is claimed of the outcome: it is not a
/// function of the bytes alone. The explicit `unwrap`s on this path take
/// mutex locks or read back digits the parser has already matched; whether
/// some malformed file makes the parser index out of range or overflow is not
/// settled here, so no input is left out.
#[verifier::external_body]
fn load_pdf(bytes: &[u8]) -> (r: Result<lopdf::Document, String>) {
    lopdf::Document::load_mem(bytes).map_err(|error| error.to_string())
}

/// The page objects of a document in page order, from `Document::get_pages`.
/// The pages are keyed by `u32` numbers, so there are at most 2^32 of them.
#[verifier::external_body]
fn page_ids(document: &lopdf::Document) -> (v: Vec<(u32, u16)>)
    ensures
        v@ == pdf_page_ids(*document),
        v@.len() <= 0x1_0000_0000,
{
    document.get_pages().into_values().collect()
}

/// One entry per object of `Document::objects`, giving what
/// `pdf_tree_links` holds for it: the `/Parent` reference and the `/Count`
/// integer of a dictionary object (`Object::as_dict`, `Dictionary::get`,
/// `Object::as_reference`, `Object::as_i64`). The objects are keyed by their
/// identifiers, so there is one entry per identifier.
#[verifier::external_body]
fn tree_links(document: &lopdf::Document) -> (v: Vec<((u32, u16), Option<(u32, u16)>, Option<i64>)>)
    ensures
        links_agree(v@, pdf_tree_links(*document)),
{
    document.objects.iter().map(|(id, object)| {
        let dict = object.as_dict().ok();
        let parent = dict.and_then(|d| d.get(b"Parent").ok()).and_then(|p| p.as_reference().ok());
        let count = dict.and_then(|d| d.get(b"Count").ok()).and_then(|c| c.as_i64().ok());
        (*id, parent, count)
    }).collect()
}

/// Removes the pages with the given numbers and writes the document out:
/// `Document::delete_pages`, `prune_objects`, `renumber_objects`, `compress`,
/// then `save_to`, whose error gives its text. `delete_pages` follows the
/// `/Parent` chain of each removed page, lowering each `/Count` on it by one,
/// with no record of what it visited; so the chains must end, and no count
/// may fall below the smallest `i64`. Page number `k` is the `k`-th page of
/// `get_pages`, as its `u32` keys are numbered while there are fewer than
/// 2^32 pages.
#[verifier::external_body]
fn rewrite_pdf(document: lopdf::Document, pages: &[u32]) -> (r: Result<Vec<u8>, String>)
    requires
        pdf_page_ids(document).len() < 0x1_0000_0000,
        deletion_settles(pdf_page_ids(document), pdf_tree_links(document), pages@),
    ensures
        match pdf_without_pages(document, pages@) {
            Ok(out) => r matches Ok(v) && v@ == out,
            Err(m) => r matches Err(s) && s@ == m,
        },
{
    let mut document = document;
    document.delete_pages(pages);
    document.prune_objects();
    document.renumber_objects();
    document.compress();
    let mut out: Vec<u8> = Vec::new();
    match document.save_to(&mut out) {
        Ok(()) => Ok(out),
        Err(error) => Err(error.to_string()),
    }
}

/// Whether the list `v` gives, entry by entry, the map `m`: each entry's
/// parent and count are those of its identifier, each identifier of `m` has
/// an entry, and there are as many entries as identifiers.
pub open spec fn links_agree(v: Seq<((u32, u16), Option<(u32, u16)>, Option<i64>)>, m: Map<(u32, u16), (Option<(u32, u16)>, Option<i64>)>) -> bool {
    &&& forall|i: int| 0 <= i < v.len() ==> m.contains_key((#[trigger] v[i]).0) && m[v[i].0] == (v[i].1, v[i].2)
    &&& forall|k: (u32, u16)| m.contains_key(k) ==> exists|i: int| 0 <= i < v.len() && (#[trigger] v[i]).0 == k
    &&& m.dom().finite()
    &&& m.dom().len() == v.len()
}

/// The object that the `/Parent` entry of `x` refers to, if it has one.
pub open spec fn link_parent(m: Map<(u32, u16), (Option<(u32, u16)>, Option<i64>)>, x: (u32, u16)) -> Option<(u32, u16)> {
    if m.contains_key(x) {
        m[x].0
    } else {
        None
    }
}

/// Whether the `/Count` of `x`, if it has one, is at least `floor`.
pub open spec fn count_at_least(m: Map<(u32, u16), (Option<(u32, u16)>, Option<i64>)>, x: (u32, u16), floor: int) -> bool {
    m.contains_key(x) && m[x].1 is Some ==> m[x].1->Some_0 >= floor
}

/// Whether the `/Parent` chain from `x` ends within `fuel` steps, each object
/// reached on it having a `/Count` of at least `floor` or none.
pub open spec fn chain_ends(m: Map<(u32, u16), (Option<(u32, u16)>, Option<i64>)>, x: (u32, u16), fuel: nat, floor: int) -> bool
    decreases fuel,
{
    match link_parent(m, x) {
        None => true,
        Some(p) => fuel > 0 && count_at_least(m, p, floor) && chain_ends(m, p, (fuel - 1) as nat, floor),
    }
}

/// Whether removing the pages numbered in `pages` from a document with page
/// objects `ids` and links `m` ends: the chain of each such page ends within
/// as many steps as there are objects, and no count on it can be lowered
/// below the smallest `i64` by one step per removed page.
pub open spec fn deletion_settles(ids: Seq<(u32, u16)>, m: Map<(u32, u16), (Option<(u32, u16)>, Option<i64>)>, pages: Seq<u32>) -> bool {
    forall|i: int| 0 <= i < pages.len() && 1 <= #[trigger] pages[i] <= ids.len()
        ==> chain_ends(m, ids[pages[i] - 1], m.dom().len(), i64::MIN + pages.len())
}

/// The position of the entry for `id` in `links`, if there is one.
fn find_link(links: &Vec<((u32, u16), Option<(u32, u16)>, Option<i64>)>, id: (u32, u16)) -> (r: Option<usize>)
    ensures
        r matches Some(i) ==> i < links@.len() && links@[i as int].0 == id,
        r is None ==> forall|i: int| 0 <= i < links@.len() ==> (#[trigger] links@[i]).0 != id,
{
    let mut i: usize = 0;
    while i < links.len()
        invariant
            i <= links@.len(),
            forall|j: int| 0 <= j < i ==> (#[trigger] links@[j]).0 != id,
        decreases links@.len() - i,
    {
        let entry = links[i].0;
        if entry.0 == id.0 && entry.1 == id.1 {
            return Some(i);
        }
        i += 1;
    }
    None
}

/// Whether the `/Count` of `x` is at least `floor`, read from `links`.
fn count_at_least_in(links: &Vec<((u32, u16), Option<(u32, u16)>, Option<i64>)>, x: (u32, u16), floor: i128, Ghost(m): Ghost<Map<(u32, u16), (Option<(u32, u16)>, Option<i64>)>>) -> (b: bool)
    requires
        links_agree(links@, m),
    ensures
        b == count_at_least(m, x, floor as int),
{
    match find_link(links, x) {
        None => {
            proof {
                if m.contains_key(x) {
                    let i = choose|i: int| 0 <= i < links@.len() && (#[trigger] links@[i]).0 == x;
                    assert(links@[i].0 != x);
                }
            }
            true
        },
        Some(i) => {
            assert(m[x] == (links@[i as int].1, links@[i as int].2));
            match links[i].2 {
                None => true,
                Some(c) => (c as i128) >= floor,
            }
        },
    }
}

/// Whether the `/Parent` chain from `start` ends within `fuel` steps with
/// every count on it at least `floor`, read from `links`.
fn chain_ends_in(links: &Vec<((u32, u16), Option<(u32, u16)>, Option<i64>)>, start: (u32, u16), fuel: usize, floor: i128, Ghost(m): Ghost<Map<(u32, u16), (Option<(u32, u16)>, Option<i64>)>>) -> (b: bool)
    requires
        links_agree(links@, m),
    ensures
        b == chain_ends(m, start, fuel as nat, floor as int),
{
    let mut x = start;
    let mut f = fuel;
    loop
        invariant
            links_agree(links@, m),
            chain_ends(m, start, fuel as nat, floor as int) == chain_ends(m, x, f as nat, floor as int),
        decreases f,
    {
        let parent = match find_link(links, x) {
            None => {
                proof {
                    if m.contains_key(x) {
                        let i = choose|i: int| 0 <= i < links@.len() && (#[trigger] links@[i]).0 == x;
                        assert(links@[i].0 != x);
                    }
                }
                None
            },
            Some(i) => {
                assert(m[x] == (links@[i as int].1, links@[i as int].2));
                links[i].1
            },
        };
        assert(parent == link_parent(m, x));
        match parent {
            None => {
                return true;
            },
            Some(p) => {
                if f == 0 {
                    return false;
                }
                if !count_at_least_in(links, p, floor, Ghost(m)) {
                    return false;
                }
                x = p;
                f = f - 1;
            },
        }
    }
}

/// Whether removing the pages numbered in `pages` ends, read from the page
/// objects `ids` and the links `links`.
fn deletion_settles_in(ids: &Vec<(u32, u16)>, links: &Vec<((u32, u16), Option<(u32, u16)>, Option<i64>)>, pages: &Vec<u32>, Ghost(m): Ghost<Map<(u32, u16), (Option<(u32, u16)>, Option<i64>)>>) -> (b: bool)
    requires
        links_agree(links@, m),
    ensures
        b == deletion_settles(ids@, m, pages@),
{
    let floor: i128 = (i64::MIN as i128) + (pages.len() as i128);
    let mut i: usize = 0;
    while i < pages.len()
        invariant
            i <= pages@.len(),
            links_agree(links@, m),
            floor == i64::MIN + pages@.len(),
            forall|j: int| 0 <= j < i && 1 <= #[trigger] pages@[j] <= ids@.len()
                ==> chain_ends(m, ids@[pages@[j] - 1], m.dom().len(), i64::MIN + pages@.len()),
        decreases pages@.len() - i,
    {
        let page = pages[i];
        if 1 <= page && (page as usize) <= ids.len() {
            if !chain_ends_in(links, ids[(page - 1) as usize], links.len(), floor, Ghost(m)) {
                assert(!deletion_settles(ids@, m, pages@)) by {
                    assert(1 <= pages@[i as int] <= ids@.len());
                }
                return false;
            }
        }
        i += 1;
    }
    true
}

/// The message for a file that is not a readable PDF.
pub open spec fn msg_invalid_pdf(error: Seq<char>) -> Seq<char> {
    "invalid PDF file: "@ + error
}

/// The message for a preview whose page tree removing pages would never
/// finish walking.
pub open spec fn msg_page_tree_loops() -> Seq<char> {
    "preview PDF has a page tree that cannot be edited"@
}

/// What counting the pages of a loaded document gives: an error for a
/// document without pages, else the number of its pages.
pub open spec fn page_count_outcome(document: lopdf::Document, r: Result<i64, AppError>) -> bool {
    let n = pdf_page_ids(document).len();
    if n == 0 {
        r is Err && is_bad_request(r->Err_0, "PDF file has no pages"@)
    } else {
        r == Ok::<i64, AppError>(n as i64)
    }
}

/// Counts the pages of a loaded document; one without pages is refused.
pub fn count_loaded_pages(document: &lopdf::Document) -> (r: Result<i64, AppError>)
    ensures
        page_count_outcome(*document, r),
{
    let ids = page_ids(document);
    crate::converter::check_page_count(ids.len() as i64)
}

/// Counts the pages of a PDF: a file that does not parse is refused with
/// `lopdf`'s error; otherwise the outcome is that of `count_loaded_pages` for
/// the document read from it.
pub fn count_pdf_pages(bytes: &[u8]) -> (r: Result<i64, AppError>)
    ensures
        (r matches Err(AppError::BadRequest(s)) && exists|e: Seq<char>| s@ == #[trigger] msg_invalid_pdf(e))
            || exists|d: lopdf::Document| #[trigger] page_count_outcome(d, r),
{
    match load_pdf(bytes) {
        Ok(document) => count_loaded_pages(&document),
        Err(error) => {
            let mut m = crate::text::owned("invalid PDF file: ");
            m.append(error.as_str());
            assert(m@ == msg_invalid_pdf(error@));
            Err(AppError::BadRequest(m))
        },
    }
}

/// The page total that the page selection works with: the number of pages as
/// a `u32`, which is 0 for 2^32 pages.
pub open spec fn page_total(n: nat) -> u32 {
    if n > u32::MAX {
        0
    } else {
        n as u32
    }
}

/// What keeping the selected pages of a loaded document gives. The pages to
/// remove are those that `pages_to_delete` lists for its page count; none to
/// remove leaves the file as it is; a page tree whose removal would not end
/// is refused; otherwise the result is the file written without those pages.
pub open spec fn selection_outcome(document: lopdf::Document, sel: Seq<char>, r: Result<Option<Vec<u8>>, AppError>) -> bool {
    let ids = pdf_page_ids(document);
    match pages_to_delete_spec(page_total(ids.len()), sel) {
        Err(m) => r is Err && is_bad_request(r->Err_0, m),
        Ok(d) => if d.len() == 0 {
            r matches Ok(None)
        } else if !deletion_settles(ids, pdf_tree_links(document), d) {
            r is Err && is_external(r->Err_0, msg_page_tree_loops())
        } else {
            match pdf_without_pages(document, d) {
                Ok(out) => r matches Ok(Some(v)) && v@ == out,
                Err(m) => r is Err && is_external(r->Err_0, "failed to write preview PDF: "@ + m),
            }
        },
    }
}

/// Keeps only the selected pages of a loaded document.
pub fn select_from_loaded(document: lopdf::Document, odd_even: &str) -> (r: Result<Option<Vec<u8>>, AppError>)
    ensures
        selection_outcome(document, odd_even@, r),
{
    let ghost doc = document;
    let ids = page_ids(&document);
    let n = ids.len();
    let wide: u64 = n as u64;
    let total: u32 = if wide > 0xFFFF_FFFFu64 { 0 } else { n as u32 };
    assert(total == page_total(pdf_page_ids(doc).len()));
    let delete = match pages_to_delete(total, odd_even) {
        Ok(d) => d,
        Err(e) => return Err(e),
    };
    if delete.len() == 0 {
        return Ok(None);
    }
    let links = tree_links(&document);
    if !deletion_settles_in(&ids, &links, &delete, Ghost(pdf_tree_links(doc))) {
        return Err(AppError::External(crate::text::owned("preview PDF has a page tree that cannot be edited")));
    }
    match rewrite_pdf(document, delete.as_slice()) {
        Ok(out) => Ok(Some(out)),
        Err(error) => {
            let mut m = crate::text::owned("failed to write preview PDF: ");
            m.append(error.as_str());
            Err(AppError::External(m))
        },
    }
}

/// Whether `r` is the failure to read a preview, with `lopdf`'s error text.
pub open spec fn read_failed(r: Result<Option<Vec<u8>>, AppError>) -> bool {
    r matches Err(AppError::External(s)) && exists|e: Seq<char>| s@ == #[trigger] msg_read_failed(e)
}

/// The message for a preview that does not parse.
pub open spec fn msg_read_failed(error: Seq<char>) -> Seq<char> {
    "failed to read preview PDF: "@ + error
}

/// Keeps only the selected pages of a PDF. `all` keeps the file as it is
/// without reading it. Otherwise a file that does not parse is refused with
/// `lopdf`'s error, and the outcome for one that does is that of
/// `select_from_loaded` for the document read from it. A selection that is
/// not one of the kinds is refused whatever the file holds.
pub fn select_pdf_pages(bytes: &[u8], odd_even: &str) -> (r: Result<Option<Vec<u8>>, AppError>)
    ensures
        odd_even@ == "all"@ ==> r matches Ok(None),
        odd_even@ != "all"@ ==> read_failed(r) || exists|d: lopdf::Document| #[trigger] selection_outcome(d, odd_even@, r),
        !(odd_even@ == "all"@ || odd_even@ == "odd"@ || odd_even@ == "even"@ || has_prefix(odd_even@, "custom:"@)) ==> r is Err,
{
    if crate::models::same_chars(odd_even, "all") {
        return Ok(None);
    }
    match load_pdf(bytes) {
        Ok(document) => {
            let ghost doc = document;
            let r = select_from_loaded(document, odd_even);
            assert(selection_outcome(doc, odd_even@, r));
            r
        },
        Err(error) => {
            let mut m = crate::text::owned("failed to read preview PDF: ");
            m.append(error.as_str());
            assert(m@ == msg_read_failed(error@));
            Err(AppError::External(m))
        },
    }
}

} // verus!
