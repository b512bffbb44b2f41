//! Bulk import of users: which files are accepted, how student ids are read
//! from a plain text or CSV file, and how the list is cleaned up.
use vstd::prelude::*;

use crate::converter::{is_one_of, lower_extension, lower_extension_of};
use crate::error::{is_bad_request, AppError};
use crate::text::{chars_equal, chars_of, non_empty, split_by, split_chars, string_of, trim, trim_chars, CharClass};

verus! {

/// The extensions accepted for an import file.
pub open spec fn supported_import_extension(e: Seq<char>) -> bool {
    e == "xlsx"@ || e == "xls"@ || e == "xlsm"@ || e == "csv"@ || e == "txt"@
}

/// The extensions read as spreadsheets.
pub open spec fn spreadsheet_extension(e: Seq<char>) -> bool {
    e == "xlsx"@ || e == "xls"@ || e == "xlsm"@
}

/// Message for an import file of another format.
pub open spec fn msg_unsupported_import() -> Seq<char> {
    "不支持该用户导入文件格式，仅支持 XLSX、XLS、XLSM、CSV 和 TXT"@
}

/// Accepts an import file whose extension (in any case) is XLSX, XLS, XLSM,
/// CSV or TXT.
pub fn ensure_supported_file_name(file_name: &str) -> (r: Result<(), AppError>)
    ensures
        supported_import_extension(lower_extension(file_name@)) ==> r is Ok,
        !supported_import_extension(lower_extension(file_name@)) ==> r is Err && is_bad_request(r->Err_0, msg_unsupported_import()),
{
    let e = lower_extension_of(file_name);
    let list: [&str; 5] = ["xlsx", "xls", "xlsm", "csv", "txt"];
    let found = is_one_of(e.as_slice(), list.as_slice());
    proof {
        assert(list@ == seq!["xlsx", "xls", "xlsm", "csv", "txt"]);
        if e@ == "xlsx"@ { assert(e@ == list@[0]@); }
        if e@ == "xls"@ { assert(e@ == list@[1]@); }
        if e@ == "xlsm"@ { assert(e@ == list@[2]@); }
        if e@ == "csv"@ { assert(e@ == list@[3]@); }
        if e@ == "txt"@ { assert(e@ == list@[4]@); }
    }
    if found {
        Ok(())
    } else {
        Err(crate::error::bad_request("不支持该用户导入文件格式，仅支持 XLSX、XLS、XLSM、CSV 和 TXT"))
    }
}

/// Whether an import file is read as a spreadsheet (its first sheet's first
/// column) rather than as text.
pub fn is_spreadsheet(path: &str) -> (b: bool)
    ensures
        b == spreadsheet_extension(lower_extension(path@)),
{
    let e = lower_extension_of(path);
    let list: [&str; 3] = ["xlsx", "xls", "xlsm"];
    let found = is_one_of(e.as_slice(), list.as_slice());
    proof {
        assert(list@ == seq!["xlsx", "xls", "xlsm"]);
        if e@ == "xlsx"@ { assert(e@ == list@[0]@); }
        if e@ == "xls"@ { assert(e@ == list@[1]@); }
        if e@ == "xlsm"@ { assert(e@ == list@[2]@); }
    }
    found
}

/// The text of some bytes read as UTF-8, each invalid sequence replaced by
/// U+FFFD, as `String::from_utf8_lossy` gives it.
pub uninterp spec fn utf8_lossy(bytes: Seq<u8>) -> Seq<char>;

/// Decodes bytes as UTF-8, replacing invalid sequences.
#[verifier::external_body]
pub(crate) fn decode_lossy(bytes: &[u8]) -> (s: String)
    ensures
        s@ == utf8_lossy(bytes@),
        vstd::utf8::valid_utf8(bytes@) ==> s@ == vstd::utf8::decode_utf8(bytes@),
{
    String::from_utf8_lossy(bytes).into_owned()
}

/// The first field of a line (up to the first `,`, tab or `;`), trimmed.
pub open spec fn first_field(line: Seq<char>) -> Seq<char> {
    trim(split_by(line, CharClass::FieldSeparator)[0])
}

/// The student ids of a text file: the first field of each line, trimmed,
/// skipping lines where it is empty. (A `\r` before a line feed is whitespace
/// and so is trimmed away.)
pub open spec fn plain_ids(text: Seq<char>) -> Seq<Seq<char>> {
    non_empty(split_by(text, CharClass::LineFeed).map_values(|l: Seq<char>| first_field(l)))
}

/// The views of a list of strings.
pub open spec fn views(v: Seq<String>) -> Seq<Seq<char>> {
    v.map_values(|s: String| s@)
}

/// Reads student ids from the bytes of a text or CSV file.
pub fn parse_plain(bytes: &[u8]) -> (ids: Vec<String>)
    ensures
        views(ids@) == plain_ids(utf8_lossy(bytes@)),
{
    let text = decode_lossy(bytes);
    let chars = chars_of(text.as_str());
    let lines = split_chars(chars.as_slice(), CharClass::LineFeed);
    let ghost all = split_by(chars@, CharClass::LineFeed).map_values(|l: Seq<char>| first_field(l));
    let mut ids: Vec<String> = Vec::new();
    let mut i: usize = 0;
    while i < lines.len()
        invariant
            i <= lines@.len(),
            lines@.len() == split_by(chars@, CharClass::LineFeed).len(),
            forall|j: int| 0 <= j < lines@.len() ==> #[trigger] lines@[j]@ == split_by(chars@, CharClass::LineFeed)[j],
            all == split_by(chars@, CharClass::LineFeed).map_values(|l: Seq<char>| first_field(l)),
            views(ids@) == non_empty(all.take(i as int)),
        decreases lines@.len() - i,
    {
        let fields = split_chars(lines[i].as_slice(), CharClass::FieldSeparator);
        proof {
            crate::text::lemma_split_nonempty(lines@[i as int]@, CharClass::FieldSeparator);
        }
        let field = trim_chars(fields[0].as_slice(), CharClass::Whitespace);
        assert(field@ == all[i as int]);
        assert(all.take(i + 1).drop_last() =~= all.take(i as int));
        if field.len() > 0 {
            ids.push(string_of(field.as_slice()));
        }
        assert(views(ids@) =~= non_empty(all.take(i + 1)));
        i = i + 1;
    }
    assert(all.take(all.len() as int) =~= all);
    ids
}

/// The trimmed, non-empty ids of a list, each kept at its first occurrence.
pub open spec fn unique_ids_spec(ids: Seq<Seq<char>>) -> Seq<Seq<char>>
    decreases ids.len(),
{
    if ids.len() == 0 {
        Seq::empty()
    } else {
        let kept = unique_ids_spec(ids.drop_last());
        let id = trim(ids.last());
        if id.len() == 0 || kept.contains(id) {
            kept
        } else {
            kept.push(id)
        }
    }
}

/// The trimmed, non-empty ids of a list without repetitions, in order of first
/// occurrence.
pub fn unique_ids(ids: &[String]) -> (r: Vec<String>)
    ensures
        views(r@) == unique_ids_spec(views(ids@)),
{
    let ghost all = views(ids@);
    let mut kept: Vec<Vec<char>> = Vec::new();
    let mut out: Vec<String> = Vec::new();
    let mut i: usize = 0;
    while i < ids.len()
        invariant
            i <= ids@.len(),
            all == views(ids@),
            kept@.len() == out@.len(),
            forall|j: int| 0 <= j < kept@.len() ==> #[trigger] kept@[j]@ == out@[j]@,
            views(out@) == unique_ids_spec(all.take(i as int)),
        decreases ids@.len() - i,
    {
        let chars = chars_of(ids[i].as_str());
        let id = trim_chars(chars.as_slice(), CharClass::Whitespace);
        assert(all.take(i + 1).drop_last() =~= all.take(i as int));
        assert(all.take(i + 1).last() == ids@[i as int]@);
        let mut seen = false;
        let mut k: usize = 0;
        while k < kept.len()
            invariant
                k <= kept@.len(),
                kept@.len() == out@.len(),
                forall|j: int| 0 <= j < kept@.len() ==> #[trigger] kept@[j]@ == out@[j]@,
                seen == exists|j: int| 0 <= j < k && #[trigger] kept@[j]@ == id@,
            decreases kept@.len() - k,
        {
            if chars_equal(kept[k].as_slice(), id.as_slice()) {
                seen = true;
            }
            k = k + 1;
        }
        proof {
            let v = views(out@);
            if seen {
                let j = choose|j: int| 0 <= j < kept@.len() && #[trigger] kept@[j]@ == id@;
                assert(v[j] == id@);
            }
            if v.contains(id@) {
                let j = choose|j: int| 0 <= j < v.len() && v[j] == id@;
                assert(kept@[j]@ == id@);
            }
        }
        if id.len() > 0 && !seen {
            out.push(string_of(id.as_slice()));
            kept.push(id);
            assert(views(out@) =~= unique_ids_spec(all.take(i + 1)));
        }
        i = i + 1;
    }
    assert(all.take(all.len() as int) =~= all);
    out
}

/// The student ids of an import file. A spreadsheet is read from
/// `sheet_cells`, the texts of the first cells of its first sheet's rows; any
/// other file from its bytes, as text. Ids are trimmed and repetitions
/// dropped; a file without any id is refused.
pub open spec fn student_ids_spec(path: Seq<char>, bytes: Seq<u8>, sheet_cells: Seq<Seq<char>>) -> Result<Seq<Seq<char>>, Seq<char>> {
    let raw = if spreadsheet_extension(lower_extension(path)) {
        sheet_cells
    } else {
        plain_ids(utf8_lossy(bytes))
    };
    let ids = unique_ids_spec(raw);
    if ids.len() == 0 {
        Err("import file does not contain any student id"@)
    } else {
        Ok(ids)
    }
}

/// Reads the student ids of an import file.
pub fn parse_student_ids(path: &str, bytes: &[u8], sheet_cells: &[String]) -> (r: Result<Vec<String>, AppError>)
    ensures
        match student_ids_spec(path@, bytes@, views(sheet_cells@)) {
            Ok(ids) => r matches Ok(v) && views(v@) == ids,
            Err(m) => r is Err && is_bad_request(r->Err_0, m),
        },
{
    let unique = if is_spreadsheet(path) {
        unique_ids(sheet_cells)
    } else {
        let plain = parse_plain(bytes);
        unique_ids(plain.as_slice())
    };
    if unique.len() == 0 {
        return Err(crate::error::bad_request("import file does not contain any student id"));
    }
    Ok(unique)
}

} // verus!
