//! The platform's directories and file names: where uploads, previews and
//! temporary files live, the file name and extension of a path, safe file
//! names for downloads, and the stored name of an upload.
use vstd::prelude::*;

use crate::config::{join_path, path_join, Config};
use crate::text::{chars_of, split_by, split_chars, string_of, trim, trim_by, trim_chars, CharClass};

verus! {

/// The directory of uploaded originals.
pub fn upload_dir(config: &Config) -> (d: String)
    ensures
        d@ == path_join(config.data_dir@, "uploads"@),
{
    join_path(config.data_dir.as_str(), "uploads")
}

/// The directory of PDF previews and print copies.
pub fn preview_dir(config: &Config) -> (d: String)
    ensures
        d@ == path_join(config.data_dir@, "previews"@),
{
    join_path(config.data_dir.as_str(), "previews")
}

/// The directory of temporary files.
pub fn tmp_dir(config: &Config) -> (d: String)
    ensures
        d@ == path_join(config.data_dir@, "tmp"@),
{
    join_path(config.data_dir.as_str(), "tmp")
}

/// Whether `c` may stay in a download file name: an ASCII letter or digit,
/// `.`, `-`, `_` or a space.
pub open spec fn is_safe_name_char(c: char) -> bool {
    ||| ('a' <= c && c <= 'z')
    ||| ('A' <= c && c <= 'Z')
    ||| ('0' <= c && c <= '9')
    ||| c == '.' || c == '-' || c == '_' || c == ' '
}

/// `c`, or `_` when it may not stay in a file name.
pub open spec fn safe_name_char(c: char) -> char {
    if is_safe_name_char(c) {
        c
    } else {
        '_'
    }
}

/// The safe form of a file name: every other character becomes `_`, leading
/// and trailing dots and spaces (and then whitespace) are removed, and an
/// empty result becomes `upload.bin`.
pub open spec fn sanitize_spec(input: Seq<char>) -> Seq<char> {
    let mapped = input.map_values(|c: char| safe_name_char(c));
    let t = trim(trim_by(mapped, CharClass::DotOrSpace));
    if t.len() == 0 {
        "upload.bin"@
    } else {
        t
    }
}

/// The safe form of a file name, for use in a download's `Content-Disposition`.
pub fn sanitize_filename(input: &str) -> (r: String)
    ensures
        r@ == sanitize_spec(input@),
{
    let chars = chars_of(input);
    let mut mapped: Vec<char> = Vec::new();
    let mut i: usize = 0;
    while i < chars.len()
        invariant
            i <= chars@.len(),
            mapped@ == chars@.take(i as int).map_values(|c: char| safe_name_char(c)),
        decreases chars@.len() - i,
    {
        let c = chars[i];
        let safe = ('a' <= c && c <= 'z') || ('A' <= c && c <= 'Z') || ('0' <= c && c <= '9')
            || c == '.' || c == '-' || c == '_' || c == ' ';
        mapped.push(if safe { c } else { '_' });
        assert(chars@.take(i + 1).map_values(|c: char| safe_name_char(c)) =~= mapped@);
        i = i + 1;
    }
    assert(chars@.take(chars@.len() as int) =~= chars@);
    let stripped = trim_chars(mapped.as_slice(), CharClass::DotOrSpace);
    let t = trim_chars(stripped.as_slice(), CharClass::Whitespace);
    if t.len() == 0 {
        crate::text::owned("upload.bin")
    } else {
        string_of(t.as_slice())
    }
}

/// The last named component among path pieces: empty and `.` pieces are
/// skipped, as `Path::components` skips them.
pub open spec fn last_named(pieces: Seq<Seq<char>>) -> Option<Seq<char>>
    decreases pieces.len(),
{
    if pieces.len() == 0 {
        None
    } else if pieces.last().len() == 0 || pieces.last() == seq!['.'] {
        last_named(pieces.drop_last())
    } else {
        Some(pieces.last())
    }
}

/// The file name of a path (its last component, unless that is `..`), as
/// `Path::file_name` gives it on Unix.
pub open spec fn file_name_spec(path: Seq<char>) -> Option<Seq<char>> {
    match last_named(split_by(path, CharClass::Slash)) {
        None => None,
        Some(n) => if n == seq!['.', '.'] {
            None
        } else {
            Some(n)
        },
    }
}

/// The position of the last `.` in `s`.
pub open spec fn last_dot(s: Seq<char>) -> Option<int>
    decreases s.len(),
{
    if s.len() == 0 {
        None
    } else if s.last() == '.' {
        Some(s.len() - 1)
    } else {
        last_dot(s.drop_last())
    }
}

/// The extension of a path: what follows the last `.` of its file name,
/// unless the name has no `.` or its only `.` comes first, as
/// `Path::extension` gives it on Unix.
pub open spec fn extension_spec(path: Seq<char>) -> Option<Seq<char>> {
    match file_name_spec(path) {
        None => None,
        Some(name) => match last_dot(name) {
            None => None,
            Some(i) => if i == 0 {
                None
            } else {
                Some(name.skip(i + 1))
            },
        },
    }
}

/// The file name of a path.
pub fn file_name_of(path: &[char]) -> (r: Option<Vec<char>>)
    ensures
        match file_name_spec(path@) {
            None => r is None,
            Some(n) => r matches Some(v) && v@ == n,
        },
{
    let pieces = split_chars(path, CharClass::Slash);
    let ghost all = split_by(path@, CharClass::Slash);
    let mut k: usize = pieces.len();
    assert(all.take(all.len() as int) =~= all);
    while k > 0 && (pieces[k - 1].len() == 0 || (pieces[k - 1].len() == 1 && pieces[k - 1][0] == '.'))
        invariant
            k <= pieces@.len(),
            pieces@.len() == all.len(),
            forall|i: int| 0 <= i < pieces@.len() ==> #[trigger] pieces@[i]@ == all[i],
            last_named(all) == last_named(all.take(k as int)),
        decreases k,
    {
        let ghost p = pieces@[k - 1]@;
        assert(all.take(k as int).drop_last() =~= all.take(k - 1));
        assert(p.len() == 0 || p =~= seq!['.']);
        k = k - 1;
    }
    assert(all.take(all.len() as int) =~= all);
    if k == 0 {
        assert(all.take(0) =~= Seq::<Seq<char>>::empty());
        return None;
    }
    let last = &pieces[k - 1];
    proof {
        let p = last@;
        assert(all.take(k as int).last() == p);
        assert(!(p.len() == 0 || p == seq!['.'])) by {
            if p == seq!['.'] {
                assert(p.len() == 1 && p[0] == '.');
            }
        }
    }
    if last.len() == 2 && last[0] == '.' && last[1] == '.' {
        assert(last@ =~= seq!['.', '.']);
        return None;
    }
    assert(last@ != seq!['.', '.']) by {
        if last@ == seq!['.', '.'] {
            assert(last@.len() == 2 && last@[0] == '.' && last@[1] == '.');
        }
    }
    let mut v: Vec<char> = Vec::new();
    crate::text::append_chars(&mut v, last.as_slice());
    Some(v)
}

/// The extension of a path.
pub fn extension_of(path: &[char]) -> (r: Option<Vec<char>>)
    ensures
        match extension_spec(path@) {
            None => r is None,
            Some(e) => r matches Some(v) && v@ == e,
        },
{
    let name = match file_name_of(path) {
        None => return None,
        Some(n) => n,
    };
    let mut i: usize = name.len();
    assert(name@.take(name@.len() as int) =~= name@);
    while i > 0 && name[i - 1] != '.'
        invariant
            i <= name@.len(),
            last_dot(name@) == last_dot(name@.take(i as int)),
        decreases i,
    {
        assert(name@.take(i as int).drop_last() =~= name@.take(i - 1));
        i = i - 1;
    }
    assert(name@.take(name@.len() as int) =~= name@);
    if i == 0 {
        assert(name@.take(0) =~= Seq::<char>::empty());
        return None;
    }
    assert(name@.take(i as int).last() == '.');
    if i == 1 {
        return None;
    }
    let mut v: Vec<char> = Vec::new();
    let mut j: usize = i;
    while j < name.len()
        invariant
            i <= j <= name@.len(),
            v@ == name@.subrange(i as int, j as int),
        decreases name@.len() - j,
    {
        v.push(name[j]);
        assert(name@.subrange(i as int, j + 1) =~= v@);
        j = j + 1;
    }
    assert(name@.subrange(i as int, name@.len() as int) =~= name@.skip(i as int));
    Some(v)
}

/// Whether `c` is a lowercase hexadecimal digit.
pub open spec fn is_lower_hex(c: char) -> bool {
    ('0' <= c && c <= '9') || ('a' <= c && c <= 'f')
}

/// Whether `id` is a version 4 UUID in lowercase hyphenated form: 36
/// characters in groups of 8, 4, 4, 4 and 12 hexadecimal digits joined by
/// `-`, with the version digit `4` and a variant digit of `8`, `9`, `a` or
/// `b`.
pub open spec fn is_uuid_text(id: Seq<char>) -> bool {
    &&& id.len() == 36
    &&& forall|i: int| 0 <= i < 36 ==> if i == 8 || i == 13 || i == 18 || i == 23 {
        #[trigger] id[i] == '-'
    } else {
        is_lower_hex(id[i])
    }
    &&& id[14] == '4'
    &&& id[19] == '8' || id[19] == '9' || id[19] == 'a' || id[19] == 'b'
}

/// A new random identifier from `Uuid::new_v4`, written by its `Display`,
/// which is the lowercase hyphenated form; `new_v4` sets the version bits to 4
/// and the variant bits to `10`. Which identifier it is depends on chance and
/// is not stated.
#[verifier::external_body]
pub(crate) fn new_uuid() -> (id: String)
    ensures
        is_uuid_text(id@),
{
    uuid::Uuid::new_v4().to_string()
}

/// The stored name of an upload: the identifier, followed by `.` and the safe
/// form of the original name's extension when it has one.
pub open spec fn upload_file_name_spec(id: Seq<char>, original_name: Seq<char>) -> Seq<char> {
    match extension_spec(original_name) {
        None => id,
        Some(e) => if sanitize_spec(e).len() == 0 {
            id
        } else {
            id + seq!['.'] + sanitize_spec(e)
        },
    }
}

/// The stored name of an upload with identifier `id`.
pub fn upload_file_name(id: &str, original_name: &str) -> (r: String)
    ensures
        r@ == upload_file_name_spec(id@, original_name@),
{
    let chars = chars_of(original_name);
    match extension_of(chars.as_slice()) {
        None => crate::text::owned(id),
        Some(e) => {
            let ext = string_of(e.as_slice());
            let safe = sanitize_filename(ext.as_str());
            if safe.as_str().is_empty() {
                crate::text::owned(id)
            } else {
                let mut r = crate::text::owned(id);
                r.append(".");
                proof {
                    reveal_strlit(".");
                }
                r.append(safe.as_str());
                r
            }
        },
    }
}

/// Where a newly uploaded file is stored: in the upload directory, under a
/// fresh identifier that keeps the original's (sanitized) extension.
pub fn upload_path(config: &Config, original_name: &str) -> (p: String)
    ensures
        exists|id: Seq<char>|
            is_uuid_text(id) && p@ == path_join(path_join(config.data_dir@, "uploads"@), #[trigger] upload_file_name_spec(id, original_name@)),
{
    let id = new_uuid();
    let name = upload_file_name(id.as_str(), original_name);
    let dir = upload_dir(config);
    join_path(dir.as_str(), name.as_str())
}

/// `s` without its trailing `/` characters.
pub open spec fn strip_slashes(s: Seq<char>) -> Seq<char>
    decreases s.len(),
{
    if s.len() > 0 && s.last() == '/' {
        strip_slashes(s.drop_last())
    } else {
        s
    }
}

/// The position of the last `/` in `s`.
pub open spec fn last_slash(s: Seq<char>) -> Option<int>
    decreases s.len(),
{
    if s.len() == 0 {
        None
    } else if s.last() == '/' {
        Some(s.len() - 1)
    } else {
        last_slash(s.drop_last())
    }
}

/// The directory that holds a path, as `Path::parent` gives it on Unix for
/// paths without `.` components: none for the empty path and the root; the
/// empty path for a bare name; otherwise what comes before the last
/// component, without trailing slashes, or the root.
pub open spec fn parent_spec(path: Seq<char>) -> Option<Seq<char>> {
    let p = strip_slashes(path);
    if p.len() == 0 {
        None
    } else {
        match last_slash(p) {
            None => Some(Seq::empty()),
            Some(i) => {
                let head = strip_slashes(p.take(i));
                if head.len() == 0 {
                    Some(seq!['/'])
                } else {
                    Some(head)
                }
            },
        }
    }
}

/// The length of `s` without its trailing slashes.
fn stripped_len(s: &[char], end: usize) -> (n: usize)
    requires
        end <= s@.len(),
    ensures
        n <= end,
        s@.take(n as int) == strip_slashes(s@.take(end as int)),
{
    let mut n = end;
    while n > 0 && s[n - 1] == '/'
        invariant
            n <= end <= s@.len(),
            strip_slashes(s@.take(end as int)) == strip_slashes(s@.take(n as int)),
        decreases n,
    {
        assert(s@.take(n as int).drop_last() =~= s@.take(n - 1));
        n = n - 1;
    }
    proof {
        if n > 0 {
            assert(s@.take(n as int).last() == s@[n - 1]);
        }
    }
    n
}

/// The directory that holds a path.
pub fn parent_of(path: &str) -> (r: Option<String>)
    ensures
        match parent_spec(path@) {
            None => r is None,
            Some(d) => r matches Some(v) && v@ == d,
        },
{
    let chars = chars_of(path);
    assert(chars@.take(chars@.len() as int) =~= chars@);
    let n = stripped_len(chars.as_slice(), chars.len());
    let ghost p = chars@.take(n as int);
    if n == 0 {
        return None;
    }
    let mut i = n;
    while i > 0 && chars[i - 1] != '/'
        invariant
            i <= n <= chars@.len(),
            p == chars@.take(n as int),
            last_slash(p) == last_slash(chars@.take(i as int)),
        decreases i,
    {
        assert(chars@.take(i as int).drop_last() =~= chars@.take(i - 1));
        i = i - 1;
    }
    if i == 0 {
        assert(chars@.take(0) =~= Seq::<char>::empty());
        return Some(String::new());
    }
    assert(chars@.take(i as int).last() == '/');
    assert(last_slash(p) == Some(i - 1));
    assert(p.take(i - 1) =~= chars@.take(i - 1));
    let h = stripped_len(chars.as_slice(), i - 1);
    if h == 0 {
        proof {
            reveal_strlit("/");
        }
        assert("/"@ =~= seq!['/']);
        return Some(crate::text::owned("/"));
    }
    let mut head: Vec<char> = Vec::new();
    let mut k: usize = 0;
    while k < h
        invariant
            k <= h <= chars@.len(),
            head@ == chars@.take(k as int),
        decreases h - k,
    {
        head.push(chars[k]);
        assert(chars@.take(k + 1) =~= chars@.take(k as int).push(chars@[k as int]));
        k = k + 1;
    }
    Some(string_of(head.as_slice()))
}

/// The file that a printing task's spooler copy is written to: next to its
/// preview, named after the task.
pub open spec fn spool_copy_spec(preview: Seq<char>, task_id: i64) -> Option<Seq<char>> {
    match parent_spec(preview) {
        None => None,
        Some(d) => Some(path_join(d, "print-task-"@ + crate::number::dec_int(task_id as int) + ".pdf"@)),
    }
}

/// The spooler copy of a printing task, next to its preview.
pub fn spool_copy_path(preview: &str, task_id: i64) -> (r: Option<String>)
    ensures
        match spool_copy_spec(preview@, task_id) {
            None => r is None,
            Some(p) => r matches Some(v) && v@ == p,
        },
{
    match parent_of(preview) {
        None => None,
        Some(d) => {
            let id = crate::number::dec_string_i64(task_id);
            let name = crate::text::concat3("print-task-", id.as_str(), ".pdf");
            Some(join_path(d.as_str(), name.as_str()))
        },
    }
}

/// The files of a task or an upload that go when its owner is deleted.
#[derive(Debug, Clone)]
pub struct FileRow {
    /// The task's id; not positive for an upload.
    pub id: i64,
    pub stored_path: Option<String>,
    pub preview_path: Option<String>,
}

/// The path held, if any, as a list of zero or one paths.
pub open spec fn opt_file(o: Option<String>) -> Seq<Seq<char>> {
    match o {
        Some(p) => seq![p@],
        None => Seq::empty(),
    }
}

/// The files of one row: the original, the preview, and for a task the
/// spooler copy next to the preview.
pub open spec fn row_files(row: FileRow) -> Seq<Seq<char>> {
    let a = opt_file(row.stored_path);
    let b = opt_file(row.preview_path);
    let c: Seq<Seq<char>> = if row.id > 0 {
        match row.preview_path {
            Some(p) => match spool_copy_spec(p@, row.id) {
                Some(s) => seq![s],
                None => Seq::empty(),
            },
            None => Seq::empty(),
        }
    } else {
        Seq::empty()
    };
    a + b + c
}

/// The files of several rows, in order.
pub open spec fn rows_files(rows: Seq<FileRow>) -> Seq<Seq<char>>
    decreases rows.len(),
{
    if rows.len() == 0 {
        Seq::empty()
    } else {
        rows_files(rows.drop_last()) + row_files(rows.last())
    }
}

/// The files to remove for the given task and upload rows.
pub fn files_of_rows(rows: &[FileRow]) -> (files: Vec<String>)
    ensures
        crate::import::views(files@) == rows_files(rows@),
{
    let mut files: Vec<String> = Vec::new();
    let mut i: usize = 0;
    while i < rows.len()
        invariant
            i <= rows@.len(),
            crate::import::views(files@) == rows_files(rows@.take(i as int)),
        decreases rows@.len() - i,
    {
        let row = &rows[i];
        let ghost before = crate::import::views(files@);
        assert(rows@.take(i + 1).drop_last() =~= rows@.take(i as int));
        let ghost a = opt_file(row.stored_path);
        let ghost b = opt_file(row.preview_path);
        if let Some(p) = &row.stored_path {
            files.push(p.clone());
        }
        assert(crate::import::views(files@) =~= before + a);
        if let Some(p) = &row.preview_path {
            files.push(p.clone());
        }
        assert(crate::import::views(files@) =~= before + a + b);
        if row.id > 0 {
            if let Some(p) = &row.preview_path {
                if let Some(spool) = spool_copy_path(p.as_str(), row.id) {
                    files.push(spool);
                }
            }
        }
        assert(crate::import::views(files@) =~= before + row_files(rows@[i as int]));
        i = i + 1;
    }
    assert(rows@.take(rows@.len() as int) =~= rows@);
    files
}

/// Where a PDF is written before it replaces `pdf_path`: beside it, named
/// after its file name (or `preview.pdf`) with `.`, the given identifier and
/// `.tmp` added.
pub open spec fn temporary_pdf_spec(pdf_path: Seq<char>, id: Seq<char>) -> Seq<char> {
    let name = match file_name_spec(pdf_path) {
        Some(n) => n,
        None => "preview.pdf"@,
    };
    let new_name = name + "."@ + id + ".tmp"@;
    match file_name_spec(pdf_path) {
        Some(_) => match parent_spec(pdf_path) {
            Some(d) => path_join(d, new_name),
            None => new_name,
        },
        None => path_join(pdf_path, new_name),
    }
}

/// Where a PDF is written before it replaces `pdf_path`, under a fresh
/// random identifier.
pub fn temporary_pdf_path(pdf_path: &str) -> (r: String)
    ensures
        exists|id: Seq<char>| is_uuid_text(id) && r@ == #[trigger] temporary_pdf_spec(pdf_path@, id),
{
    let id = new_uuid();
    let chars = chars_of(pdf_path);
    let found = file_name_of(chars.as_slice());
    let name = match &found {
        Some(n) => string_of(n.as_slice()),
        None => crate::text::owned("preview.pdf"),
    };
    let mut new_name = name;
    new_name.append(".");
    new_name.append(id.as_str());
    new_name.append(".tmp");
    let r = match found {
        Some(_) => match parent_of(pdf_path) {
            Some(d) => join_path(d.as_str(), new_name.as_str()),
            None => new_name,
        },
        None => join_path(pdf_path, new_name.as_str()),
    };
    assert(r@ == temporary_pdf_spec(pdf_path@, id@));
    r
}

/// Whether every character of `s` may stay in a file name.
pub open spec fn all_safe(s: Seq<char>) -> bool {
    forall|i: int| 0 <= i < s.len() ==> is_safe_name_char(#[trigger] s[i])
}

/// Trimming the front keeps safe characters safe, and leaves no character
/// of the class in front.
proof fn lemma_trim_start_safe(s: Seq<char>, k: CharClass)
    requires
        all_safe(s),
    ensures
        all_safe(crate::text::trim_start_by(s, k)),
        crate::text::trim_start_by(s, k).len() > 0 ==> !crate::text::in_class(k, crate::text::trim_start_by(s, k)[0]),
        crate::text::trim_start_by(s, k).len() <= s.len(),
        crate::text::trim_start_by(s, k).len() > 0 ==> crate::text::trim_start_by(s, k).last() == s.last(),
    decreases s.len(),
{
    if s.len() > 0 && crate::text::in_class(k, s[0]) {
        let rest = s.drop_first();
        assert forall|i: int| 0 <= i < rest.len() implies is_safe_name_char(#[trigger] rest[i]) by {
            assert(rest[i] == s[i + 1]);
        }
        lemma_trim_start_safe(rest, k);
    }
}

/// Trimming the back keeps safe characters safe, and leaves no character of
/// the class at the back.
proof fn lemma_trim_end_safe(s: Seq<char>, k: CharClass)
    requires
        all_safe(s),
    ensures
        all_safe(crate::text::trim_end_by(s, k)),
        crate::text::trim_end_by(s, k).len() > 0 ==> !crate::text::in_class(k, crate::text::trim_end_by(s, k).last()),
        crate::text::trim_end_by(s, k).len() > 0 ==> crate::text::trim_end_by(s, k)[0] == s[0],
    decreases s.len(),
{
    if s.len() > 0 && crate::text::in_class(k, s.last()) {
        let rest = s.drop_last();
        assert forall|i: int| 0 <= i < rest.len() implies is_safe_name_char(#[trigger] rest[i]) by {
            assert(rest[i] == s[i]);
        }
        lemma_trim_end_safe(rest, k);
    }
}

/// A download name is always safe: it is never empty, holds only ASCII
/// letters, digits, `.`, `-`, `_` and spaces, and neither begins nor ends
/// with a dot or a space.
pub proof fn law_sanitized_names_are_safe(input: Seq<char>)
    ensures
        sanitize_spec(input).len() > 0,
        all_safe(sanitize_spec(input)),
        sanitize_spec(input)[0] != '.' && sanitize_spec(input)[0] != ' ',
        sanitize_spec(input).last() != '.' && sanitize_spec(input).last() != ' ',
{
    let mapped = input.map_values(|c: char| safe_name_char(c));
    assert forall|i: int| 0 <= i < mapped.len() implies is_safe_name_char(#[trigger] mapped[i]) by {}
    let front = crate::text::trim_start_by(mapped, CharClass::DotOrSpace);
    lemma_trim_start_safe(mapped, CharClass::DotOrSpace);
    let t1 = crate::text::trim_end_by(front, CharClass::DotOrSpace);
    lemma_trim_end_safe(front, CharClass::DotOrSpace);
    assert(t1 == trim_by(mapped, CharClass::DotOrSpace));
    if t1.len() > 0 {
        assert(!crate::text::in_class(CharClass::Whitespace, t1[0])) by {
            assert(is_safe_name_char(t1[0]));
        }
        assert(!crate::text::in_class(CharClass::Whitespace, t1.last())) by {
            assert(is_safe_name_char(t1[t1.len() - 1]));
        }
        assert(crate::text::trim_start_by(t1, CharClass::Whitespace) == t1);
        assert(crate::text::trim_end_by(t1, CharClass::Whitespace) == t1);
        assert(trim(t1) == t1);
    } else {
        assert(trim(t1).len() == 0);
        reveal_strlit("upload.bin");
        let u = "upload.bin"@;
        assert forall|i: int| 0 <= i < u.len() implies is_safe_name_char(#[trigger] u[i]) by {}
    }
}

/// Sanitizing a download name twice changes nothing: a sanitized name is its
/// own safe form.
pub proof fn law_sanitize_is_idempotent(input: Seq<char>)
    ensures
        sanitize_spec(sanitize_spec(input)) == sanitize_spec(input),
{
    law_sanitized_names_are_safe(input);
    let r = sanitize_spec(input);
    let mapped = r.map_values(|c: char| safe_name_char(c));
    assert(mapped =~= r) by {
        assert forall|i: int| 0 <= i < r.len() implies mapped[i] == r[i] by {
            assert(is_safe_name_char(r[i]));
        }
    }
    assert(!crate::text::in_class(CharClass::DotOrSpace, r[0]));
    assert(!crate::text::in_class(CharClass::DotOrSpace, r.last()));
    assert(crate::text::trim_start_by(r, CharClass::DotOrSpace) == r);
    assert(crate::text::trim_end_by(r, CharClass::DotOrSpace) == r);
    assert(trim_by(r, CharClass::DotOrSpace) == r);
    assert(!crate::text::in_class(CharClass::Whitespace, r[0])) by {
        assert(is_safe_name_char(r[0]));
    }
    assert(!crate::text::in_class(CharClass::Whitespace, r.last())) by {
        assert(is_safe_name_char(r[r.len() - 1]));
    }
    assert(crate::text::trim_start_by(r, CharClass::Whitespace) == r);
    assert(crate::text::trim_end_by(r, CharClass::Whitespace) == r);
    assert(trim(r) == r);
}

} // verus!
