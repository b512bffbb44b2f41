//! Which uploads can be printed, and how the external office converter is
//! invoked to turn them into PDF.
use vstd::prelude::*;

use crate::config::Config;
use crate::error::{is_bad_request, AppError};
use crate::paths::{extension_of, extension_spec};
use crate::text::{chars_of, lower_ascii, replace_all, replace_chars, string_of, to_ascii_lower, trim};

verus! {

/// The extension of a file name in lower case, or the empty text when it has
/// none.
pub open spec fn lower_extension(name: Seq<char>) -> Seq<char> {
    match extension_spec(name) {
        Some(e) => to_ascii_lower(e),
        None => Seq::empty(),
    }
}

/// Computes the lower-case extension of a file name.
pub fn lower_extension_of(name: &str) -> (r: Vec<char>)
    ensures
        r@ == lower_extension(name@),
{
    let chars = chars_of(name);
    match extension_of(chars.as_slice()) {
        Some(e) => lower_ascii(e.as_slice()),
        None => Vec::new(),
    }
}

/// Whether `e` is one of the texts of `list`.
pub fn is_one_of(e: &[char], list: &[&str]) -> (b: bool)
    ensures
        b == exists|k: int| 0 <= k < list@.len() && e@ == #[trigger] list@[k]@,
{
    let mut k: usize = 0;
    while k < list.len()
        invariant
            k <= list@.len(),
            forall|j: int| 0 <= j < k ==> e@ != #[trigger] list@[j]@,
        decreases list@.len() - k,
    {
        let item = chars_of(list[k]);
        if crate::text::chars_equal(e, item.as_slice()) {
            return true;
        }
        k = k + 1;
    }
    false
}

/// The extensions accepted for printing.
pub open spec fn supported_upload_extension(e: Seq<char>) -> bool {
    ||| e == "pdf"@ || e == "doc"@ || e == "docx"@ || e == "xls"@ || e == "xlsx"@ || e == "ppt"@
    ||| e == "pptx"@ || e == "jpg"@ || e == "jpeg"@ || e == "png"@ || e == "bmp"@ || e == "txt"@
}

/// The twelve extensions that the refusal message names (PDF, Word, Excel,
/// PPT, JPG, PNG, BMP and TXT) are each accepted, in any case, and nothing
/// else is.
pub proof fn law_supported_extensions(name: Seq<char>)
    ensures
        lower_extension(name) == "pdf"@ ==> supported_upload_extension(lower_extension(name)),
        lower_extension(name) == "doc"@ ==> supported_upload_extension(lower_extension(name)),
        lower_extension(name) == "docx"@ ==> supported_upload_extension(lower_extension(name)),
        lower_extension(name) == "xls"@ ==> supported_upload_extension(lower_extension(name)),
        lower_extension(name) == "xlsx"@ ==> supported_upload_extension(lower_extension(name)),
        lower_extension(name) == "ppt"@ ==> supported_upload_extension(lower_extension(name)),
        lower_extension(name) == "pptx"@ ==> supported_upload_extension(lower_extension(name)),
        lower_extension(name) == "jpg"@ ==> supported_upload_extension(lower_extension(name)),
        lower_extension(name) == "jpeg"@ ==> supported_upload_extension(lower_extension(name)),
        lower_extension(name) == "png"@ ==> supported_upload_extension(lower_extension(name)),
        lower_extension(name) == "bmp"@ ==> supported_upload_extension(lower_extension(name)),
        lower_extension(name) == "txt"@ ==> supported_upload_extension(lower_extension(name)),
        supported_upload_extension(lower_extension(name)) ==> lower_extension(name).len() == 3 || lower_extension(name).len() == 4,
{
    reveal_strlit("pdf");
    reveal_strlit("doc");
    reveal_strlit("docx");
    reveal_strlit("xls");
    reveal_strlit("xlsx");
    reveal_strlit("ppt");
    reveal_strlit("pptx");
    reveal_strlit("jpg");
    reveal_strlit("jpeg");
    reveal_strlit("png");
    reveal_strlit("bmp");
    reveal_strlit("txt");
}

/// Message for a file that cannot be printed.
pub open spec fn msg_unsupported_upload() -> Seq<char> {
    "不支持该文件格式，仅支持 PDF、Word、Excel、PPT、JPG、PNG、BMP 和 TXT"@
}

/// Accepts a file name whose extension (in any case) is PDF, an Office
/// format, an image (JPG, PNG, BMP) or TXT.
pub fn ensure_supported_file_name(file_name: &str) -> (r: Result<(), AppError>)
    ensures
        supported_upload_extension(lower_extension(file_name@)) ==> r is Ok,
        !supported_upload_extension(lower_extension(file_name@)) ==> r is Err && is_bad_request(r->Err_0, msg_unsupported_upload()),
        r is Ok <==> ({
            let e = lower_extension(file_name@);
            ||| e == "pdf"@ || e == "doc"@ || e == "docx"@ || e == "xls"@ || e == "xlsx"@ || e == "ppt"@
            ||| e == "pptx"@ || e == "jpg"@ || e == "jpeg"@ || e == "png"@ || e == "bmp"@ || e == "txt"@
        }),
{
    let e = lower_extension_of(file_name);
    let list: [&str; 12] = ["pdf", "doc", "docx", "xls", "xlsx", "ppt", "pptx", "jpg", "jpeg", "png", "bmp", "txt"];
    let found = is_one_of(e.as_slice(), list.as_slice());
    proof {
        assert(list@ == seq!["pdf", "doc", "docx", "xls", "xlsx", "ppt", "pptx", "jpg", "jpeg", "png", "bmp", "txt"]);
        if supported_upload_extension(e@) {
            if e@ == "pdf"@ { assert(e@ == list@[0]@); }
            if e@ == "doc"@ { assert(e@ == list@[1]@); }
            if e@ == "docx"@ { assert(e@ == list@[2]@); }
            if e@ == "xls"@ { assert(e@ == list@[3]@); }
            if e@ == "xlsx"@ { assert(e@ == list@[4]@); }
            if e@ == "ppt"@ { assert(e@ == list@[5]@); }
            if e@ == "pptx"@ { assert(e@ == list@[6]@); }
            if e@ == "jpg"@ { assert(e@ == list@[7]@); }
            if e@ == "jpeg"@ { assert(e@ == list@[8]@); }
            if e@ == "png"@ { assert(e@ == list@[9]@); }
            if e@ == "bmp"@ { assert(e@ == list@[10]@); }
            if e@ == "txt"@ { assert(e@ == list@[11]@); }
        }
    }
    if found {
        Ok(())
    } else {
        Err(crate::error::bad_request("不支持该文件格式，仅支持 PDF、Word、Excel、PPT、JPG、PNG、BMP 和 TXT"))
    }
}

/// Whether a path names a PDF: its extension is `pdf` in any case.
pub fn is_pdf(path: &str) -> (b: bool)
    ensures
        b == (extension_spec(path@) is Some && to_ascii_lower(extension_spec(path@)->Some_0) == "pdf"@),
{
    let chars = chars_of(path);
    match extension_of(chars.as_slice()) {
        None => false,
        Some(e) => {
            let lower = lower_ascii(e.as_slice());
            let pdf = chars_of("pdf");
            let list: [&str; 1] = ["pdf"];
            let r = is_one_of(lower.as_slice(), list.as_slice());
            assert(list@ == seq!["pdf"]);
            proof {
                if lower@ == "pdf"@ {
                    assert(lower@ == list@[0]@);
                }
            }
            r
        },
    }
}

/// Checks the page count of an inspected PDF: a PDF without pages is refused.
pub fn check_page_count(pages: i64) -> (r: Result<i64, AppError>)
    ensures
        pages == 0 ==> r is Err && is_bad_request(r->Err_0, "PDF file has no pages"@),
        pages != 0 ==> r == Ok::<i64, AppError>(pages),
{
    if pages == 0 {
        Err(crate::error::bad_request("PDF file has no pages"))
    } else {
        Ok(pages)
    }
}

/// The timeout of an external command: the configured seconds, at least 5.
pub fn command_timeout_seconds(configured: u64) -> (s: u64)
    ensures
        s == (if configured < 5 { 5 } else { configured }),
{
    if configured < 5 {
        5
    } else {
        configured
    }
}

/// A converter argument template with `{input}`, then `{output}`, then
/// `{output_dir}` replaced, each as a whole argument piece.
pub open spec fn placeholders_spec(template: Seq<char>, input: Seq<char>, output: Seq<char>, output_dir: Seq<char>) -> Seq<char> {
    replace_all(
        replace_all(replace_all(template, "{input}"@, input), "{output}"@, output),
        "{output_dir}"@,
        output_dir,
    )
}

/// Fills the placeholders of one converter argument template.
pub fn replace_placeholders(template: &str, input: &str, output: &str, output_dir: &str) -> (r: String)
    ensures
        r@ == placeholders_spec(template@, input@, output@, output_dir@),
{
    let t = chars_of(template);
    let p_input = chars_of("{input}");
    let p_output = chars_of("{output}");
    let p_dir = chars_of("{output_dir}");
    proof {
        reveal_strlit("{input}");
        reveal_strlit("{output}");
        reveal_strlit("{output_dir}");
    }
    let v_input = chars_of(input);
    let v_output = chars_of(output);
    let v_dir = chars_of(output_dir);
    let a = replace_chars(t.as_slice(), p_input.as_slice(), v_input.as_slice());
    let b = replace_chars(a.as_slice(), p_output.as_slice(), v_output.as_slice());
    let c = replace_chars(b.as_slice(), p_dir.as_slice(), v_dir.as_slice());
    string_of(c.as_slice())
}

/// The argument templates used when none are configured.
pub open spec fn default_converter_templates() -> Seq<Seq<char>> {
    seq!["--headless"@, "--convert-to"@, "pdf"@, "--outdir"@, "{output_dir}"@, "{input}"@]
}

/// The arguments passed to the converter: the configured templates, or the
/// default ones when none are configured, each with its placeholders filled.
pub open spec fn converter_arguments_spec(configured: Seq<Seq<char>>, input: Seq<char>, output: Seq<char>, output_dir: Seq<char>) -> Seq<Seq<char>> {
    let templates = if configured.len() == 0 { default_converter_templates() } else { configured };
    templates.map_values(|t: Seq<char>| placeholders_spec(t, input, output, output_dir))
}

/// The arguments for one conversion.
pub fn converter_arguments(config: &Config, input: &str, output: &str, output_dir: &str) -> (args: Vec<String>)
    ensures
        args@.map_values(|a: String| a@) == converter_arguments_spec(
            config.converter.office_args@.map_values(|a: String| a@),
            input@,
            output@,
            output_dir@,
        ),
{
    let defaults: [&str; 6] = ["--headless", "--convert-to", "pdf", "--outdir", "{output_dir}", "{input}"];
    let ghost configured = config.converter.office_args@.map_values(|a: String| a@);
    let ghost templates = if configured.len() == 0 { default_converter_templates() } else { configured };
    let ghost expected = converter_arguments_spec(configured, input@, output@, output_dir@);
    assert(defaults@ == seq!["--headless", "--convert-to", "pdf", "--outdir", "{output_dir}", "{input}"]);
    let mut args: Vec<String> = Vec::new();
    let use_defaults = config.converter.office_args.len() == 0;
    let n: usize = if use_defaults { 6 } else { config.converter.office_args.len() };
    assert(templates.len() == n);
    let mut k: usize = 0;
    while k < n
        invariant
            k <= n,
            n == templates.len(),
            use_defaults == (configured.len() == 0),
            configured == config.converter.office_args@.map_values(|a: String| a@),
            templates == (if configured.len() == 0 { default_converter_templates() } else { configured }),
            defaults@ == seq!["--headless", "--convert-to", "pdf", "--outdir", "{output_dir}", "{input}"],
            expected == templates.map_values(|t: Seq<char>| placeholders_spec(t, input@, output@, output_dir@)),
            args@.len() == k,
            forall|j: int| 0 <= j < k ==> #[trigger] args@[j]@ == expected[j],
        decreases n - k,
    {
        let template: &str = if use_defaults { defaults[k] } else { config.converter.office_args[k].as_str() };
        assert(template@ == templates[k as int]);
        let a = replace_placeholders(template, input, output, output_dir);
        args.push(a);
        k = k + 1;
    }
    assert(args@.map_values(|a: String| a@) =~= expected);
    args
}

/// The converter program: the configured one unless it is blank; otherwise
/// a LibreOffice bundled next to the executable if one was found, else
/// `soffice.exe` on Windows and `libreoffice` elsewhere.
pub open spec fn converter_program_spec(configured: Seq<char>, windows: bool, bundled: Option<Seq<char>>) -> Seq<char> {
    if trim(configured).len() > 0 {
        configured
    } else {
        match bundled {
            Some(b) => b,
            None => if windows { "soffice.exe"@ } else { "libreoffice"@ },
        }
    }
}

/// Chooses the converter program; `bundled` is the LibreOffice found next to
/// the executable, if any (looked for on Windows only).
pub fn converter_program(config: &Config, windows: bool, bundled: Option<String>) -> (p: String)
    ensures
        p@ == converter_program_spec(config.converter.office_program@, windows, crate::config::opt_view(bundled)),
{
    let t = crate::text::trim_str(config.converter.office_program.as_str());
    if !t.as_str().is_empty() {
        return config.converter.office_program.clone();
    }
    match bundled {
        Some(b) => b,
        None => if windows {
            crate::text::owned("soffice.exe")
        } else {
            crate::text::owned("libreoffice")
        },
    }
}

} // verus!
