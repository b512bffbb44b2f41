use printing_platform::config::Config;
use printing_platform::converter::{
    check_page_count, command_timeout_seconds, converter_arguments, converter_program, ensure_supported_file_name, is_pdf,
    replace_placeholders,
};

#[test]
fn placeholders_preserve_spaces_as_part_of_one_argument() {
    let input = r"C:\Users\ACM User\input file.docx";
    let output = r"C:\Printing Platform\preview file.pdf";
    assert_eq!(replace_placeholders("{input}", input, output, "C:\\out"), input);
    assert_eq!(replace_placeholders("{output}", input, output, "C:\\out"), output);
}

#[test]
fn upload_file_name_rejects_unknown_extensions() {
    assert!(ensure_supported_file_name("document.pdf").is_ok());
    assert!(ensure_supported_file_name("photo.JPEG").is_ok());
    assert!(ensure_supported_file_name("archive.zip").is_err());
    assert!(ensure_supported_file_name("no-extension").is_err());
}

#[test]
fn unsupported_upload_is_a_bad_request_with_the_list_of_formats() {
    let e = ensure_supported_file_name("a.exe").unwrap_err();
    assert_eq!(e.status_code(), 400);
    assert_eq!(e.message(), "不支持该文件格式，仅支持 PDF、Word、Excel、PPT、JPG、PNG、BMP 和 TXT");
    assert!(ensure_supported_file_name(".pdf").is_err());
    assert!(ensure_supported_file_name("dir.pdf/notes.txt").is_ok());
}

#[test]
fn placeholders_are_replaced_in_order_and_everywhere() {
    assert_eq!(replace_placeholders("--outdir={output_dir}", "in", "out", "dir"), "--outdir=dir");
    assert_eq!(replace_placeholders("{input}{input}", "a", "b", "c"), "aa");
    assert_eq!(replace_placeholders("plain", "a", "b", "c"), "plain");
}

#[test]
fn converter_uses_default_arguments_unless_configured() {
    let mut config = Config::with_data_dir("/d".to_string());
    let args = converter_arguments(&config, "/u/a.docx", "/p/a.pdf", "/p");
    assert_eq!(args, vec!["--headless", "--convert-to", "pdf", "--outdir", "/p", "/u/a.docx"]);
    config.converter.office_args = vec!["-o".to_string(), "{output}".to_string(), "{input}".to_string()];
    let args = converter_arguments(&config, "/u/a.docx", "/p/a.pdf", "/p");
    assert_eq!(args, vec!["-o", "/p/a.pdf", "/u/a.docx"]);
}

#[test]
fn converter_program_prefers_configuration_then_bundled_copy() {
    let mut config = Config::with_data_dir("/d".to_string());
    assert_eq!(converter_program(&config, false, None), "libreoffice");
    assert_eq!(converter_program(&config, true, None), "soffice.exe");
    assert_eq!(converter_program(&config, true, Some("C:\\pp\\tools\\soffice.exe".into())), "C:\\pp\\tools\\soffice.exe");
    config.converter.office_program = "/usr/bin/soffice".to_string();
    assert_eq!(converter_program(&config, true, Some("x".into())), "/usr/bin/soffice");
    config.converter.office_program = "   ".to_string();
    assert_eq!(converter_program(&config, false, None), "libreoffice");
}

#[test]
fn pdf_detection_and_page_checks() {
    assert!(is_pdf("/tmp/a.PDF"));
    assert!(!is_pdf("/tmp/a.pdf.txt"));
    assert!(!is_pdf("pdf"));
    assert_eq!(check_page_count(3).unwrap(), 3);
    assert_eq!(check_page_count(0).unwrap_err().message(), "PDF file has no pages");
    assert_eq!(command_timeout_seconds(1), 5);
    assert_eq!(command_timeout_seconds(180), 180);
}
