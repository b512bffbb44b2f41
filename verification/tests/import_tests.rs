use printing_platform::import::{ensure_supported_file_name, is_spreadsheet, parse_plain, parse_student_ids, unique_ids};

#[test]
fn import_file_name_rejects_unknown_extensions() {
    assert!(ensure_supported_file_name("users.xlsx").is_ok());
    assert!(ensure_supported_file_name("users.CSV").is_ok());
    assert!(ensure_supported_file_name("users.exe").is_err());
    assert!(ensure_supported_file_name("users").is_err());
}

#[test]
fn plain_import_takes_the_first_field_of_each_line() {
    let ids = parse_plain(b"2021001, Alice\n 2021002\tBob\n\n2021003;x\r\n  \n");
    assert_eq!(ids, vec!["2021001", "2021002", "2021003"]);
}

#[test]
fn student_ids_are_trimmed_and_deduplicated() {
    let ids = parse_student_ids("users.txt", b"a1\na1\n b2 \n", &[]).unwrap();
    assert_eq!(ids, vec!["a1", "b2"]);
    let sheet = vec![" s1".to_string(), "s2".to_string(), "s1".to_string(), "".to_string()];
    let ids = parse_student_ids("users.XLSX", b"ignored", &sheet).unwrap();
    assert_eq!(ids, vec!["s1", "s2"]);
    assert_eq!(unique_ids(&["x".to_string(), " x ".to_string(), "y".to_string()]), vec!["x", "y"]);
}

#[test]
fn import_without_ids_is_refused() {
    let e = parse_student_ids("users.csv", b"\n , \n", &[]).unwrap_err();
    assert_eq!(e.message(), "import file does not contain any student id");
    assert!(parse_student_ids("users.xls", b"", &[]).is_err());
}

#[test]
fn invalid_utf8_is_read_lossily() {
    let ids = parse_student_ids("users.txt", b"\xff01\n", &[]).unwrap();
    assert_eq!(ids, vec!["\u{fffd}01"]);
    assert!(is_spreadsheet("a.xlsm"));
    assert!(!is_spreadsheet("a.csv"));
}
