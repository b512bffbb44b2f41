use printing_platform::pages::{
    format_page_range, format_page_ranges, normalize_custom_page_range, pages_to_delete, parse_custom_pages,
    selected_page_count,
};
use std::collections::BTreeSet;

#[test]
fn selected_page_count_handles_page_ranges() {
    assert_eq!(selected_page_count(5, "all").unwrap(), 5);
    assert_eq!(selected_page_count(5, "odd").unwrap(), 3);
    assert_eq!(selected_page_count(5, "even").unwrap(), 2);
    assert_eq!(selected_page_count(8, "custom:1-3,5，7、8").unwrap(), 6);
    assert!(selected_page_count(1, "even").is_err());
    assert!(selected_page_count(5, "invalid").is_err());
}

#[test]
fn custom_page_ranges_are_validated_and_normalized() {
    assert_eq!(normalize_custom_page_range(10, "1-3，5、7 8").unwrap(), "custom:1-3,5,7-8");
    assert!(normalize_custom_page_range(10, "").is_err());
    assert!(normalize_custom_page_range(10, "0").is_err());
    assert!(normalize_custom_page_range(10, "11").is_err());
    assert!(normalize_custom_page_range(10, "4-2").is_err());
    assert!(normalize_custom_page_range(10, "1-3,3").is_err());
    assert!(normalize_custom_page_range(10, "1--3").is_err());
}

#[test]
fn pages_to_delete_matches_selected_range() {
    assert_eq!(pages_to_delete(5, "all").unwrap(), Vec::<u32>::new());
    assert_eq!(pages_to_delete(5, "odd").unwrap(), vec![2, 4]);
    assert_eq!(pages_to_delete(5, "even").unwrap(), vec![1, 3, 5]);
    assert_eq!(pages_to_delete(8, "custom:1-3,5,7-8").unwrap(), vec![4, 6]);
    assert!(pages_to_delete(1, "even").is_err());
}

#[test]
fn custom_page_errors_name_the_problem() {
    let m = |input: &str| normalize_custom_page_range(10, input).unwrap_err().message();
    assert_eq!(m(""), "请输入要打印的自定义页码");
    assert_eq!(m("x"), "页码“x”无效，请使用数字或起止页（如 2-5）");
    assert_eq!(m("11"), "页码 11 超出有效范围 1-10");
    assert_eq!(m("0"), "页码 0 超出有效范围 1-10");
    assert_eq!(m("4-2"), "页码范围“4-2”的起始页不能大于结束页");
    assert_eq!(m("1-3,3"), "自定义页码中重复指定了第 3 页");
    assert_eq!(m("2-6,4-5"), "自定义页码中重复指定了第 4 页");
    assert_eq!(m("1-2-3"), "页码格式“1-2-3”无效，请使用数字或起止页（如 2-5）");
    assert_eq!(m("1--3"), "页码“”无效，请使用数字或起止页（如 2-5）");
    assert_eq!(selected_page_count(5, "foo").unwrap_err().message(), "页码范围必须是全部页、奇数页、偶数页或自定义页码");
    assert_eq!(selected_page_count(1, "even").unwrap_err().message(), "所选页码中没有可打印页面");
    assert_eq!(pages_to_delete(0, "all").unwrap_err().message(), "preview PDF has no pages");
}

#[test]
fn counts_below_one_are_taken_as_one_page() {
    assert_eq!(selected_page_count(0, "all").unwrap(), 1);
    assert_eq!(selected_page_count(-4, "odd").unwrap(), 1);
    assert_eq!(normalize_custom_page_range(0, "1").unwrap(), "custom:1");
    assert!(normalize_custom_page_range(0, "2").is_err());
    assert_eq!(normalize_custom_page_range(5_000_000_000, "1").unwrap_err().message(), "文件页数超出支持范围");
}

#[test]
fn page_lists_are_parsed_in_increasing_order() {
    assert_eq!(parse_custom_pages(20, " 9,2-4\t12 ").unwrap(), BTreeSet::from([2, 3, 4, 9, 12]));
    assert_eq!(parse_custom_pages(20, "+7").unwrap(), BTreeSet::from([7]));
    assert!(parse_custom_pages(20, "21").is_err());
}

#[test]
fn normal_text_joins_runs_with_commas() {
    assert_eq!(format_page_ranges(&BTreeSet::from([8, 1, 2, 3, 5, 7])), "1-3,5,7-8");
    assert_eq!(format_page_ranges(&BTreeSet::new()), "");
    assert_eq!(format_page_ranges(&BTreeSet::from([4])), "4");
    assert_eq!(format_page_range(6, 6), "6");
    assert_eq!(format_page_range(2, 9), "2-9");
}

#[test]
fn normal_form_reads_back_to_itself() {
    for input in ["3,1,2", "10 9 8 1", "2-4，6、7", "5"] {
        let once = normalize_custom_page_range(10, input).unwrap();
        let again = normalize_custom_page_range(10, &once["custom:".len()..]).unwrap();
        assert_eq!(once, again);
        let n = selected_page_count(10, &once).unwrap();
        let typed = parse_custom_pages(10, input).unwrap();
        assert_eq!(n as usize, typed.len());
    }
}

#[test]
fn charged_pages_and_deleted_pages_add_up() {
    for (total, sel) in [(7u32, "all"), (7, "odd"), (7, "even"), (8, "custom:1-3,5,7-8"), (1, "odd")] {
        let n = selected_page_count(total as i64, sel).unwrap();
        let d = pages_to_delete(total, sel).unwrap();
        assert_eq!(n as usize + d.len(), total as usize);
    }
    assert!(selected_page_count(1, "even").is_err() && pages_to_delete(1, "even").is_err());
}
