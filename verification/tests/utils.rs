use chunkdl::utils::{split_by_newline, utf_8_str_to_gbk_bytes, CommandResult};

#[test]
fn command_result_holds_its_fields() {
    let r = CommandResult::new(true, "out".to_string(), "err".to_string());
    assert!(r.success);
    assert_eq!(r.stdout, "out");
    assert_eq!(r.stderr, "err");
}

#[test]
fn command_result_clear_resets_everything() {
    let mut r = CommandResult::new(true, "out".to_string(), "err".to_string());
    r.clear();
    assert!(!r.success);
    assert_eq!(r.stdout, "");
    assert_eq!(r.stderr, "");
}

#[test]
fn splits_lines_like_the_standard_library() {
    assert_eq!(split_by_newline("a\nb\r\nc"), vec!["a", "b", "c"]);
    assert_eq!(split_by_newline(""), Vec::<String>::new());
    assert_eq!(split_by_newline("a\n"), vec!["a"]);
    assert_eq!(split_by_newline("\n"), vec![""]);
    assert_eq!(split_by_newline("a\r"), vec!["a\r"]);
    assert_eq!(split_by_newline("one line"), vec!["one line"]);
    assert_eq!(split_by_newline("x\n\ny"), vec!["x", "", "y"]);
}

#[test]
fn gbk_encodes_chinese_text() {
    assert_eq!(utf_8_str_to_gbk_bytes("\u{4e2d}"), vec![0xd6, 0xd0]);
    assert_eq!(utf_8_str_to_gbk_bytes("abc"), b"abc".to_vec());
    assert_eq!(utf_8_str_to_gbk_bytes(""), Vec::<u8>::new());
}
