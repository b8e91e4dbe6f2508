use ts_cdk::config::{convert_to_dir_path, PathError};
use ts_cdk::text::{remove_empty_lines_and_quotes, replace_all};

#[test]
fn cleanup_drops_empty_and_quote_lines() {
    let input = "a\n\n\"\"\n\"\",\n  \nb";
    assert_eq!(remove_empty_lines_and_quotes(input), "a\nb");
}

#[test]
fn cleanup_keeps_ordinary_lines() {
    let input = "  \"x\": 1,\n  \"y\": 2";
    assert_eq!(remove_empty_lines_and_quotes(input), input);
}

#[test]
fn cleanup_trims_whitespace_only_quote_lines() {
    assert_eq!(remove_empty_lines_and_quotes("\t\"\",\nkeep\n   \"\"   "), "keep");
}

#[test]
fn cleanup_of_empty_is_empty() {
    assert_eq!(remove_empty_lines_and_quotes(""), "");
}

#[test]
fn replace_all_non_overlapping() {
    assert_eq!(replace_all("aaa", "aa", "b"), "ba");
    assert_eq!(replace_all("x%n%y%n%", "%n%", "q"), "xqyq");
    assert_eq!(replace_all("none here", "%n%", "q"), "none here");
}

#[test]
fn replace_all_with_empty_replacement() {
    assert_eq!(replace_all("a./b./", "./", ""), "ab");
}

#[test]
fn dir_path_plain() {
    let args = vec!["my-dir".to_string()];
    assert_eq!(convert_to_dir_path(&args), Ok("my-dir".to_string()));
}

#[test]
fn dir_path_strips_dot_slash_and_trailing_slash() {
    let args = vec!["./my-dir/".to_string()];
    assert_eq!(convert_to_dir_path(&args), Ok("my-dir".to_string()));
}

#[test]
fn dir_path_defaults_to_current() {
    let args: Vec<String> = vec![];
    assert_eq!(convert_to_dir_path(&args), Ok(".".to_string()));
}

#[test]
fn dir_path_rejects_parent_reference() {
    let args = vec!["../elsewhere".to_string()];
    assert_eq!(convert_to_dir_path(&args), Err(PathError::ParentReference));
}
