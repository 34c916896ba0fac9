use cag::context_finder::ContextFinder;
use cag::context_finder::InputType;

/// A git-log-shaped input: one commit block at the top, diff content in
/// between, and a second commit block starting at line 306 whose diff
/// separator sits at line 312, for 320 lines in all.
fn git_log() -> Vec<String> {
    let mut v: Vec<String> = Vec::new();
    v.push("commit aaaaaaaaaaaaaaaaaaaaaaaaaaaaaaaaaaaaaaaa".to_string());
    v.push("Author: Mr. Example <mr@example.com>".to_string());
    v.push("Date:   Mon Jan 1 12:00:00 2024 +0000".to_string());
    v.push(String::new());
    v.push("    Add the first feature".to_string());
    v.push(String::new());
    v.push("diff --git a/src/one.rs b/src/one.rs".to_string());
    for i in 7..306 {
        v.push(format!("+    change line {i}"));
    }
    v.push("commit bbbbbbbbbbbbbbbbbbbbbbbbbbbbbbbbbbbbbbbb".to_string());
    v.push("Author: Mr. Example <mr@example.com>".to_string());
    v.push("Date:   Tue Jan 2 12:00:00 2024 +0000".to_string());
    v.push(String::new());
    v.push("    Fix the second feature".to_string());
    v.push(String::new());
    v.push("diff --git a/src/two.rs b/src/two.rs".to_string());
    for i in 313..320 {
        v.push(format!("-    removed line {i}"));
    }
    v
}

#[test]
fn find_commit_from_start() {
    let input = git_log();
    let cf = ContextFinder::new(&InputType::Git).unwrap();
    let commit_pos = cf.find_range(&input, 0);
    assert!(commit_pos.is_none());
}

#[test]
fn find_commit_from_end() {
    let input = git_log();
    let cf = ContextFinder::new(&InputType::Git).unwrap();
    let range = cf.find_range(&input, input.len() - 1).unwrap();
    assert_eq!(range.start, 306);
    assert_eq!(range.end, 311);
    assert!(input[range.start].contains("commit"));
    assert!(input[range.start + 1].contains("Mr. Example"));
}

#[test]
fn find_commit_patch_from_start() {
    let input = git_log();
    let cf = ContextFinder::new(&InputType::Git).unwrap();
    let range = cf.find_range(&input, 0);
    assert!(range.is_none());
}

#[test]
fn find_commit_patch_first() {
    let input = git_log();
    let cf = ContextFinder::new(&InputType::Git).unwrap();
    let range = cf.find_range(&input, 10).unwrap();
    assert_eq!(range.start, 0);
    assert_eq!(range.end, 5);
    assert!(input[range.start].contains("commit"));
    assert!(input[range.start + 1].contains("Mr. Example"));
}

#[test]
fn find_commit_patch() {
    let input = git_log();
    let cf = ContextFinder::new(&InputType::Git).unwrap();
    let range = cf.find_range(&input, input.len() - 1).unwrap();
    assert_eq!(range.start, 306);
    assert_eq!(range.end, 311);
    assert!(input[range.start].contains("commit"));
    assert!(input[range.start + 1].contains("Mr. Example"));
}

fn lines_of(xs: &[&str]) -> Vec<String> {
    xs.iter().map(|s| s.to_string()).collect()
}

#[test]
fn no_context_at_first_two_positions() {
    let input = lines_of(&["alpha", "beta", "gamma"]);
    let cf = ContextFinder::new(&InputType::Git).unwrap();
    assert!(cf.get_context(&input, 0).is_none());
    assert!(cf.get_context(&input, 1).is_none());
}

#[test]
fn context_ends_before_diff_separator() {
    let input = lines_of(&["commit A", "msg1", "msg2", "diff --git a/f b/f", "x"]);
    let cf = ContextFinder::new(&InputType::Git).unwrap();
    let context = cf.get_context(&input, 4).unwrap();
    assert_eq!(
        context,
        lines_of(&["commit A", "msg1", "msg2", "diff --git a/f b/f"])
    );
}

#[test]
fn context_defaults_to_position_when_no_boundary() {
    let input = lines_of(&["commit A", "x", "commit B", "y"]);
    let cf = ContextFinder::new(&InputType::Git).unwrap();
    let context = cf.get_context(&input, 3).unwrap();
    assert_eq!(context, lines_of(&["commit B", "y"]));
}

#[test]
fn context_needs_a_trailing_line() {
    // The slice always takes one line past the block's end, so a block
    // that reaches the store's last line yields no context.
    let input = lines_of(&["commit A", "x"]);
    let cf = ContextFinder::new(&InputType::Git).unwrap();
    assert!(cf.get_context(&input, 2).is_none());
}
