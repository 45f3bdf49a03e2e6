use trace::filetype::FileType;
use trace::log_result::LogResult;
use trace::table::CountTable;
use trace::text::str_eq;

fn rust_file() -> FileType<'static> {
    FileType::Rust {
        inline_comment_format: Some("//"),
        multiline_comment_start_format: Some("/*"),
        multiline_comment_end_format: Some("*/"),
    }
}

fn python_file() -> FileType<'static> {
    FileType::Python {
        inline_comment_format: Some("#"),
        multiline_comment_start_format: None,
        multiline_comment_end_format: None,
    }
}

#[test]
fn same_text_is_equal() {
    assert!(str_eq("TODO", "TODO"));
    assert!(str_eq("", ""));
    assert!(!str_eq("TODO", "TODo"));
    assert!(!str_eq("TODO", "TOD"));
    assert!(!str_eq("", "x"));
    assert!(str_eq("C\u{e9}", "C\u{e9}"));
    assert!(!str_eq("C\u{e9}", "C\u{e8}"));
}

#[test]
fn new_table_is_empty() {
    let table = CountTable::new();
    assert_eq!(table.len(), 0);
    assert_eq!(table.get("TODO"), None);
}

#[test]
fn add_starts_and_raises_counts() {
    let mut table = CountTable::new();
    table.add("TODO", 1);
    assert_eq!(table.get("TODO"), Some(1));
    table.add("TODO", 2);
    assert_eq!(table.get("TODO"), Some(3));
    table.add("HACK", 0);
    assert_eq!(table.get("HACK"), Some(0));
    assert_eq!(table.get("BUG"), None);
    assert_eq!(table.len(), 2);
}

#[test]
fn entries_keep_the_order_in_which_names_came() {
    let mut table = CountTable::new();
    table.add("b", 2);
    table.add("a", 1);
    table.add("b", 5);
    assert_eq!(table.len(), 2);
    assert_eq!(table.name_at(0), "b");
    assert_eq!(table.count_at(0), 7);
    assert_eq!(table.name_at(1), "a");
    assert_eq!(table.count_at(1), 1);
}

#[test]
fn tables_are_merged_name_by_name() {
    let mut left = CountTable::new();
    left.add("Rust", 2);
    left.add("C", 1);
    let mut right = CountTable::new();
    right.add("C", 4);
    right.add("Zig", 3);
    assert!(left.fits(&right));
    left.merge(&right);
    assert_eq!(left.get("Rust"), Some(2));
    assert_eq!(left.get("C"), Some(5));
    assert_eq!(left.get("Zig"), Some(3));
    assert_eq!(left.len(), 3);
    assert_eq!(right.get("C"), Some(4));
}

#[test]
fn merge_that_would_run_over_does_not_fit() {
    let mut left = CountTable::new();
    left.add("C", usize::MAX - 1);
    let mut one = CountTable::new();
    one.add("C", 1);
    let mut two = CountTable::new();
    two.add("C", 2);
    let mut other = CountTable::new();
    other.add("Zig", usize::MAX);
    assert!(left.fits(&one));
    assert!(!left.fits(&two));
    assert!(left.fits(&other));
    assert!(one.fits(&left));
    assert!(!two.fits(&left));
}

#[test]
fn new_result_holds_every_keyword_at_zero() {
    let result = LogResult::new();
    assert_eq!(result.line_count(), 0);
    assert_eq!(result.keyword_table().len(), 4);
    assert_eq!(result.keyword_table().get("TODO"), Some(0));
    assert_eq!(result.keyword_table().get("HACK"), Some(0));
    assert_eq!(result.keyword_table().get("BUG"), Some(0));
    assert_eq!(result.keyword_table().get("FIXME"), Some(0));
    assert_eq!(result.keyword_table().get("NOTE"), None);
    assert_eq!(result.filetype_table().len(), 0);
}

#[test]
fn keywords_are_in_their_fixed_order() {
    assert_eq!(LogResult::KEY_COMMENTS, ["TODO", "HACK", "BUG", "FIXME"]);
    let result = LogResult::new();
    for (i, keyword) in LogResult::KEY_COMMENTS.iter().enumerate() {
        assert_eq!(result.keyword_table().name_at(i), *keyword);
    }
}

#[test]
fn line_count_goes_up_by_one() {
    let mut result = LogResult::new();
    result.increment_line_count();
    assert_eq!(result.line_count(), 1);
    result.increment_line_count();
    result.increment_line_count();
    assert_eq!(result.line_count(), 3);
    assert_eq!(result.keyword_table().get("TODO"), Some(0));
    assert_eq!(result.filetype_table().len(), 0);
}

#[test]
fn keyword_count_goes_up_by_one() {
    let mut result = LogResult::new();
    result.increment_keyword("HACK");
    result.increment_keyword("HACK");
    result.increment_keyword("FIXME");
    assert_eq!(result.keyword_table().get("TODO"), Some(0));
    assert_eq!(result.keyword_table().get("HACK"), Some(2));
    assert_eq!(result.keyword_table().get("BUG"), Some(0));
    assert_eq!(result.keyword_table().get("FIXME"), Some(1));
    assert_eq!(result.line_count(), 0);
}

#[test]
fn unknown_keyword_is_added_with_one() {
    let mut result = LogResult::new();
    result.increment_keyword("NOTE");
    assert_eq!(result.keyword_table().get("NOTE"), Some(1));
    assert_eq!(result.keyword_table().len(), 5);
    result.increment_keyword("NOTE");
    assert_eq!(result.keyword_table().get("NOTE"), Some(2));
    assert_eq!(result.keyword_table().len(), 5);
}

#[test]
fn languages_appear_as_their_files_are_counted() {
    let mut result = LogResult::new();
    result.increment_filetype_frequency(&rust_file());
    assert_eq!(result.filetype_table().get("Rust"), Some(1));
    assert_eq!(result.filetype_table().get("Python"), None);
    result.increment_filetype_frequency(&python_file());
    result.increment_filetype_frequency(&rust_file());
    assert_eq!(result.filetype_table().get("Rust"), Some(2));
    assert_eq!(result.filetype_table().get("Python"), Some(1));
    assert_eq!(result.filetype_table().len(), 2);
    assert_eq!(result.line_count(), 0);
}

#[test]
fn results_are_added_up() {
    let mut total = LogResult::new();
    total.increment_line_count();
    total.increment_keyword("TODO");
    total.increment_filetype_frequency(&rust_file());
    let mut file = LogResult::new();
    file.increment_line_count();
    file.increment_line_count();
    file.increment_keyword("TODO");
    file.increment_keyword("BUG");
    file.increment_filetype_frequency(&python_file());
    assert!(total.can_merge(&file));
    total.merge(&file);
    assert_eq!(total.line_count(), 3);
    assert_eq!(total.keyword_table().get("TODO"), Some(2));
    assert_eq!(total.keyword_table().get("HACK"), Some(0));
    assert_eq!(total.keyword_table().get("BUG"), Some(1));
    assert_eq!(total.keyword_table().get("FIXME"), Some(0));
    assert_eq!(total.filetype_table().get("Rust"), Some(1));
    assert_eq!(total.filetype_table().get("Python"), Some(1));
}

#[test]
fn results_that_would_run_over_cannot_be_merged() {
    let mut a = LogResult::new();
    a.increment_line_count();
    let mut b = LogResult::new();
    b.increment_line_count();
    let mut rounds = 0;
    while a.can_merge(&b) {
        a.merge(&b);
        std::mem::swap(&mut a, &mut b);
        rounds += 1;
        assert!(rounds < 200);
    }
    assert_eq!(a.line_count().checked_add(b.line_count()), None);
    assert!(!b.can_merge(&a));
}

#[test]
fn keyword_counts_that_would_run_over_cannot_be_merged() {
    let mut a = LogResult::new();
    a.increment_keyword("BUG");
    let mut b = LogResult::new();
    b.increment_keyword("BUG");
    let mut rounds = 0;
    while a.can_merge(&b) {
        a.merge(&b);
        std::mem::swap(&mut a, &mut b);
        rounds += 1;
        assert!(rounds < 200);
    }
    let mine = a.keyword_table().get("BUG").unwrap();
    let theirs = b.keyword_table().get("BUG").unwrap();
    assert_eq!(mine.checked_add(theirs), None);
    assert_eq!(a.line_count(), 0);
}
