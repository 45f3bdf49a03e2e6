use trace::comment::{contains, extract_comment, find, rfind, CommentSlice};
use trace::filetype::FileType;

fn c_file() -> FileType<'static> {
    FileType::C {
        inline_comment_format: Some("//"),
        multiline_comment_start_format: Some("/*"),
        multiline_comment_end_format: Some("*/"),
    }
}

fn python_file() -> FileType<'static> {
    FileType::Python {
        inline_comment_format: Some("#"),
        multiline_comment_start_format: None,
        multiline_comment_end_format: None,
    }
}

fn no_comments() -> FileType<'static> {
    FileType::Json {
        inline_comment_format: None,
        multiline_comment_start_format: None,
        multiline_comment_end_format: None,
    }
}

fn comment(text: &str) -> Option<CommentSlice> {
    Some(CommentSlice { text: text.as_bytes().to_vec(), fallback: false })
}

fn run(line: &str, filetype: &FileType, inside: bool) -> (Option<CommentSlice>, bool) {
    let mut state = inside;
    let slice = extract_comment(line.as_bytes(), filetype, &mut state);
    (slice, state)
}

#[test]
fn find_gives_the_first_occurrence() {
    assert_eq!(find(b"a // b // c", b"//"), Some(2));
    assert_eq!(find(b"//", b"//"), Some(0));
    assert_eq!(find(b"abc", b"//"), None);
    assert_eq!(find(b"/", b"//"), None);
    assert_eq!(find(b"", b"//"), None);
    assert_eq!(find(b"aaa", b"aa"), Some(0));
}

#[test]
fn rfind_gives_the_last_occurrence() {
    assert_eq!(rfind(b"a */ b */ c", b"*/"), Some(7));
    assert_eq!(rfind(b"*/", b"*/"), Some(0));
    assert_eq!(rfind(b"abc", b"*/"), None);
    assert_eq!(rfind(b"", b"*/"), None);
    assert_eq!(rfind(b"aaa", b"aa"), Some(1));
}

#[test]
fn empty_marker_is_found_at_the_ends() {
    assert_eq!(find(b"abc", b""), Some(0));
    assert_eq!(rfind(b"abc", b""), Some(3));
    assert_eq!(find(b"", b""), Some(0));
    assert_eq!(rfind(b"", b""), Some(0));
    assert!(contains(b"abc", b""));
}

#[test]
fn contains_ignores_word_boundaries_and_keeps_case() {
    assert!(contains(b"a BUGGY thing", b"BUG"));
    assert!(contains(b"xTODOx", b"TODO"));
    assert!(!contains(b"todo", b"TODO"));
    assert!(!contains(b"TOD", b"TODO"));
    assert!(!contains(b"", b"TODO"));
}

#[test]
fn no_marker_outside_gives_no_comment() {
    assert_eq!(run("int x = 1;", &c_file(), false), (None, false));
}

#[test]
fn empty_line_gives_no_comment_and_keeps_the_state() {
    assert_eq!(run("", &c_file(), false), (None, false));
    assert_eq!(run("", &c_file(), true), (None, true));
    assert_eq!(run("", &python_file(), true), (None, true));
}

#[test]
fn inline_marker_opens_a_comment_to_the_end_of_the_line() {
    assert_eq!(run("int x; // TODO: fix", &c_file(), false), (comment("// TODO: fix"), false));
    assert_eq!(run("x = 1 # HACK", &python_file(), false), (comment("# HACK"), false));
    assert_eq!(run("a // b // c", &c_file(), false), (comment("// b // c"), false));
}

#[test]
fn inside_without_end_marker_the_whole_line_is_comment() {
    assert_eq!(run("still inside", &c_file(), true), (comment("still inside"), true));
    assert_eq!(run("with // inline", &c_file(), true), (comment("with // inline"), true));
    assert_eq!(run("with /* start", &c_file(), true), (comment("with /* start"), true));
}

#[test]
fn inside_with_end_marker_the_comment_runs_up_to_it() {
    assert_eq!(run("end */ int y;", &c_file(), true), (comment("end "), false));
    assert_eq!(run("*/", &c_file(), true), (comment(""), false));
    assert_eq!(run("a */ b */ c", &c_file(), true), (comment("a */ b "), false));
}

#[test]
fn inline_marker_behind_the_end_marker_is_spliced_on() {
    assert_eq!(run("end */ x; // BUG", &c_file(), true), (comment("end // BUG"), false));
    assert_eq!(run(" */ // BUG(SEP)", &c_file(), true), (comment(" // BUG(SEP)"), false));
}

#[test]
fn inline_marker_before_the_end_marker_adds_nothing() {
    assert_eq!(run("a // b */ c", &c_file(), true), (comment("a // b "), false));
}

#[test]
fn start_marker_on_a_closing_line_does_not_keep_the_comment_open() {
    assert_eq!(run("/* */ FIXME", &c_file(), true), (comment("/* "), false));
}

#[test]
fn stray_end_marker_outside_is_read_as_a_close() {
    assert_eq!(run("tail */ code", &c_file(), false), (comment("tail "), false));
    assert_eq!(run("tail */ code // more", &c_file(), false), (comment("tail // more"), false));
    assert_eq!(run("// a */ b", &c_file(), false), (comment("// a "), false));
}

#[test]
fn start_marker_without_end_opens_a_comment() {
    assert_eq!(run("int x; /* HACK start", &c_file(), false), (comment("/* HACK start"), true));
    assert_eq!(run("/* HACK start", &c_file(), false), (comment("/* HACK start"), true));
}

#[test]
fn earlier_of_start_and_inline_marker_begins_the_comment() {
    assert_eq!(run("a /* b // c", &c_file(), false), (comment("/* b // c"), true));
    assert_eq!(run("a // b /* c", &c_file(), false), (comment("// b /* c"), true));
}

#[test]
fn start_and_end_marker_on_one_line_enclose_the_comment() {
    assert_eq!(run("x /* note */ y", &c_file(), false), (comment("/* note "), false));
    assert_eq!(run("/**/", &c_file(), false), (comment("/*"), false));
}

#[test]
fn end_marker_before_start_marker_encloses_nothing() {
    assert_eq!(run("a */ b /* c", &c_file(), false), (comment(""), false));
}

#[test]
fn overlapping_start_and_end_marker() {
    assert_eq!(run("/*/", &c_file(), false), (comment("/"), false));
}

#[test]
fn all_three_markers_fall_back_to_the_whole_line() {
    let line = "a /* b */ c // d";
    let expected = Some(CommentSlice { text: line.as_bytes().to_vec(), fallback: true });
    assert_eq!(run(line, &c_file(), false), (expected, false));
}

#[test]
fn all_three_markers_inside_close_the_comment() {
    assert_eq!(run("a /* b */ c // d", &c_file(), true), (comment("a /* b // d"), false));
}

#[test]
fn language_without_markers_never_has_a_comment() {
    for line in ["// TODO", "/* HACK */", "# BUG", "plain", "*/", "x"] {
        assert_eq!(run(line, &no_comments(), false), (None, false));
    }
}

#[test]
fn language_without_multiline_comments_follows_the_inline_rule() {
    assert_eq!(run("/* not a comment */", &python_file(), false), (None, false));
    assert_eq!(run("x # /* y */", &python_file(), false), (comment("# /* y */"), false));
    assert_eq!(run("x # y", &python_file(), true), (comment("x # y"), true));
}

#[test]
fn multiline_comment_round_trip() {
    let lines = [
        "code();",
        "/* opened here",
        "plain text",
        "",
        "more text",
        "closed */ code();",
        "code();",
    ];
    let expected_after = [false, true, true, true, true, false, false];
    let filetype = c_file();
    let mut state = false;
    for (line, expected) in lines.iter().zip(expected_after.iter()) {
        extract_comment(line.as_bytes(), &filetype, &mut state);
        assert_eq!(state, *expected);
    }
}

#[test]
fn markers_in_a_string_literal_still_open_a_comment() {
    assert_eq!(
        run("let url = \"http://x\";", &c_file(), false),
        (comment("//x\";"), false)
    );
}
