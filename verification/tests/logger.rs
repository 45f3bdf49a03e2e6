use std::path::{Path, PathBuf};
use trace::filetype::FileType;
use trace::log_result::LogResult;
use trace::logger::{FileReport, LogError, Logger, ScanEvent, TreeEntry, WorkerStep};

fn c_file() -> FileType<'static> {
    FileType::C {
        inline_comment_format: Some("//"),
        multiline_comment_start_format: Some("/*"),
        multiline_comment_end_format: Some("*/"),
    }
}

fn python_file() -> FileType<'static> {
    FileType::Python {
        inline_comment_format: Some("#"),
        multiline_comment_start_format: None,
        multiline_comment_end_format: None,
    }
}

fn keywords(result: &LogResult) -> [usize; 4] {
    let table = result.keyword_table();
    [
        table.get("TODO").unwrap(),
        table.get("HACK").unwrap(),
        table.get("BUG").unwrap(),
        table.get("FIXME").unwrap(),
    ]
}

fn file(path: &str) -> TreeEntry {
    TreeEntry { path: PathBuf::from(path), is_dir: false }
}

fn directory(path: &str) -> TreeEntry {
    TreeEntry { path: PathBuf::from(path), is_dir: true }
}

fn scan(logger: &mut Logger, path: &str, bytes: &[u8]) {
    if let Some(filetype) = Logger::classify_file(Path::new(path)) {
        let report = Logger::parse_file(bytes, &filetype, false);
        assert!(logger.can_record(&report));
        logger.record(&report);
    }
}

#[test]
fn new_logger_has_counted_nothing() {
    let logger = Logger::new(PathBuf::from("/tmp/project"), true);
    assert_eq!(logger.root_directory(), &PathBuf::from("/tmp/project"));
    assert!(logger.verbose());
    assert_eq!(logger.result().line_count(), 0);
    assert_eq!(keywords(logger.result()), [0, 0, 0, 0]);
    assert_eq!(logger.result().filetype_table().len(), 0);
    let quiet = Logger::new(PathBuf::from("."), false);
    assert!(!quiet.verbose());
}

#[test]
fn worker_with_an_empty_queue_asks_again_until_the_walk_has_ended() {
    let mut logger = Logger::new(PathBuf::from("."), false);
    assert_eq!(logger.waiting_room(), WorkerStep::Retry);
    assert_eq!(logger.waiting_room(), WorkerStep::Retry);
    logger.finish();
    assert_eq!(logger.waiting_room(), WorkerStep::Done);
    assert_eq!(logger.waiting_room(), WorkerStep::Done);
}

#[test]
fn queued_files_are_handed_out_once_and_in_order() {
    let mut logger = Logger::new(PathBuf::from("."), false);
    let directories = logger.populate_queue(vec![file("a.c"), file("b.c"), file("c.c")]);
    assert_eq!(directories, Vec::<PathBuf>::new());
    assert_eq!(logger.waiting_room(), WorkerStep::Parse(PathBuf::from("a.c")));
    assert_eq!(logger.waiting_room(), WorkerStep::Parse(PathBuf::from("b.c")));
    assert_eq!(logger.waiting_room(), WorkerStep::Parse(PathBuf::from("c.c")));
    assert_eq!(logger.waiting_room(), WorkerStep::Retry);
}

#[test]
fn files_that_wait_are_handed_out_after_the_walk_has_ended() {
    let mut logger = Logger::new(PathBuf::from("."), false);
    logger.populate_queue(vec![file("a.c"), file("b.c")]);
    logger.finish();
    assert_eq!(logger.waiting_room(), WorkerStep::Parse(PathBuf::from("a.c")));
    assert_eq!(logger.waiting_room(), WorkerStep::Parse(PathBuf::from("b.c")));
    assert_eq!(logger.waiting_room(), WorkerStep::Done);
}

#[test]
fn listing_queues_files_and_hands_back_directories() {
    let mut logger = Logger::new(PathBuf::from("root"), false);
    let directories = logger.populate_queue(vec![
        file("root/a.c"),
        directory("root/src"),
        file("root/b.py"),
        directory("root/doc"),
        file("root/Makefile"),
    ]);
    assert_eq!(directories, vec![PathBuf::from("root/src"), PathBuf::from("root/doc")]);
    let more = logger.populate_queue(vec![file("root/src/main.rs")]);
    assert_eq!(more, Vec::<PathBuf>::new());
    assert_eq!(logger.waiting_room(), WorkerStep::Parse(PathBuf::from("root/a.c")));
    assert_eq!(logger.waiting_room(), WorkerStep::Parse(PathBuf::from("root/b.py")));
    assert_eq!(logger.waiting_room(), WorkerStep::Parse(PathBuf::from("root/Makefile")));
    assert_eq!(logger.waiting_room(), WorkerStep::Parse(PathBuf::from("root/src/main.rs")));
    assert_eq!(logger.waiting_room(), WorkerStep::Retry);
}

#[test]
fn empty_listing_changes_nothing() {
    let mut logger = Logger::new(PathBuf::from("root"), false);
    assert_eq!(logger.populate_queue(Vec::new()), Vec::<PathBuf>::new());
    assert_eq!(logger.waiting_room(), WorkerStep::Retry);
}

#[test]
fn root_that_is_a_single_file_is_queued_alone() {
    let mut logger = Logger::new(PathBuf::from("main.c"), false);
    let directories = logger.populate_queue(vec![file("main.c")]);
    assert_eq!(directories, Vec::<PathBuf>::new());
    logger.finish();
    assert_eq!(logger.waiting_room(), WorkerStep::Parse(PathBuf::from("main.c")));
    assert_eq!(logger.waiting_room(), WorkerStep::Done);
}

#[test]
fn root_that_is_a_directory_is_handed_back_to_be_listed() {
    let mut logger = Logger::new(PathBuf::from("project"), false);
    let directories = logger.populate_queue(vec![directory("project")]);
    assert_eq!(directories, vec![PathBuf::from("project")]);
    assert_eq!(logger.waiting_room(), WorkerStep::Retry);
}

#[test]
fn logger_counts_keywords_and_languages() {
    let mut logger = Logger::new(PathBuf::from("."), false);
    logger.increment_keyword("BUG");
    logger.increment_keyword("BUG");
    logger.increment_keyword("TODO");
    logger.increment_filetype_frequency(&c_file());
    logger.increment_filetype_frequency(&c_file());
    logger.increment_filetype_frequency(&python_file());
    assert_eq!(keywords(logger.result()), [1, 0, 2, 0]);
    assert_eq!(logger.result().filetype_table().get("C"), Some(2));
    assert_eq!(logger.result().filetype_table().get("Python"), Some(1));
    assert_eq!(logger.result().line_count(), 0);
    assert_eq!(logger.waiting_room(), WorkerStep::Retry);
}

#[test]
fn two_line_c_file() {
    let report = Logger::parse_file(b"// TODO: fix\nint x = 1;\n", &c_file(), false);
    assert_eq!(report.result.line_count(), 2);
    assert_eq!(keywords(&report.result), [1, 0, 0, 0]);
    assert_eq!(report.result.filetype_table().get("C"), Some(1));
    assert_eq!(report.result.filetype_table().len(), 1);
    assert_eq!(report.events, Vec::<ScanEvent>::new());
}

#[test]
fn three_line_multiline_comment() {
    let bytes = b"/* HACK start\nstill inside FIXME here\nend */ int y;\n";
    let report = Logger::parse_file(bytes, &c_file(), false);
    assert_eq!(report.result.line_count(), 3);
    assert_eq!(keywords(&report.result), [0, 1, 0, 1]);
    assert_eq!(report.result.filetype_table().get("C"), Some(1));
}

#[test]
fn code_behind_a_closed_comment_is_not_searched() {
    let bytes = b"/* open\nend */ int TODO_y; BUG\n";
    let report = Logger::parse_file(bytes, &c_file(), false);
    assert_eq!(report.result.line_count(), 2);
    assert_eq!(keywords(&report.result), [0, 0, 0, 0]);
}

#[test]
fn empty_file_counts_as_a_file_without_lines() {
    let report = Logger::parse_file(b"", &c_file(), false);
    assert_eq!(report.result.line_count(), 0);
    assert_eq!(keywords(&report.result), [0, 0, 0, 0]);
    assert_eq!(report.result.filetype_table().get("C"), Some(1));
    assert_eq!(report.result.filetype_table().len(), 1);
    let mut logger = Logger::new(PathBuf::from("."), false);
    logger.record(&report);
    assert_eq!(logger.result().line_count(), 0);
    assert_eq!(keywords(logger.result()), [0, 0, 0, 0]);
    assert_eq!(logger.result().filetype_table().get("C"), Some(1));
    assert_eq!(logger.result().filetype_table().len(), 1);
}

#[test]
fn unknown_file_changes_no_counter() {
    let mut logger = Logger::new(PathBuf::from("."), false);
    scan(&mut logger, "main.c", b"// TODO\n");
    scan(&mut logger, "notes.txt", b"// TODO HACK BUG FIXME\n");
    scan(&mut logger, "LICENSE", b"# TODO\n");
    assert_eq!(logger.result().line_count(), 1);
    assert_eq!(keywords(logger.result()), [1, 0, 0, 0]);
    assert_eq!(logger.result().filetype_table().len(), 1);
    assert_eq!(logger.result().filetype_table().get("C"), Some(1));
}

#[test]
fn keyword_counts_once_for_each_line_on_which_it_occurs() {
    let report = Logger::parse_file(b"// TODO TODO TODO\n// TODO\nint TODO;\n", &c_file(), false);
    assert_eq!(report.result.line_count(), 3);
    assert_eq!(keywords(&report.result), [2, 0, 0, 0]);
}

#[test]
fn one_line_can_hold_several_keywords() {
    let report = Logger::parse_file(b"# FIXME BUG HACK TODO", &python_file(), false);
    assert_eq!(report.result.line_count(), 1);
    assert_eq!(keywords(&report.result), [1, 1, 1, 1]);
    assert_eq!(report.result.filetype_table().get("Python"), Some(1));
}

#[test]
fn keyword_inside_a_longer_word_counts() {
    let report = Logger::parse_file(b"// BUGGY\n// aTODOb\n// fixme\n", &c_file(), false);
    assert_eq!(keywords(&report.result), [1, 0, 1, 0]);
}

#[test]
fn empty_and_blank_lines_are_counted_as_lines() {
    let report = Logger::parse_file(b"\n\n   \n// HACK\n\n", &c_file(), false);
    assert_eq!(report.result.line_count(), 5);
    assert_eq!(keywords(&report.result), [0, 1, 0, 0]);
}

#[test]
fn line_endings_do_not_change_the_counts() {
    let unix = Logger::parse_file(b"// TODO\n/* HACK\nBUG */\nx\n", &c_file(), false);
    let dos = Logger::parse_file(b"// TODO\r\n/* HACK\r\nBUG */\r\nx\r\n", &c_file(), false);
    let old = Logger::parse_file(b"// TODO\r/* HACK\rBUG */\rx\r", &c_file(), false);
    let mixed = Logger::parse_file(b"// TODO\r\n/* HACK\rBUG */\nx", &c_file(), false);
    for report in [&unix, &dos, &old, &mixed] {
        assert_eq!(report.result.line_count(), 4);
        assert_eq!(keywords(&report.result), [1, 1, 1, 0]);
    }
}

#[test]
fn verbose_scan_reports_every_find() {
    let report = Logger::parse_file(b"x; // BUG and TODO\ny;\n/* FIXME\n", &c_file(), true);
    assert_eq!(
        report.events,
        vec![
            ScanEvent::KeywordFound { keyword: "TODO", line: b"x; // BUG and TODO".to_vec() },
            ScanEvent::KeywordFound { keyword: "BUG", line: b"x; // BUG and TODO".to_vec() },
            ScanEvent::KeywordFound { keyword: "FIXME", line: b"/* FIXME".to_vec() },
        ]
    );
    assert_eq!(keywords(&report.result), [1, 0, 1, 1]);
}

#[test]
fn quiet_scan_reports_no_find() {
    let report = Logger::parse_file(b"x; // BUG and TODO\ny;\n/* FIXME\n", &c_file(), false);
    assert_eq!(report.events, Vec::<ScanEvent>::new());
    assert_eq!(keywords(&report.result), [1, 0, 1, 1]);
}

#[test]
fn line_with_all_three_markers_is_taken_whole_and_reported() {
    let line = b"TODO /* a */ b // c";
    let quiet = Logger::parse_file(line, &c_file(), false);
    assert_eq!(quiet.events, vec![ScanEvent::ComplexComment { line: line.to_vec() }]);
    assert_eq!(keywords(&quiet.result), [1, 0, 0, 0]);
    let verbose = Logger::parse_file(line, &c_file(), true);
    assert_eq!(
        verbose.events,
        vec![
            ScanEvent::ComplexComment { line: line.to_vec() },
            ScanEvent::KeywordFound { keyword: "TODO", line: line.to_vec() },
        ]
    );
}

#[test]
fn process_line_counts_the_line_and_carries_the_state() {
    let mut report = FileReport { result: LogResult::new(), events: Vec::new() };
    let mut inside = false;
    Logger::process_line(b"/* HACK", &c_file(), &mut inside, true, &mut report);
    assert!(inside);
    assert_eq!(report.result.line_count(), 1);
    assert_eq!(keywords(&report.result), [0, 1, 0, 0]);
    Logger::process_line(b"", &c_file(), &mut inside, true, &mut report);
    assert!(inside);
    assert_eq!(report.result.line_count(), 2);
    Logger::process_line(b"TODO */ BUG", &c_file(), &mut inside, true, &mut report);
    assert!(!inside);
    assert_eq!(report.result.line_count(), 3);
    assert_eq!(keywords(&report.result), [1, 1, 0, 0]);
    assert_eq!(report.result.filetype_table().len(), 0);
    assert_eq!(
        report.events,
        vec![
            ScanEvent::KeywordFound { keyword: "HACK", line: b"/* HACK".to_vec() },
            ScanEvent::KeywordFound { keyword: "TODO", line: b"TODO */ BUG".to_vec() },
        ]
    );
}

#[test]
fn scanning_twice_gives_the_same_result() {
    let files: [(&str, &[u8]); 3] = [
        ("a.c", b"// TODO\n/* HACK\n*/\n"),
        ("b.py", b"# BUG\nx = 1\n"),
        ("Makefile", b"all: # FIXME\n"),
    ];
    let mut first = Logger::new(PathBuf::from("."), false);
    let mut second = Logger::new(PathBuf::from("."), false);
    for (path, bytes) in files {
        scan(&mut first, path, bytes);
    }
    for (path, bytes) in files {
        scan(&mut second, path, bytes);
    }
    assert_eq!(first.result().line_count(), 6);
    assert_eq!(first.result().line_count(), second.result().line_count());
    assert_eq!(keywords(first.result()), [1, 1, 1, 1]);
    assert_eq!(keywords(first.result()), keywords(second.result()));
    for name in ["C", "Python", "Makefile"] {
        assert_eq!(first.result().filetype_table().get(name), Some(1));
        assert_eq!(second.result().filetype_table().get(name), Some(1));
    }
}

#[test]
fn order_of_the_files_does_not_change_the_totals() {
    let files: [(&str, &[u8]); 4] = [
        ("a.c", b"// TODO\n/* HACK\n*/\n"),
        ("b.py", b"# BUG\nx = 1\n"),
        ("c.c", b"// TODO BUG\n"),
        ("Makefile", b"all: # FIXME\n"),
    ];
    let orders: [[usize; 4]; 4] = [[0, 1, 2, 3], [3, 2, 1, 0], [1, 3, 0, 2], [2, 0, 3, 1]];
    for order in orders {
        let mut logger = Logger::new(PathBuf::from("."), false);
        for i in order {
            scan(&mut logger, files[i].0, files[i].1);
        }
        assert_eq!(logger.result().line_count(), 7);
        assert_eq!(keywords(logger.result()), [2, 1, 2, 1]);
        assert_eq!(logger.result().filetype_table().get("C"), Some(2));
        assert_eq!(logger.result().filetype_table().get("Python"), Some(1));
        assert_eq!(logger.result().filetype_table().get("Makefile"), Some(1));
        assert_eq!(logger.result().filetype_table().len(), 3);
    }
}

#[test]
fn recording_leaves_the_queue_alone() {
    let mut logger = Logger::new(PathBuf::from("."), false);
    logger.populate_queue(vec![file("a.c")]);
    let report = Logger::parse_file(b"// TODO\n", &c_file(), false);
    logger.record(&report);
    assert_eq!(logger.waiting_room(), WorkerStep::Parse(PathBuf::from("a.c")));
    assert_eq!(logger.result().line_count(), 1);
}

#[test]
fn no_cores_is_an_error() {
    assert_eq!(Logger::pool_size(0), Err(LogError::UnknownCoreCount));
}

#[test]
fn one_worker_for_each_core() {
    assert_eq!(Logger::pool_size(1), Ok(1));
    assert_eq!(Logger::pool_size(8), Ok(8));
    assert_eq!(Logger::pool_size(usize::MAX), Ok(usize::MAX));
}

#[test]
fn this_machine_has_workers() {
    match Logger::worker_count() {
        Ok(count) => assert!(count > 0),
        Err(error) => assert_eq!(error, LogError::UnknownCoreCount),
    }
}

#[test]
fn error_has_its_message() {
    assert_eq!(
        LogError::UnknownCoreCount.message(),
        "ERROR: Could not properly deduce number of cpu cores!"
    );
}

#[test]
fn line_of_a_language_without_markers_changes_no_keyword_count() {
    let plain = FileType::Json {
        inline_comment_format: None,
        multiline_comment_start_format: None,
        multiline_comment_end_format: None,
    };
    let mut report = FileReport { result: LogResult::new(), events: Vec::new() };
    report.result.increment_keyword("HACK");
    let mut inside = false;
    for line in ["// TODO HACK", "/* BUG */", "# FIXME", "", "TODO"] {
        Logger::process_line(line.as_bytes(), &plain, &mut inside, true, &mut report);
        assert!(!inside);
        assert_eq!(keywords(&report.result), [0, 1, 0, 0]);
        assert_eq!(report.result.keyword_table().len(), 4);
    }
    assert_eq!(report.result.line_count(), 5);
    assert_eq!(report.events, Vec::<ScanEvent>::new());
}

#[test]
fn file_of_a_language_without_markers_has_lines_and_nothing_else() {
    let plain = FileType::Json {
        inline_comment_format: None,
        multiline_comment_start_format: None,
        multiline_comment_end_format: None,
    };
    let report = Logger::parse_file(b"// TODO\n/* HACK\nBUG */\n# FIXME\n", &plain, true);
    assert_eq!(report.result.line_count(), 4);
    assert_eq!(keywords(&report.result), [0, 0, 0, 0]);
    assert_eq!(report.result.keyword_table().len(), 4);
    assert_eq!(report.result.filetype_table().get("JSON"), Some(1));
    assert_eq!(report.events, Vec::<ScanEvent>::new());
}

#[test]
fn line_inside_a_comment_is_searched_as_a_whole() {
    let mut report = FileReport { result: LogResult::new(), events: Vec::new() };
    let mut inside = true;
    Logger::process_line(b"int TODO x; BUG TODO", &c_file(), &mut inside, false, &mut report);
    assert!(inside);
    assert_eq!(keywords(&report.result), [1, 0, 1, 0]);
    Logger::process_line(b"nothing here", &c_file(), &mut inside, false, &mut report);
    assert!(inside);
    assert_eq!(keywords(&report.result), [1, 0, 1, 0]);
    assert_eq!(report.result.line_count(), 2);
}

#[test]
fn closing_line_is_searched_up_to_the_last_end_marker() {
    let mut report = FileReport { result: LogResult::new(), events: Vec::new() };
    let mut inside = true;
    Logger::process_line(b"FIXME */ HACK */ TODO", &c_file(), &mut inside, false, &mut report);
    assert!(!inside);
    assert_eq!(keywords(&report.result), [0, 1, 0, 1]);
    assert_eq!(report.result.line_count(), 1);
}
