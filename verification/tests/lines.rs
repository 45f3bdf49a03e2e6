use trace::lines::LineSource;

fn read_all(bytes: &[u8]) -> Vec<Vec<u8>> {
    let mut source = LineSource::new(bytes);
    let mut lines = Vec::new();
    while let Some(line) = source.next_line() {
        lines.push(line);
    }
    lines
}

fn texts(lines: &[&str]) -> Vec<Vec<u8>> {
    lines.iter().map(|line| line.as_bytes().to_vec()).collect()
}

#[test]
fn line_feed_ends_a_line() {
    assert_eq!(read_all(b"one\ntwo\nthree\n"), texts(&["one", "two", "three"]));
}

#[test]
fn carriage_return_and_line_feed_are_one_terminator() {
    assert_eq!(read_all(b"one\r\ntwo\r\nthree\r\n"), texts(&["one", "two", "three"]));
}

#[test]
fn lone_carriage_return_ends_a_line() {
    assert_eq!(read_all(b"one\rtwo\rthree\r"), texts(&["one", "two", "three"]));
}

#[test]
fn mixed_line_endings_give_the_same_lines() {
    let expected = texts(&["one", "two", "three", "four"]);
    assert_eq!(read_all(b"one\ntwo\nthree\nfour\n"), expected);
    assert_eq!(read_all(b"one\r\ntwo\r\nthree\r\nfour\r\n"), expected);
    assert_eq!(read_all(b"one\rtwo\rthree\rfour\r"), expected);
    assert_eq!(read_all(b"one\r\ntwo\nthree\rfour\r\n"), expected);
    assert_eq!(read_all(b"one\rtwo\r\nthree\nfour"), expected);
}

#[test]
fn no_empty_line_after_the_last_terminator() {
    assert_eq!(read_all(b"last\n"), texts(&["last"]));
    assert_eq!(read_all(b"last\r\n"), texts(&["last"]));
    assert_eq!(read_all(b"last\r"), texts(&["last"]));
}

#[test]
fn final_partial_line_is_kept_as_it_is() {
    assert_eq!(read_all(b"first\nno end"), texts(&["first", "no end"]));
    assert_eq!(read_all(b"only"), texts(&["only"]));
}

#[test]
fn empty_buffer_has_no_lines() {
    assert_eq!(read_all(b""), Vec::<Vec<u8>>::new());
    let mut source = LineSource::new(b"");
    assert_eq!(source.next_line(), None);
    assert_eq!(source.next_line(), None);
}

#[test]
fn empty_lines_are_lines() {
    assert_eq!(read_all(b"\n"), texts(&[""]));
    assert_eq!(read_all(b"\n\n"), texts(&["", ""]));
    assert_eq!(read_all(b"a\n\nb\n"), texts(&["a", "", "b"]));
    assert_eq!(read_all(b"\r\r"), texts(&["", ""]));
    assert_eq!(read_all(b"\r\n\r\n"), texts(&["", ""]));
}

#[test]
fn line_feed_then_carriage_return_are_two_terminators() {
    assert_eq!(read_all(b"a\n\rb"), texts(&["a", "", "b"]));
}

#[test]
fn carriage_return_before_an_empty_line_reads_as_one_terminator() {
    assert_eq!(read_all(b"a\r\n"), texts(&["a"]));
}

#[test]
fn bytes_beyond_ascii_are_handed_on_untouched() {
    let bytes: [u8; 7] = [0xff, 0x80, b'\n', 0x00, 0xc3, b'\r', 0xfe];
    assert_eq!(read_all(&bytes), vec![vec![0xff, 0x80], vec![0x00, 0xc3], vec![0xfe]]);
}

#[test]
fn reader_stays_at_the_end() {
    let mut source = LineSource::new(b"x\ny");
    assert_eq!(source.next_line(), Some(b"x".to_vec()));
    assert_eq!(source.next_line(), Some(b"y".to_vec()));
    assert_eq!(source.next_line(), None);
    assert_eq!(source.next_line(), None);
}
