use termview::Buffer;

fn lines_of(contents: &str) -> Vec<String> {
    Buffer::load(contents).lines().clone()
}

fn expected(contents: &str) -> Vec<String> {
    contents.lines().map(|line| line.to_string()).collect()
}

#[test]
fn empty_contents_give_no_lines() {
    let buffer = Buffer::load("");
    assert_eq!(buffer.lines().len(), 0);
    assert!(buffer.is_empty());
    assert_eq!(buffer.len(), 0);
}

#[test]
fn default_buffer_is_empty() {
    let buffer = Buffer::default();
    assert!(buffer.is_empty());
    assert_eq!(buffer.len(), 0);
}

#[test]
fn three_terminated_lines() {
    let buffer = Buffer::load("one\ntwo\nthree\n");
    assert_eq!(buffer.lines(), &vec!["one".to_string(), "two".to_string(), "three".to_string()]);
    assert_eq!(buffer.len(), 3);
    assert!(!buffer.is_empty());
}

#[test]
fn last_line_without_terminator_is_kept() {
    assert_eq!(lines_of("one\ntwo"), vec!["one".to_string(), "two".to_string()]);
}

#[test]
fn carriage_return_before_line_feed_is_stripped() {
    assert_eq!(lines_of("one\r\ntwo\r\n"), vec!["one".to_string(), "two".to_string()]);
}

#[test]
fn only_one_carriage_return_is_stripped() {
    assert_eq!(lines_of("one\r\r\n"), vec!["one\r".to_string()]);
}

#[test]
fn carriage_return_at_the_end_of_the_text_is_kept() {
    assert_eq!(lines_of("one\ntwo\r"), vec!["one".to_string(), "two\r".to_string()]);
}

#[test]
fn carriage_return_inside_a_line_is_kept() {
    assert_eq!(lines_of("a\rb\n"), vec!["a\rb".to_string()]);
}

#[test]
fn blank_lines_are_lines() {
    assert_eq!(lines_of("\n"), vec![String::new()]);
    assert_eq!(lines_of("\r\n"), vec![String::new()]);
    assert_eq!(lines_of("a\n\nb\n"), vec!["a".to_string(), String::new(), "b".to_string()]);
    assert_eq!(lines_of("\n\n\n").len(), 3);
}

#[test]
fn text_beyond_ascii_is_kept_as_it_is() {
    assert_eq!(
        lines_of("héllo wörld\n日本語\r\n🙂"),
        vec!["héllo wörld".to_string(), "日本語".to_string(), "🙂".to_string()]
    );
}

#[test]
fn lines_agree_with_the_standard_library() {
    let samples = [
        "",
        "\n",
        "\r",
        "\r\n",
        "\n\r",
        "a",
        "a\n",
        "a\r",
        "a\r\n",
        "a\n\r\n",
        "a\r\nb\rc\n\rd",
        "one\ntwo\n\nthree",
        "\r\r\n\r\n\r",
        "tab\tand space \n end ",
        "ünïcödé\r\nline\n",
    ];
    for sample in samples {
        assert_eq!(lines_of(sample), expected(sample), "for {sample:?}");
    }
}

#[test]
fn a_file_of_many_lines_keeps_their_number_and_order() {
    let mut contents = String::new();
    for i in 0..200 {
        contents.push_str(&format!("line {i}\n"));
    }
    let buffer = Buffer::load(&contents);
    assert_eq!(buffer.len(), 200);
    assert_eq!(buffer.lines()[0], "line 0");
    assert_eq!(buffer.lines()[199], "line 199");
}

#[test]
fn there_is_a_line_for_each_line_feed_and_one_for_text_after_the_last() {
    for (contents, feeds, rest) in [
        ("", 0, 0),
        ("a", 0, 1),
        ("a\n", 1, 0),
        ("a\nb", 1, 1),
        ("\n\n", 2, 0),
        ("a\r\nb\r\nc\r", 2, 1),
    ] {
        assert_eq!(contents.matches('\n').count(), feeds);
        assert_eq!(Buffer::load(contents).len(), feeds + rest, "for {contents:?}");
    }
}

#[test]
fn lines_followed_by_line_feeds_make_up_the_text_again() {
    for contents in ["", "a\n", "one\ntwo\n", "\n\nx\n", "tail without feed", "a\nb"] {
        let mut again = String::new();
        for line in Buffer::load(contents).lines() {
            again.push_str(line);
            again.push('\n');
        }
        let mut whole = contents.to_string();
        if !whole.is_empty() && !whole.ends_with('\n') {
            whole.push('\n');
        }
        assert_eq!(again, whole);
    }
}

#[test]
fn no_line_holds_a_line_feed() {
    for line in Buffer::load("a\nb\r\n\nc\rd\n\re").lines() {
        assert!(!line.contains('\n'));
    }
}

#[test]
fn a_large_file_loads_in_one_pass() {
    let mut contents = String::new();
    for i in 0..50_000 {
        contents.push_str(&format!("line number {i} with some text behind it\r\n"));
    }
    let buffer = Buffer::load(&contents);
    assert_eq!(buffer.len(), 50_000);
    assert_eq!(buffer.lines()[49_999], "line number 49999 with some text behind it");
}
