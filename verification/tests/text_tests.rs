use weather_ingest::text::{line_spans, span_text, split_span, to_chars, trim_span, Span};

fn chars(s: &str) -> Vec<char> {
    s.chars().collect()
}

fn texts(buffer: &[char], spans: &[Span]) -> Vec<String> {
    spans.iter().map(|s| span_text(buffer, *s)).collect()
}

fn lines(s: &str) -> Vec<String> {
    let buffer = chars(s);
    texts(&buffer, &line_spans(&buffer))
}

fn fields(s: &str) -> Vec<String> {
    let buffer = chars(s);
    let whole = Span { start: 0, end: buffer.len() };
    texts(&buffer, &split_span(&buffer, whole, ','))
}

fn trimmed(s: &str) -> String {
    let buffer = chars(s);
    let whole = Span { start: 0, end: buffer.len() };
    span_text(&buffer, trim_span(&buffer, whole))
}

#[test]
fn to_chars_keeps_every_character() {
    assert_eq!(to_chars(""), Vec::<char>::new());
    assert_eq!(to_chars("a,b"), vec!['a', ',', 'b']);
    assert_eq!(to_chars("é\u{3000}ก\n"), vec!['é', '\u{3000}', 'ก', '\n']);
}

#[test]
fn span_text_copies_the_range() {
    let buffer = chars("hello, world");
    assert_eq!(span_text(&buffer, Span { start: 7, end: 12 }), "world");
    assert_eq!(span_text(&buffer, Span { start: 3, end: 3 }), "");
    assert_eq!(span_text(&buffer, Span { start: 0, end: 12 }), "hello, world");
}

#[test]
fn split_counts_one_more_piece_than_delimiters() {
    assert_eq!(fields(""), vec![""]);
    assert_eq!(fields("a"), vec!["a"]);
    assert_eq!(fields(","), vec!["", ""]);
    assert_eq!(fields("a,b"), vec!["a", "b"]);
    assert_eq!(fields("a,,b,"), vec!["a", "", "b", ""]);
    assert_eq!(fields(",a"), vec!["", "a"]);
}

#[test]
fn split_agrees_with_std_split() {
    for s in ["", "x", ",", ",,", "1,2,3", "a, b ,c,", "ก,ข,,ค"] {
        let expected: Vec<String> = s.split(',').map(|p| p.to_string()).collect();
        assert_eq!(fields(s), expected, "input {:?}", s);
    }
}

#[test]
fn split_inside_a_span_stays_inside() {
    let buffer = chars("x,a,b,y");
    let inner = Span { start: 2, end: 5 };
    let pieces = split_span(&buffer, inner, ',');
    assert_eq!(texts(&buffer, &pieces), vec!["a", "b"]);
    assert_eq!((pieces[0].start, pieces[0].end), (2, 3));
    assert_eq!((pieces[1].start, pieces[1].end), (4, 5));
}

#[test]
fn trim_removes_white_space_at_both_ends_only() {
    assert_eq!(trimmed(""), "");
    assert_eq!(trimmed("   "), "");
    assert_eq!(trimmed("a"), "a");
    assert_eq!(trimmed("  a b  "), "a b");
    assert_eq!(trimmed("\t\r\na\u{a0}"), "a");
    assert_eq!(trimmed("\u{2003}x,y\u{3000}"), "x,y");
}

#[test]
fn trim_agrees_with_std_trim() {
    for s in ["", " ", "a", " a", "a ", " a b ", "\u{85}q\u{1680}", "\u{200b}z ", "é "] {
        assert_eq!(trimmed(s), s.trim(), "input {:?}", s);
    }
}

#[test]
fn trim_inside_a_span_stays_inside() {
    let buffer = chars("  ab  ");
    let span = trim_span(&buffer, Span { start: 1, end: 5 });
    assert_eq!((span.start, span.end), (2, 4));
    let span = trim_span(&buffer, Span { start: 4, end: 6 });
    assert_eq!(span.start, span.end);
}

#[test]
fn lines_end_at_line_feeds() {
    assert_eq!(lines(""), Vec::<String>::new());
    assert_eq!(lines("a"), vec!["a"]);
    assert_eq!(lines("a\n"), vec!["a"]);
    assert_eq!(lines("a\nb"), vec!["a", "b"]);
    assert_eq!(lines("a\n\nb\n"), vec!["a", "", "b"]);
    assert_eq!(lines("\n"), vec![""]);
    assert_eq!(lines("\n\n"), vec!["", ""]);
}

#[test]
fn carriage_return_before_line_feed_is_dropped() {
    assert_eq!(lines("a\r\nb\r\n"), vec!["a", "b"]);
    assert_eq!(lines("a\r\r\nb"), vec!["a\r", "b"]);
    assert_eq!(lines("a\rb\n"), vec!["a\rb"]);
    assert_eq!(lines("a\nb\r"), vec!["a", "b\r"]);
    assert_eq!(lines("\r\n"), vec![""]);
    assert_eq!(lines("\r"), vec!["\r"]);
}

#[test]
fn lines_agree_with_std_lines() {
    for s in [
        "",
        "\n",
        "x",
        "x\n",
        "x\ny",
        "x\r\ny\r\n",
        "foo\nbar\n\r\nbaz\r",
        "\r\n\r\n",
        "a\n\n\nb",
        "ก\r\nข",
    ] {
        let expected: Vec<String> = s.lines().map(|l| l.to_string()).collect();
        assert_eq!(lines(s), expected, "input {:?}", s);
    }
}
