use fmq::{extract, extract_reader, extract_reader_with, extract_with, Action, Phase, Scanner};

fn scan(source: &str, need_body: bool, allow_missing: bool) -> Scanner {
    let mut scanner = Scanner::new(need_body, allow_missing);
    let mut rest = source;
    loop {
        match scanner.action() {
            Action::ReadLine => {
                let end = match rest.find('\n') {
                    Some(i) => i + 1,
                    None => rest.len(),
                };
                scanner.step(&rest[..end]);
                rest = &rest[end..];
            }
            Action::ReadRest => {
                scanner.step(rest);
                rest = "";
            }
            Action::Stop => return scanner,
        }
    }
}

#[test]
fn streaming_extracts_block_and_body() {
    let doc = extract_reader("---\ntitle: Hello\n---\nBody text", true).unwrap();
    assert_eq!(doc.frontmatter, "title: Hello");
    assert_eq!(doc.body, "Body text");
}

#[test]
fn streaming_skips_the_body_when_not_needed() {
    let doc = extract_reader("---\ntitle: Hello\n---\nBody text", false).unwrap();
    assert_eq!(doc.frontmatter, "title: Hello");
    assert_eq!(doc.body, "");
}

#[test]
fn streaming_rejects_missing_delimiter() {
    let err = extract_reader("just body text", true).unwrap_err();
    assert_eq!(err.0, "no frontmatter found");
    let err = extract_reader("", true).unwrap_err();
    assert_eq!(err.0, "no frontmatter found");
    let err = extract_reader("\n---\na: 1\n---\n", true).unwrap_err();
    assert_eq!(err.0, "no frontmatter found");
}

#[test]
fn streaming_rejects_unclosed_block() {
    let err = extract_reader("---\ntitle: x\nno closing", true).unwrap_err();
    assert_eq!(err.0, "unclosed frontmatter");
    let err = extract_reader("---\n", false).unwrap_err();
    assert_eq!(err.0, "unclosed frontmatter");
}

#[test]
fn streaming_ignores_whitespace_around_delimiters() {
    let doc = extract_reader("  ---  \na: 1\n\t---\t\nbody", true).unwrap();
    assert_eq!(doc.frontmatter, "a: 1");
    assert_eq!(doc.body, "body");
}

#[test]
fn streaming_strips_one_line_terminator() {
    let doc = extract_reader("---\r\na: 1\r\n---\r\nbody\r\n", true).unwrap();
    assert_eq!(doc.frontmatter, "a: 1");
    assert_eq!(doc.body, "body\r\n");
    let doc = extract_reader("---\na: 1\n\n\n---\nbody", true).unwrap();
    assert_eq!(doc.frontmatter, "a: 1\n\n");
}

#[test]
fn streaming_accepts_an_empty_block() {
    let doc = extract_reader("---\n---\nbody", true).unwrap();
    assert_eq!(doc.frontmatter, "");
    assert_eq!(doc.body, "body");
}

#[test]
fn streaming_closes_at_end_of_input() {
    let doc = extract_reader("---\na: 1\n---", true).unwrap();
    assert_eq!(doc.frontmatter, "a: 1");
    assert_eq!(doc.body, "");
}

#[test]
fn extractors_agree_on_well_formed_documents() {
    let documents = [
        "---\ntitle: Hello\n---\nBody text",
        "---\ntitle: Hello\ntags:\n  - rust\n---\nBody text\n",
        "---\n\n---\n",
        "---\r\ntitle: x\n---\r\nbody",
        "  ---\na: 1\n---",
        "---\n---x\nfoo\n---\nbody\n---\nmore",
        "---\nname: caf\u{e9}\n---\n\u{4f53}\n",
    ];
    for text in documents {
        let whole = extract(text).unwrap();
        let stream = extract_reader(text, true).unwrap();
        assert_eq!(whole.frontmatter, stream.frontmatter, "{:?}", text);
        assert_eq!(whole.body, stream.body, "{:?}", text);
    }
}

#[test]
fn extractors_agree_on_documents_with_carriage_returns() {
    let text = "---\r\ntitle: x\r\n---\r\nBody";
    let whole = extract(text).unwrap();
    let stream = extract_reader(text, true).unwrap();
    assert_eq!(whole.frontmatter, "title: x");
    assert_eq!(stream.frontmatter, "title: x");
    assert_eq!(whole.body, "Body");
    assert_eq!(stream.body, "Body");
    for text in ["---\r\na: 1\r\nb: 2\r\n---\r\nbody\r\n", "---\na\r\r\n---", "---\n\r\n---\n"] {
        let whole = extract(text).unwrap();
        let stream = extract_reader(text, true).unwrap();
        assert_eq!(whole.frontmatter, stream.frontmatter, "{:?}", text);
        assert_eq!(whole.body, stream.body, "{:?}", text);
    }
}

#[test]
fn extractors_differ_on_an_empty_block() {
    assert_eq!(extract("---\n---\nbody").unwrap_err().0, "unclosed frontmatter");
    assert!(extract_reader("---\n---\nbody", true).is_ok());
}

#[test]
fn missing_frontmatter_can_be_allowed() {
    let (doc, missing) = extract_with("plain text\n", true).unwrap();
    assert!(missing);
    assert_eq!(doc.frontmatter, "");
    assert_eq!(doc.body, "plain text\n");
    let (doc, missing) = extract_reader_with("plain text\nmore\n", true, true).unwrap();
    assert!(missing);
    assert_eq!(doc.frontmatter, "");
    assert_eq!(doc.body, "plain text\nmore\n");
    let (doc, missing) = extract_reader_with("plain text\nmore\n", false, true).unwrap();
    assert!(missing);
    assert_eq!(doc.frontmatter, "");
    assert_eq!(doc.body, "");
    let (doc, missing) = extract_with("", true).unwrap();
    assert!(missing);
    assert_eq!(doc.frontmatter, "");
    assert_eq!(doc.body, "");
}

#[test]
fn an_empty_block_is_not_a_missing_one() {
    let (doc, missing) = extract_with("---\n\n---\nb", true).unwrap();
    assert!(!missing);
    assert_eq!(doc.frontmatter, "");
    let (doc, missing) = extract_reader_with("---\n---\nb", true, true).unwrap();
    assert!(!missing);
    assert_eq!(doc.frontmatter, "");
    let mut scanner = Scanner::new(true, true);
    scanner.step("---\n");
    scanner.step("---\n");
    assert!(!scanner.missing());
}

#[test]
fn allowing_missing_frontmatter_keeps_other_errors() {
    assert_eq!(extract_with("---\na: 1\n", true).unwrap_err().0, "unclosed frontmatter");
    assert_eq!(extract_with("---x\n", true).unwrap_err().0, "invalid frontmatter delimiter");
    assert_eq!(
        extract_reader_with("---\na: 1\n", true, true).unwrap_err().0,
        "unclosed frontmatter"
    );
    let (doc, missing) = extract_with("---\na: 1\n---\nb", true).unwrap();
    assert!(!missing);
    assert_eq!(doc.frontmatter, "a: 1");
}

#[test]
fn scanner_walks_through_its_phases() {
    let mut scanner = Scanner::new(true, false);
    assert_eq!(scanner.phase(), Phase::ExpectOpenDelimiter);
    assert_eq!(scanner.action(), Action::ReadLine);
    scanner.step("---\n");
    assert_eq!(scanner.phase(), Phase::AccumulatingFrontmatter);
    scanner.step("a: 1\n");
    assert_eq!(scanner.phase(), Phase::AccumulatingFrontmatter);
    assert_eq!(scanner.action(), Action::ReadLine);
    scanner.step("---\n");
    assert_eq!(scanner.phase(), Phase::AccumulatingBody);
    assert_eq!(scanner.action(), Action::ReadRest);
    scanner.step("body\nmore");
    assert_eq!(scanner.phase(), Phase::Complete);
    assert_eq!(scanner.action(), Action::Stop);
    let doc = scanner.finish().unwrap().unwrap();
    assert_eq!(doc.frontmatter, "a: 1");
    assert_eq!(doc.body, "body\nmore");
}

#[test]
fn scanner_stops_after_the_block_when_no_body_is_needed() {
    let mut scanner = Scanner::new(false, false);
    scanner.step("---\n");
    scanner.step("a: 1\r\n");
    scanner.step("---\n");
    assert_eq!(scanner.phase(), Phase::Done);
    assert_eq!(scanner.action(), Action::Stop);
    scanner.step("ignored");
    assert_eq!(scanner.phase(), Phase::Done);
    let doc = scanner.finish().unwrap().unwrap();
    assert_eq!(doc.frontmatter, "a: 1");
    assert_eq!(doc.body, "");
}

#[test]
fn scanner_reports_its_failures() {
    let mut scanner = Scanner::new(true, false);
    scanner.step("title\n");
    assert_eq!(scanner.phase(), Phase::NoFrontmatter);
    assert_eq!(scanner.action(), Action::Stop);
    assert_eq!(scanner.finish().unwrap().unwrap_err().0, "no frontmatter found");

    let mut scanner = Scanner::new(true, false);
    scanner.step("---\n");
    scanner.step("a: 1\n");
    scanner.step("");
    assert_eq!(scanner.phase(), Phase::Unclosed);
    assert_eq!(scanner.finish().unwrap().unwrap_err().0, "unclosed frontmatter");
}

#[test]
fn scanner_has_no_result_before_it_stops() {
    let scanner = Scanner::new(true, false);
    assert!(scanner.finish().is_none());
    let mut scanner = Scanner::new(true, false);
    scanner.step("---\n");
    assert!(scanner.finish().is_none());
}

#[test]
fn scanner_takes_a_source_without_frontmatter_as_body() {
    let mut scanner = Scanner::new(true, true);
    scanner.step("first line\n");
    assert_eq!(scanner.phase(), Phase::AccumulatingBody);
    scanner.step("second line\n");
    assert!(scanner.missing());
    let doc = scanner.finish().unwrap().unwrap();
    assert_eq!(doc.frontmatter, "");
    assert_eq!(doc.body, "first line\nsecond line\n");
}

#[test]
fn scanner_fed_line_by_line_agrees_with_the_extractor() {
    let sources = [
        "---\ntitle: Hello\n---\nBody text",
        "---\r\na: 1\r\nb: 2\r\n---\r\nbody\r\n",
        "  ---  \na: 1\n ---\nbody",
        "---\na: 1\n",
        "no frontmatter\nat all\n",
        "",
        "---\n---\n",
    ];
    for source in sources {
        for need_body in [false, true] {
            for allow_missing in [false, true] {
                let expected = extract_reader_with(source, need_body, allow_missing);
                let scanner = scan(source, need_body, allow_missing);
                let missing = scanner.missing();
                let found = scanner.finish().unwrap();
                match (expected, found) {
                    (Ok((a, flag)), Ok(b)) => {
                        assert_eq!(flag, missing, "{:?}", source);
                        assert_eq!(a.frontmatter, b.frontmatter, "{:?}", source);
                        assert_eq!(a.body, b.body, "{:?}", source);
                    }
                    (Err(a), Err(b)) => assert_eq!(a.0, b.0, "{:?}", source),
                    _ => panic!("different outcomes for {:?}", source),
                }
            }
        }
    }
}
