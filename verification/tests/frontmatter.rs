use fmq::{extract, reassemble};

#[test]
fn extract_simple() {
    let md = "---\ntitle: Hello\n---\nBody text";
    let doc = extract(md).unwrap();
    assert_eq!(doc.frontmatter, "title: Hello");
    assert_eq!(doc.body, "Body text");
}

#[test]
fn extract_no_frontmatter() {
    let md = "Just body text";
    assert!(extract(md).is_err());
}

#[test]
fn reassemble_simple() {
    let result = reassemble("title: Hello", "Body text");
    assert_eq!(result, "---\ntitle: Hello\n---\nBody text");
}

#[test]
fn roundtrip() {
    let md = "---\ntitle: Hello\ntags:\n  - rust\n---\nBody text\n";
    let doc = extract(md).unwrap();
    let reassembled = reassemble(&doc.frontmatter, &doc.body);
    assert_eq!(reassembled, md);
}

#[test]
fn rejects_missing_delimiter() {
    let err = extract("just body text").unwrap_err();
    assert_eq!(err.0, "no frontmatter found");
    assert_eq!(extract("").unwrap_err().0, "no frontmatter found");
    assert_eq!(extract("--\n").unwrap_err().0, "no frontmatter found");
}

#[test]
fn rejects_unclosed_block() {
    let err = extract("---\ntitle: x\nno closing").unwrap_err();
    assert_eq!(err.0, "unclosed frontmatter");
}

#[test]
fn rejects_delimiter_without_line_terminator() {
    assert_eq!(extract("---title: x\n---\n").unwrap_err().0, "invalid frontmatter delimiter");
    assert_eq!(extract("--- \na: 1\n---\n").unwrap_err().0, "invalid frontmatter delimiter");
    assert_eq!(extract("---").unwrap_err().0, "invalid frontmatter delimiter");
    assert_eq!(extract("---\r").unwrap_err().0, "invalid frontmatter delimiter");
}

#[test]
fn leading_whitespace_is_dropped() {
    let doc = extract("\n\n \t---\ntitle: x\n---\nbody").unwrap();
    assert_eq!(doc.frontmatter, "title: x");
    assert_eq!(doc.body, "body");
    let doc = extract("\u{a0}\u{2003}\u{3000}---\na\n---\nb").unwrap();
    assert_eq!(doc.frontmatter, "a");
    assert_eq!(extract("\u{200b}---\na\n---\nb").unwrap_err().0, "no frontmatter found");
}

#[test]
fn both_line_terminators_are_accepted() {
    let doc = extract("---\r\ntitle: x\n---\r\nbody\r\n").unwrap();
    assert_eq!(doc.frontmatter, "title: x");
    assert_eq!(doc.body, "body\r\n");
}

#[test]
fn carriage_return_before_the_closing_delimiter_is_part_of_the_terminator() {
    let doc = extract("---\r\ntitle: x\r\n---\r\nBody").unwrap();
    assert_eq!(doc.frontmatter, "title: x");
    assert_eq!(doc.body, "Body");
    let doc = extract("---\r\na: 1\r\nb: 2\r\n---\r\n").unwrap();
    assert_eq!(doc.frontmatter, "a: 1\r\nb: 2");
    let doc = extract("---\na\r\r\n---\n").unwrap();
    assert_eq!(doc.frontmatter, "a\r");
}

#[test]
fn carriage_return_of_the_opening_line_is_not_taken_from_the_block() {
    let doc = extract("---\r\n---\r\n").unwrap_err();
    assert_eq!(doc.0, "unclosed frontmatter");
    let doc = extract("---\r\n\n---\nb").unwrap();
    assert_eq!(doc.frontmatter, "");
    let doc = extract("---\n\r\n---\nb").unwrap();
    assert_eq!(doc.frontmatter, "");
}

#[test]
fn body_keeps_what_follows_the_closing_token() {
    let doc = extract("---\na: 1\n---").unwrap();
    assert_eq!(doc.body, "");
    let doc = extract("---\na: 1\n---\n\nbody").unwrap();
    assert_eq!(doc.body, "\nbody");
    let doc = extract("---\na: 1\n---- more\n").unwrap();
    assert_eq!(doc.frontmatter, "a: 1");
    assert_eq!(doc.body, "- more\n");
}

#[test]
fn the_first_closing_delimiter_ends_the_block() {
    let doc = extract("---\na: 1\n---\nbody\n---\nmore").unwrap();
    assert_eq!(doc.frontmatter, "a: 1");
    assert_eq!(doc.body, "body\n---\nmore");
}

#[test]
fn an_empty_block_needs_an_empty_line() {
    let doc = extract("---\n\n---\nbody").unwrap();
    assert_eq!(doc.frontmatter, "");
    assert_eq!(doc.body, "body");
    assert_eq!(extract("---\n---\nbody").unwrap_err().0, "unclosed frontmatter");
}

#[test]
fn text_beyond_ascii_is_kept() {
    let doc = extract("---\nname: caf\u{e9} \u{1f600}\n---\n\u{4f53}\u{8a00}").unwrap();
    assert_eq!(doc.frontmatter, "name: caf\u{e9} \u{1f600}");
    assert_eq!(doc.body, "\u{4f53}\u{8a00}");
}

#[test]
fn reassemble_adds_a_line_feed_only_where_needed() {
    assert_eq!(reassemble("a: 1\n", "b"), "---\na: 1\n---\nb");
    assert_eq!(reassemble("a: 1", "b"), "---\na: 1\n---\nb");
    assert_eq!(reassemble("", ""), "---\n\n---\n");
    assert_eq!(reassemble("a\r", "b\n"), "---\na\r\n---\nb\n");
}

#[test]
fn round_trip_holds_on_canonical_documents() {
    let documents = [
        "---\ntitle: Hello\n---\nBody text",
        "---\n\n---\n",
        "---\na: 1\nb: 2\n---\n\n# Heading\n",
        "---\na: 1\n---\n---\nx\n---\n",
    ];
    for text in documents {
        let doc = extract(text).unwrap();
        assert_eq!(reassemble(&doc.frontmatter, &doc.body), text);
    }
}

#[test]
fn round_trip_fails_off_the_canonical_layout() {
    let documents = [
        " ---\na: 1\n---\nb",
        "---\r\na: 1\n---\nb",
        "---\na: 1\r\n---\nb",
        "---\na: 1\n\n---\nb",
        "---\na: 1\n---\r\nb",
        "---\na: 1\n---",
    ];
    for text in documents {
        let doc = extract(text).unwrap();
        assert_ne!(reassemble(&doc.frontmatter, &doc.body), text);
    }
}

#[test]
fn extraction_errors_give_their_text() {
    assert_eq!(extract("").unwrap_err().to_string(), "no frontmatter found");
    assert_eq!(extract("---\na").unwrap_err().to_string(), "unclosed frontmatter");
}
