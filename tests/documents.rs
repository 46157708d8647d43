use snipcomp::document::{Document, Mode};
use snipcomp::error::SnipError;
use snipcomp::output::{report, substitute};
use snipcomp::scanner::scan;
use snipcomp::text::document_lines;

const DOC: &str = "# Title\nprose\n```yaml #s1\nold: 1\nold: 2\n```\nmore prose\n";

fn lines(text: &str) -> Vec<String> {
    document_lines(text)
}

#[test]
fn scan_finds_blocks() {
    let doc = lines("a\n```yaml #s1\nx\n  y  \n```\nb\n```yaml #s2\n```\n```\n");
    let blocks = scan(&doc).ok().unwrap();
    assert_eq!(blocks.len(), 2);
    assert_eq!(blocks[0].id, "1");
    assert_eq!((blocks[0].start, blocks[0].end), (1, 4));
    assert_eq!(blocks[0].content, vec!["x", "  y  "]);
    assert_eq!(blocks[1].id, "2");
    assert_eq!((blocks[1].start, blocks[1].end), (6, 7));
    assert!(blocks[1].content.is_empty());
}

#[test]
fn scan_repeated_identifier() {
    let doc = lines("```yaml #s1\na\n```\n```yaml #s1\nb\n```\n");
    let blocks = scan(&doc).ok().unwrap();
    assert_eq!(blocks.len(), 2);
    assert_eq!(blocks[0].id, "1");
    assert_eq!(blocks[1].id, "1");
}

#[test]
fn scan_nested_start_fails() {
    let doc = lines("```yaml #s1\na\n```yaml #s2\n```\n");
    match scan(&doc) {
        Err(SnipError::UnclosedBlock { line }) => assert_eq!(line, Some("```yaml #s2".to_string())),
        _ => panic!("expected an unclosed block"),
    }
}

#[test]
fn scan_open_at_end_fails() {
    let doc = lines("```yaml #s1\na\n```\n```yaml #s2\nb\n");
    match scan(&doc) {
        Err(SnipError::UnclosedBlock { line }) => assert_eq!(line, None),
        _ => panic!("expected an unclosed block"),
    }
}

#[test]
fn unclosed_block_fails_whole_run() {
    let text = "```yaml #s1\nold\n```\nprose\n```yaml #s1\nold\n";
    match Document::parse(text) {
        Err(e) => assert_eq!(e.message(), "Unclosed YAML block before end of file"),
        Ok(_) => panic!("expected an unclosed block"),
    }
}

#[test]
fn round_trip_single_block() {
    let doc = Document::parse(DOC).ok().unwrap();
    assert_eq!(doc.blocks().len(), 1);
    let found = vec![Ok("new: 1\n".to_string())];
    let out = doc.finish(Mode::Substitute, &found);
    assert!(out.success);
    assert!(out.diagnostic.is_none());
    assert_eq!(out.output, "# Title\nprose\n```yaml #s1\nnew: 1\n```\nmore prose\n");
}

#[test]
fn document_without_blocks_unchanged() {
    let doc = Document::parse("one\n```\ntwo").ok().unwrap();
    let out = doc.finish(Mode::Substitute, &vec![]);
    assert_eq!(out.output, "one\n```\ntwo\n");
}

#[test]
fn substitute_stops_at_first_failure() {
    let doc = lines("```yaml #s1\n```\n```yaml #s2\n```\n```yaml #s3\n```\n");
    let blocks = scan(&doc).ok().unwrap();
    let found = vec![
        Ok("a\n".to_string()),
        Err(SnipError::SnippetNotFound { id: "2".to_string(), path: "s2.yaml".to_string() }),
        Err(SnipError::ExampleFileNotFound { path: "s3.yaml".to_string(), reason: "gone".to_string() }),
    ];
    match substitute(&doc, &blocks, &found) {
        Err(e) => assert_eq!(e.message(), "Snippet 2 not found in file s2.yaml"),
        Ok(_) => panic!("expected a failure"),
    }
}

#[test]
fn substitute_two_blocks() {
    let doc = lines("p\n```yaml #s1\nx\n```\nq\n```yaml #s2\ny\nz\n```\n");
    let blocks = scan(&doc).ok().unwrap();
    let found = vec![Ok("A\n".to_string()), Ok("B1\nB2\n".to_string())];
    let out = substitute(&doc, &blocks, &found).ok().unwrap();
    assert_eq!(out, "p\n```yaml #s1\nA\n```\nq\n```yaml #s2\nB1\nB2\n```\n");
}

#[test]
fn substitute_failure_writes_nothing() {
    let doc = Document::parse(DOC).ok().unwrap();
    let found = vec![Err(SnipError::SnippetNotFound { id: "1".to_string(), path: "e/s1.yaml".to_string() })];
    let out = doc.finish(Mode::Substitute, &found);
    assert!(!out.success);
    assert_eq!(out.output, "");
    assert_eq!(out.diagnostic, Some("Snippet 1 not found in file e/s1.yaml".to_string()));
}

#[test]
fn report_lists_every_block() {
    let doc = Document::parse("```yaml #s1\n```\n```yaml #s2\n```\n```yaml #s3\n```\n").ok().unwrap();
    let found = vec![
        Err(SnipError::ExampleFileNotFound { path: "e/s1.yaml".to_string(), reason: "gone".to_string() }),
        Ok("a\n".to_string()),
        Err(SnipError::SnippetNotFound { id: "3".to_string(), path: "e/s3.yaml".to_string() }),
    ];
    let out = doc.finish(Mode::Report, &found);
    assert!(!out.success);
    assert!(out.diagnostic.is_none());
    assert_eq!(
        out.output,
        "Unable to match block: 1: Error opening file 'e/s1.yaml': gone\n\
         Matched block: 2\n\
         Unable to match block: 3: Snippet 3 not found in file e/s3.yaml\n"
    );
}

#[test]
fn substitute_stops_looking_up_after_failure() {
    let doc = Document::parse("```yaml #s1\n```\n```yaml #s2\n```\n```yaml #s3\n```\n").ok().unwrap();
    let mut found: Vec<Result<String, SnipError>> = Vec::new();
    assert_eq!(doc.next_lookup(Mode::Substitute, &found), Some(0));
    found.push(Ok("a\n".to_string()));
    assert_eq!(doc.next_lookup(Mode::Substitute, &found), Some(1));
    found.push(Err(SnipError::SnippetNotFound { id: "2".to_string(), path: "e/s2.yaml".to_string() }));
    assert_eq!(doc.next_lookup(Mode::Substitute, &found), None);
    let out = doc.finish(Mode::Substitute, &found);
    assert!(!out.success);
    assert_eq!(out.output, "");
    assert_eq!(out.diagnostic, Some("Snippet 2 not found in file e/s2.yaml".to_string()));
}

#[test]
fn report_looks_up_every_block() {
    let doc = Document::parse("```yaml #s1\n```\n```yaml #s2\n```\n").ok().unwrap();
    let mut found: Vec<Result<String, SnipError>> = Vec::new();
    found.push(Err(SnipError::SnippetNotFound { id: "1".to_string(), path: "e/s1.yaml".to_string() }));
    assert_eq!(doc.next_lookup(Mode::Report, &found), Some(1));
    found.push(Ok("b\n".to_string()));
    assert_eq!(doc.next_lookup(Mode::Report, &found), None);
    let out = doc.finish(Mode::Report, &found);
    assert!(!out.success);
    assert_eq!(out.output, "Unable to match block: 1: Snippet 1 not found in file e/s1.yaml\nMatched block: 2\n");
}

#[test]
fn nested_start_message() {
    match Document::parse("```yaml #s1\na\n```yaml #s2\n```\n") {
        Err(e) => assert_eq!(e.message(), "Unclosed YAML block before text'```yaml #s2'"),
        Ok(_) => panic!("expected an unclosed block"),
    }
}

#[test]
fn report_all_matched_succeeds() {
    let doc = lines("```yaml #s1\n```\n");
    let blocks = scan(&doc).ok().unwrap();
    let rep = report(&blocks, &vec![Ok("a\n".to_string())]);
    assert!(rep.success);
    assert_eq!(rep.lines, vec!["Matched block: 1"]);
    assert_eq!(rep.text(), "Matched block: 1\n");
}
