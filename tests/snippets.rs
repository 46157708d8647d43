use snipcomp::error::SnipError;
use snipcomp::grammar::{MAX_ID_LEN, block_start_id, closes_block, is_end_tag, is_snippet_id, is_start_tag};
use snipcomp::locator::{example_file_name, get_example_snippet, locate, ExampleText};
use snipcomp::text::{blank_line, document_lines, same_text};

const S1: &str = "text before tag\n     # tag::s1[]\ntext in snippet:\n  last row of snippet:\n# end::s1[]\ntext after snippet\n";
const S10: &str = "text before tag\n# tag::s10[]\ntext in snippet\nlast row of snippet\n";
const S20: &str = "text before tag\ntext in snippet\n# end::s20[]\ntext after snippet\n";
const S30: &str = "# tag::s1[]\ntext in snippet\n# end::s1[]\n";
const S40: &str = "# tag::s40[]\ntext in snippet:\n  last row of snippet. end tag has space:\n   #  end::s40[]   \nafter\n";

fn message_of(r: Result<String, SnipError>) -> String {
    match r {
        Ok(s) => panic!("expected a failure, got {:?}", s),
        Err(e) => e.message(),
    }
}

#[test]
fn test_snippet_found() {
    let result = get_example_snippet("examples/s1.yaml", S1, "1").unwrap();
    assert_eq!(result, "text in snippet:\n  last row of snippet:\n");
}

#[test]
fn test_example_directory_not_found() {
    let missing = ExampleText::Missing {
        path: "not_there/s1.yaml".to_string(),
        reason: "No such file or directory (os error 2)".to_string(),
    };
    let result = locate(&missing, "1");
    assert!(message_of(result).contains("Error opening file 'not_there/s1.yaml': No such file or directory"));
}

#[test]
fn test_example_snippet_not_started() {
    let result = get_example_snippet("examples/s20.yaml", S20, "20");
    assert!(message_of(result).contains("Snippet 20 not found in file examples/s20.yaml"));
}

#[test]
fn test_example_snippet_incomplete() {
    let result = get_example_snippet("examples/s10.yaml", S10, "10");
    assert!(message_of(result).contains("Snippet 10 not found in file examples/s10.yaml"));
}

#[test]
fn test_example_snippet_wrong_number() {
    let result = get_example_snippet("examples/s30.yaml", S30, "30");
    assert!(message_of(result).contains("Snippet 30 not found in file examples/s30.yaml"));
}

#[test]
fn test_snippet_with_space_found() {
    let result = get_example_snippet("examples/s40.yaml", S40, "40").unwrap();
    assert_eq!(result, "text in snippet:\n  last row of snippet. end tag has space:\n");
}

#[test]
fn literal_example_body() {
    let text = "text before tag\n     # tag::s1[]\ntext in snippet\nlast row of snippet\n# end::s1[]\ntext after snippet\n";
    let result = get_example_snippet("s1.yaml", text, "1").unwrap();
    assert_eq!(result, "text in snippet\nlast row of snippet\n");
}

#[test]
fn start_tag_with_many_spaces() {
    assert!(is_start_tag("#    tag::s1[]", "1"));
    let text = "#    tag::s1[]\nbody\n#    end::s1[]\n";
    assert_eq!(get_example_snippet("s1.yaml", text, "1").unwrap(), "body\n");
}

#[test]
fn start_tag_without_space() {
    assert!(is_start_tag("#tag::s1[]", "1"));
    assert!(is_end_tag("#end::s1[]", "1"));
    let text = "#tag::s1[]\nbody\n#end::s1[]\n";
    assert_eq!(get_example_snippet("s1.yaml", text, "1").unwrap(), "body\n");
}

#[test]
fn start_tag_with_tab() {
    assert!(is_start_tag("#\t tag::s7[]", "7"));
}

#[test]
fn tag_of_longer_identifier_does_not_match() {
    assert!(!is_start_tag("# tag::s10[]", "1"));
    assert!(!is_end_tag("# end::s10[]", "1"));
    assert!(!is_start_tag("# end::s1[]", "1"));
    assert!(!is_start_tag("tag::s1[]", "1"));
}

#[test]
fn missing_end_tag_gives_no_partial_body() {
    let text = "# tag::s10[]\nfirst\nsecond\n";
    let result = get_example_snippet("s10.yaml", text, "10");
    assert!(matches!(result, Err(SnipError::SnippetNotFound { .. })));
}

#[test]
fn stray_end_tag_then_open_start_tag_not_found() {
    let text = "# end::s10[]\n# tag::s10[]\na: 1\nb: 2\n";
    let result = get_example_snippet("d/s10.yaml", text, "10");
    assert!(message_of(result).contains("Snippet 10 not found in file d/s10.yaml"));
}

#[test]
fn overlong_identifier_not_found() {
    let id = "1".repeat(MAX_ID_LEN + 1);
    let text = format!("# tag::s{}[]\nbody\n# end::s{}[]\n", id, id);
    assert!(get_example_snippet("x.yaml", &text, &id).is_err());
}

#[test]
fn long_identifier_found() {
    let id = "7".repeat(5000);
    let text = format!("# tag::s{}[]\nbody\n# end::s{}[]\n", id, id);
    assert_eq!(get_example_snippet("x.yaml", &text, &id).unwrap(), "body\n");
}

#[test]
fn wrong_identifier_not_found() {
    let text = "# tag::s1[]\nbody\n# end::s1[]\n";
    match get_example_snippet("d/s30.yaml", text, "30") {
        Err(SnipError::SnippetNotFound { id, path }) => {
            assert_eq!(id, "30");
            assert_eq!(path, "d/s30.yaml");
        }
        other => panic!("unexpected {:?}", other.is_ok()),
    }
}

#[test]
fn blank_region_not_found() {
    let text = "# tag::s2[]\n\n   \n# end::s2[]\n";
    assert!(get_example_snippet("s2.yaml", text, "2").is_err());
}

#[test]
fn empty_region_not_found() {
    let text = "# tag::s2[]\n# end::s2[]\n";
    assert!(get_example_snippet("s2.yaml", text, "2").is_err());
}

#[test]
fn end_tag_before_start_tag_not_found() {
    let text = "# end::s3[]\n# tag::s3[]\nbody\n# end::s3[]\n";
    assert!(get_example_snippet("s3.yaml", text, "3").is_err());
}

#[test]
fn blank_lines_inside_region_kept() {
    let text = "# tag::s4[]\n  a\n\n  b  \n# end::s4[]\nlater\n";
    assert_eq!(get_example_snippet("s4.yaml", text, "4").unwrap(), "  a\n\n  b  \n");
}

#[test]
fn repeated_start_tag_is_skipped() {
    let text = "# tag::s5[]\na\n# tag::s5[]\nb\n# end::s5[]\n";
    assert_eq!(get_example_snippet("s5.yaml", text, "5").unwrap(), "a\nb\n");
}

#[test]
fn crlf_example_lines() {
    let text = "# tag::s6[]\r\nx: 1\r\n# end::s6[]\r\n";
    assert_eq!(get_example_snippet("s6.yaml", text, "6").unwrap(), "x: 1\n");
}

#[test]
fn not_an_identifier_not_found() {
    let text = "# tag::sa.b[]\nbody\n# end::sa.b[]\n";
    assert!(get_example_snippet("x.yaml", text, "a.b").is_err());
    assert!(get_example_snippet("x.yaml", text, "").is_err());
    assert!(!is_snippet_id("a.b"));
    assert!(!is_snippet_id(""));
    assert!(is_snippet_id("0042"));
}

#[test]
fn locate_loaded_file() {
    let ex = ExampleText::Loaded { path: "e/s1.yaml".to_string(), text: S1.to_string() };
    assert_eq!(locate(&ex, "1").unwrap(), "text in snippet:\n  last row of snippet:\n");
}

#[test]
fn file_name_of_identifier() {
    assert_eq!(example_file_name("1"), "s1.yaml");
    assert_eq!(example_file_name("007"), "s007.yaml");
}

#[test]
fn block_start_fences() {
    assert_eq!(block_start_id("```yaml #s12"), Some("12".to_string()));
    assert_eq!(block_start_id("   ```yaml #s007 trailing words  "), Some("007".to_string()));
    assert_eq!(block_start_id("```yaml #s"), None);
    assert_eq!(block_start_id("```yaml #sx1"), None);
    assert_eq!(block_start_id("```yaml"), None);
    assert_eq!(block_start_id("text ```yaml #s1"), None);
}

#[test]
fn closing_fences() {
    assert!(closes_block("```"));
    assert!(closes_block("  ```\t"));
    assert!(!closes_block("```yaml"));
    assert!(!closes_block("`` `"));
    assert!(!closes_block(""));
}

#[test]
fn lines_and_blanks() {
    assert_eq!(document_lines("a\r\nb\n\nc"), vec!["a", "b", "", "c"]);
    assert_eq!(document_lines("a\n"), vec!["a"]);
    assert!(document_lines("").is_empty());
    assert!(blank_line(" \t "));
    assert!(!blank_line(" x "));
    assert!(same_text("abc", "abc"));
    assert!(!same_text("abc", "abd"));
    assert!(!same_text("abc", "ab"));
}

#[test]
fn error_messages() {
    let e = SnipError::UnclosedBlock { line: Some("```yaml #s2".to_string()) };
    assert_eq!(e.message(), "Unclosed YAML block before text'```yaml #s2'");
    let e = SnipError::UnclosedBlock { line: None };
    assert_eq!(e.message(), "Unclosed YAML block before end of file");
    let e = SnipError::SnippetNotFound { id: "3".to_string(), path: "d/s3.yaml".to_string() };
    assert_eq!(e.message(), "Snippet 3 not found in file d/s3.yaml");
    let e = SnipError::ExampleFileNotFound { path: "d/s3.yaml".to_string(), reason: "gone".to_string() };
    assert_eq!(e.message(), "Error opening file 'd/s3.yaml': gone");
    assert_eq!(e.duplicate().message(), e.message());
}
