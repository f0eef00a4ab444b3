use refstruct::scan::Scanner;

fn lines(ls: &[&str]) -> Vec<String> {
    ls.iter().map(|l| l.to_string()).collect()
}

#[test]
fn one_marked_region_is_extracted_with_its_line() {
    let doc = lines(&[
        "fn before() {}",
        "include!(refstruct!(r#\"",
        "name = \"Foo\"",
        "fields = [[\"data\", \"String\"]]",
        "\"#));",
        "fn after() {}",
    ]);
    let blocks = Scanner::scan_lines(&doc).unwrap();
    assert_eq!(blocks.len(), 1);
    assert_eq!(blocks[0].0, 2);
    assert_eq!(blocks[0].1, "name = \"Foo\"\nfields = [[\"data\", \"String\"]]\n");
}

#[test]
fn two_regions_come_in_order() {
    let doc = lines(&[
        "refstruct!(r#\"",
        "a",
        "\"#",
        "plain",
        "refstruct!(r#\"",
        "b",
        "\"#",
    ]);
    let blocks = Scanner::scan_lines(&doc).unwrap();
    assert_eq!(blocks.len(), 2);
    assert_eq!(blocks[0], (1, "a\n".to_string()));
    assert_eq!(blocks[1], (5, "b\n".to_string()));
}

#[test]
fn a_document_without_markers_yields_nothing() {
    let doc = lines(&["fn main() {}", "// nothing here"]);
    let blocks = Scanner::scan_lines(&doc).unwrap();
    assert!(blocks.is_empty());
}

#[test]
fn an_unterminated_region_is_an_error_with_its_line() {
    let doc = lines(&["x", "y refstruct!(r#\"", "name = \"Foo\""]);
    let r = Scanner::scan_lines(&doc);
    assert_eq!(r.unwrap_err(), 2);
}

#[test]
fn the_marker_line_itself_is_never_the_terminator() {
    // the terminator on the marker's own line does not close the region
    let doc = lines(&["refstruct!(r#\" \"#", "body", "\"#"]);
    let blocks = Scanner::scan_lines(&doc).unwrap();
    assert_eq!(blocks.len(), 1);
    assert_eq!(blocks[0], (1, "body\n".to_string()));
}

#[test]
fn the_terminator_line_is_not_part_of_the_text() {
    let doc = lines(&["refstruct!(r#\"", "kept", "tail \"# tail"]);
    let blocks = Scanner::scan_lines(&doc).unwrap();
    assert_eq!(blocks[0].1, "kept\n");
}
