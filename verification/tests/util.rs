use cargo_binutils::util::{parse, search, Item, ParseError};

fn probes(list: &[(&str, bool)]) -> Vec<(String, bool)> {
    list.iter().map(|(dir, present)| (dir.to_string(), *present)).collect()
}

#[test]
fn the_nearest_directory_that_holds_the_file_is_found() {
    assert_eq!(search(&probes(&[("/a/b/c", false), ("/a/b", true), ("/a", true), ("/", false)])), Some("/a/b"));
    assert_eq!(search(&probes(&[("/a/b/c", true)])), Some("/a/b/c"));
    assert_eq!(search(&probes(&[("/a", false), ("/", true)])), Some("/"));
}

#[test]
fn nothing_is_found_where_no_directory_holds_the_file() {
    assert_eq!(search(&probes(&[("/a/b", false), ("/a", false), ("/", false)])), None);
    assert_eq!(search(&probes(&[])), None);
}

#[test]
fn a_document_is_read_into_tables_and_strings() {
    let document = parse("title = \"x\"\ncount = 3\n[build]\ntarget = \"t\"\njobs = 2\n").unwrap();
    assert_eq!(document.get("title"), Some(&Item::Text("x".to_string())));
    assert_eq!(document.get("count"), Some(&Item::Other));
    assert_eq!(document.get("missing"), None);
    let build = document.get("build").unwrap();
    assert_eq!(build.get("target").and_then(|target| target.as_str()), Some("t"));
    assert_eq!(build.get("jobs").and_then(|jobs| jobs.as_str()), None);
    assert_eq!(document.string_at("build", "target"), Some("t"));
    assert_eq!(document.string_at("build", "jobs"), None);
    assert_eq!(document.string_at("title", "target"), None);
    assert_eq!(document.string_at("nothing", "target"), None);
}

#[test]
fn the_empty_text_is_an_empty_document() {
    assert_eq!(parse(""), Ok(Item::Table(Vec::new())));
}

#[test]
fn only_tables_have_entries_and_only_strings_have_text() {
    let text = Item::Text("t".to_string());
    assert_eq!(text.get("t"), None);
    assert_eq!(text.as_str(), Some("t"));
    assert_eq!(Item::Other.get("t"), None);
    assert_eq!(Item::Other.as_str(), None);
    let table = Item::Table(vec![("k".to_string(), Item::Other), ("k".to_string(), text)]);
    assert_eq!(table.as_str(), None);
    assert_eq!(table.get("k"), Some(&Item::Other));
}

#[test]
fn text_that_is_no_document_is_refused_with_the_parser_s_message() {
    match parse("[build\ntarget = ") {
        Err(ParseError::Syntax(message)) => {
            assert!(!message.is_empty());
            assert_eq!(ParseError::Syntax(message.clone()).message(), message);
        }
        Ok(document) => panic!("accepted as {:?}", document),
    }
}
