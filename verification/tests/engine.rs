use markdown_includes::engine::{assemble, order_of};
use markdown_includes::fence::{find_fences, Fence};
use markdown_includes::rustdoc_parse::{Environment, Metadata, Package, SourceFile};
use markdown_includes::text::TextRange;
use markdown_includes::{diff, intralink_warnings, process_includes_document};

fn environment(sources: &[(&str, &str)]) -> Environment {
    Environment {
        metadata: Ok(Metadata {
            packages: Vec::new(),
            workspace_members: Vec::new(),
            root_package: Some(Package {
                name: "root".to_string(),
                id: "root 1".to_string(),
                targets: Vec::new(),
            }),
        }),
        sources: sources
            .iter()
            .map(|(path, text)| SourceFile { path: path.to_string(), content: Ok(text.to_string()), links: Vec::new() })
            .collect(),
    }
}

#[test]
fn a_document_without_fences_stays_as_it_is() {
    let text = "# Title\n\n```rust\nlet a = 1;\n```\n\ntext\n```toml toc\nunclosed";
    let mut document = text.to_string();
    process_includes_document(&mut document, &environment(&[])).unwrap();
    assert_eq!(document, text);
    let mut empty = String::new();
    process_includes_document(&mut empty, &environment(&[])).unwrap();
    assert_eq!(empty, "");
}

#[test]
fn imported_headings_stand_in_the_table() {
    let text = "```toml toc\n```\n\n# Own\n\n```toml rustdoc\nsource = \"lib.rs\"\n```\n";
    let mut document = text.to_string();
    process_includes_document(
        &mut document,
        &environment(&[("lib.rs", "//! # Imported\n//!\n//! ## Part\n//! text")]),
    )
    .unwrap();
    assert_eq!(
        document,
        "- [Own](#own)\n- [Imported](#imported)\n    - [Part](#part)\n\n# Own\n\n# Imported\n\n## Part\ntext\n"
    );
}

#[test]
fn fences_after_a_longer_replacement_are_still_found() {
    let text = "```toml rustdoc\nsource = \"a.rs\"\n```\nmiddle\n```toml rustdoc\nsource = \"b.rs\"\n```\nend\n```toml toc\nlink = false\n```";
    let mut document = text.to_string();
    process_includes_document(
        &mut document,
        &environment(&[("a.rs", "//! # A much longer text than the fence that it replaces, by far"), ("b.rs", "//! # B")]),
    )
    .unwrap();
    assert_eq!(
        document,
        "# A much longer text than the fence that it replaces, by far\nmiddle\n# B\nend\n- A much longer text than the fence that it replaces, by far\n- B"
    );
}

#[test]
fn a_later_table_sees_the_header_of_an_earlier_one() {
    let text = "```toml toc\nheader = \"# First\"\n```\n# H\n```toml toc\nlink = false\n```";
    let mut document = text.to_string();
    process_includes_document(&mut document, &environment(&[])).unwrap();
    assert_eq!(document, "# First\n\n- [H](#h)\n# H\n- First\n- H");
}

#[test]
fn the_same_template_gives_the_same_document() {
    let text = "```toml toc\n```\n# A\n```toml rustdoc\nsource = \"lib.rs\"\n```\n## B";
    let read = environment(&[("lib.rs", "//! # Doc\n//! ```\n//! # hidden\n//! code\n//! ```")]);
    let mut first = text.to_string();
    let mut second = text.to_string();
    process_includes_document(&mut first, &read).unwrap();
    process_includes_document(&mut second, &read).unwrap();
    assert_eq!(first, second);
    assert_eq!(
        first,
        "- [A](#a)\n- [Doc](#doc)\n    - [B](#b)\n# A\n# Doc\n```rust\ncode\n```\n## B"
    );
    let mut again = first.clone();
    process_includes_document(&mut again, &read).unwrap();
    assert_eq!(again, first);
}

#[test]
fn fences_run_by_rank_and_then_by_place() {
    let text = "```toml toc\n```\n```toml rustdoc\nsource = \"a\"\n```\n```toc\n```\n```toml rustdoc\nsource = \"b\"\n```";
    let fences = find_fences(text).unwrap();
    assert_eq!(fences.len(), 4);
    assert_eq!(order_of(&fences), vec![1, 3, 0, 2]);
    assert_eq!(order_of(&Vec::new()), Vec::<usize>::new());
    match &fences[2] {
        Fence::Toc(fence) => assert_eq!(fence.outer, TextRange { start: 49, end: 59 }),
        _ => panic!("the third fence is a table of contents"),
    }
}

#[test]
fn slots_between_the_text() {
    let gaps = vec![vec!['a'], vec![], vec!['b', 'c']];
    let slots = vec!["1".to_string(), "22".to_string()];
    assert_eq!(assemble(&gaps, &slots), "a122bc");
    assert_eq!(assemble(&vec![vec!['x']], &Vec::new()), "x");
}

#[test]
fn what_tells_two_documents_apart() {
    assert_eq!(diff("a\nb\n", "a\nb"), None);
    assert_eq!(diff("  a \nb", "a\n\tb\t"), None);
    assert_eq!(diff("", "anything"), None);
    assert_eq!(diff("a\nb", "a\nc\nd"), Some("> b\n< c\n".to_string()));
    assert_eq!(
        diff("1\n2\n3\n4\n5\n6\n7", "a\nb\n3\nd\ne\nf\ng"),
        Some("> 1\n< a\n, > 2\n< b\n, > 4\n< d\n, > 5\n< e\n, > 6\n< f\n".to_string())
    );
    assert_eq!(diff(" x ", "y"), Some("> x\n< y\n".to_string()));
}

#[test]
fn an_imported_heading_inside_an_open_code_block_is_not_listed() {
    let text = "```toml rustdoc\nsource = \"a.rs\"\n```\n```toml rustdoc\nsource = \"b.rs\"\n```\n```toml toc\n```";
    let mut document = text.to_string();
    process_includes_document(
        &mut document,
        &environment(&[("a.rs", "//! # A\n//! ~~~text\n//! ```\n//! ~~~"), ("b.rs", "//! # B")]),
    )
    .unwrap();
    assert_eq!(document, "# A\n~~~text\n```\n~~~\n# B\n- [A](#a)");
}

#[test]
fn warnings_of_a_document() {
    let text = "```toml rustdoc\nsource = \"a.rs\"\n```\n```toml toc\n```\n```toml rustdoc\nsource = \"missing.rs\"\n```\n```toml rustdoc\nsource = \"b.rs\"\n```";
    let read = environment(&[("a.rs", "//! [x](crate::x) and [y](crate::y)"), ("b.rs", "//! [z](crate::z)")]);
    assert_eq!(
        intralink_warnings(text, &read).unwrap(),
        vec![
            "Could not resolve definition of `crate::x`.".to_string(),
            "Could not resolve definition of `crate::y`.".to_string(),
            "Could not resolve definition of `crate::z`.".to_string(),
        ]
    );
    assert_eq!(intralink_warnings("# nothing", &read).unwrap(), Vec::<String>::new());
    assert!(intralink_warnings("```toml toc\nindent = true\n```", &read).is_err());
    let mut document = text.to_string();
    process_includes_document(&mut document, &read).unwrap();
    assert_eq!(
        document,
        "[x](crate::x) and [y](crate::y)\n\n```toml rustdoc\nsource file was not read\n```\n[z](crate::z)"
    );
}
