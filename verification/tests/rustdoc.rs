use itertools::Itertools;
use std::iter::once;
use markdown_includes::fence::rustdoc::RustDocFence;
use markdown_includes::fence::FenceError;
use markdown_includes::process_includes_document;
use markdown_includes::rustdoc_parse::extract_doc::{
    extract_doc_from_attributes, extract_doc_from_source_str, SourceAttribute,
};
use markdown_includes::rustdoc_parse::options::RustDocOptions;
use markdown_includes::rustdoc_parse::transform::utils::{
    is_rust_code_block, rust_code_block_iterator, rust_code_blocks, EventKind,
};
use markdown_includes::rustdoc_parse::transform::intralinks::{
    documentation_url, find_intralink, find_target, names_of, scan, scan_outside_blocks,
    word_of, DocTransformIntralinks, ItemKind, ResolvedLink,
};
use markdown_includes::rustdoc_parse::transform::{
    change_block, change_blocks, show_block, tag_block, BlockChange,
    DocTransformRustMarkdownTag, DocTransformRustRemoveComments,
};
use markdown_includes::rustdoc_parse::utils::{ItemOrOther, MarkdownItemIterator, Span};
use markdown_includes::rustdoc_parse::{
    intralinks, prepare_doc, warnings, parse, transform_doc, Doc, DocError, Environment, Metadata, Package, Project, SourceFile,
    Target,
};
use markdown_includes::text::TextRange;

fn package(name: &str, id: &str, kinds: &[&str]) -> Package {
    Package {
        name: name.to_string(),
        id: id.to_string(),
        targets: kinds.iter().map(|k| Target { kind: vec![k.to_string()] }).collect(),
    }
}

fn workspace() -> Metadata {
    Metadata {
        packages: vec![
            package("outside", "outside 1.0", &["lib"]),
            package("core", "core 0.1", &["lib", "bin"]),
            package("tool", "tool 0.1", &["bin"]),
        ],
        workspace_members: vec!["core 0.1".to_string(), "tool 0.1".to_string()],
        root_package: Some(package("core", "core 0.1", &["lib", "bin"])),
    }
}

fn environment(path: &str, content: Result<&str, &str>) -> Environment {
    Environment {
        metadata: Ok(workspace()),
        sources: vec![SourceFile {
            path: path.to_string(),
            content: match content {
                Ok(text) => Ok(text.to_string()),
                Err(message) => Err(message.to_string()),
            },
            links: Vec::new(),
        }],
    }
}

fn options(source: &str) -> RustDocOptions {
    RustDocOptions { source: source.to_string(), workspace_project: None, intralinks: None }
}

#[test]
fn test_doc_from_source_str_no_doc() {
    let str = "use std::fs;\n\nstruct Nothing {}\n";

    assert!(extract_doc_from_source_str(str).unwrap().is_none());
}

#[test]
fn test_doc_from_source_str_single_line_comment() {
    let str = "#![cfg_attr(not(feature = \"std\"), no_std)]\n// normal comment\n\n//! This is the doc for the crate.\n//!This line doesn't start with space.\n//!\n//! And a nice empty line above us.\n//! Also a line ending in \"\n\nstruct Nothing {}\n";

    let doc = extract_doc_from_source_str(str).unwrap().unwrap();
    let lines: Vec<&str> = doc.content.lines().collect();

    let expected = vec![
        "This is the doc for the crate.",
        "This line doesn't start with space.",
        "",
        "And a nice empty line above us.",
        "Also a line ending in \"",
    ];

    assert_eq!(lines, expected);
}

#[test]
fn test_doc_from_source_str_multi_line_comment() {
    let str = "#![cfg_attr(not(feature = \"std\"), no_std)]\n/* normal comment */\n\n/*!\nThis is the doc for the crate.\n This line start with space.\n\nAnd a nice empty line above us.\n*/\n\nstruct Nothing {}\n";

    let doc = extract_doc_from_source_str(str).unwrap().unwrap();
    let lines: Vec<&str> = doc.content.lines().collect();

    let expected = vec![
        "This is the doc for the crate.",
        " This line start with space.",
        "",
        "And a nice empty line above us.",
    ];

    assert_eq!(lines, expected);
}

#[test]
fn test_doc_from_source_str_single_line_keep_indentation() {
    let str = "#![cfg_attr(not(feature = \"std\"), no_std)]\n// normal comment\n\n//! This is the doc for the crate.  This crate does:\n//!\n//!   1. nothing.\n//!   2. niente.\n\nstruct Nothing {}\n";

    let doc = extract_doc_from_source_str(str).unwrap().unwrap();
    let lines: Vec<&str> = doc.content.lines().collect();

    let expected = vec![
        "This is the doc for the crate.  This crate does:",
        "",
        "  1. nothing.",
        "  2. niente.",
    ];

    assert_eq!(lines, expected);
}

#[test]
fn test_rust_code_block_iterator_items() {
    let doc = "# The crate\n\nLook a this code:\n\n```\nprintln!(\"first\");\n```\n\n```rust\nprintln!(\"second\");\n```\n\n```text\nJust some text.\n```\n\n```ignore,no_run\nprintln!(\"third\");\n```\n\n```should_panic\nprintln!(\"fourth\");\n```\n\nThat's ```all```!  Have a nice `day`!\n";

    let items = rust_code_block_iterator(&doc).items();
    let mut iter = items.into_iter();

    assert_eq!(iter.next(), Some("```\nprintln!(\"first\");\n```"));
    assert_eq!(iter.next(), Some("```rust\nprintln!(\"second\");\n```"));
    assert_eq!(
        iter.next(),
        Some("```ignore,no_run\nprintln!(\"third\");\n```")
    );
    assert_eq!(
        iter.next(),
        Some("```should_panic\nprintln!(\"fourth\");\n```")
    );
    assert_eq!(iter.next(), None);
}

#[test]
fn test_rust_code_block_iterator_items_known_code_block_tags() {
    let tags = [
        "should_panic",
        "no_run",
        "ignore",
        "allow_fail",
        "rust",
        "test_harness",
        "compile_fail",
        "edition2018",
        "ignore-foo",
    ];

    for tag in tags {
        let doc = format!("Foo:\n```{}\nprintln!(\"There\");\n```\nEnd\n", tag);
        let expected_str = format!("```{}\nprintln!(\"There\");\n```", tag);

        let items = rust_code_block_iterator(&doc).items();
        let mut iter = items.into_iter();

        assert_eq!(iter.next(), Some(expected_str.as_str()));
        assert_eq!(iter.next(), None);
    }
}

#[test]
fn test_rustdoc() {
    let doc = r##"
Some markdown

```toml rustdoc
source = "src/tests/rustdoc1.rs"
```

# My h1
text

## My h1.1
## My h1.2

# My h2
"##;

    let source = "//! Some rust doc here\n//! ```\n//! let s = String::new();\n//! ```\n//!\n//! Howdy\n\npub fn nothing() {}\n";
    let mut document = doc.trim().to_string();
    process_includes_document(&mut document, &environment("src/tests/rustdoc1.rs", Ok(source)))
        .unwrap();

    assert_eq!(
        document,
        "Some markdown\n\nSome rust doc here\n```rust\nlet s = String::new();\n```\n\nHowdy\n\n# My h1\ntext\n\n## My h1.1\n## My h1.2\n\n# My h2"
    );
}

#[test]
fn a_single_line_of_documentation_loses_its_leading_space() {
    let mut document = "```toml rustdoc\nsource = \"lib.rs\"\n```".to_string();
    process_includes_document(&mut document, &environment("lib.rs", Ok("//! Hello world\n")))
        .unwrap();
    assert_eq!(document, "Hello world");
}

#[test]
fn a_source_that_was_not_found_is_shown_in_the_document() {
    let mut document = "before\n```toml rustdoc\nsource = \"missing.rs\"\n```\nafter".to_string();
    let read = environment("missing.rs", Err("cannot open source file \"missing.rs\": No such file or directory"));
    process_includes_document(&mut document, &read).unwrap();
    assert_eq!(
        document,
        "before\n```toml rustdoc\ncannot open source file \"missing.rs\": No such file or directory\n```\nafter"
    );
}

#[test]
fn a_source_that_was_not_read_is_shown_in_the_document() {
    let mut document = "```toml rustdoc\nsource = \"other.rs\"\n```".to_string();
    process_includes_document(&mut document, &environment("lib.rs", Ok("//! x"))).unwrap();
    assert_eq!(document, "```toml rustdoc\nsource file was not read\n```");
}

#[test]
fn attributes_that_are_no_documentation_are_passed_over() {
    let attributes = vec![
        SourceAttribute { inner: true, doc: false, text: Some("no doc".to_string()) },
        SourceAttribute { inner: false, doc: true, text: Some("outer".to_string()) },
        SourceAttribute { inner: true, doc: true, text: None },
    ];
    assert!(extract_doc_from_attributes(&attributes).is_none());
    assert!(extract_doc_from_attributes(&Vec::new()).is_none());
}

#[test]
fn lines_of_the_attributes() {
    let attributes = vec![
        SourceAttribute { inner: true, doc: true, text: Some(" one".to_string()) },
        SourceAttribute { inner: true, doc: true, text: Some("".to_string()) },
        SourceAttribute { inner: true, doc: true, text: Some("  two".to_string()) },
        SourceAttribute { inner: true, doc: true, text: Some(" \n a\n\n b\n".to_string()) },
        SourceAttribute { inner: true, doc: true, text: Some("x\ny".to_string()) },
        SourceAttribute { inner: true, doc: true, text: Some(" tail\n".to_string()) },
    ];
    let doc = extract_doc_from_attributes(&attributes).unwrap();
    assert_eq!(doc.content, "one\n\n two\n a\n\n b\nx\ny\ntail\n");
}

#[test]
fn what_is_no_rust_source_is_refused() {
    assert!(extract_doc_from_source_str("fn (").is_err());
    match parse(&options("lib.rs"), &environment("lib.rs", Ok("fn ("))) {
        Err(DocError::Syntax(message)) => assert!(!message.is_empty()),
        _ => panic!("the source does not parse"),
    }
}

#[test]
fn errors_of_an_import() {
    match parse(&options("lib.rs"), &environment("lib.rs", Ok("fn main() {}"))) {
        Err(DocError::NotFound) => {}
        _ => panic!("the source has no documentation"),
    }
    match parse(&options("lib.rs"), &environment("lib.rs", Err("gone"))) {
        Err(DocError::Source(message)) => assert_eq!(message, "gone"),
        _ => panic!("the source could not be read"),
    }
    match parse(&options("lib.rs"), &environment("other.rs", Ok("//! x"))) {
        Err(DocError::Unread) => {}
        _ => panic!("the source was not read"),
    }
    let mut read = environment("lib.rs", Ok("//! x"));
    read.metadata = Err("cargo failed".to_string());
    match parse(&options("lib.rs"), &read) {
        Err(DocError::Metadata(message)) => assert_eq!(message, "cargo failed"),
        _ => panic!("the work space could not be read"),
    }
    let mut read = environment("lib.rs", Ok("//! x"));
    read.metadata.as_mut().unwrap().root_package = None;
    match parse(&options("lib.rs"), &read) {
        Err(DocError::NoRootPackage) => {}
        _ => panic!("the work space has no root package"),
    }
    let mut read = environment("lib.rs", Ok("//! x"));
    read.metadata.as_mut().unwrap().root_package = Some(Package {
        name: "twice".to_string(),
        id: "twice 1".to_string(),
        targets: vec![
            Target { kind: vec!["lib".to_string()] },
            Target { kind: vec!["bin".to_string(), "cdylib".to_string()] },
        ],
    });
    match parse(&options("lib.rs"), &read) {
        Err(DocError::ManyLibraries) => {}
        _ => panic!("the package has two libraries"),
    }
    let mut named = options("lib.rs");
    named.workspace_project = Some("outside".to_string());
    match parse(&named, &environment("lib.rs", Ok("//! x"))) {
        Err(DocError::PackageNotFound(name)) => assert_eq!(name, "outside"),
        _ => panic!("the package is no member"),
    }
    named.workspace_project = Some("tool".to_string());
    assert_eq!(parse(&named, &environment("lib.rs", Ok("//! x"))).unwrap(), "x");
}

#[test]
fn messages_of_the_errors() {
    assert_eq!(DocError::Metadata("m".to_string()).message(), "m");
    assert_eq!(DocError::NoRootPackage.message(), "project has no root package");
    assert_eq!(DocError::PackageNotFound("p".to_string()).message(), "project has no package");
    assert_eq!(DocError::ManyLibraries.message(), "more than one lib target");
    assert_eq!(DocError::Unread.message(), "source file was not read");
    assert_eq!(DocError::Source("s".to_string()).message(), "s");
    assert_eq!(DocError::Syntax("s".to_string()).message(), "cannot parse source file");
    assert_eq!(DocError::NotFound.message(), "crate-level rustdoc not found");
}

#[test]
fn a_package_that_the_work_space_lacks_stops_the_run() {
    let text = "a\n```toml rustdoc\nsource = \"lib.rs\"\nworkspace_project = \"nowhere\"\n```\n```toml toc\n```\n# H";
    let mut document = text.to_string();
    match process_includes_document(&mut document, &environment("lib.rs", Ok("//! x"))) {
        Err(FenceError::PackageNotFound { at, package }) => {
            assert_eq!(at, 2);
            assert_eq!(package, "nowhere");
        }
        _ => panic!("the package is not in the work space"),
    }
    assert_eq!(document, text);
}

#[test]
fn packages_of_the_work_space() {
    let metadata = workspace();
    assert_eq!(Project::select_package(&metadata, "core").unwrap().id, "core 0.1");
    assert!(Project::select_package(&metadata, "outside").is_none());
    assert!(Project::select_package(&metadata, "absent").is_none());
    let project = Project::from_package(&metadata.packages[1]);
    assert_eq!(project.get_package_name(), "core");
    let found = Project::from_metadata(&Ok(workspace()), &Some("tool".to_string())).unwrap();
    assert_eq!(found.get_package_name(), "tool");
    let root = Project::from_metadata(&Ok(workspace()), &None).unwrap();
    assert_eq!(root.get_package_name(), "core");
}

#[test]
fn documentation_as_a_string() {
    let doc = Doc::from_str("some text");
    assert_eq!(doc.as_string(), "some text");
    assert_eq!(doc, Doc { content: "some text".to_string() });
}

#[test]
fn tags_of_rust_code_blocks() {
    assert!(is_rust_code_block(""));
    assert!(is_rust_code_block("rust"));
    assert!(is_rust_code_block("ignore,no_run"));
    assert!(is_rust_code_block("rust,"));
    assert!(is_rust_code_block(",,"));
    assert!(is_rust_code_block("edition"));
    assert!(is_rust_code_block("ignore-x86,should_panic"));
    assert!(!is_rust_code_block("text"));
    assert!(!is_rust_code_block("rust,text"));
    assert!(!is_rust_code_block("Rust"));
    assert!(!is_rust_code_block(" rust"));
    assert!(!is_rust_code_block("ignored"));
    assert!(!is_rust_code_block("toml toc"));
}

#[test]
fn spans_of_the_code_blocks() {
    let doc = "a\n\n```\nx\n```\n\n    indented\n\n```text\nno\n```\n";
    let found = rust_code_block_iterator(doc).items_with_spans();
    assert_eq!(found.len(), 2);
    assert_eq!(found[0], (Span { start: 3, end: 12 }, "```\nx\n```"));
    assert_eq!(found[1].1.trim(), "indented");
    assert!(rust_code_block_iterator(doc).is_well_formed());
}

#[test]
fn blocks_that_cannot_be_cut_are_passed_over() {
    let doc = "\u{e9}abc";
    let events = vec![
        (EventKind::IndentedCode, Span { start: 1, end: 3 }),
        (EventKind::FencedCode("rust".to_string()), Span { start: 2, end: 4 }),
        (EventKind::Other, Span { start: 4, end: 5 }),
        (EventKind::FencedCode("text".to_string()), Span { start: 4, end: 5 }),
        (EventKind::IndentedCode, Span { start: 3, end: 4 }),
        (EventKind::IndentedCode, Span { start: 4, end: 9 }),
        (EventKind::IndentedCode, Span { start: 5, end: 4 }),
        (EventKind::FencedCode("".to_string()), Span { start: 4, end: 5 }),
    ];
    let found = rust_code_blocks(doc, &events).items_with_spans();
    assert_eq!(found, vec![(Span { start: 2, end: 4 }, "ab"), (Span { start: 4, end: 5 }, "c")]);
}

#[test]
fn items_and_the_text_around_them() {
    let source = "0123456789";
    let items = vec![(Span { start: 0, end: 2 }, 'a'), (Span { start: 2, end: 5 }, 'b'), (Span { start: 7, end: 10 }, 'c')];
    let iter = MarkdownItemIterator::new(source, items);
    assert!(iter.is_well_formed());
    assert_eq!(
        iter.complete(),
        vec![
            ItemOrOther::Item('a'),
            ItemOrOther::Item('b'),
            ItemOrOther::Other("56"),
            ItemOrOther::Item('c'),
        ]
    );
    let none: MarkdownItemIterator<char> = MarkdownItemIterator::new(source, Vec::new());
    assert_eq!(none.complete(), vec![ItemOrOther::Other("0123456789")]);
    let empty: MarkdownItemIterator<char> = MarkdownItemIterator::new("", Vec::new());
    assert_eq!(empty.complete(), Vec::new());
    let inner = MarkdownItemIterator::new(source, vec![(Span { start: 3, end: 4 }, 1u8)]);
    assert_eq!(
        inner.complete(),
        vec![ItemOrOther::Other("012"), ItemOrOther::Item(1u8), ItemOrOther::Other("456789")]
    );
    let listed = MarkdownItemIterator::new(source, vec![(Span { start: 3, end: 4 }, 1u8), (Span { start: 4, end: 4 }, 2u8)]);
    assert_eq!(listed.items(), vec![1u8, 2u8]);
}

#[test]
fn spans_that_do_not_fit() {
    let crossing = MarkdownItemIterator::new("abcdef", vec![(Span { start: 0, end: 3 }, 1u8), (Span { start: 2, end: 4 }, 2u8)]);
    assert!(!crossing.is_well_formed());
    let outside = MarkdownItemIterator::new("abc", vec![(Span { start: 1, end: 4 }, 1u8)]);
    assert!(!outside.is_well_formed());
    let backwards = MarkdownItemIterator::new("abc", vec![(Span { start: 2, end: 1 }, 1u8)]);
    assert!(!backwards.is_well_formed());
    let split = MarkdownItemIterator::new("\u{e9}", vec![(Span { start: 0, end: 1 }, 1u8)]);
    assert!(!split.is_well_formed());
    let whole = MarkdownItemIterator::new("\u{e9}", vec![(Span { start: 0, end: 2 }, 1u8)]);
    assert!(whole.is_well_formed());
}

#[test]
fn span_from_a_range() {
    assert_eq!(Span::from(3..7), Span { start: 3, end: 7 });
    assert!(Span { start: 1, end: 9 } < Span { start: 2, end: 0 });
    assert_eq!(TextRange { start: 1, end: 2 }, TextRange { start: 1, end: 2 });
}

#[test]
fn hidden_lines_leave_the_code_blocks() {
    assert_eq!(show_block("```\n# use x;\nlet a = 1;\n  # hidden\n#\n#[derive(Debug)]\n## shown\n```"), "```\nlet a = 1;\n#[derive(Debug)]\n# shown\n```");
    assert_eq!(show_block("# only"), "");
    assert_eq!(show_block(""), "");
    assert_eq!(show_block("a\n\nb\n"), "a\n\nb\n");
    assert_eq!(show_block("  ##x"), "  #x");
    assert_eq!(show_block("#\t"), "");
    assert_eq!(show_block("#x"), "#x");
    let doc = Doc::from_str("# Title\n\n```\n# hidden\nshown\n```\n\n```text\n# kept\n```\n# hidden outside? no\n");
    assert_eq!(
        DocTransformRustRemoveComments::new().transform(&doc).content,
        "# Title\n\n```\nshown\n```\n\n```text\n# kept\n```\n# hidden outside? no\n"
    );
}

#[test]
fn code_blocks_get_the_tag_rust() {
    assert_eq!(tag_block("```\ncode\n```"), "```rust\ncode\n```");
    assert_eq!(tag_block("````ignore,no_run\ncode\n````"), "````rust\ncode\n````");
    assert_eq!(tag_block("~~~should_panic\ncode\n~~~"), "~~~rust\ncode\n~~~");
    assert_eq!(tag_block("```"), "```rust");
    assert_eq!(tag_block("``\ncode"), "``\ncode");
    assert_eq!(tag_block("    indented"), "    indented");
    assert_eq!(tag_block(""), "");
    assert_eq!(change_block(BlockChange::MarkRust, "```\nx\n```"), "```rust\nx\n```");
    assert_eq!(change_block(BlockChange::RemoveComments, "# a\nb"), "b");
    let doc = Doc::from_str("text\n\n```\na\n```\n\n```toml\nb\n```\n\n```compile_fail\nc\n```\n");
    assert_eq!(
        DocTransformRustMarkdownTag::new().transform(&doc).content,
        "text\n\n```rust\na\n```\n\n```toml\nb\n```\n\n```rust\nc\n```\n"
    );
}

#[test]
fn blocks_change_where_the_events_say() {
    let events = vec![
        (EventKind::FencedCode("".to_string()), Span { start: 2, end: 9 }),
        (EventKind::Other, Span { start: 0, end: 1 }),
    ];
    assert_eq!(change_blocks(BlockChange::MarkRust, "a\n```\nb\n```\nc", &events), "a\n```rust\nb\n```\nc");
    assert_eq!(change_blocks(BlockChange::MarkRust, "a\n```\nb\n```\nc", &Vec::new()), "a\n```\nb\n```\nc");
}

#[test]
fn documentation_on_its_way_into_a_document() {
    let doc = Doc::from_str("Intro\n\n```\n# use hidden::*;\nrun();\n```\n");
    assert_eq!(prepare_doc(&doc).content, "Intro\n\n```rust\nrun();\n```\n");
    assert_eq!(transform_doc(&doc, &Vec::new()).content, "Intro\n\n```rust\nrun();\n```\n");
}

#[test]
fn an_import_runs_on_its_own() {
    let fence = RustDocFence { conf: options("lib.rs"), outer: TextRange { start: 2, end: 5 } };
    assert_eq!(fence.priority(), 1);
    let mut document = "a\nxxx\nb".to_string();
    fence.run(&mut document, &environment("lib.rs", Ok("//! Doc"))).unwrap();
    assert_eq!(document, "a\nDoc\nb");
    assert_eq!(
        fence.render(&environment("lib.rs", Ok("fn f() {}"))).unwrap(),
        "```toml rustdoc\ncrate-level rustdoc not found\n```"
    );
}

fn link(reference: &str, target: &str) -> ResolvedLink {
    ResolvedLink { reference: reference.to_string(), target: target.to_string() }
}

#[test]
fn links_into_the_crate_get_their_addresses() {
    let links = vec![link("crate::Foo", "https://docs.rs/p/latest/p/struct.Foo.html"), link("crate", "https://docs.rs/p")];
    let found = scan("See [`Foo`](crate::Foo), [bar](crate::bar \"title\"), [it](crate) and [web](https://x.org/crate::y).", &links);
    assert_eq!(
        found.text,
        "See [`Foo`](https://docs.rs/p/latest/p/struct.Foo.html), [bar](crate::bar \"title\"), [it](https://docs.rs/p) and [web](https://x.org/crate::y)."
    );
    assert_eq!(found.intralinks, vec!["crate::Foo".to_string(), "crate::bar".to_string(), "crate".to_string()]);
    assert_eq!(found.unresolved, vec!["crate::bar".to_string()]);
}

#[test]
fn what_is_no_link_into_the_crate_stays() {
    let links = vec![link("crate::a", "A")];
    for text in ["", "crate::a", "(crate::a)", "[x] (crate::a)", "[x](crate::a", "[x](crates::a)", "[x](crate:a)", "[x](Crate::a)", "](", "[x]()", "[x](self::a)"] {
        let found = scan(text, &links);
        assert_eq!(found.text, text);
        assert!(found.intralinks.is_empty());
        assert!(found.unresolved.is_empty());
    }
    assert_eq!(scan("[x](crate::a)[y](crate::a)", &links).text, "[x](A)[y](A)");
    assert_eq!(scan("[x](crate::a)", &Vec::new()).text, "[x](crate::a)");
    assert_eq!(scan("[x](crate::a\n)", &links).text, "[x](A\n)");
}

#[test]
fn a_link_begins_after_its_bracket() {
    let text: Vec<char> = "[x](crate::a) ".chars().collect();
    assert_eq!(find_intralink(&text, 4), Some(12));
    assert_eq!(find_intralink(&text, 5), None);
    assert_eq!(find_intralink(&text, 0), None);
    assert_eq!(find_intralink(&text, 13), None);
    let links = vec![link("a", "1"), link("b", "2"), link("a", "3")];
    assert_eq!(find_target(&links, "a"), Some(&"1".to_string()));
    assert_eq!(find_target(&links, "b"), Some(&"2".to_string()));
    assert_eq!(find_target(&links, "c"), None);
}

#[test]
fn links_in_rust_code_blocks_stay() {
    let links = vec![link("crate::a", "A")];
    let doc = Doc::from_str("[x](crate::a)\n\n```rust\nlet y = v[0](crate::a);\n```\n\n[z](crate::b)\n");
    let transform = DocTransformIntralinks::new(&links);
    assert_eq!(
        transform.transform(&doc).content,
        "[x](A)\n\n```rust\nlet y = v[0](crate::a);\n```\n\n[z](crate::b)\n"
    );
    assert_eq!(transform.intralinks(&doc), vec!["crate::a".to_string(), "crate::b".to_string()]);
    assert_eq!(transform.warnings(&doc), vec!["Could not resolve definition of `crate::b`.".to_string()]);
    let found = scan_outside_blocks("[x](crate::a)", &Vec::new(), &links);
    assert_eq!(found.text, "[x](A)");
}

#[test]
fn an_import_resolves_its_links() {
    let mut read = environment("lib.rs", Ok("//! # Title\n//!\n//! Uses [`Foo`](crate::Foo) and [`bar`](crate::m::bar).\n"));
    assert_eq!(
        intralinks(&options("lib.rs"), &read).unwrap(),
        vec!["crate::Foo".to_string(), "crate::m::bar".to_string()]
    );
    assert_eq!(
        warnings(&options("lib.rs"), &read).unwrap(),
        vec![
            "Could not resolve definition of `crate::Foo`.".to_string(),
            "Could not resolve definition of `crate::m::bar`.".to_string()
        ]
    );
    read.sources[0].links = vec![link("crate::Foo", &documentation_url("https://docs.rs/core/latest", "core", "crate::Foo", ItemKind::Struct))];
    assert_eq!(
        parse(&options("lib.rs"), &read).unwrap(),
        "# Title\n\nUses [`Foo`](https://docs.rs/core/latest/core/struct.Foo.html) and [`bar`](crate::m::bar)."
    );
    assert_eq!(
        warnings(&options("lib.rs"), &read).unwrap(),
        vec!["Could not resolve definition of `crate::m::bar`.".to_string()]
    );
    assert!(matches!(intralinks(&options("other.rs"), &read), Err(DocError::Unread)));
    assert!(matches!(warnings(&options("other.rs"), &read), Err(DocError::Unread)));
}

#[test]
fn addresses_of_the_pages() {
    let base = "https://docs.rs/my-crate/latest";
    assert_eq!(documentation_url(base, "my-crate", "crate::Foo", ItemKind::Struct), "https://docs.rs/my-crate/latest/my_crate/struct.Foo.html");
    assert_eq!(documentation_url(base, "my-crate", "crate::a::b::run", ItemKind::Function), "https://docs.rs/my-crate/latest/my_crate/a/b/fn.run.html");
    assert_eq!(documentation_url(base, "my-crate", "crate::a::b", ItemKind::Module), "https://docs.rs/my-crate/latest/my_crate/a/b/index.html");
    assert_eq!(documentation_url(base, "my-crate", "crate", ItemKind::Module), "https://docs.rs/my-crate/latest/my_crate/index.html");
    assert_eq!(documentation_url(base, "my-crate", "", ItemKind::Struct), "https://docs.rs/my-crate/latest/my_crate/index.html");
    assert_eq!(documentation_url("b", "p", "crate::MAX", ItemKind::Constant), "b/p/constant.MAX.html");
    assert_eq!(names_of("crate::a:::b:"), vec!["crate".to_string(), "a".to_string(), "b".to_string()]);
    assert_eq!(names_of(""), Vec::<String>::new());
    let words = [
        (ItemKind::Module, "mod"),
        (ItemKind::Struct, "struct"),
        (ItemKind::Enum, "enum"),
        (ItemKind::Union, "union"),
        (ItemKind::Trait, "trait"),
        (ItemKind::Type, "type"),
        (ItemKind::Function, "fn"),
        (ItemKind::Constant, "constant"),
        (ItemKind::Static, "static"),
        (ItemKind::Macro, "macro"),
    ];
    for (kind, word) in words {
        assert_eq!(word_of(kind), word);
    }
}

fn windows_of_two(source: &str, items: Vec<(Span, u8)>) -> Vec<ItemOrOther<'_, u8>> {
    once(None)
        .chain(items.into_iter().map(Some))
        .chain(once(None))
        .tuple_windows()
        .flat_map(|(l, r)| match (l, r) {
            (None, Some((span, _))) => {
                [ItemOrOther::Other(&source[0..span.start]), ItemOrOther::Other("")]
            }
            (Some((span_1, v_1)), Some((span_2, _))) => {
                [ItemOrOther::Item(v_1), ItemOrOther::Other(&source[span_1.end..span_2.start])]
            }
            (Some((span, v)), None) => {
                [ItemOrOther::Item(v), ItemOrOther::Other(&source[span.end..])]
            }
            (None, None) => [ItemOrOther::Other(source), ItemOrOther::Other("")],
        })
        .filter(|e| !matches!(e, ItemOrOther::Other("")))
        .collect()
}

#[test]
fn pieces_are_those_of_windows_of_two() {
    let source = "caf\u{e9} au lait, s'il vous pla\u{ee}t";
    let cases: Vec<Vec<(usize, usize)>> = vec![
        vec![],
        vec![(0, 5)],
        vec![(0, 0)],
        vec![(5, 5), (5, 8)],
        vec![(1, 3), (3, 5), (9, 12), (12, 31)],
        vec![(0, 31)],
        vec![(30, 31)],
    ];
    for case in cases {
        let items: Vec<(Span, u8)> = case
            .iter()
            .enumerate()
            .map(|(i, (start, end))| (Span { start: *start, end: *end }, i as u8))
            .collect();
        let iter = MarkdownItemIterator::new(source, items.clone());
        assert!(iter.is_well_formed());
        assert_eq!(iter.complete(), windows_of_two(source, items));
    }
    assert_eq!(source.len(), 31);
}
