use markdown_includes::config::ConfigError;
use markdown_includes::fence::rustdoc::RustDocFence;
use markdown_includes::fence::{
    create_fence, find_fences, find_fences_in, find_sections, imported_sources, is_fence_span,
    required_sources, Fence, FenceError,
};
use markdown_includes::rustdoc_parse::{Environment, SourceFile};
use markdown_includes::text::{chars_of, split_lines, TextRange};
use string_sections::prelude::Sections;

fn chars(text: &str) -> Vec<char> {
    text.chars().collect()
}

#[test]
fn sections_pair_up_fence_lines() {
    let doc = "a\n```toml toc\nx = 1\n```\nb\n```\ncode\n```rust\nc";
    let sections = find_sections(&chars(doc));
    assert_eq!(sections.len(), 2);
    assert_eq!(sections[0].start_line, TextRange { start: 2, end: 13 });
    assert_eq!(sections[0].end_line, TextRange { start: 20, end: 23 });
    assert_eq!(sections[0].outer_range(), TextRange { start: 2, end: 23 });
    assert_eq!(sections[0].inner_range(), TextRange { start: 13, end: 20 });
    assert_eq!(sections[1].start_line, TextRange { start: 26, end: 29 });
    assert_eq!(sections[1].end_line, TextRange { start: 35, end: 42 });
}

#[test]
fn an_unclosed_fence_is_no_section() {
    assert_eq!(find_sections(&chars("text\n```toml toc\nheader = \"x\"\n")).len(), 0);
    assert_eq!(find_sections(&chars("```")).len(), 0);
    assert_eq!(find_sections(&chars("")).len(), 0);
    let sections = find_sections(&chars("```\n```\n```toml toc\n"));
    assert_eq!(sections.len(), 1);
    assert_eq!(sections[0].outer_range(), TextRange { start: 0, end: 7 });
}

#[test]
fn a_fence_line_inside_a_code_block_closes_it() {
    let doc = "```rust\n```toml toc\n```\nrest\n```";
    let sections = find_sections(&chars(doc));
    assert_eq!(sections.len(), 2);
    assert_eq!(sections[0].outer_range(), TextRange { start: 0, end: 19 });
    assert_eq!(sections[1].outer_range(), TextRange { start: 20, end: 32 });
    assert_eq!(find_fences(doc).unwrap().len(), 0);
}

#[test]
fn closed_sections_are_those_of_string_sections() {
    let documents = [
        "intro\n```toml toc\nheader = \"h\"\n```\ntext\n```rust\nlet a = 1;\n```\nend\n",
        "```\n```\n```a\n```b\n",
        "\r\n```toml toc\r\nlink = false\r\n```\r\nafter\r\n",
        "no fences at all",
        "  ```indented is no fence\n```x\nbody\n```",
    ];
    for doc in documents {
        let expected: Vec<(usize, usize, usize, usize)> = doc
            .sections(|line| line.starts_with("```"), |sect| sect.end_line.starts_with("```"))
            .map(|s| (s.start_line.start, s.start_line.end, s.end_line.start, s.end_line.end))
            .collect();
        let found: Vec<(usize, usize, usize, usize)> = find_sections(&chars(doc))
            .iter()
            .map(|s| (s.start_line.start, s.start_line.end, s.end_line.start, s.end_line.end))
            .collect();
        assert_eq!(found, expected);
    }
}

#[test]
fn lines_of_a_text() {
    let text = chars_of("a\r\nbc\n\nd\r");
    assert_eq!(text, chars("a\r\nbc\n\nd\r"));
    let lines = split_lines(&text);
    assert_eq!(
        lines,
        vec![
            TextRange { start: 0, end: 1 },
            TextRange { start: 3, end: 5 },
            TextRange { start: 6, end: 6 },
            TextRange { start: 7, end: 9 },
        ]
    );
    assert_eq!(split_lines(&chars("")).len(), 0);
    assert_eq!(split_lines(&chars("\n")), vec![TextRange { start: 0, end: 0 }]);
    assert_eq!(split_lines(&chars("x\n")), vec![TextRange { start: 0, end: 1 }]);
}

#[test]
fn fences_of_a_document() {
    let doc = "```toml rustdoc\nsource = \"lib.rs\"\n```\n\n```text\nplain\n```\n\n```toml TOC\n```\n";
    let fences = find_fences(doc).unwrap();
    assert_eq!(fences.len(), 2);
    match &fences[0] {
        Fence::RustDoc(fence) => {
            assert_eq!(fence.conf.source, "lib.rs");
            assert_eq!(fence.conf.workspace_project, None);
            assert!(fence.conf.intralinks.is_none());
            assert_eq!(fence.outer, TextRange { start: 0, end: 37 });
        }
        _ => panic!("the first fence imports documentation"),
    }
    assert_eq!(fences[0].priority(), 1);
    assert_eq!(fences[0].outer_range(), TextRange { start: 0, end: 37 });
    match &fences[1] {
        Fence::Toc(fence) => {
            assert_eq!(fence.conf.indent, 4);
            assert_eq!(fence.outer, TextRange { start: 58, end: 73 });
        }
        _ => panic!("the second fence is a table of contents"),
    }
    assert_eq!(fences[1].priority(), 10);
}

#[test]
fn positions_count_characters() {
    let doc = "\u{e9}\u{e9}\n```toml toc\n```";
    let fences = find_fences(doc).unwrap();
    assert_eq!(fences[0].outer_range(), TextRange { start: 3, end: 18 });
}

#[test]
fn a_refused_configuration_names_its_fence() {
    let doc = "intro\n```toml toc\n```\n```toml my toc\nindent = \"x\"\n```\n```toml toc\nlink = 3\n```";
    match find_fences(doc) {
        Err(FenceError::Config { at, name, cause }) => {
            assert_eq!(at, 22);
            assert_eq!(name, "```toml my toc");
            match cause {
                ConfigError::Invalid(key) => assert_eq!(key, "indent"),
                _ => panic!("the indentation is of a wrong kind"),
            }
        }
        _ => panic!("the second fence is refused"),
    }
}

#[test]
fn an_import_needs_a_source() {
    match find_fences("```toml rustdoc\nworkspace_project = \"a\"\n```") {
        Err(FenceError::Config { at, name, cause }) => {
            assert_eq!(at, 0);
            assert_eq!(name, "```toml rustdoc");
            match cause {
                ConfigError::Missing(key) => assert_eq!(key, "source"),
                _ => panic!("the source is missing"),
            }
        }
        _ => panic!("the fence is refused"),
    }
    match find_fences("```toml rustdoc\nsource = [\n```") {
        Err(FenceError::Config { cause: ConfigError::Syntax(message), .. }) => {
            assert!(!message.is_empty())
        }
        _ => panic!("the configuration is no table"),
    }
}

#[test]
fn options_of_an_import() {
    let doc = "```toml rustdoc\nsource = \"src/lib.rs\"\nworkspace_project = \"core\"\n[intralinks]\nstrip_links = true\n```";
    let fences = find_fences(doc).unwrap();
    match &fences[0] {
        Fence::RustDoc(fence) => {
            assert_eq!(fence.conf.source, "src/lib.rs");
            assert_eq!(fence.conf.workspace_project, Some("core".to_string()));
            assert_eq!(
                fence.conf.intralinks.as_ref().unwrap().toml,
                "\nsource = \"src/lib.rs\"\nworkspace_project = \"core\"\n[intralinks]\nstrip_links = true\n"
            );
        }
        _ => panic!("the fence imports documentation"),
    }
    match find_fences("```toml rustdoc\nsource = \"a\"\nintralinks = 3\n```") {
        Err(FenceError::Config { cause: ConfigError::Invalid(key), .. }) => {
            assert_eq!(key, "intralinks")
        }
        _ => panic!("a number is no table"),
    }
}

#[test]
fn names_of_an_import() {
    assert!(RustDocFence::is_match("```toml rustdoc"));
    assert!(RustDocFence::is_match("```toml RustDoc"));
    assert!(!RustDocFence::is_match("```toml rustdocs"));
    assert!(RustDocFence::matches_lowercase("my-rustdoc"));
    assert!(!RustDocFence::matches_lowercase("RUSTDOC"));
}

#[test]
fn fence_lines_begin_with_three_backticks() {
    let text = chars("```\n``x\n ```\n````");
    assert!(is_fence_span(&text, TextRange { start: 0, end: 3 }));
    assert!(!is_fence_span(&text, TextRange { start: 4, end: 7 }));
    assert!(!is_fence_span(&text, TextRange { start: 8, end: 12 }));
    assert!(is_fence_span(&text, TextRange { start: 13, end: 17 }));
    assert!(!is_fence_span(&text, TextRange { start: 13, end: 15 }));
}

#[test]
fn a_section_that_names_no_fence_is_none() {
    let text = chars("```rust\nlet a = 1;\n```");
    let sections = find_sections(&text);
    assert!(create_fence(&text, sections[0]).unwrap().is_none());
    let named = chars("```toml rustdoc toc\n```");
    let sections = find_sections(&named);
    assert!(matches!(create_fence(&named, sections[0]), Ok(Some(Fence::Toc(_)))));
    assert_eq!(find_fences_in(&named).unwrap().len(), 1);
}

#[test]
fn sources_that_a_document_names() {
    let doc = "```toml rustdoc\nsource = \"a.rs\"\n```\n```toml toc\n```\n```toml rustdoc\nsource = \"dir/b.rs\"\n```";
    assert_eq!(required_sources(doc).unwrap(), vec!["a.rs".to_string(), "dir/b.rs".to_string()]);
    assert_eq!(imported_sources(&find_fences(doc).unwrap()), vec!["a.rs".to_string(), "dir/b.rs".to_string()]);
    assert_eq!(required_sources("# no fence").unwrap(), Vec::<String>::new());
    assert!(matches!(
        required_sources("```toml rustdoc\n```"),
        Err(FenceError::Config { cause: ConfigError::Missing(_), .. })
    ));
}

#[test]
fn a_fence_runs_on_its_own() {
    let read = Environment {
        metadata: Err("no cargo".to_string()),
        sources: vec![SourceFile { path: "a.rs".to_string(), content: Ok("//! A".to_string()), links: Vec::new() }],
    };
    let doc = "# H\n```toml toc\nlink = false\n```\n```toml rustdoc\nsource = \"a.rs\"\n```";
    let fences = find_fences(doc).unwrap();
    assert_eq!(fences[0].render(doc, &read).unwrap(), "- H");
    assert_eq!(fences[1].render(doc, &read).unwrap(), "```toml rustdoc\nno cargo\n```");
    let mut document = doc.to_string();
    fences[1].run(&mut document, &read).unwrap();
    fences[0].run(&mut document, &read).unwrap();
    assert_eq!(document, "# H\n- H\n```toml rustdoc\nno cargo\n```");
}
