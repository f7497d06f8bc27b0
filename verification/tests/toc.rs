use markdown_includes::fence::toc::{
    anchor_from_lowercase, default_bullet, default_inline, default_link, find_headings, hyphenate,
    slugify, Heading, TocConfig, TocFence,
};
use markdown_includes::config::ConfigError;
use markdown_includes::rustdoc_parse::Environment;
use markdown_includes::process_includes_document;
use markdown_includes::text::TextRange;

fn no_environment() -> Environment {
    Environment { metadata: Err("no work space".to_string()), sources: Vec::new() }
}

fn plain_config() -> TocConfig {
    TocConfig {
        bullet: "-".to_string(),
        indent: 4,
        max_depth: None,
        min_depth: 0,
        header: None,
        link: true,
    }
}

#[test]
fn test_toc() {
    let doc = r##"
Some markdown

```toml toc
header = "# Table of contents"
```

# My h1
text

## My h1.1
## My h1.2

# My h2
"##;

    let mut document = doc.trim().to_string();
    process_includes_document(&mut document, &no_environment()).unwrap();

    assert_eq!(
        document,
        "Some markdown\n\n# Table of contents\n\n- [My h1](#my-h1)\n    - [My h1.1](#my-h1.1)\n    - [My h1.2](#my-h1.2)\n- [My h2](#my-h2)\n\n# My h1\ntext\n\n## My h1.1\n## My h1.2\n\n# My h2"
    );
}

#[test]
fn two_headings_under_a_header() {
    let mut document = "```toml toc\nheader = \"# Table of contents\"\n```\n# T1\n## T2".to_string();
    process_includes_document(&mut document, &no_environment()).unwrap();
    assert_eq!(
        document,
        "# Table of contents\n\n- [T1](#t1)\n    - [T2](#t2)\n# T1\n## T2"
    );
}

#[test]
fn least_depth_leaves_out_shallow_headings() {
    let mut document = "```toml toc\nmin_depth = 1\n```\n# Top\n## Below".to_string();
    process_includes_document(&mut document, &no_environment()).unwrap();
    assert_eq!(document, "- [Below](#below)\n# Top\n## Below");
}

#[test]
fn greatest_depth_leaves_out_deep_headings() {
    let mut document = "```toml toc\nmax_depth = 0\nlink = false\n```\n# Top\n## Below\n### Deep".to_string();
    process_includes_document(&mut document, &no_environment()).unwrap();
    assert_eq!(document, "- Top\n# Top\n## Below\n### Deep");
}

#[test]
fn headings_outside_code_are_found() {
    let found = find_headings("# One\n```\n# hidden\n```\n## Two  \n");
    assert_eq!(found.len(), 2);
    assert_eq!(found[0].depth, 0);
    assert_eq!(found[0].title, "One");
    assert_eq!(found[1].depth, 1);
    assert_eq!(found[1].title, "Two");
}

#[test]
fn headings_in_an_unclosed_fence_are_not_found() {
    let found = find_headings("# One\n```rust\n# not a heading\n## nor this");
    assert_eq!(found.len(), 1);
    assert_eq!(found[0].title, "One");
}

#[test]
fn heading_lines_with_carriage_returns() {
    let found = find_headings("# One\r\n## Two\r\n");
    assert_eq!(found.len(), 2);
    assert_eq!(found[0].title, "One");
    assert_eq!(found[1].title, "Two");
}

#[test]
fn heading_from_a_line() {
    let heading = Heading::from_str("###   Deep title \t").unwrap();
    assert_eq!(heading.depth, 2);
    assert_eq!(heading.title, "Deep title");
    let bare = Heading::from_str("#").unwrap();
    assert_eq!(bare.depth, 0);
    assert_eq!(bare.title, "");
    let tight = Heading::from_str("#tag").unwrap();
    assert_eq!(tight.depth, 0);
    assert_eq!(tight.title, "tag");
    assert!(Heading::from_str("text # not").is_err());
    assert!(Heading::from_str(" # indented").is_err());
    assert!(Heading::from_str("").is_err());
    assert!(Heading::from_str("   ").is_err());
}

#[test]
fn heading_trims_unicode_white_space() {
    let heading = Heading::from_str("#\u{a0}Wide\u{3000}").unwrap();
    assert_eq!(heading.title, "Wide");
}

#[test]
fn entry_of_a_heading() {
    let heading = Heading { depth: 2, title: "My Title".to_string() };
    let mut config = plain_config();
    assert_eq!(heading.format(&config).unwrap(), "        - [My Title](#my-title)");
    config.indent = 2;
    config.min_depth = 1;
    config.bullet = "*".to_string();
    assert_eq!(heading.format(&config).unwrap(), "  * [My Title](#my-title)");
    config.link = false;
    assert_eq!(heading.format(&config).unwrap(), "  * My Title");
    config.indent = 0;
    assert_eq!(heading.format(&config).unwrap(), "* My Title");
}

#[test]
fn entry_with_a_given_anchor() {
    let heading = Heading { depth: 1, title: "T".to_string() };
    let config = plain_config();
    assert_eq!(heading.format_with_anchor(&config, "x").unwrap(), "    - [T](#x)");
}

#[test]
fn entry_outside_the_depths() {
    let heading = Heading { depth: 1, title: "T".to_string() };
    let mut config = plain_config();
    config.min_depth = 2;
    assert!(heading.format(&config).is_none());
    config.min_depth = 0;
    config.max_depth = Some(0);
    assert!(heading.format(&config).is_none());
    config.max_depth = Some(1);
    assert!(heading.format(&config).is_some());
    config.min_depth = 1;
    assert!(heading.format(&config).is_some());
}

#[test]
fn slug_of_a_title() {
    assert_eq!(slugify("My h1.1"), "my-h1.1");
    assert_eq!(slugify("Tab\there"), "tab%09here");
    assert_eq!(slugify("Caf\u{e9}"), "caf%C3%A9");
    assert_eq!(slugify("del\u{7f}"), "del%7F");
    assert_eq!(slugify("a%20b"), "a%20b");
    assert_eq!(slugify(""), "");
}

#[test]
fn slug_is_the_same_for_either_case() {
    assert_eq!(slugify("Hello World"), slugify("hello world"));
    assert_eq!(slugify("HELLO WORLD"), slugify("hello world"));
    assert_eq!(slugify("Hello World"), slugify("Hello World"));
}

#[test]
fn hyphens_for_spaces() {
    assert_eq!(hyphenate("a b  c"), "a-b--c");
    assert_eq!(hyphenate("a\tb"), "a\tb");
}

#[test]
fn anchor_of_a_lower_case_title() {
    assert_eq!(anchor_from_lowercase("a\nb"), "a%0Ab");
    assert_eq!(anchor_from_lowercase("a b~"), "a b~");
    assert_eq!(anchor_from_lowercase("\u{1f600}"), "%F0%9F%98%80");
}

#[test]
fn defaults_of_the_layout() {
    assert!(default_link());
    assert_eq!(default_inline(), 4);
    assert_eq!(default_bullet(), "-");
    let config = TocConfig::from_toml("").unwrap();
    assert_eq!(config.bullet, "-");
    assert_eq!(config.indent, 4);
    assert_eq!(config.max_depth, None);
    assert_eq!(config.min_depth, 0);
    assert_eq!(config.header, None);
    assert!(config.link);
}

#[test]
fn layout_from_a_configuration() {
    let config = TocConfig::from_toml(
        "\nbullet = \"*\"\nindent = 2\nmax_depth = 3\nmin_depth = 1\nheader = \"# Contents\"\nlink = false\nother = 1.5\n",
    )
    .unwrap();
    assert_eq!(config.bullet, "*");
    assert_eq!(config.indent, 2);
    assert_eq!(config.max_depth, Some(3));
    assert_eq!(config.min_depth, 1);
    assert_eq!(config.header, Some("# Contents".to_string()));
    assert!(!config.link);
}

#[test]
fn layout_refuses_values_of_a_wrong_kind() {
    match TocConfig::from_toml("indent = \"wide\"") {
        Err(ConfigError::Invalid(key)) => assert_eq!(key, "indent"),
        _ => panic!("a string is no indentation"),
    }
    match TocConfig::from_toml("min_depth = -1") {
        Err(ConfigError::Invalid(key)) => assert_eq!(key, "min_depth"),
        _ => panic!("a depth is not negative"),
    }
    match TocConfig::from_toml("link = 1") {
        Err(ConfigError::Invalid(key)) => assert_eq!(key, "link"),
        _ => panic!("a number is no boolean"),
    }
    match TocConfig::from_toml("bullet = true\nindent = \"x\"") {
        Err(ConfigError::Invalid(key)) => assert_eq!(key, "bullet"),
        _ => panic!("the bullet is read first"),
    }
    match TocConfig::from_toml("header = [1]") {
        Err(ConfigError::Invalid(key)) => assert_eq!(key, "header"),
        _ => panic!("an array is no header"),
    }
}

#[test]
fn layout_refuses_what_is_no_table() {
    match TocConfig::from_toml("indent = ") {
        Err(ConfigError::Syntax(message)) => assert!(!message.is_empty()),
        _ => panic!("the text is no table"),
    }
}

#[test]
fn names_of_a_table_of_contents() {
    assert!(TocFence::is_match("```toml toc"));
    assert!(TocFence::is_match("```toml TOC"));
    assert!(TocFence::is_match("```toml my-Table-Of-Contents"));
    assert!(TocFence::is_match("```toc"));
    assert!(!TocFence::is_match("```toml toc "));
    assert!(!TocFence::is_match("```toml rustdoc"));
    assert!(!TocFence::is_match("```"));
    assert!(TocFence::matches_lowercase("toc"));
    assert!(!TocFence::matches_lowercase("TOC"));
}

#[test]
fn a_table_of_contents_fence_runs_on_its_own() {
    let fence = TocFence { conf: plain_config(), outer: TextRange { start: 4, end: 7 } };
    assert_eq!(fence.priority(), 10);
    let mut document = "# A\nxxx\n## B".to_string();
    fence.run(&mut document).unwrap();
    assert_eq!(document, "# A\n- [A](#a)\n    - [B](#b)\n## B");
    assert_eq!(fence.render("# Only"), "- [Only](#only)");
    assert_eq!(fence.render("no heading"), "");
}
