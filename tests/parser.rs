use kalamos::parser::{self, Error, FrontmatterAndBody};

fn toml_value(text: &str) -> toml::Value {
    toml::from_str::<toml::Value>(text).expect("should parse frontmatter")
}

const MODERATE: &str = r#"
  +++
  title = "Hello, world!"
  date = 2024-01-01
  draft = false
  +++
  # Hello, world!
"#;

const MODERATE_FRONTMATTER: &str = r#"
    title = "Hello, world!"
    date = 2024-01-01
    draft = false
    "#;

const WHITESPACE_BEFORE: &str = r#"




  +++
  title = "Hello, world!"
  +++
  # Hello, world!
"#;

fn valid_cases() -> Vec<(&'static str, (&'static str, &'static str))> {
    vec![
        (
            "+++\ntitle = \"Hello, world!\"\n+++\n# Hello, world!",
            ("title = \"Hello, world!\"", "<h1>Hello, world!</h1>\n"),
        ),
        (MODERATE, (MODERATE_FRONTMATTER, "<h1>Hello, world!</h1>\n")),
        (
            WHITESPACE_BEFORE,
            (r#"title = "Hello, world!""#, "<h1>Hello, world!</h1>\n"),
        ),
        ("# Hello, world!", ("", "<h1>Hello, world!</h1>\n")),
        (
            "+++\ntitle = \"Hello, world!\"\n+++\n# Hello, world!\n+++\n\ncontinuing",
            (
                "title = \"Hello, world!\"",
                "<h1>Hello, world!</h1>\n<p>+++</p>\n<p>continuing</p>\n",
            ),
        ),
    ]
}

const INVALID_CASES: [&str; 2] = [
    "+++\ntitle+++\n# Hello, world!\n+++\ncontinuing",
    "before the frontmatter\n+++\ntitle = \"Hello, world!\"\n+++\n# Hello, world!\n+++\ncontinuing",
];

#[test]
fn parser_test_parse_with_valid_frontmatter() {
    for (markdown, expected) in valid_cases() {
        let FrontmatterAndBody {
            frontmatter,
            body,
            excerpt,
        } = parser::parse_markdown(markdown).expect("should parse");
        assert_eq!(frontmatter, toml_value(expected.0));
        assert_eq!(body, expected.1);
        // no <!--more--> in the markdown, so there is no excerpt
        assert_eq!(excerpt, None);
    }
}

#[test]
fn parser_test_parse_with_invalid_frontmatter() {
    for markdown in INVALID_CASES {
        let res = parser::parse_markdown(markdown);
        assert!(res.is_err());
    }
}

#[test]
fn markdown_test_parse_with_valid_frontmatter() {
    for (markdown, expected) in valid_cases() {
        let FrontmatterAndBody {
            frontmatter, body, ..
        } = parser::parse_markdown(markdown).expect("should parse");
        assert_eq!(frontmatter, toml_value(expected.0));
        assert_eq!(body, expected.1);
    }
}

#[test]
fn markdown_test_parse_with_invalid_frontmatter() {
    for markdown in INVALID_CASES {
        let res = parser::parse_markdown(markdown);
        assert!(res.is_err());
    }
}

#[test]
fn no_delimiter_keeps_whole_text_as_body() {
    let doc = "# Title\n\nsome text";
    let (frontmatter, body) = parser::extract_frontmatter(doc).expect("should split");
    assert_eq!(frontmatter, toml_value(""));
    assert_eq!(body, doc);
}

#[test]
fn one_delimiter_keeps_whole_text_as_body() {
    let doc = "intro\n+++\nmore text";
    let (frontmatter, body) = parser::extract_frontmatter(doc).expect("should split");
    assert_eq!(frontmatter, toml_value(""));
    assert_eq!(body, doc);
}

#[test]
fn empty_document_has_empty_body() {
    let (frontmatter, body) = parser::extract_frontmatter("").expect("should split");
    assert_eq!(frontmatter, toml_value(""));
    assert_eq!(body, "");
    let parsed = parser::parse_markdown("").expect("should parse");
    assert_eq!(parsed.body, "");
    assert_eq!(parsed.excerpt, None);
}

#[test]
fn later_delimiters_are_put_back_into_the_body() {
    let doc = "+++\na = 1\n+++\nx\n+++\ny+++\nz";
    let (frontmatter, body) = parser::extract_frontmatter(doc).expect("should split");
    assert_eq!(frontmatter, toml_value("a = 1"));
    assert_eq!(body, "x\n+++\ny+++\nz");
}

#[test]
fn text_before_the_block_is_refused() {
    let doc = "x\n+++\na = 1\n+++\nbody";
    assert_eq!(
        parser::extract_frontmatter(doc).unwrap_err(),
        Error::ContentBeforeFrontmatter("x\n".to_string())
    );
    match parser::parse_markdown(doc) {
        Err(Error::ContentBeforeFrontmatter(before)) => assert_eq!(before, "x\n"),
        other => panic!("unexpected: {:?}", other.map(|p| p.body)),
    }
}

#[test]
fn invalid_toml_is_refused() {
    match parser::extract_frontmatter("+++\ntitle\n+++\nbody") {
        Err(Error::InvalidFrontmatter(message)) => assert!(!message.is_empty()),
        other => panic!("unexpected: {:?}", other),
    }
}

#[test]
fn parsing_twice_gives_the_same_result() {
    let doc = "+++\ntitle = \"T\"\ntags = [\"a\"]\n+++\nsome *text*\n<!--more-->\nrest\n";
    let first = parser::parse_markdown(doc).expect("should parse");
    let second = parser::parse_markdown(doc).expect("should parse");
    assert_eq!(first.frontmatter, second.frontmatter);
    assert_eq!(
        toml::to_string(&first.frontmatter).expect("should serialize"),
        toml::to_string(&second.frontmatter).expect("should serialize")
    );
    assert_eq!(first.body, second.body);
    assert_eq!(first.excerpt, second.excerpt);
}

#[test]
fn excerpt_ends_at_the_marker() {
    let parsed = parser::parse_markdown("a\n<!--more-->\nb").expect("should parse");
    assert_eq!(parsed.excerpt, Some("<p>a</p>\n".to_string()));
    assert_eq!(parsed.body, "<p>a</p>\n<p>b</p>\n");
}

#[test]
fn no_marker_no_excerpt() {
    let parsed = parser::parse_markdown("a\n\nb").expect("should parse");
    assert_eq!(parsed.excerpt, None);
    assert_eq!(parsed.body, "<p>a</p>\n<p>b</p>\n");
}

#[test]
fn other_raw_html_passes_through() {
    let parsed = parser::parse_markdown("<div>x</div>\n").expect("should parse");
    assert_eq!(parsed.body, "<div>x</div>\n");
}

#[test]
fn fenced_code_is_highlighted() {
    let parsed = parser::parse_markdown("```rust\nfn main() {}\n```\n").expect("should parse");
    assert!(parsed.body.starts_with("<pre style="), "{}", parsed.body);
    assert!(parsed.body.contains("main"));
    assert!(!parsed.body.contains("<code"));
}

#[test]
fn unknown_language_is_highlighted_as_plain_text() {
    let parsed = parser::parse_markdown("```nosuchlanguage\nlet x = 1;\n```\n").expect("should parse");
    assert!(parsed.body.starts_with("<pre style="), "{}", parsed.body);
    assert!(parsed.body.contains("let x = 1;"));
}

#[test]
fn code_before_the_marker_is_in_the_excerpt() {
    let parsed =
        parser::parse_markdown("```\ncode\n```\n<!--more-->\nafter\n").expect("should parse");
    let excerpt = parsed.excerpt.expect("should have an excerpt");
    assert!(excerpt.contains("code"));
    assert!(!excerpt.contains("after"));
    assert!(parsed.body.contains("after"));
}

#[test]
fn indented_code_is_highlighted_as_plain_text() {
    let parsed = parser::parse_markdown("text\n\n    let x = 1;\n").expect("should parse");
    assert!(parsed.body.contains("<pre style="), "{}", parsed.body);
    assert!(!parsed.body.contains("<code"));
}

#[test]
fn reserialized_frontmatter_splits_back_the_same() {
    let doc = "+++\ntitle = \"T\"\ndraft = false\n+++\nbody text\n";
    let (frontmatter, body) = parser::extract_frontmatter(doc).expect("should split");
    let again = format!(
        "+++\n{}+++\n{}",
        toml::to_string(&frontmatter).expect("should serialize"),
        body
    );
    let (frontmatter2, body2) = parser::extract_frontmatter(&again).expect("should split");
    assert_eq!(frontmatter, frontmatter2);
    assert_eq!(body, body2);
}

#[test]
fn plain_parse_does_not_highlight() {
    let page = kalamos::markdown::parse("+++\ntitle = \"T\"\n+++\n```rust\nfn main() {}\n```\n")
        .expect("should parse");
    assert_eq!(page.frontmatter, toml_value("title = \"T\""));
    assert_eq!(
        page.body,
        "<pre><code class=\"language-rust\">fn main() {}\n</code></pre>\n"
    );
    assert!(kalamos::markdown::parse("x\n+++\na = 1\n+++\n").is_err());
}

#[test]
fn bare_fence_is_highlighted_as_plain_text() {
    let parsed = parser::parse_markdown("```\nplain words\n```\n").expect("should parse");
    assert!(parsed.body.starts_with("<pre style="), "{}", parsed.body);
    assert!(parsed.body.contains("plain words"));
}

#[test]
fn parsed_document_context() {
    let parsed = parser::parse_markdown("+++\ntitle = \"T\"\n[vars]\nn = 1\n+++\nhi").expect("should parse");
    let context = parsed.to_context();
    assert_eq!(context.get("title").expect("title"), "T");
    assert_eq!(context.get("body").expect("body"), "<p>hi</p>\n");
    assert_eq!(context.get("template").expect("template"), "default");
    assert_eq!(context.get("vars").expect("vars")["n"], 1);
    let parsed = parser::parse_markdown("+++\ntemplate = \"wide\"\n+++\nhi").expect("should parse");
    let context = parsed.to_context();
    assert_eq!(context.get("title").expect("title"), "");
    assert_eq!(context.get("template").expect("template"), "wide");
    assert!(context.get("vars").expect("vars").as_object().expect("object").is_empty());
}

#[test]
fn invalid_toml_gives_the_same_message_twice() {
    let doc = "+++\ntitle\n+++\nbody";
    let first = parser::extract_frontmatter(doc).unwrap_err();
    let second = parser::extract_frontmatter(doc).unwrap_err();
    assert_eq!(first, second);
}
