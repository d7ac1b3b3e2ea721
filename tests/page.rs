use kalamos::render::RenderableFromPath;
use kalamos::page::{self, PageFile};
use kalamos::render::{pages_from_sources, plan_render, posts_value, render_job, Error, Source};
use tera::Tera;

fn page_file(
    slug: &str,
    extension: &str,
    filename: &str,
    url: &str,
    input_path: &str,
    output_path: &str,
) -> PageFile {
    PageFile {
        slug: slug.to_string(),
        extension: extension.to_string(),
        filename: filename.to_string(),
        url: url.to_string(),
        input_path: input_path.to_string(),
        output_path: output_path.to_string(),
    }
}

#[test]
fn test_page_file_from_path() {
    let cases = vec![
        (
            "pages/about.md",
            page_file("about", "md", "about.md", "/about.html", "pages/about.md", "about.html"),
        ),
        (
            "pages/index.html",
            page_file("index", "html", "index.html", "/index.html", "pages/index.html", "index.html"),
        ),
    ];
    for (input_path, expected_page_file) in cases {
        let page_file = PageFile::try_from(input_path).expect("should parse");
        assert_eq!(page_file, expected_page_file)
    }
}

fn render_page(layout: &str, input_path: &str, content: &str) -> String {
    let mut tera = Tera::default();
    tera.add_raw_template("default.html", layout)
        .expect("should be able to add template");
    let page_file = PageFile::try_from(input_path).expect("should parse");
    let page = page::Page::from_content(page_file, content).expect("should parse");
    let job = page.render_job(&"2025-01-01".to_string());
    assert_eq!(job.output_path, "index.html");
    let posts = posts_value(&vec![]);
    render_job(&tera, &job, &posts).expect("should render")
}

#[test]
fn test_page_from_content() {
    let rendered = render_page(
        r#"
  <h1>{{title}}</h1>
  <div class="page">{% block content %}{{body|safe}}{% endblock content %}</div>"#,
        "pages/index.html",
        r#"
  +++
  title = "Home Page"
  +++
{% extends "default.html" %}
{% block content %}
  <p>This is my home page.</p>
{% endblock content %}
  "#,
    );
    assert_eq!(
        rendered,
        r#"
  <h1>Home Page</h1>
  <div class="page">
  <p>This is my home page.</p>
</div>"#
    );
}

#[test]
fn markdown_page_renders_through_layout() {
    let rendered = render_page(
        r#"
  <h1>{{title}}</h1>
  <div class="page">
  {% block content %}{{body|safe}}{% endblock content %}
  </div>"#,
        "pages/index.md",
        r#"
  +++
  title = "Home Page"
  +++
  This is my home page.
  "#,
    );
    assert_eq!(
        rendered,
        "\n  <h1>Home Page</h1>\n  <div class=\"page\">\n  <p>This is my home page.</p>\n\n  </div>"
    );
}

#[test]
fn index_page_keeps_its_extension() {
    let file = PageFile::try_from("pages/index.html").expect("should parse");
    assert_eq!(file.slug, "index");
    assert_eq!(file.output_path, "index.html");
    assert_eq!(file.url, "/index.html");
}

#[test]
fn nested_pages_keep_their_directory() {
    let file = PageFile::try_from("pages/blog/feed.xml").expect("should parse");
    assert_eq!(file.output_path, "blog/feed.xml");
    assert_eq!(file.url, "/blog/feed.xml");
    let file = PageFile::try_from("pages/docs/intro.markdown").expect("should parse");
    assert_eq!(file.output_path, "docs/intro.html");
    assert_eq!(file.slug, "intro");
    assert_eq!(file.filename, "intro.markdown");
}

#[test]
fn page_with_other_extension_is_refused() {
    assert!(matches!(PageFile::try_from("pages/notes.txt"), Err(Error::Path(_))));
    assert!(matches!(PageFile::try_from("pages/README"), Err(Error::Path(_))));
    assert!(matches!(PageFile::try_from("pages/.md"), Err(Error::Path(_))));
}

#[test]
fn page_outside_its_directory_is_refused() {
    match PageFile::try_from("other/about.md") {
        Err(Error::StripPrefix(path)) => assert_eq!(path, "other/about.md"),
        other => panic!("unexpected: {:?}", other),
    }
    assert!(matches!(PageFile::try_from("pagesx/about.md"), Err(Error::StripPrefix(_))));
}

#[test]
fn every_page_takes_its_frontmatter_template() {
    let file = PageFile::try_from("pages/a.md").expect("should parse");
    let p = page::Page::from_content(file, "+++\ntitle = \"A\"\ntemplate = \"wide\"\n+++\n*x*").expect("should parse");
    assert_eq!(p.template, "wide.html");
    assert_eq!(p.content, "<p><em>x</em></p>\n");
    assert!(p.is_markdown());
    let file = PageFile::try_from("pages/a.html").expect("should parse");
    let p = page::Page::from_content(file, "+++\ntitle = \"A\"\ntemplate = \"wide\"\n+++\n*x*").expect("should parse");
    assert_eq!(p.template, "wide.html");
    assert_eq!(p.content, "*x*");
    let file = PageFile::try_from("pages/b.xml").expect("should parse");
    let p = page::Page::from_content(file, "+++\ntitle = \"B\"\n+++\n<feed/>").expect("should parse");
    assert_eq!(p.template, "default.html");
    assert!(!p.is_markdown());
}

#[test]
fn page_without_title_is_refused() {
    let file = PageFile::try_from("pages/a.md").expect("should parse");
    assert!(matches!(page::Page::from_content(file, "# A"), Err(Error::MissingField(_))));
}

#[test]
fn page_sees_posts_and_date() {
    let mut tera = Tera::default();
    tera.add_raw_template("default.html", "{{current_date}} {{posts | length}} {{title}}")
        .expect("should be able to add template");
    let file = PageFile::try_from("pages/index.md").expect("should parse");
    let p = page::Page::from_content(file, "+++\ntitle = \"Home\"\n+++\nx").expect("should parse");
    let plan = plan_render(vec![], &vec![p], &"2025-01-01".to_string());
    let outputs = plan.render_all(&tera).expect("should render");
    assert_eq!(outputs[0].text, "2025-01-01 0 Home");
}

#[test]
fn page_frontmatter_decodes_title_and_template() {
    let table = toml::from_str::<toml::Value>("title = \"About\"").expect("toml");
    let fm = page::PageFrontmatter::from_frontmatter(&table).expect("should decode");
    assert_eq!(fm.title, "About");
    assert_eq!(fm.template, None);
}

#[test]
fn page_file_tells_its_paths() {
    let file = PageFile::try_from("pages/about.md").expect("should parse");
    assert_eq!(RenderableFromPath::url(&file), "/about.html");
    assert_eq!(RenderableFromPath::input_path(&file), "pages/about.md");
    assert_eq!(RenderableFromPath::output_path(&file), "about.html");
}

#[test]
fn pages_fail_on_the_first_bad_path_before_any_text() {
    let sources = vec![
        Source { path: "pages/a.md".to_string(), text: "no title".to_string() },
        Source { path: "pages/b.txt".to_string(), text: "+++\ntitle = \"B\"\n+++\n".to_string() },
    ];
    match pages_from_sources(&sources) {
        Err(Error::Path(path)) => assert_eq!(path, "pages/b.txt"),
        other => panic!("unexpected: {:?}", other),
    }
}
