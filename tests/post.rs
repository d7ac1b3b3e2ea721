use kalamos::render::RenderableFromPath;
use kalamos::post::{DateStruct, Post, PostFile};
use kalamos::render::{
    assemble_posts, engine_call, plan_render, posts_from_sources, posts_value, render_job,
    resolve_posts, Error, RenderJob, Source,
};
use tera::Tera;

fn post_file(
    date: (i32, u32, u32),
    slug: &str,
    extension: &str,
    url: &str,
    input_path: &str,
    output_path: &str,
) -> PostFile {
    PostFile {
        date: DateStruct {
            year: date.0,
            month: date.1,
            day: date.2,
        },
        slug: slug.to_string(),
        extension: extension.to_string(),
        url: url.to_string(),
        input_path: input_path.to_string(),
        output_path: output_path.to_string(),
    }
}

fn render_alone(tera: &Tera, job: &RenderJob) -> String {
    let posts = posts_value(&vec![]);
    render_job(tera, job, &posts).expect("should render")
}

#[test]
fn test_post_from_file() {
    let input_path = "posts/2024-12-01-first.md";
    let expected_post_file = post_file(
        (2024, 12, 1),
        "first",
        "md",
        "/2024/12/first.html",
        "posts/2024-12-01-first.md",
        "2024/12/first.html",
    );
    let post_file = PostFile::try_from(input_path).expect("should parse");
    assert_eq!(post_file, expected_post_file)
}

#[test]
fn test_post_from_content() {
    let layout = r#"
  <h1>{{title}}</h1>
  <div class="post">
  {{body|safe}}
  </div>
  "#;
    let content = r#"
  +++
  title = "First Post"
  +++
  This is my first post.
  "#;
    let expected = r#"
  <h1>First Post</h1>
  <div class="post">
  <p>This is my first post.</p>

  </div>
  "#;
    let mut tera = Tera::default();
    tera.add_raw_template("post.html", layout)
        .expect("should be able to add template");
    let post_file = PostFile::try_from("posts/2024-12-01-first.md").expect("should parse");
    let post = Post::from_content(post_file, content).expect("should parse");
    let job = post.render_job();
    assert_eq!(job.output_path, "2024/12/first.html");
    let rendered = render_alone(&tera, &job);
    assert_eq!(rendered, expected);
}

#[test]
fn end_to_end_first_post() {
    let mut tera = Tera::default();
    tera.autoescape_on(vec![]);
    tera.add_raw_template("post.html", "<h1>{{title}}</h1><div>{{body}}</div>")
        .expect("should be able to add template");
    let post_file = PostFile::try_from("posts/2024-12-01-first.md").expect("should parse");
    let post = Post::from_content(post_file, "+++\ntitle = \"First Post\"\n+++\nThis is my first post.")
        .expect("should parse");
    let plan = plan_render(vec![post], &vec![], &"2025-01-01".to_string());
    let outputs = plan.render_all(&tera).expect("should render");
    assert_eq!(outputs.len(), 1);
    assert_eq!(outputs[0].path, "2024/12/first.html");
    assert_eq!(
        outputs[0].text,
        "<h1>First Post</h1><div><p>This is my first post.</p>\n</div>"
    );
}

#[test]
fn post_fields_come_from_file_and_frontmatter() {
    let file = PostFile::try_from("posts/2023-01-05-a-b-c.markdown").expect("should parse");
    assert_eq!(file.slug, "a-b-c");
    assert_eq!(file.output_path, "2023/01/a-b-c.html");
    assert_eq!(file.url, "/2023/01/a-b-c.html");
    let post = Post::from_content(
        file,
        "+++\ntitle = \"T\"\ntemplate = \"special\"\n+++\nintro\n<!--more-->\nrest\n",
    )
    .expect("should parse");
    assert_eq!(post.title, "T");
    assert_eq!(post.template, "special.html");
    assert_eq!(post.date_str, "2023-01-05");
    assert_eq!(post.excerpt, "<p>intro</p>\n");
    assert_eq!(post.content, "<p>intro</p>\n<p>rest</p>\n");
    assert_eq!(post.slug, "a-b-c");
    assert_eq!(post.input_path, "posts/2023-01-05-a-b-c.markdown");
}

#[test]
fn post_without_marker_has_whole_body_as_excerpt() {
    let file = PostFile::try_from("posts/2024-02-29-leap.md").expect("should parse");
    let post = Post::from_content(file, "+++\ntitle = \"Leap\"\n+++\nall of it\n").expect("should parse");
    assert_eq!(post.excerpt, post.content);
    assert_eq!(post.template, "post.html");
    assert_eq!(post.date_str, "2024-02-29");
}

#[test]
fn post_name_without_date_is_refused() {
    match PostFile::try_from("posts/first.md") {
        Err(Error::ExtractDate(path)) => assert_eq!(path, "posts/first.md"),
        other => panic!("unexpected: {:?}", other),
    }
    assert!(matches!(PostFile::try_from("posts/2024-12-01.md"), Err(Error::ExtractDate(_))));
}

#[test]
fn post_name_with_bad_date_is_refused() {
    assert!(matches!(PostFile::try_from("posts/2024-13-01-x.md"), Err(Error::ParseDate(_))));
    assert!(matches!(PostFile::try_from("posts/2023-02-29-x.md"), Err(Error::ParseDate(_))));
}

#[test]
fn post_with_other_extension_is_refused() {
    assert!(matches!(PostFile::try_from("posts/2024-12-01-x.html"), Err(Error::Path(_))));
    assert!(matches!(PostFile::try_from("posts/2024-12-01-x"), Err(Error::Path(_))));
}

#[test]
fn post_without_title_is_refused() {
    let file = PostFile::try_from("posts/2024-12-01-x.md").expect("should parse");
    assert!(matches!(Post::from_content(file, "no frontmatter"), Err(Error::MissingField(_))));
    let file = PostFile::try_from("posts/2024-12-01-x.md").expect("should parse");
    assert!(matches!(
        Post::from_content(file, "+++\ntitle = 3\n+++\nx"),
        Err(Error::MissingField(_))
    ));
}

#[test]
fn post_with_template_not_a_string_is_refused() {
    let file = PostFile::try_from("posts/2024-12-01-x.md").expect("should parse");
    assert!(matches!(
        Post::from_content(file, "+++\ntitle = \"t\"\ntemplate = 3\n+++\nx"),
        Err(Error::ParseFrontmatter(_))
    ));
}

#[test]
fn post_with_bad_frontmatter_is_refused() {
    let file = PostFile::try_from("posts/2024-12-01-x.md").expect("should parse");
    assert!(matches!(
        Post::from_content(file, "oops\n+++\ntitle = \"t\"\n+++\nx"),
        Err(Error::Markdown(kalamos::parser::Error::ContentBeforeFrontmatter(_)))
    ));
}

fn post_on(date: &str, title: &str) -> Post {
    let path = format!("posts/{}-{}.md", date, title);
    let file = PostFile::try_from(path.as_str()).expect("should parse");
    Post::from_content(file, &format!("+++\ntitle = \"{}\"\n+++\nx", title)).expect("should parse")
}

#[test]
fn posts_are_planned_newest_first() {
    let posts = vec![
        post_on("2023-05-01", "b"),
        post_on("2024-01-15", "c"),
        post_on("2023-05-01", "d"),
        post_on("2022-12-31", "a"),
    ];
    let plan = plan_render(posts, &vec![], &"2025-01-01".to_string());
    let titles: Vec<&str> = plan.posts.iter().map(|p| p.title.as_str()).collect();
    assert_eq!(titles, vec!["c", "b", "d", "a"]);
    assert_eq!(plan.jobs.len(), 4);
    assert_eq!(plan.jobs[0].output_path, "2024/01/c.html");
}

#[test]
fn every_context_sees_the_posts_newest_first() {
    let mut tera = Tera::default();
    tera.add_raw_template("post.html", "{% for p in posts %}{{p.slug}} {% endfor %}")
        .expect("should be able to add template");
    let posts = vec![post_on("2021-01-01", "old"), post_on("2024-06-01", "new")];
    let plan = plan_render(posts, &vec![], &"2025-01-01".to_string());
    let outputs = plan.render_all(&tera).expect("should render");
    for output in outputs {
        assert_eq!(output.text, "new old ");
    }
}

#[test]
fn post_context_fields() {
    let mut tera = Tera::default();
    tera.autoescape_on(vec![]);
    tera.add_raw_template(
        "post.html",
        "{{date}}|{{date_str}}|{{date_struct.year}}-{{date_struct.month}}-{{date_struct.day}}|{{url}}|{{path}}|{{slug}}",
    )
    .expect("should be able to add template");
    let post = post_on("2024-03-09", "ctx");
    let rendered = render_alone(&tera, &post.render_job());
    assert_eq!(rendered, "2024-03-09|2024-03-09|2024-3-9|/2024/03/ctx.html|2024/03/ctx.html|ctx");
}

#[test]
fn missing_template_is_a_template_error() {
    let tera = Tera::default();
    let post = post_on("2024-03-09", "t");
    let posts = posts_value(&vec![]);
    assert!(matches!(render_job(&tera, &post.render_job(), &posts), Err(Error::Tera(_))));
}

#[test]
fn post_frontmatter_decodes_title_and_template() {
    let table = toml::from_str::<toml::Value>("title = \"T\"\ntemplate = \"x\"\nextra = 1").expect("toml");
    let fm = kalamos::post::PostFrontmatter::from_frontmatter(&table).expect("should decode");
    assert_eq!(fm.title, "T");
    assert_eq!(fm.template, Some("x".to_string()));
    let table = toml::from_str::<toml::Value>("template = \"x\"").expect("toml");
    assert_eq!(
        kalamos::post::PostFrontmatter::from_frontmatter(&table).unwrap_err(),
        kalamos::frontmatter::SchemaError::MissingTitle
    );
    let table = toml::from_str::<toml::Value>("title = \"T\"\ntemplate = [1]").expect("toml");
    assert_eq!(
        kalamos::post::PostFrontmatter::from_frontmatter(&table).unwrap_err(),
        kalamos::frontmatter::SchemaError::TemplateNotString
    );
}

#[test]
fn post_file_tells_its_paths() {
    let file = PostFile::try_from("posts/2024-12-01-first.md").expect("should parse");
    assert_eq!(RenderableFromPath::url(&file), "/2024/12/first.html");
    assert_eq!(RenderableFromPath::input_path(&file), "posts/2024-12-01-first.md");
    assert_eq!(RenderableFromPath::output_path(&file), "2024/12/first.html");
}

fn source(path: &str, text: &str) -> Source {
    Source {
        path: path.to_string(),
        text: text.to_string(),
    }
}

#[test]
fn posts_fail_on_the_first_bad_path_before_any_text() {
    let sources = vec![
        source("posts/2024-01-01-a.md", "no title"),
        source("posts/notes.txt", "+++\ntitle = \"n\"\n+++\n"),
        source("posts/other.md", "x"),
    ];
    match posts_from_sources(&sources) {
        Err(Error::ExtractDate(path)) => assert_eq!(path, "posts/notes.txt"),
        other => panic!("unexpected: {:?}", other),
    }
}

#[test]
fn posts_fail_on_the_first_text_that_makes_no_post() {
    let sources = vec![
        source("posts/2024-01-01-a.md", "+++\ntitle = \"a\"\n+++\nx"),
        source("posts/2024-01-02-b.md", "no title"),
        source("posts/2024-01-03-c.md", "+++\ntitle = \"c\"\ntemplate = 1\n+++\nx"),
    ];
    match posts_from_sources(&sources) {
        Err(Error::MissingField(path)) => assert_eq!(path, "posts/2024-01-02-b.md"),
        other => panic!("unexpected: {:?}", other),
    }
}

#[test]
fn resolve_then_assemble_in_order() {
    let paths = vec!["posts/2024-01-02-b.md".to_string(), "posts/2024-01-01-a.md".to_string()];
    let files = resolve_posts(&paths).expect("should resolve");
    assert_eq!(files[0].slug, "b");
    assert_eq!(files[1].slug, "a");
    let pairs = files
        .into_iter()
        .zip(["+++\ntitle = \"B\"\n+++\n", "+++\ntitle = \"A\"\n+++\n"])
        .map(|(f, t)| (f, t.to_string()))
        .collect();
    let posts = assemble_posts(pairs).expect("should assemble");
    assert_eq!(posts[0].title, "B");
    assert_eq!(posts[1].title, "A");
}

#[test]
fn engine_call_hands_over_context_and_posts() {
    let posts = vec![post_on("2024-06-01", "new"), post_on("2021-01-01", "old")];
    let job = post_on("2022-01-01", "me").render_job();
    let value = posts_value(&posts);
    let call = engine_call(&job, &value);
    assert_eq!(call.template, "post.html");
    assert!(call.source.is_none());
    let listed = call.context.get("posts").expect("posts").as_array().expect("array");
    assert_eq!(listed.len(), 2);
    assert_eq!(listed[0]["slug"], "new");
    assert_eq!(listed[1]["date_struct"]["year"], 2021);
    assert_eq!(call.context.get("title").expect("title"), "me");
    assert_eq!(call.context.get("date_struct").expect("date")["month"], 1);
}
