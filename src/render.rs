//! The render pass: the errors it can end with, the template contexts of posts and pages,
//! and the plan of what to render where.
use vstd::prelude::*;
use crate::frontmatter::{opt_view, toml_keys, toml_strings};
use crate::parser;
use crate::page::{
    assembles_page, extension_is_markdown, is_markdown_extension, resolves_page, Page, PageFile,
};
use crate::paths::{file_name_of, path_parts};
use crate::post::{
    assembles_post, newest_first, resolves_post, sort_newest_first, stable_placement, DateStruct,
    Post, PostFile,
};

verus! {

/// Why a render pass stopped. Each carries the offending path or the collaborator's message.
#[derive(Debug)]
pub enum Error {
    /// The template engine failed to load or render.
    Tera(String),
    /// A file name breaks its kind's rules (its extension, or a missing file name).
    Path(String),
    /// A source file could not be read.
    ReadFile(String),
    /// A document's frontmatter block could not be split or read.
    Markdown(parser::Error),
    /// An output file could not be written.
    WriteFile(String),
    /// A frontmatter entry has the wrong type.
    ParseFrontmatter(String),
    /// A frontmatter has no title.
    MissingField(String),
    /// A post's file name does not have the shape `YYYY-MM-DD-slug`.
    ExtractDate(String),
    /// A post's file name does not start with a valid date.
    ParseDate(String),
    /// A file does not lie under the directory of its kind.
    StripPrefix(String),
    /// An output directory could not be created.
    CreateDir(String),
    /// A file could not be copied.
    CopyDir(String),
}

#[verifier::external_type_specification]
#[verifier::external_body]
pub struct ExTera(tera::Tera);

#[verifier::external_type_specification]
#[verifier::external_body]
pub struct ExTeraContext(tera::Context);

#[verifier::external_type_specification]
#[verifier::external_body]
pub struct ExTeraValue(tera::Value);

/// A value as the template engine holds it, as far as this library builds values:
/// strings, integers, objects and arrays.
pub enum Json {
    Str(Seq<char>),
    Int(int),
    Object(Map<Seq<char>, Json>),
    Array(Seq<Json>),
}

/// The entries of an engine context, by key.
pub uninterp spec fn context_entries(c: tera::Context) -> Map<Seq<char>, Json>;

/// What an engine value holds.
pub uninterp spec fn json_of(v: tera::Value) -> Json;

/// The value that a TOML value becomes in the template engine (its serde serialization).
pub uninterp spec fn toml_json(v: toml::Value) -> Json;

/// The names of the templates in a template set.
pub uninterp spec fn template_names(t: tera::Tera) -> Set<Seq<char>>;

/// Relies on `tera::Context::new`: a new context has no entries.
#[verifier::external_body]
fn new_context() -> (r: tera::Context)
    ensures
        context_entries(r) =~= Map::empty(),
{
    tera::Context::new()
}

/// Relies on `tera::Context::insert`: the string becomes a JSON string under the key.
#[verifier::external_body]
fn insert_text(context: &mut tera::Context, key: &str, value: &str)
    ensures
        context_entries(*final(context)) == context_entries(*old(context)).insert(
            key@,
            Json::Str(value@),
        ),
{
    context.insert(key, value)
}

/// Relies on `tera::Context::insert`: the integer becomes a JSON number under the key.
#[verifier::external_body]
fn insert_int(context: &mut tera::Context, key: &str, value: i64)
    ensures
        context_entries(*final(context)) == context_entries(*old(context)).insert(
            key@,
            Json::Int(value as int),
        ),
{
    context.insert(key, &value)
}

/// Relies on `tera::Context::insert`: a value already built is stored as it is.
#[verifier::external_body]
fn insert_value(context: &mut tera::Context, key: &str, value: &tera::Value)
    ensures
        context_entries(*final(context)) == context_entries(*old(context)).insert(
            key@,
            json_of(*value),
        ),
{
    context.insert(key, value)
}

/// Relies on `tera::Context::insert`: a TOML value is stored as it serializes.
#[verifier::external_body]
fn insert_toml(context: &mut tera::Context, key: &str, value: &toml::Value)
    ensures
        context_entries(*final(context)) == context_entries(*old(context)).insert(
            key@,
            toml_json(*value),
        ),
{
    context.insert(key, value)
}

/// Relies on `tera::Context::into_json`: the entries as one object.
#[verifier::external_body]
fn context_value(context: tera::Context) -> (r: tera::Value)
    ensures
        json_of(r) == Json::Object(context_entries(context)),
{
    context.into_json()
}

/// Relies on `tera::Value::Array`: the items, in order.
#[verifier::external_body]
fn array_value(items: Vec<tera::Value>) -> (r: tera::Value)
    ensures
        json_of(r) == Json::Array(items@.map_values(|v: tera::Value| json_of(v))),
{
    tera::Value::Array(items)
}

/// Relies on `tera::Tera::render`, which finds the template by name before rendering; on
/// failure, the engine's message.
#[verifier::external_body]
fn render_named(templates: &tera::Tera, name: &str, context: &tera::Context) -> (r: Result<
    String,
    String,
>)
    ensures
        r is Ok ==> template_names(*templates).contains(name@),
{
    match templates.render(name, context) {
        Ok(out) => Ok(out),
        Err(e) => Err(e.to_string()),
    }
}

/// Relies on `tera::Tera::add_raw_template`, on a copy of the template set, which stays as
/// it was; on failure, the engine's message.
#[verifier::external_body]
fn with_template(templates: &tera::Tera, name: &str, source: &str) -> (r: Result<
    tera::Tera,
    String,
>)
    ensures
        r matches Ok(t) ==> template_names(t) == template_names(*templates).insert(name@),
{
    let mut copy = templates.clone();
    match copy.add_raw_template(name, source) {
        Ok(()) => Ok(copy),
        Err(e) => Err(e.to_string()),
    }
}

/// A value that a template sees.
pub enum ContextValue {
    Text(String),
    /// A date, seen as `year`, `month` and `day`.
    Date(DateStruct),
}

pub enum ValueView {
    Text(Seq<char>),
    Date(DateStruct),
}

impl View for ContextValue {
    type V = ValueView;

    open spec fn view(&self) -> ValueView {
        match self {
            ContextValue::Text(s) => ValueView::Text(s@),
            ContextValue::Date(d) => ValueView::Date(*d),
        }
    }
}

/// The keys and values that a template is rendered with, in order.
pub struct TemplateContext {
    pub entries: Vec<(String, ContextValue)>,
}

pub open spec fn entry_view(e: (String, ContextValue)) -> (Seq<char>, ValueView) {
    (e.0@, e.1@)
}

impl View for TemplateContext {
    type V = Seq<(Seq<char>, ValueView)>;

    open spec fn view(&self) -> Seq<(Seq<char>, ValueView)> {
        self.entries@.map_values(|e: (String, ContextValue)| entry_view(e))
    }
}

impl TemplateContext {
    pub fn new() -> (r: TemplateContext)
        ensures
            r@ == Seq::<(Seq<char>, ValueView)>::empty(),
    {
        let r = TemplateContext { entries: Vec::new() };
        assert(r@ =~= Seq::<(Seq<char>, ValueView)>::empty());
        r
    }

    /// Adds an entry after the others.
    pub fn insert(&mut self, key: &str, value: ContextValue)
        ensures
            final(self)@ == old(self)@.push((key@, value@)),
    {
        self.entries.push((String::from_str(key), value));
        assert(final(self)@ =~= old(self)@.push((key@, value@)));
    }
}

/// The context of a post: its fields. The collection of posts is added when it is rendered.
pub open spec fn post_context(p: Post) -> Seq<(Seq<char>, ValueView)> {
    seq![
        ("title"@, ValueView::Text(p.title@)),
        ("path"@, ValueView::Text(p.output_path@)),
        ("url"@, ValueView::Text(p.url@)),
        ("date"@, ValueView::Text(p.date_str@)),
        ("date_str"@, ValueView::Text(p.date_str@)),
        ("date_struct"@, ValueView::Date(p.date)),
        ("body"@, ValueView::Text(p.content@)),
        ("excerpt"@, ValueView::Text(p.excerpt@)),
        ("slug"@, ValueView::Text(p.slug@)),
    ]
}

/// The context of a page: its fields and the date of the pass. The collection of posts is
/// added when it is rendered.
pub open spec fn page_context(p: Page, current_date: Seq<char>) -> Seq<(Seq<char>, ValueView)> {
    seq![
        ("title"@, ValueView::Text(p.title@)),
        ("path"@, ValueView::Text(p.output_path@)),
        ("url"@, ValueView::Text(p.url@)),
        ("body"@, ValueView::Text(p.content@)),
        ("slug"@, ValueView::Text(p.slug@)),
        ("current_date"@, ValueView::Text(current_date)),
    ]
}

fn text(s: &String) -> (r: ContextValue)
    ensures
        r@ == ValueView::Text(s@),
{
    ContextValue::Text(s.clone())
}

impl Post {
    /// The context that the post's template is rendered with.
    pub fn to_context(&self) -> (r: TemplateContext)
        ensures
            r@ == post_context(*self),
    {
        let mut c = TemplateContext::new();
        c.insert("title", text(&self.title));
        c.insert("path", text(&self.output_path));
        c.insert("url", text(&self.url));
        c.insert("date", text(&self.date_str));
        c.insert("date_str", text(&self.date_str));
        c.insert("date_struct", ContextValue::Date(self.date));
        c.insert("body", text(&self.content));
        c.insert("excerpt", text(&self.excerpt));
        c.insert("slug", text(&self.slug));
        assert(c@ =~= post_context(*self));
        c
    }
}

impl Page {
    /// The context that the page is rendered with, on the day `current_date`.
    pub fn to_context(&self, current_date: &String) -> (r: TemplateContext)
        ensures
            r@ == page_context(*self, current_date@),
    {
        let mut c = TemplateContext::new();
        c.insert("title", text(&self.title));
        c.insert("path", text(&self.output_path));
        c.insert("url", text(&self.url));
        c.insert("body", text(&self.content));
        c.insert("slug", text(&self.slug));
        c.insert("current_date", text(current_date));
        assert(c@ =~= page_context(*self, current_date@));
        c
    }
}

/// One document to render: where its output goes, its template and its context.
pub struct RenderJob {
    /// The path of the output, relative to the output root.
    pub output_path: String,
    /// The name of the template to render with.
    pub template: String,
    /// For a page that is its own template (HTML, XML): its text, added to a copy of the
    /// template set under `template` for this render only.
    pub source: Option<String>,
    pub context: TemplateContext,
}

pub open spec fn post_job(p: Post, j: RenderJob) -> bool {
    &&& j.output_path@ == p.output_path@
    &&& j.template@ == p.template@
    &&& j.source is None
    &&& j.context@ == post_context(p)
}

pub open spec fn page_job(p: Page, current_date: Seq<char>, j: RenderJob) -> bool {
    &&& j.output_path@ == p.output_path@
    &&& if is_markdown_extension(p.extension@) {
        j.template@ == p.template@ && j.source is None
    } else {
        j.template@ == file_name_of(p.input_path@) && (j.source matches Some(s) && s@
            == p.content@)
    }
    &&& j.context@ == page_context(p, current_date)
}

impl Post {
    /// What rendering this post takes.
    pub fn render_job(&self) -> (r: RenderJob)
        ensures
            post_job(*self, r),
    {
        RenderJob {
            output_path: self.output_path.clone(),
            template: self.template.clone(),
            source: None,
            context: self.to_context(),
        }
    }
}

impl Page {
    /// What rendering this page takes: a markdown page goes through its template, any other
    /// page is a template itself, named after its file.
    pub fn render_job(&self, current_date: &String) -> (r: RenderJob)
        ensures
            page_job(*self, current_date@, r),
    {
        let context = self.to_context(current_date);
        if extension_is_markdown(self.extension.as_str()) {
            RenderJob {
                output_path: self.output_path.clone(),
                template: self.template.clone(),
                source: None,
                context,
            }
        } else {
            let parts = path_parts(self.input_path.as_str());
            RenderJob {
                output_path: self.output_path.clone(),
                template: parts.name,
                source: Some(self.content.clone()),
                context,
            }
        }
    }
}

/// Everything that one pass renders: the posts, newest first, which every context sees,
/// and one job per post and page, posts first.
pub struct RenderPlan {
    pub posts: Vec<Post>,
    pub jobs: Vec<RenderJob>,
}

/// What `plan_render` makes of the posts and pages of a pass.
pub open spec fn plans(posts: Seq<Post>, pages: Seq<Page>, current_date: Seq<char>, r: RenderPlan) -> bool {
    &&& newest_first(r.posts@)
    &&& r.posts@.to_multiset() == posts.to_multiset()
    &&& exists|idx: Seq<int>| stable_placement(posts, r.posts@, idx)
    &&& r.jobs@.len() == posts.len() + pages.len()
    &&& forall|i: int| 0 <= i < r.posts@.len() ==> post_job(#[trigger] r.posts@[i], r.jobs@[i])
    &&& forall|j: int| 0 <= j < pages.len() ==> page_job(#[trigger] pages[j], current_date, r.jobs@[posts.len() + j])
}

/// Orders the posts newest first and lays out the render of every post, then every page.
pub fn plan_render(posts: Vec<Post>, pages: &Vec<Page>, current_date: &String) -> (r: RenderPlan)
    ensures
        plans(posts@, pages@, current_date@, r),
{
    proof {
        vstd::seq_lib::to_multiset_len(posts@);
    }
    let sorted = sort_newest_first(posts);
    proof {
        vstd::seq_lib::to_multiset_len(sorted@);
    }
    let mut jobs: Vec<RenderJob> = Vec::new();
    let mut i: usize = 0;
    while i < sorted.len()
        invariant
            i <= sorted@.len(),
            jobs@.len() == i,
            forall|k: int| 0 <= k < i ==> post_job(#[trigger] sorted@[k], jobs@[k]),
        decreases sorted.len() - i,
    {
        jobs.push(sorted[i].render_job());
        i = i + 1;
    }
    let n = sorted.len();
    let mut j: usize = 0;
    while j < pages.len()
        invariant
            n == sorted@.len(),
            j <= pages@.len(),
            jobs@.len() == n + j,
            forall|k: int| 0 <= k < n ==> post_job(#[trigger] sorted@[k], jobs@[k]),
            forall|k: int| 0 <= k < j ==> page_job(#[trigger] pages@[k], current_date@, jobs@[n + k]),
        decreases pages.len() - j,
    {
        jobs.push(pages[j].render_job(current_date));
        j = j + 1;
    }
    RenderPlan { posts: sorted, jobs }
}

/// A date as templates see it: `year`, `month` and `day`.
pub open spec fn date_json(d: DateStruct) -> Json {
    Json::Object(
        Map::empty().insert("year"@, Json::Int(d.year as int)).insert(
            "month"@,
            Json::Int(d.month as int),
        ).insert("day"@, Json::Int(d.day as int)),
    )
}

/// A post as templates see it in the collection: all its fields.
pub open spec fn post_json(p: Post) -> Json {
    Json::Object(
        Map::empty().insert("input_path"@, Json::Str(p.input_path@)).insert(
            "output_path"@,
            Json::Str(p.output_path@),
        ).insert("title"@, Json::Str(p.title@)).insert("template"@, Json::Str(p.template@)).insert(
            "content"@,
            Json::Str(p.content@),
        ).insert("excerpt"@, Json::Str(p.excerpt@)).insert("date"@, Json::Str(p.date_str@)).insert(
            "date_str"@,
            Json::Str(p.date_str@),
        ).insert("date_struct"@, date_json(p.date)).insert("url"@, Json::Str(p.url@)).insert(
            "slug"@,
            Json::Str(p.slug@),
        ),
    )
}

/// The collection of posts as templates see it, in the given order.
pub open spec fn posts_json(posts: Seq<Post>) -> Json {
    Json::Array(posts.map_values(|p: Post| post_json(p)))
}

/// A context value as the engine holds it.
pub open spec fn value_json(v: ValueView) -> Json {
    match v {
        ValueView::Text(s) => Json::Str(s),
        ValueView::Date(d) => date_json(d),
    }
}

/// The engine entries of a context, each entry stored in turn under its key.
pub open spec fn entries_json(entries: Seq<(Seq<char>, ValueView)>) -> Map<Seq<char>, Json>
    decreases entries.len(),
{
    if entries.len() == 0 {
        Map::empty()
    } else {
        entries_json(entries.drop_last()).insert(entries.last().0, value_json(entries.last().1))
    }
}

/// The engine entries for a job's context, with the collection of posts added under `posts`.
pub open spec fn engine_entries(entries: Seq<(Seq<char>, ValueView)>, posts: Json) -> Map<
    Seq<char>,
    Json,
> {
    entries_json(entries).insert("posts"@, posts)
}

fn date_value(d: &DateStruct) -> (r: tera::Value)
    ensures
        json_of(r) == date_json(*d),
{
    let mut c = new_context();
    insert_int(&mut c, "year", d.year as i64);
    insert_int(&mut c, "month", d.month as i64);
    insert_int(&mut c, "day", d.day as i64);
    context_value(c)
}

fn post_value(p: &Post) -> (r: tera::Value)
    ensures
        json_of(r) == post_json(*p),
{
    let mut c = new_context();
    insert_text(&mut c, "input_path", p.input_path.as_str());
    insert_text(&mut c, "output_path", p.output_path.as_str());
    insert_text(&mut c, "title", p.title.as_str());
    insert_text(&mut c, "template", p.template.as_str());
    insert_text(&mut c, "content", p.content.as_str());
    insert_text(&mut c, "excerpt", p.excerpt.as_str());
    insert_text(&mut c, "date", p.date_str.as_str());
    insert_text(&mut c, "date_str", p.date_str.as_str());
    insert_value(&mut c, "date_struct", &date_value(&p.date));
    insert_text(&mut c, "url", p.url.as_str());
    insert_text(&mut c, "slug", p.slug.as_str());
    context_value(c)
}

/// The collection of posts as templates see it: each post with all its fields, in the
/// order given.
pub fn posts_value(posts: &Vec<Post>) -> (r: tera::Value)
    ensures
        json_of(r) == posts_json(posts@),
{
    let mut items: Vec<tera::Value> = Vec::new();
    let mut i: usize = 0;
    while i < posts.len()
        invariant
            i <= posts@.len(),
            items@.len() == i,
            forall|k: int| 0 <= k < i ==> json_of(#[trigger] items@[k]) == post_json(posts@[k]),
        decreases posts.len() - i,
    {
        let v = post_value(&posts[i]);
        items.push(v);
        i = i + 1;
    }
    assert(items@.map_values(|v: tera::Value| json_of(v)) =~= posts@.map_values(
        |p: Post| post_json(p),
    ));
    array_value(items)
}

/// The context for the template engine: each entry in turn, then the collection of posts
/// under `posts`.
pub fn engine_context(context: &TemplateContext, posts: &tera::Value) -> (r: tera::Context)
    ensures
        context_entries(r) == engine_entries(context@, json_of(*posts)),
{
    let mut c = new_context();
    let mut i: usize = 0;
    while i < context.entries.len()
        invariant
            i <= context.entries@.len(),
            context_entries(c) == entries_json(context@.take(i as int)),
        decreases context.entries.len() - i,
    {
        let (key, value) = &context.entries[i];
        let ghost before = context@.take(i as int);
        proof {
            assert(context@.take(i + 1).drop_last() =~= before);
            assert(context@.take(i + 1).last() == (key@, value@));
        }
        match value {
            ContextValue::Text(s) => insert_text(&mut c, key.as_str(), s.as_str()),
            ContextValue::Date(d) => insert_value(&mut c, key.as_str(), &date_value(d)),
        }
        i = i + 1;
    }
    assert(context@.take(context@.len() as int) =~= context@);
    insert_value(&mut c, "posts", posts);
    c
}

/// What the template engine is handed for one job: the template's name, the source to add
/// under that name (for a page that is its own template), and the context.
pub struct EngineCall {
    pub template: String,
    pub source: Option<String>,
    pub context: tera::Context,
}

/// `c` is the engine call for `job`, with the collection of posts `posts`.
pub open spec fn calls_for(job: RenderJob, posts: Json, c: EngineCall) -> bool {
    &&& c.template@ == job.template@
    &&& opt_view(c.source) == opt_view(job.source)
    &&& context_entries(c.context) == engine_entries(job.context@, posts)
}

/// What the template engine is handed for a job.
pub fn engine_call(job: &RenderJob, posts: &tera::Value) -> (r: EngineCall)
    ensures
        calls_for(*job, json_of(*posts), r),
{
    let source = match &job.source {
        Some(s) => Some(s.clone()),
        None => None,
    };
    EngineCall {
        template: job.template.clone(),
        source,
        context: engine_context(&job.context, posts),
    }
}

/// Renders an engine call: the named template of the set, or, when the call brings a
/// source, that source added under the name to a copy of the set, which itself is not
/// changed. A failure of the engine is a `Tera` error.
pub fn render_call(templates: &tera::Tera, call: &EngineCall) -> (r: Result<String, Error>)
    ensures
        r matches Err(e) ==> e is Tera,
        r is Ok && call.source is None ==> template_names(*templates).contains(call.template@),
{
    let rendered = match &call.source {
        None => render_named(templates, call.template.as_str(), &call.context),
        Some(source) => match with_template(templates, call.template.as_str(), source.as_str()) {
            Ok(copy) => render_named(&copy, call.template.as_str(), &call.context),
            Err(message) => Err(message),
        },
    };
    match rendered {
        Ok(out) => Ok(out),
        Err(message) => Err(Error::Tera(message)),
    }
}

/// Renders one job with the collection of posts `posts`: its engine call, as `engine_call`
/// makes it, goes to `render_call`.
pub fn render_job(templates: &tera::Tera, job: &RenderJob, posts: &tera::Value) -> (r: Result<
    String,
    Error,
>)
    ensures
        r matches Err(e) ==> e is Tera,
        r is Ok && job.source is None ==> template_names(*templates).contains(job.template@),
{
    let call = engine_call(job, posts);
    render_call(templates, &call)
}

/// A rendered document: where it goes and what it holds.
pub struct Output {
    pub path: String,
    pub text: String,
}

impl RenderPlan {
    /// The engine call of every job, in order, each with the plan's posts as the collection.
    pub fn engine_calls(&self) -> (r: Vec<EngineCall>)
        ensures
            r@.len() == self.jobs@.len(),
            forall|k: int|
                0 <= k < r@.len() ==> calls_for(
                    self.jobs@[k],
                    posts_json(self.posts@),
                    #[trigger] r@[k],
                ),
    {
        let posts = posts_value(&self.posts);
        let mut calls: Vec<EngineCall> = Vec::new();
        let mut i: usize = 0;
        while i < self.jobs.len()
            invariant
                i <= self.jobs@.len(),
                calls@.len() == i,
                json_of(posts) == posts_json(self.posts@),
                forall|k: int|
                    0 <= k < i ==> calls_for(
                        self.jobs@[k],
                        posts_json(self.posts@),
                        #[trigger] calls@[k],
                    ),
            decreases self.jobs.len() - i,
        {
            calls.push(engine_call(&self.jobs[i], &posts));
            i = i + 1;
        }
        calls
    }

    /// Renders every job through its engine call (see `engine_calls`), in order, and stops at
    /// the first failure; on success there is one output per job, at the job's path.
    pub fn render_all(&self, templates: &tera::Tera) -> (r: Result<Vec<Output>, Error>)
        ensures
            r matches Ok(outs) ==> outs@.len() == self.jobs@.len() && forall|k: int|
                0 <= k < outs@.len() ==> (#[trigger] outs@[k]).path@ == self.jobs@[k].output_path@,
            r matches Err(e) ==> e is Tera,
    {
        let calls = self.engine_calls();
        let mut outs: Vec<Output> = Vec::new();
        let mut i: usize = 0;
        while i < calls.len()
            invariant
                calls@.len() == self.jobs@.len(),
                i <= calls@.len(),
                outs@.len() == i,
                forall|k: int| 0 <= k < i ==> (#[trigger] outs@[k]).path@ == self.jobs@[k].output_path@,
            decreases calls.len() - i,
        {
            let text = render_call(templates, &calls[i])?;
            outs.push(Output { path: self.jobs[i].output_path.clone(), text });
            i = i + 1;
        }
        Ok(outs)
    }
}

/// Every engine call of a pass gets, under `posts`, the one collection of the pass: the
/// plan's posts, newest first.
pub proof fn law_every_call_sees_posts_newest_first(
    posts: Seq<Post>,
    pages: Seq<Page>,
    current_date: Seq<char>,
    plan: RenderPlan,
    calls: Seq<EngineCall>,
)
    requires
        plans(posts, pages, current_date, plan),
        calls.len() == plan.jobs@.len(),
        forall|k: int|
            0 <= k < calls.len() ==> calls_for(plan.jobs@[k], posts_json(plan.posts@), #[trigger] calls[k]),
    ensures
        newest_first(plan.posts@),
        forall|k: int|
            0 <= k < calls.len() ==> context_entries(#[trigger] calls[k].context).contains_key("posts"@)
                && context_entries(calls[k].context)["posts"@] == posts_json(plan.posts@),
{
    let all = posts_json(plan.posts@);
    assert forall|k: int| 0 <= k < calls.len() implies context_entries(
        #[trigger] calls[k].context,
    ).contains_key("posts"@) && context_entries(calls[k].context)["posts"@] == all by {
        assert(calls_for(plan.jobs@[k], all, calls[k]));
    }
}

/// A source file of the site: its path relative to the site root, and its text.
pub struct Source {
    pub path: String,
    pub text: String,
}

/// The post that a source makes.
pub open spec fn post_of_source(s: Source, p: Post) -> bool {
    exists|f: PostFile| #[trigger] resolves_post(s.path@, Ok(f)) && assembles_post(f, s.text@, Ok(p))
}

/// The page that a source makes.
pub open spec fn page_of_source(s: Source, p: Page) -> bool {
    exists|f: PageFile| #[trigger] resolves_page(s.path@, Ok(f)) && assembles_page(f, s.text@, Ok(p))
}

/// Some post file comes of this path.
pub open spec fn post_path_ok(p: Seq<char>) -> bool {
    exists|f: PostFile| #[trigger] resolves_post(p, Ok(f))
}

/// Some post comes of this file and text.
pub open spec fn post_text_ok(f: PostFile, text: Seq<char>) -> bool {
    exists|p: Post| #[trigger] assembles_post(f, text, Ok(p))
}

/// Resolves the paths of a pass's posts, in order, and stops at the first that fails:
/// on success one post file per path; on failure the error of the first failing path.
pub fn resolve_posts(paths: &Vec<String>) -> (r: Result<Vec<PostFile>, Error>)
    ensures
        r matches Ok(files) ==> files@.len() == paths@.len() && forall|k: int|
            0 <= k < files@.len() ==> resolves_post(paths@[k]@, Ok(#[trigger] files@[k])),
        r matches Err(e) ==> exists|k: int|
            0 <= k < paths@.len() && (forall|j: int| 0 <= j < k ==> post_path_ok(#[trigger] paths@[j]@))
                && resolves_post(paths@[k]@, Err(e)),
{
    let mut files: Vec<PostFile> = Vec::new();
    let mut i: usize = 0;
    while i < paths.len()
        invariant
            i <= paths@.len(),
            files@.len() == i,
            forall|k: int| 0 <= k < i ==> resolves_post(paths@[k]@, Ok(#[trigger] files@[k])),
        decreases paths.len() - i,
    {
        match PostFile::try_from(paths[i].as_str()) {
            Ok(f) => files.push(f),
            Err(e) => {
                proof {
                    assert forall|j: int| 0 <= j < i implies post_path_ok(#[trigger] paths@[j]@) by {
                        assert(resolves_post(paths@[j]@, Ok(files@[j])));
                    }
                }
                return Err(e);
            },
        }
        i = i + 1;
    }
    Ok(files)
}

/// Makes the posts of a pass from their resolved files and texts, in order, and stops at
/// the first failure: on success one post per file; on failure the error of the first file
/// that makes no post.
pub fn assemble_posts(files: Vec<(PostFile, String)>) -> (r: Result<Vec<Post>, Error>)
    ensures
        r matches Ok(posts) ==> posts@.len() == files@.len() && forall|k: int|
            0 <= k < posts@.len() ==> assembles_post(files@[k].0, files@[k].1@, Ok(#[trigger] posts@[k])),
        r matches Err(e) ==> exists|k: int|
            0 <= k < files@.len() && (forall|j: int| 0 <= j < k ==> post_text_ok(#[trigger] files@[j].0, files@[j].1@))
                && assembles_post(files@[k].0, files@[k].1@, Err(e)),
{
    let ghost all = files@;
    let mut posts: Vec<Post> = Vec::new();
    for pair in it: files
        invariant
            it.seq() == all,
            posts@.len() == it.index(),
            forall|k: int| 0 <= k < posts@.len() ==> assembles_post(all[k].0, all[k].1@, Ok(#[trigger] posts@[k])),
    {
        let k = posts.len();
        let (f, text) = pair;
        proof {
            assert(f == all[k as int].0 && text == all[k as int].1);
        }
        match Post::from_content(f, text.as_str()) {
            Ok(p) => posts.push(p),
            Err(e) => {
                proof {
                    assert forall|j: int| 0 <= j < k implies post_text_ok(#[trigger] all[j].0, all[j].1@) by {
                        assert(assembles_post(all[j].0, all[j].1@, Ok(posts@[j])));
                    }
                }
                return Err(e);
            },
        }
    }
    Ok(posts)
}

/// Some post comes of this source.
pub open spec fn post_source_ok(s: Source) -> bool {
    exists|p: Post| #[trigger] post_of_source(s, p)
}

/// The source's path resolves, and assembling its post fails with `e`.
pub open spec fn post_assembly_fails(s: Source, e: Error) -> bool {
    exists|f: PostFile| #[trigger] resolves_post(s.path@, Ok(f)) && assembles_post(f, s.text@, Err(e))
}

/// Makes the posts of a pass: every path is resolved before any post is assembled, and the
/// first failure stops the pass. On success there is one post per source, in order. On
/// failure the error is the first failing path's, or, when every path resolves, the first
/// source's that makes no post.
pub fn posts_from_sources(sources: &Vec<Source>) -> (r: Result<Vec<Post>, Error>)
    ensures
        r matches Ok(posts) ==> posts@.len() == sources@.len() && forall|k: int|
            0 <= k < posts@.len() ==> post_of_source(sources@[k], #[trigger] posts@[k]),
        r matches Err(e) ==> (exists|k: int|
            0 <= k < sources@.len() && (forall|j: int| 0 <= j < k ==> post_path_ok(#[trigger] sources@[j].path@))
                && resolves_post(sources@[k].path@, Err(e))) || ((forall|j: int|
            0 <= j < sources@.len() ==> post_path_ok(#[trigger] sources@[j].path@)) && exists|k: int|
            0 <= k < sources@.len() && (forall|j: int| 0 <= j < k ==> post_source_ok(#[trigger] sources@[j]))
                && post_assembly_fails(sources@[k], e)),
{
    let mut paths: Vec<String> = Vec::new();
    let mut i: usize = 0;
    while i < sources.len()
        invariant
            i <= sources@.len(),
            paths@.len() == i,
            forall|k: int| 0 <= k < i ==> (#[trigger] paths@[k])@ == sources@[k].path@,
        decreases sources.len() - i,
    {
        paths.push(sources[i].path.clone());
        i = i + 1;
    }
    let files = match resolve_posts(&paths) {
        Ok(files) => files,
        Err(e) => {
            proof {
                let k = choose|k: int|
                    0 <= k < paths@.len() && (forall|j: int| 0 <= j < k ==> post_path_ok(#[trigger] paths@[j]@))
                        && resolves_post(paths@[k]@, Err(e));
                assert(paths@[k]@ == sources@[k].path@);
                assert forall|j: int| 0 <= j < k implies post_path_ok(#[trigger] sources@[j].path@) by {
                    assert(paths@[j]@ == sources@[j].path@);
                    assert(post_path_ok(paths@[j]@));
                }
            }
            return Err(e);
        },
    };
    let ghost resolved = files@;
    let mut pairs: Vec<(PostFile, String)> = Vec::new();
    let mut files = files;
    let mut n: usize = 0;
    let total = sources.len();
    while files.len() > 0
        invariant
            total == sources@.len(),
            resolved.len() == sources@.len(),
            forall|k: int| 0 <= k < resolved.len() ==> resolves_post(paths@[k]@, Ok(#[trigger] resolved[k])),
            forall|k: int| 0 <= k < sources@.len() ==> (#[trigger] paths@[k])@ == sources@[k].path@,
            n + files@.len() == resolved.len(),
            pairs@.len() == n,
            forall|k: int| 0 <= k < files@.len() ==> #[trigger] files@[k] == resolved[n + k],
            forall|k: int| 0 <= k < n ==> (#[trigger] pairs@[k]).0 == resolved[k] && pairs@[k].1@ == sources@[k].text@,
        decreases files.len(),
    {
        let f = files.remove(0);
        pairs.push((f, sources[n].text.clone()));
        n = n + 1;
    }
    let ghost paired = pairs@;
    match assemble_posts(pairs) {
        Ok(posts) => {
            proof {
                assert forall|k: int| 0 <= k < posts@.len() implies post_of_source(sources@[k], #[trigger] posts@[k]) by {
                    assert(paths@[k]@ == sources@[k].path@);
                    assert(resolves_post(sources@[k].path@, Ok(resolved[k])));
                    assert(assembles_post(paired[k].0, paired[k].1@, Ok(posts@[k])));
                }
            }
            Ok(posts)
        },
        Err(e) => {
            proof {
                assert forall|j: int| 0 <= j < sources@.len() implies post_path_ok(#[trigger] sources@[j].path@) by {
                    assert(paths@[j]@ == sources@[j].path@);
                    assert(resolves_post(sources@[j].path@, Ok(resolved[j])));
                }
                let k = choose|k: int|
                    0 <= k < paired.len() && (forall|j: int| 0 <= j < k ==> post_text_ok(#[trigger] paired[j].0, paired[j].1@))
                        && assembles_post(paired[k].0, paired[k].1@, Err(e));
                assert(paths@[k]@ == sources@[k].path@);
                assert(resolves_post(sources@[k].path@, Ok(resolved[k])));
                assert forall|j: int| 0 <= j < k implies post_source_ok(#[trigger] sources@[j]) by {
                    assert(post_text_ok(paired[j].0, paired[j].1@));
                    let p = choose|p: Post| #[trigger] assembles_post(paired[j].0, paired[j].1@, Ok(p));
                    assert(paths@[j]@ == sources@[j].path@);
                    assert(resolves_post(sources@[j].path@, Ok(resolved[j])));
                    assert(post_of_source(sources@[j], p));
                }
                assert(post_assembly_fails(sources@[k], e));
            }
            Err(e)
        },
    }
}

/// Some page file comes of this path.
pub open spec fn page_path_ok(p: Seq<char>) -> bool {
    exists|f: PageFile| #[trigger] resolves_page(p, Ok(f))
}

/// Some page comes of this file and text.
pub open spec fn page_text_ok(f: PageFile, text: Seq<char>) -> bool {
    exists|p: Page| #[trigger] assembles_page(f, text, Ok(p))
}

/// Resolves the paths of a pass's pages, in order, and stops at the first that fails:
/// on success one page file per path; on failure the error of the first failing path.
pub fn resolve_pages(paths: &Vec<String>) -> (r: Result<Vec<PageFile>, Error>)
    ensures
        r matches Ok(files) ==> files@.len() == paths@.len() && forall|k: int|
            0 <= k < files@.len() ==> resolves_page(paths@[k]@, Ok(#[trigger] files@[k])),
        r matches Err(e) ==> exists|k: int|
            0 <= k < paths@.len() && (forall|j: int| 0 <= j < k ==> page_path_ok(#[trigger] paths@[j]@))
                && resolves_page(paths@[k]@, Err(e)),
{
    let mut files: Vec<PageFile> = Vec::new();
    let mut i: usize = 0;
    while i < paths.len()
        invariant
            i <= paths@.len(),
            files@.len() == i,
            forall|k: int| 0 <= k < i ==> resolves_page(paths@[k]@, Ok(#[trigger] files@[k])),
        decreases paths.len() - i,
    {
        match PageFile::try_from(paths[i].as_str()) {
            Ok(f) => files.push(f),
            Err(e) => {
                proof {
                    assert forall|j: int| 0 <= j < i implies page_path_ok(#[trigger] paths@[j]@) by {
                        assert(resolves_page(paths@[j]@, Ok(files@[j])));
                    }
                }
                return Err(e);
            },
        }
        i = i + 1;
    }
    Ok(files)
}

/// Makes the pages of a pass from their resolved files and texts, in order, and stops at
/// the first failure: on success one page per file; on failure the error of the first file
/// that makes no page.
pub fn assemble_pages(files: Vec<(PageFile, String)>) -> (r: Result<Vec<Page>, Error>)
    ensures
        r matches Ok(pages) ==> pages@.len() == files@.len() && forall|k: int|
            0 <= k < pages@.len() ==> assembles_page(files@[k].0, files@[k].1@, Ok(#[trigger] pages@[k])),
        r matches Err(e) ==> exists|k: int|
            0 <= k < files@.len() && (forall|j: int| 0 <= j < k ==> page_text_ok(#[trigger] files@[j].0, files@[j].1@))
                && assembles_page(files@[k].0, files@[k].1@, Err(e)),
{
    let ghost all = files@;
    let mut pages: Vec<Page> = Vec::new();
    for pair in it: files
        invariant
            it.seq() == all,
            pages@.len() == it.index(),
            forall|k: int| 0 <= k < pages@.len() ==> assembles_page(all[k].0, all[k].1@, Ok(#[trigger] pages@[k])),
    {
        let k = pages.len();
        let (f, text) = pair;
        proof {
            assert(f == all[k as int].0 && text == all[k as int].1);
        }
        match Page::from_content(f, text.as_str()) {
            Ok(p) => pages.push(p),
            Err(e) => {
                proof {
                    assert forall|j: int| 0 <= j < k implies page_text_ok(#[trigger] all[j].0, all[j].1@) by {
                        assert(assembles_page(all[j].0, all[j].1@, Ok(pages@[j])));
                    }
                }
                return Err(e);
            },
        }
    }
    Ok(pages)
}

/// Some page comes of this source.
pub open spec fn page_source_ok(s: Source) -> bool {
    exists|p: Page| #[trigger] page_of_source(s, p)
}

/// The source's path resolves, and assembling its page fails with `e`.
pub open spec fn page_assembly_fails(s: Source, e: Error) -> bool {
    exists|f: PageFile| #[trigger] resolves_page(s.path@, Ok(f)) && assembles_page(f, s.text@, Err(e))
}

/// Makes the pages of a pass: every path is resolved before any page is assembled, and the
/// first failure stops the pass. On success there is one page per source, in order. On
/// failure the error is the first failing path's, or, when every path resolves, the first
/// source's that makes no page.
pub fn pages_from_sources(sources: &Vec<Source>) -> (r: Result<Vec<Page>, Error>)
    ensures
        r matches Ok(pages) ==> pages@.len() == sources@.len() && forall|k: int|
            0 <= k < pages@.len() ==> page_of_source(sources@[k], #[trigger] pages@[k]),
        r matches Err(e) ==> (exists|k: int|
            0 <= k < sources@.len() && (forall|j: int| 0 <= j < k ==> page_path_ok(#[trigger] sources@[j].path@))
                && resolves_page(sources@[k].path@, Err(e))) || ((forall|j: int|
            0 <= j < sources@.len() ==> page_path_ok(#[trigger] sources@[j].path@)) && exists|k: int|
            0 <= k < sources@.len() && (forall|j: int| 0 <= j < k ==> page_source_ok(#[trigger] sources@[j]))
                && page_assembly_fails(sources@[k], e)),
{
    let mut paths: Vec<String> = Vec::new();
    let mut i: usize = 0;
    while i < sources.len()
        invariant
            i <= sources@.len(),
            paths@.len() == i,
            forall|k: int| 0 <= k < i ==> (#[trigger] paths@[k])@ == sources@[k].path@,
        decreases sources.len() - i,
    {
        paths.push(sources[i].path.clone());
        i = i + 1;
    }
    let files = match resolve_pages(&paths) {
        Ok(files) => files,
        Err(e) => {
            proof {
                let k = choose|k: int|
                    0 <= k < paths@.len() && (forall|j: int| 0 <= j < k ==> page_path_ok(#[trigger] paths@[j]@))
                        && resolves_page(paths@[k]@, Err(e));
                assert(paths@[k]@ == sources@[k].path@);
                assert forall|j: int| 0 <= j < k implies page_path_ok(#[trigger] sources@[j].path@) by {
                    assert(paths@[j]@ == sources@[j].path@);
                    assert(page_path_ok(paths@[j]@));
                }
            }
            return Err(e);
        },
    };
    let ghost resolved = files@;
    let mut pairs: Vec<(PageFile, String)> = Vec::new();
    let mut files = files;
    let mut n: usize = 0;
    let total = sources.len();
    while files.len() > 0
        invariant
            total == sources@.len(),
            resolved.len() == sources@.len(),
            forall|k: int| 0 <= k < resolved.len() ==> resolves_page(paths@[k]@, Ok(#[trigger] resolved[k])),
            forall|k: int| 0 <= k < sources@.len() ==> (#[trigger] paths@[k])@ == sources@[k].path@,
            n + files@.len() == resolved.len(),
            pairs@.len() == n,
            forall|k: int| 0 <= k < files@.len() ==> #[trigger] files@[k] == resolved[n + k],
            forall|k: int| 0 <= k < n ==> (#[trigger] pairs@[k]).0 == resolved[k] && pairs@[k].1@ == sources@[k].text@,
        decreases files.len(),
    {
        let f = files.remove(0);
        pairs.push((f, sources[n].text.clone()));
        n = n + 1;
    }
    let ghost paired = pairs@;
    match assemble_pages(pairs) {
        Ok(pages) => {
            proof {
                assert forall|k: int| 0 <= k < pages@.len() implies page_of_source(sources@[k], #[trigger] pages@[k]) by {
                    assert(paths@[k]@ == sources@[k].path@);
                    assert(resolves_page(sources@[k].path@, Ok(resolved[k])));
                    assert(assembles_page(paired[k].0, paired[k].1@, Ok(pages@[k])));
                }
            }
            Ok(pages)
        },
        Err(e) => {
            proof {
                assert forall|j: int| 0 <= j < sources@.len() implies page_path_ok(#[trigger] sources@[j].path@) by {
                    assert(paths@[j]@ == sources@[j].path@);
                    assert(resolves_page(sources@[j].path@, Ok(resolved[j])));
                }
                let k = choose|k: int|
                    0 <= k < paired.len() && (forall|j: int| 0 <= j < k ==> page_text_ok(#[trigger] paired[j].0, paired[j].1@))
                        && assembles_page(paired[k].0, paired[k].1@, Err(e));
                assert(paths@[k]@ == sources@[k].path@);
                assert(resolves_page(sources@[k].path@, Ok(resolved[k])));
                assert forall|j: int| 0 <= j < k implies page_source_ok(#[trigger] sources@[j]) by {
                    assert(page_text_ok(paired[j].0, paired[j].1@));
                    let p = choose|p: Page| #[trigger] assembles_page(paired[j].0, paired[j].1@, Ok(p));
                    assert(paths@[j]@ == sources@[j].path@);
                    assert(resolves_page(sources@[j].path@, Ok(resolved[j])));
                    assert(page_of_source(sources@[j], p));
                }
                assert(page_assembly_fails(sources@[k], e));
            }
            Err(e)
        },
    }
}



/// What a post file and a page file both tell: where the source is, where the output
/// goes, and the URL it is served at.
pub trait RenderableFromPath {
    spec fn url_of(&self) -> Seq<char>;

    spec fn input_path_of(&self) -> Seq<char>;

    spec fn output_path_of(&self) -> Seq<char>;

    fn url(&self) -> (r: String)
        ensures
            r@ == self.url_of(),
    ;

    fn input_path(&self) -> (r: String)
        ensures
            r@ == self.input_path_of(),
    ;

    fn output_path(&self) -> (r: String)
        ensures
            r@ == self.output_path_of(),
    ;
}

impl RenderableFromPath for PostFile {
    open spec fn url_of(&self) -> Seq<char> {
        self.url@
    }

    open spec fn input_path_of(&self) -> Seq<char> {
        self.input_path@
    }

    open spec fn output_path_of(&self) -> Seq<char> {
        self.output_path@
    }

    fn url(&self) -> (r: String) {
        self.url.clone()
    }

    fn input_path(&self) -> (r: String) {
        self.input_path.clone()
    }

    fn output_path(&self) -> (r: String) {
        self.output_path.clone()
    }
}

impl RenderableFromPath for PageFile {
    open spec fn url_of(&self) -> Seq<char> {
        self.url@
    }

    open spec fn input_path_of(&self) -> Seq<char> {
        self.input_path@
    }

    open spec fn output_path_of(&self) -> Seq<char> {
        self.output_path@
    }

    fn url(&self) -> (r: String) {
        self.url.clone()
    }

    fn input_path(&self) -> (r: String) {
        self.input_path.clone()
    }

    fn output_path(&self) -> (r: String) {
        self.output_path.clone()
    }
}

/// What a table's entry under `key` becomes in the template engine.
pub open spec fn toml_field_json(v: toml::Value, key: Seq<char>) -> Json {
    match toml_json(v) {
        Json::Object(m) => m[key],
        _ => Json::Object(Map::empty()),
    }
}

/// The engine entries of a parsed document: its title (empty when the frontmatter has no
/// string title), its body, its `template` entry (the string `default` when there is none),
/// and its `vars` entry (an empty table when there is none).
pub open spec fn document_entries(fm: toml::Value, body: Seq<char>) -> Map<Seq<char>, Json> {
    Map::empty().insert(
        "title"@,
        Json::Str(
            if toml_strings(fm).contains_key("title"@) {
                toml_strings(fm)["title"@]
            } else {
                ""@
            },
        ),
    ).insert("body"@, Json::Str(body)).insert(
        "template"@,
        if toml_keys(fm).contains("template"@) {
            toml_field_json(fm, "template"@)
        } else {
            Json::Str("default"@)
        },
    ).insert(
        "vars"@,
        if toml_keys(fm).contains("vars"@) {
            toml_field_json(fm, "vars"@)
        } else {
            Json::Object(Map::empty())
        },
    )
}

impl parser::FrontmatterAndBody {
    /// The engine context of a parsed document, for a template of its own choosing.
    pub fn to_context(&self) -> (r: tera::Context)
        ensures
            context_entries(r) == document_entries(self.frontmatter, self.body@),
    {
        let mut c = new_context();
        match crate::frontmatter::string_entry(&self.frontmatter, "title") {
            Some(title) => insert_text(&mut c, "title", title.as_str()),
            None => insert_text(&mut c, "title", ""),
        }
        insert_text(&mut c, "body", self.body.as_str());
        match crate::frontmatter::table_entry(&self.frontmatter, "template") {
            Some(template) => insert_toml(&mut c, "template", &template),
            None => insert_text(&mut c, "template", "default"),
        }
        match crate::frontmatter::table_entry(&self.frontmatter, "vars") {
            Some(vars) => insert_toml(&mut c, "vars", &vars),
            None => insert_toml(&mut c, "vars", &crate::frontmatter::empty_table()),
        }
        c
    }
}

} // verus!
