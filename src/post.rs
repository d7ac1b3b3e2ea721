//! Posts: files named `YYYY-MM-DD-slug.md` under `posts/`, published under `YYYY/MM/`.
use vstd::prelude::*;
use chrono::Datelike;
use crate::frontmatter::{decodes, read_fields, Fields, SchemaError};
use crate::markdown::{body_html, excerpt_html};
use crate::parser::{
    self, body_text, doc_fields, frontmatter_readable, lemma_parsed_fields, parse_markdown, parses,
};
use crate::paths::{extension_of, file_name_of, path_parts, stem_of};
use crate::render::Error as RenderError;
use crate::text::{
    chars_of, find_from, index_of, join, lemma_index_of_bounds, lemma_join_split,
    lemma_split_from_nonempty, piece, same_text, split, split_from,
};

verus! {

/// A calendar date.
#[derive(Debug, Clone, Copy, PartialEq, Eq, Structural, PartialOrd, Ord)]
pub struct DateStruct {
    pub year: i32,
    pub month: u32,
    pub day: u32,
}

/// `a` comes before `b` in the calendar.
pub open spec fn date_before(a: DateStruct, b: DateStruct) -> bool {
    a.year < b.year || (a.year == b.year && (a.month < b.month || (a.month == b.month && a.day
        < b.day)))
}

/// The date, as year, month and day, that `chrono::NaiveDate::parse_from_str` reads from a
/// text in a format, if it reads one.
pub uninterp spec fn parsed_date(text: Seq<char>, format: Seq<char>) -> Option<(int, int, int)>;

/// The text that `chrono` writes for the date of a year, month and day in a format, if
/// they make a date.
pub uninterp spec fn formatted_date(year: int, month: int, day: int, format: Seq<char>) -> Option<
    Seq<char>,
>;

/// Relies on `chrono::NaiveDate::parse_from_str` and the `Datelike` getters: a parsed date
/// is a valid date, with a month in 1..=12 and a day in 1..=31, so `NaiveDate::from_ymd_opt`
/// gives it back and `format_date` writes it in either of its formats.
#[verifier::external_body]
fn parse_date(text: &str, format: &str) -> (r: Option<DateStruct>)
    ensures
        match r {
            Some(d) => parsed_date(text@, format@) == Some((d.year as int, d.month as int, d.day as int))
                && 1 <= d.month <= 12 && 1 <= d.day <= 31 && formatted_date(
                d.year as int,
                d.month as int,
                d.day as int,
                "%Y/%m"@,
            ) is Some && formatted_date(d.year as int, d.month as int, d.day as int, "%Y-%m-%d"@) is Some,
            None => parsed_date(text@, format@) is None,
        },
{
    let d = chrono::NaiveDate::parse_from_str(text, format).ok()?;
    Some(DateStruct { year: d.year(), month: d.month(), day: d.day() })
}

/// Relies on `chrono::NaiveDate::from_ymd_opt` and `NaiveDate::format`; both formats that
/// are admitted are valid, so writing them cannot fail.
#[verifier::external_body]
pub(crate) fn format_date(d: DateStruct, format: &str) -> (r: Option<String>)
    requires
        format@ == "%Y/%m"@ || format@ == "%Y-%m-%d"@,
    ensures
        match r {
            Some(s) => formatted_date(d.year as int, d.month as int, d.day as int, format@) == Some(s@),
            None => formatted_date(d.year as int, d.month as int, d.day as int, format@) is None,
        },
{
    let date = chrono::NaiveDate::from_ymd_opt(d.year, d.month, d.day)?;
    Some(date.format(format).to_string())
}

/// The directory that posts are read from.
pub const READ_DIRECTORY: &'static str = "posts";

/// The template of a post whose frontmatter names none.
pub const DEFAULT_TEMPLATE: &'static str = "post";

/// What a template name is completed with.
pub const TEMPLATE_SUFFIX: &'static str = ".html";

/// The format of the date in a post's file name, and of its `date_str`.
pub const DATE_FORMAT: &'static str = "%Y-%m-%d";

/// The format of the directory that a post is published in.
pub const DIR_FORMAT: &'static str = "%Y/%m";

pub open spec fn dash() -> Seq<char> {
    seq!['-']
}

/// The date part of a post's stem: its first three `-`-separated parts.
pub open spec fn date_text_of(stem: Seq<char>) -> Seq<char> {
    join(split(stem, dash()).take(3), dash())
}

/// The slug of a post's stem: the parts after the third, joined again with `-`.
pub open spec fn slug_text_of(stem: Seq<char>) -> Seq<char> {
    join(split(stem, dash()).skip(3), dash())
}

pub open spec fn is_post_extension(ext: Seq<char>) -> bool {
    ext == "md"@ || ext == "markdown"@
}

/// The metadata that a post's path alone gives.
#[derive(Debug, PartialEq, Eq)]
pub struct PostFile {
    pub date: DateStruct,
    pub slug: String,
    pub extension: String,
    /// The site-relative URL: the output path with a leading `/`.
    pub url: String,
    /// The path of the source, relative to the site root.
    pub input_path: String,
    /// The path of the output, relative to the output root: `YYYY/MM/slug.html`.
    pub output_path: String,
}

/// How a post's path resolves, as a relation on the result of `PostFile::try_from`. A path
/// whose date parses and whose extension is `md` or `markdown` always resolves, to a date
/// that can be written in both formats.
pub open spec fn resolves_post(p: Seq<char>, r: Result<PostFile, RenderError>) -> bool {
    let name = file_name_of(p);
    let stem = stem_of(name);
    let ext = extension_of(name);
    if split(stem, dash()).len() < 4 {
        r matches Err(RenderError::ExtractDate(x)) && x@ == p
    } else {
        match parsed_date(date_text_of(stem), DATE_FORMAT@) {
            None => r matches Err(RenderError::ParseDate(x)) && x@ == p,
            Some((y, m, d)) => if !is_post_extension(ext) {
                r matches Err(RenderError::Path(x)) && x@ == p
            } else {
                &&& r matches Ok(f)
                &&& formatted_date(y, m, d, DIR_FORMAT@) is Some
                &&& formatted_date(y, m, d, DATE_FORMAT@) is Some
                &&& r->Ok_0.date.year == y && r->Ok_0.date.month == m && r->Ok_0.date.day == d
                &&& r->Ok_0.slug@ == slug_text_of(stem)
                &&& r->Ok_0.extension@ == ext
                &&& r->Ok_0.input_path@ == p
                &&& r->Ok_0.output_path@ == formatted_date(y, m, d, DIR_FORMAT@)->Some_0 + seq!['/']
                    + slug_text_of(stem) + ".html"@
                &&& r->Ok_0.url@ == seq!['/'] + r->Ok_0.output_path@
            },
        }
    }
}

proof fn lemma_stem_parts(s: Seq<char>)
    ensures
        ({
            let i1 = index_of(s, dash(), 0);
            let i2 = index_of(s, dash(), i1 + 1);
            let i3 = index_of(s, dash(), i2 + 1);
            &&& (split(s, dash()).len() >= 4 <==> (i1 >= 0 && i2 >= 0 && i3 >= 0))
            &&& (i1 >= 0 && i2 >= 0 && i3 >= 0) ==> i3 + 1 <= s.len() && date_text_of(s)
                == s.subrange(0, i3) && slug_text_of(s) == s.subrange(i3 + 1, s.len() as int)
        }),
{
    let d = dash();
    let i1 = index_of(s, d, 0);
    lemma_index_of_bounds(s, d, 0);
    lemma_split_from_nonempty(s, d, 0);
    if i1 < 0 {
        assert(split(s, d) == seq![s.subrange(0, s.len() as int)]);
    } else {
        let p1 = split_from(s, d, i1 + 1);
        assert(split(s, d) == seq![s.subrange(0, i1)] + p1);
        let i2 = index_of(s, d, i1 + 1);
        lemma_index_of_bounds(s, d, i1 + 1);
        lemma_split_from_nonempty(s, d, i1 + 1);
        if i2 < 0 {
            assert(p1 == seq![s.subrange(i1 + 1, s.len() as int)]);
        } else {
            let p2 = split_from(s, d, i2 + 1);
            assert(p1 == seq![s.subrange(i1 + 1, i2)] + p2);
            let i3 = index_of(s, d, i2 + 1);
            lemma_index_of_bounds(s, d, i2 + 1);
            lemma_split_from_nonempty(s, d, i2 + 1);
            if i3 < 0 {
                assert(p2 == seq![s.subrange(i2 + 1, s.len() as int)]);
            } else {
                let p3 = split_from(s, d, i3 + 1);
                assert(p2 == seq![s.subrange(i2 + 1, i3)] + p3);
                lemma_split_from_nonempty(s, d, i3 + 1);
                lemma_join_split(s, d, i3 + 1);
                let parts = split(s, d);
                assert(parts =~= seq![
                    s.subrange(0, i1),
                    s.subrange(i1 + 1, i2),
                    s.subrange(i2 + 1, i3),
                ] + p3);
                assert(parts.skip(3) =~= p3);
                let first = parts.take(3);
                assert(first =~= seq![
                    s.subrange(0, i1),
                    s.subrange(i1 + 1, i2),
                    s.subrange(i2 + 1, i3),
                ]);
                let tail2 = seq![s.subrange(i1 + 1, i2), s.subrange(i2 + 1, i3)];
                assert(first.drop_first() =~= tail2);
                assert(tail2.drop_first() =~= seq![s.subrange(i2 + 1, i3)]);
                assert(join(seq![s.subrange(i2 + 1, i3)], d) == s.subrange(i2 + 1, i3));
                assert(join(tail2, d) == s.subrange(i1 + 1, i2) + d + s.subrange(i2 + 1, i3));
                assert(join(first, d) == s.subrange(0, i1) + d + join(tail2, d));
                assert(s.subrange(i1, i1 + 1) == d);
                assert(s.subrange(i2, i2 + 1) == d);
                assert(s.subrange(0, i1) + d + (s.subrange(i1 + 1, i2) + d + s.subrange(
                    i2 + 1,
                    i3,
                )) =~= s.subrange(0, i3));
            }
        }
    }
}

impl PostFile {
    /// Resolves a post's path (`posts/YYYY-MM-DD-slug.md`): its date and slug come from the
    /// file name, its output path is `YYYY/MM/slug.html` and its URL the same with a leading `/`.
    pub fn try_from(path: &str) -> (r: Result<PostFile, RenderError>)
        ensures
            resolves_post(path@, r),
    {
        let parts = path_parts(path);
        let stem = parts.stem;
        let cs = chars_of(stem.as_str());
        let d = chars_of("-");
        let n = cs.len();
        proof {
            reveal_strlit("-");
            reveal_strlit("/");
            assert("/"@ =~= seq!['/']);
            assert(d@ =~= dash());
            lemma_stem_parts(stem@);
            lemma_index_of_bounds(stem@, dash(), 0);
        }
        let i1 = match find_from(&cs, &d, 0) {
            Some(i) => i,
            None => {
                return Err(RenderError::ExtractDate(String::from_str(path)));
            },
        };
        proof {
            lemma_index_of_bounds(stem@, dash(), i1 + 1);
        }
        let i2 = match find_from(&cs, &d, i1 + 1) {
            Some(i) => i,
            None => {
                return Err(RenderError::ExtractDate(String::from_str(path)));
            },
        };
        proof {
            lemma_index_of_bounds(stem@, dash(), i2 + 1);
        }
        let i3 = match find_from(&cs, &d, i2 + 1) {
            Some(i) => i,
            None => {
                return Err(RenderError::ExtractDate(String::from_str(path)));
            },
        };
        let date_text = piece(stem.as_str(), 0, i3);
        let slug = piece(stem.as_str(), i3 + 1, n);
        let date = match parse_date(date_text.as_str(), DATE_FORMAT) {
            Some(date) => date,
            None => {
                return Err(RenderError::ParseDate(String::from_str(path)));
            },
        };
        let extension = parts.extension;
        if !(same_text(extension.as_str(), "md") || same_text(extension.as_str(), "markdown")) {
            return Err(RenderError::Path(String::from_str(path)));
        }
        let dir = match format_date(date, DIR_FORMAT) {
            Some(dir) => dir,
            None => {
                return Err(RenderError::ParseDate(String::from_str(path)));
            },
        };
        let mut output_path = dir;
        output_path.append("/");
        output_path.append(slug.as_str());
        output_path.append(".html");
        let mut url = String::from_str("/");
        url.append(output_path.as_str());
        Ok(PostFile { date, slug, extension, url, input_path: String::from_str(path), output_path })
    }
}

/// A template name completed with the template suffix; the default when none is named.
pub open spec fn template_file(named: Option<Seq<char>>, default: Seq<char>) -> Seq<char> {
    let base = match named {
        Some(t) => t,
        None => default,
    };
    base + ".html"@
}

/// The error that a schema failure of a file's frontmatter becomes.
pub open spec fn schema_failure(e: SchemaError, path: Seq<char>, r: RenderError) -> bool {
    match e {
        SchemaError::MissingTitle => r matches RenderError::MissingField(x) && x@ == path,
        SchemaError::TemplateNotString => r matches RenderError::ParseFrontmatter(x) && x@ == path,
    }
}

pub fn schema_error(e: SchemaError, path: &String) -> (r: RenderError)
    ensures
        schema_failure(e, path@, r),
{
    match e {
        SchemaError::MissingTitle => RenderError::MissingField(path.clone()),
        SchemaError::TemplateNotString => RenderError::ParseFrontmatter(path.clone()),
    }
}

/// Completes a template name with the template suffix, or takes the default.
pub fn template_name(named: Option<String>, default: &str) -> (r: String)
    ensures
        r@ == template_file(
            match named {
                Some(t) => Some(t@),
                None => None,
            },
            default@,
        ),
{
    let mut template = match named {
        Some(t) => t,
        None => String::from_str(default),
    };
    template.append(TEMPLATE_SUFFIX);
    template
}

/// What a post's frontmatter must give: a title, and maybe a template name.
#[derive(Debug)]
pub struct PostFrontmatter {
    pub title: String,
    pub template: Option<String>,
}

impl PostFrontmatter {
    /// Decodes a post's frontmatter table. Keys other than `title` and `template` are
    /// ignored.
    pub fn from_frontmatter(frontmatter: &parser::Frontmatter) -> (r: Result<
        PostFrontmatter,
        SchemaError,
    >)
        ensures
            decodes(
                *frontmatter,
                match r {
                    Ok(f) => Ok((f.title, f.template)),
                    Err(e) => Err(e),
                },
            ),
    {
        match read_fields(frontmatter) {
            Ok((title, template)) => Ok(PostFrontmatter { title, template }),
            Err(e) => Err(e),
        }
    }
}

/// A post, ready to render.
#[derive(Debug)]
pub struct Post {
    /// The path of the source, relative to the site root: `posts/2024-12-28-my-post.md`.
    pub input_path: String,
    /// The path of the output, relative to the output root: `2024/12/my-post.html`.
    pub output_path: String,
    pub title: String,
    /// The template file to render with.
    pub template: String,
    /// The body as HTML.
    pub content: String,
    /// The HTML before the `<!--more-->` marker, or the whole body when there is none.
    pub excerpt: String,
    pub date: DateStruct,
    /// The date as `YYYY-MM-DD`.
    pub date_str: String,
    /// The output path with a leading `/`.
    pub url: String,
    pub slug: String,
}

/// How a post is made of its file and its text, as a relation on the result of
/// `Post::from_content`.
pub open spec fn assembles_post(f: PostFile, doc: Seq<char>, r: Result<Post, RenderError>) -> bool {
    if !frontmatter_readable(doc) {
        r matches Err(RenderError::Markdown(e)) && parses(doc, Err(e))
    } else {
        match doc_fields(doc) {
            Fields::NoTitle => r matches Err(RenderError::MissingField(x)) && x@ == f.input_path@,
            Fields::BadTemplate => r matches Err(RenderError::ParseFrontmatter(x)) && x@
                == f.input_path@,
            Fields::Read(title, named) => match formatted_date(
                f.date.year as int,
                f.date.month as int,
                f.date.day as int,
                DATE_FORMAT@,
            ) {
                None => r matches Err(RenderError::ParseDate(x)) && x@ == f.input_path@,
                Some(date_str) => r matches Ok(p) && p.title@ == title && p.template@
                    == template_file(named, DEFAULT_TEMPLATE@) && p.content@ == body_html(
                    body_text(doc),
                ) && p.excerpt@ == match excerpt_html(body_text(doc)) {
                    Some(x) => x,
                    None => body_html(body_text(doc)),
                } && p.date == f.date && p.date_str@ == date_str && p.input_path@
                    == f.input_path@ && p.output_path@ == f.output_path@ && p.url@ == f.url@
                    && p.slug@ == f.slug@,
            },
        }
    }
}

impl Post {
    /// Makes a post of its resolved file and its text: the frontmatter gives the title and
    /// the template (`post` by default, completed with `.html`), the body is rendered.
    pub fn from_content(post_file: PostFile, content: &str) -> (r: Result<Post, RenderError>)
        ensures
            assembles_post(post_file, content@, r),
    {
        let parsed = match parse_markdown(content) {
            Ok(parsed) => parsed,
            Err(e) => {
                return Err(RenderError::Markdown(e));
            },
        };
        proof {
            lemma_parsed_fields(content@, parsed.frontmatter);
        }
        let PostFrontmatter { title, template: named } = match PostFrontmatter::from_frontmatter(
            &parsed.frontmatter,
        ) {
            Ok(fields) => fields,
            Err(e) => {
                return Err(schema_error(e, &post_file.input_path));
            },
        };
        let template = template_name(named, DEFAULT_TEMPLATE);
        let date_str = match format_date(post_file.date, DATE_FORMAT) {
            Some(s) => s,
            None => {
                return Err(RenderError::ParseDate(post_file.input_path));
            },
        };
        let excerpt = match parsed.excerpt {
            Some(x) => x,
            None => parsed.body.clone(),
        };
        Ok(Post {
            input_path: post_file.input_path,
            output_path: post_file.output_path,
            title,
            template,
            content: parsed.body,
            excerpt,
            date: post_file.date,
            date_str,
            url: post_file.url,
            slug: post_file.slug,
        })
    }
}

/// Whether `a` comes before `b` in the calendar.
pub fn is_before(a: &DateStruct, b: &DateStruct) -> (r: bool)
    ensures
        r == date_before(*a, *b),
{
    a.year < b.year || (a.year == b.year && (a.month < b.month || (a.month == b.month && a.day
        < b.day)))
}

/// No post is older than one that follows it.
pub open spec fn newest_first(posts: Seq<Post>) -> bool {
    forall|i: int, j: int| 0 <= i < j < posts.len() ==> !date_before(posts[i].date, posts[j].date)
}

/// Two dates are the same day.
pub open spec fn same_date(a: DateStruct, b: DateStruct) -> bool {
    a.year == b.year && a.month == b.month && a.day == b.day
}

/// `out` places the posts of `orig`: its `a`-th post is the `idx[a]`-th of `orig`, and two
/// posts of one date stand in `out` in the order they had in `orig`.
pub open spec fn stable_placement(orig: Seq<Post>, out: Seq<Post>, idx: Seq<int>) -> bool {
    &&& idx.len() == out.len()
    &&& forall|a: int| 0 <= a < out.len() ==> 0 <= #[trigger] idx[a] < orig.len() && out[a] == orig[idx[a]]
    &&& forall|a: int, b: int|
        0 <= a < b < out.len() && same_date(out[a].date, out[b].date) ==> #[trigger] idx[a] < #[trigger] idx[b]
}

/// Orders posts by date, most recent first; posts of one date keep their order.
pub fn sort_newest_first(posts: Vec<Post>) -> (r: Vec<Post>)
    ensures
        newest_first(r@),
        r@.to_multiset() == posts@.to_multiset(),
        exists|idx: Seq<int>| stable_placement(posts@, r@, idx),
{
    broadcast use vstd::seq_lib::to_multiset_insert, vstd::seq_lib::to_multiset_build;

    let ghost all = posts@;
    let mut sorted: Vec<Post> = Vec::new();
    let ghost mut idx: Seq<int> = seq![];
    proof {
        assert(all.take(0) =~= seq![]);
        assert(sorted@.to_multiset() =~= all.take(0).to_multiset());
    }
    for p in it: posts
        invariant
            it.seq() == all,
            newest_first(sorted@),
            sorted@.to_multiset() == all.take(it.index() as int).to_multiset(),
            stable_placement(all, sorted@, idx),
            forall|a: int| 0 <= a < idx.len() ==> #[trigger] idx[a] < it.index(),
    {
        let ghost i = it.index();
        let mut k: usize = 0;
        while k < sorted.len() && !is_before(&sorted[k].date, &p.date)
            invariant
                k <= sorted@.len(),
                forall|j: int| 0 <= j < k ==> !date_before(#[trigger] sorted@[j].date, p.date),
            decreases sorted.len() - k,
        {
            k = k + 1;
        }
        proof {
            assert(p == all[i as int]);
        }
        let ghost old_sorted = sorted@;
        sorted.insert(k, p);
        proof {
            assert forall|a: int, b: int| 0 <= a < b < sorted@.len() implies !date_before(
                sorted@[a].date,
                sorted@[b].date,
            ) by {
                if b == k {
                } else if a == k {
                    if k < old_sorted.len() {
                        assert(date_before(old_sorted[k as int].date, p.date));
                        assert(!date_before(old_sorted[k as int].date, old_sorted[b - 1].date)
                            || k == b - 1);
                    }
                } else {
                    let a0 = if a < k { a } else { a - 1 };
                    let b0 = if b < k { b } else { b - 1 };
                    assert(sorted@[a] == old_sorted[a0]);
                    assert(sorted@[b] == old_sorted[b0]);
                    if a < k && b > k {
                        assert(!date_before(old_sorted[a0].date, p.date));
                    }
                }
            }
            assert(all.take(i + 1) =~= all.take(i as int).push(all[i as int]));
            vstd::seq_lib::to_multiset_build(all.take(i as int), all[i as int]);
            vstd::seq_lib::to_multiset_insert(old_sorted, k as int, p);
            assert(sorted@ == old_sorted.insert(k as int, p));
            let old_idx = idx;
            idx = old_idx.insert(k as int, i as int);
            assert forall|a: int| 0 <= a < sorted@.len() implies 0 <= #[trigger] idx[a] < all.len()
                && sorted@[a] == all[idx[a]] by {
                if a < k {
                    assert(idx[a] == old_idx[a]);
                } else if a > k {
                    assert(idx[a] == old_idx[a - 1]);
                }
            }
            assert forall|a: int, b: int|
                0 <= a < b < sorted@.len() && same_date(sorted@[a].date, sorted@[b].date)
                    implies #[trigger] idx[a] < #[trigger] idx[b] by {
                if b == k {
                    assert(idx[a] == old_idx[a]);
                } else if a == k {
                    assert(date_before(old_sorted[k as int].date, p.date));
                    if b - 1 > k {
                        assert(!date_before(old_sorted[k as int].date, old_sorted[b - 1].date));
                    }
                    assert(sorted@[b] == old_sorted[b - 1]);
                } else {
                    let a0 = if a < k { a } else { a - 1 };
                    let b0 = if b < k { b } else { b - 1 };
                    assert(sorted@[a] == old_sorted[a0] && idx[a] == old_idx[a0]);
                    assert(sorted@[b] == old_sorted[b0] && idx[b] == old_idx[b0]);
                }
            }
            assert forall|a: int| 0 <= a < idx.len() implies #[trigger] idx[a] < i + 1 by {
                if a < k {
                    assert(idx[a] == old_idx[a]);
                } else if a > k {
                    assert(idx[a] == old_idx[a - 1]);
                }
            }
        }
    }
    proof {
        assert(all.take(all.len() as int) =~= all);
    }
    sorted
}

} // verus!
