//! Pages: markdown, HTML or XML files under `pages/`, published at the same relative path.
use vstd::prelude::*;
use crate::frontmatter::{decodes, read_fields, Fields, SchemaError};
use crate::markdown::body_html;
use crate::post::{schema_error, template_file, template_name};
use crate::parser::{
    self, body_text, doc_fields, extract_frontmatter, extracts, frontmatter_readable,
    lemma_parsed_fields, parse_markdown, parses,
};
use crate::paths::{dir_of, extension_of, file_name_of, lemma_dir_of_prefixed, path_parts, stem_of};
use crate::render::Error as RenderError;
use crate::text::{chars_of, piece, same_text};

verus! {

/// The directory that pages are read from.
pub const READ_DIRECTORY: &'static str = "pages";

/// The template of a page whose frontmatter names none.
pub const DEFAULT_TEMPLATE: &'static str = "default";

/// What stands in front of a page's path below the site root.
pub open spec fn page_prefix() -> Seq<char> {
    seq!['p', 'a', 'g', 'e', 's', '/']
}

pub open spec fn is_page_extension(ext: Seq<char>) -> bool {
    ext == "md"@ || ext == "markdown"@ || ext == "html"@ || ext == "xml"@
}

pub open spec fn is_markdown_extension(ext: Seq<char>) -> bool {
    ext == "md"@ || ext == "markdown"@
}

/// The extension of a page's output: `html` for markdown, the source's own otherwise.
pub open spec fn output_extension(ext: Seq<char>) -> Seq<char> {
    if is_markdown_extension(ext) {
        "html"@
    } else {
        ext
    }
}

/// The metadata that a page's path alone gives.
#[derive(Debug, PartialEq, Eq)]
pub struct PageFile {
    pub slug: String,
    pub extension: String,
    pub filename: String,
    /// The site-relative URL: the output path with a leading `/`.
    pub url: String,
    /// The path of the source, relative to the site root.
    pub input_path: String,
    /// The path of the output, relative to the output root: the path below `pages/`, with
    /// the extension `html` for markdown.
    pub output_path: String,
}

/// How a page's path resolves, as a relation on the result of `PageFile::try_from`.
pub open spec fn resolves_page(p: Seq<char>, r: Result<PageFile, RenderError>) -> bool {
    let name = file_name_of(p);
    let ext = extension_of(name);
    if name.len() == 0 || !is_page_extension(ext) {
        r matches Err(RenderError::Path(x)) && x@ == p
    } else if !(p.len() >= 6 && p.take(6) == page_prefix()) {
        r matches Err(RenderError::StripPrefix(x)) && x@ == p
    } else {
        r matches Ok(f) && f.slug@ == stem_of(name) && f.extension@ == ext && f.filename@ == name
            && f.input_path@ == p && f.output_path@ == dir_of(p).skip(6) + stem_of(name)
            + seq!['.'] + output_extension(ext) && f.url@ == seq!['/'] + f.output_path@
    }
}

/// Whether a page's extension marks markdown.
pub fn extension_is_markdown(extension: &str) -> (r: bool)
    ensures
        r == is_markdown_extension(extension@),
{
    same_text(extension, "md") || same_text(extension, "markdown")
}

impl PageFile {
    /// Resolves a page's path (`pages/about.md`): the slug is the file's stem, the output
    /// path the path below `pages/` (with `.html` for markdown) and the URL the same with a
    /// leading `/`.
    pub fn try_from(path: &str) -> (r: Result<PageFile, RenderError>)
        ensures
            resolves_page(path@, r),
    {
        let parts = path_parts(path);
        let extension = parts.extension;
        if parts.name.unicode_len() == 0 {
            return Err(RenderError::Path(String::from_str(path)));
        }
        let markdown = extension_is_markdown(extension.as_str());
        if !(markdown || same_text(extension.as_str(), "html") || same_text(
            extension.as_str(),
            "xml",
        )) {
            return Err(RenderError::Path(String::from_str(path)));
        }
        let cs = chars_of(path);
        let prefix = chars_of("pages/");
        proof {
            reveal_strlit("pages/");
            reveal_strlit("/");
            reveal_strlit(".");
            assert(prefix@ =~= page_prefix());
            assert("/"@ =~= seq!['/']);
            assert("."@ =~= seq!['.']);
        }
        if !crate::text::matches_at(&cs, &prefix, 0) {
            return Err(RenderError::StripPrefix(String::from_str(path)));
        }
        proof {
            assert(path@.subrange(0, 6) =~= path@.take(6));
            assert(path@[5] == page_prefix()[5]);
            lemma_dir_of_prefixed(path@, 6);
            assert(parts.dir@.take(6) =~= page_prefix());
        }
        let dir_len = parts.dir.unicode_len();
        let mut output_path = piece(parts.dir.as_str(), 6, dir_len);
        proof {
            assert(parts.dir@.subrange(6, dir_len as int) =~= parts.dir@.skip(6));
        }
        output_path.append(parts.stem.as_str());
        output_path.append(".");
        if markdown {
            output_path.append("html");
        } else {
            output_path.append(extension.as_str());
        }
        let mut url = String::from_str("/");
        url.append(output_path.as_str());
        Ok(PageFile {
            slug: parts.stem,
            extension,
            filename: parts.name,
            url,
            input_path: String::from_str(path),
            output_path,
        })
    }
}

/// What a page's frontmatter must give: a title, and maybe a template name.
#[derive(Debug)]
pub struct PageFrontmatter {
    pub title: String,
    pub template: Option<String>,
}

impl PageFrontmatter {
    /// Decodes a page's frontmatter table. Keys other than `title` and `template` are
    /// ignored.
    pub fn from_frontmatter(frontmatter: &parser::Frontmatter) -> (r: Result<
        PageFrontmatter,
        SchemaError,
    >)
        ensures
            decodes(
                *frontmatter,
                match r {
                    Ok(f) => Ok((f.title, f.template)),
                    Err(e) => Err(e),
                },
            ),
    {
        match read_fields(frontmatter) {
            Ok((title, template)) => Ok(PageFrontmatter { title, template }),
            Err(e) => Err(e),
        }
    }
}

/// A page, ready to render.
#[derive(Debug)]
pub struct Page {
    /// The path of the source, relative to the site root: `pages/about.md`.
    pub input_path: String,
    /// The path of the output, relative to the output root: `about.html`.
    pub output_path: String,
    /// The output path with a leading `/`.
    pub url: String,
    pub title: String,
    /// The template file to render with.
    pub template: String,
    /// The body: HTML rendered from markdown, or the source's own text (itself a template)
    /// for HTML and XML pages.
    pub content: String,
    pub slug: String,
    /// The extension of the source.
    pub extension: String,
}

/// How a page is made of its file and its text, as a relation on the result of
/// `Page::from_content`.
pub open spec fn assembles_page(f: PageFile, doc: Seq<char>, r: Result<Page, RenderError>) -> bool {
    let markdown = is_markdown_extension(f.extension@);
    if !frontmatter_readable(doc) {
        r matches Err(RenderError::Markdown(e)) && extracts(doc, Err(e))
    } else {
        match doc_fields(doc) {
            Fields::NoTitle => r matches Err(RenderError::MissingField(x)) && x@ == f.input_path@,
            Fields::BadTemplate => r matches Err(RenderError::ParseFrontmatter(x)) && x@
                == f.input_path@,
            Fields::Read(title, named) => r matches Ok(p) && p.title@ == title && p.template@
                == template_file(named, DEFAULT_TEMPLATE@)
                && p.content@ == (if markdown {
                body_html(body_text(doc))
            } else {
                body_text(doc)
            }) && p.input_path@ == f.input_path@ && p.output_path@ == f.output_path@ && p.url@
                == f.url@ && p.slug@ == f.slug@ && p.extension@ == f.extension@,
        }
    }
}

proof fn lemma_same_failure(doc: Seq<char>, e: parser::Error)
    requires
        parses(doc, Err(e)),
    ensures
        extracts(doc, Err(e)),
{
}

impl Page {
    /// Whether this page's source is markdown.
    pub fn is_markdown(&self) -> (r: bool)
        ensures
            r == is_markdown_extension(self.extension@),
    {
        extension_is_markdown(self.extension.as_str())
    }

    /// Makes a page of its resolved file and its text. The frontmatter gives the title and
    /// the template (`default` when it names none, completed with `.html`); a markdown
    /// page's body is rendered, an HTML or XML page keeps its body as it is.
    pub fn from_content(page_file: PageFile, content: &str) -> (r: Result<Page, RenderError>)
        ensures
            assembles_page(page_file, content@, r),
    {
        let markdown = extension_is_markdown(page_file.extension.as_str());
        let (frontmatter, body) = if markdown {
            match parse_markdown(content) {
                Ok(parsed) => (parsed.frontmatter, parsed.body),
                Err(e) => {
                    proof {
                        lemma_same_failure(content@, e);
                    }
                    return Err(RenderError::Markdown(e));
                },
            }
        } else {
            match extract_frontmatter(content) {
                Ok(parts) => parts,
                Err(e) => {
                    return Err(RenderError::Markdown(e));
                },
            }
        };
        proof {
            lemma_parsed_fields(content@, frontmatter);
        }
        let PageFrontmatter { title, template: named } = match PageFrontmatter::from_frontmatter(
            &frontmatter,
        ) {
            Ok(fields) => fields,
            Err(e) => {
                return Err(schema_error(e, &page_file.input_path));
            },
        };
        let template = template_name(named, DEFAULT_TEMPLATE);
        Ok(Page {
            input_path: page_file.input_path,
            output_path: page_file.output_path,
            url: page_file.url,
            title,
            template,
            content: body,
            slug: page_file.slug,
            extension: page_file.extension,
        })
    }
}

} // verus!
