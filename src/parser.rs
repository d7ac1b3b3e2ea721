//! Split a document into its TOML frontmatter and its body, and render the body.
use vstd::prelude::*;
use crate::markdown::{body_html, excerpt_html, render};
use crate::frontmatter::{toml_error_message, fields_of, Fields, empty_table, parse_toml, toml_keys, toml_parse, toml_strings};
use crate::text::{
    blank_between, chars_of, find_from, is_blank, join, lemma_index_of_bounds, piece,
    replace_from, split, split_from,
};

verus! {

/// The frontmatter of a document: a TOML table.
pub type Frontmatter = toml::Value;

/// The line that opens and closes the frontmatter block.
pub const DELIMITER: &'static str = "+++\n";

/// What stands between two body pieces that a delimiter had separated.
pub const REJOIN: &'static str = "+++\n";

pub open spec fn delimiter() -> Seq<char> {
    seq!['+', '+', '+', '\n']
}

pub open spec fn rejoin() -> Seq<char> {
    delimiter()
}

#[derive(Debug, Clone, PartialEq, Eq)]
pub enum Error {
    /// The frontmatter block is not a TOML document; the message of the TOML reader.
    InvalidFrontmatter(String),
    /// Text that is not white space stands before the first delimiter; that text.
    ContentBeforeFrontmatter(String),
}

/// A parsed document: its frontmatter, its body as HTML, and the excerpt as HTML
/// when the body marks one.
#[derive(Debug)]
pub struct FrontmatterAndBody {
    pub frontmatter: Frontmatter,
    pub body: String,
    pub excerpt: Option<String>,
}

/// The three parts of a document with a frontmatter block.
pub open spec fn has_block(doc: Seq<char>) -> bool {
    split(doc, delimiter()).len() >= 3
}

/// The text before the first delimiter.
pub open spec fn before_block(doc: Seq<char>) -> Seq<char> {
    split(doc, delimiter())[0]
}

/// The text between the first and the second delimiter.
pub open spec fn block_text(doc: Seq<char>) -> Seq<char> {
    split(doc, delimiter())[1]
}

/// The body: the whole document when it has no block, else everything after the second
/// delimiter, with each further delimiter put back.
pub open spec fn body_text(doc: Seq<char>) -> Seq<char> {
    if has_block(doc) {
        join(split(doc, delimiter()).skip(2), rejoin())
    } else {
        doc
    }
}

/// The frontmatter is the empty table.
pub open spec fn is_empty_table(v: toml::Value) -> bool {
    toml_keys(v) =~= Set::empty() && toml_strings(v) =~= Map::empty()
}

/// What `extract_frontmatter` makes of a document, as a relation on its result.
pub open spec fn extracts(doc: Seq<char>, r: Result<(Frontmatter, String), Error>) -> bool {
    if !has_block(doc) {
        r matches Ok((fm, body)) && is_empty_table(fm) && body@ == doc
    } else if !is_blank(before_block(doc)) {
        r matches Err(Error::ContentBeforeFrontmatter(t)) && t@ == before_block(doc)
    } else {
        match toml_parse(block_text(doc)) {
            None => r matches Err(Error::InvalidFrontmatter(m)) && m@ == toml_error_message(
                block_text(doc),
            ),
            Some(v) => r matches Ok((fm, body)) && fm == v && body@ == body_text(doc),
        }
    }
}

proof fn lemma_split_shape(s: Seq<char>, d: Seq<char>)
    requires
        d.len() > 0,
    ensures
        ({
            let i1 = crate::text::index_of(s, d, 0);
            let i2 = crate::text::index_of(s, d, i1 + d.len());
            &&& (split(s, d).len() >= 3 <==> (i1 >= 0 && i2 >= 0))
            &&& i1 >= 0 ==> 0 <= i1 && i1 + d.len() <= s.len() && split(s, d)[0] == s.subrange(
                0,
                i1,
            )
            &&& i1 < 0 ==> split(s, d).len() == 1
            &&& (i1 >= 0 && i2 >= 0) ==> i1 + d.len() <= i2 && i2 + d.len() <= s.len() && split(
                s,
                d,
            )[1] == s.subrange(i1 + d.len(), i2) && split(s, d).skip(2) == split_from(
                s,
                d,
                i2 + d.len(),
            )
        }),
{
    let i1 = crate::text::index_of(s, d, 0);
    lemma_index_of_bounds(s, d, 0);
    crate::text::lemma_split_from_nonempty(s, d, 0);
    if i1 >= 0 {
        let i2 = crate::text::index_of(s, d, i1 + d.len());
        lemma_index_of_bounds(s, d, i1 + d.len());
        crate::text::lemma_split_from_nonempty(s, d, i1 + d.len());
        if i2 >= 0 {
            crate::text::lemma_split_from_nonempty(s, d, i2 + d.len());
            assert(split(s, d).skip(2) =~= split_from(s, d, i2 + d.len()));
        } else {
            assert(split_from(s, d, i1 + d.len()).len() == 1);
        }
    }
}

/// Separates a document's frontmatter block from its body.
///
/// With fewer than two delimiters the frontmatter is the empty table and the body is the
/// whole document. Otherwise the text before the first delimiter must be white space,
/// the text between the first two must be a TOML document, and the body is the rest.
pub fn extract_frontmatter(markdown: &str) -> (r: Result<(Frontmatter, String), Error>)
    ensures
        extracts(markdown@, r),
        !has_block(markdown@) ==> (r matches Ok((fm, body)) && is_empty_table(fm) && body@
            == markdown@),
        has_block(markdown@) && !is_blank(before_block(markdown@)) ==> r matches Err(
            Error::ContentBeforeFrontmatter(_),
        ),
{
    let cs = chars_of(markdown);
    let delim = chars_of(DELIMITER);
    let n = cs.len();
    proof {
        reveal_strlit("+++\n");
        
        assert(delim@ =~= delimiter());
        assert(REJOIN@ =~= rejoin());
        lemma_split_shape(markdown@, delimiter());
    }
    let first = find_from(&cs, &delim, 0);
    let (i1, i2) = match first {
        None => {
            assert(markdown@.subrange(0, markdown@.len() as int) =~= markdown@);
            return Ok((empty_table(), piece(markdown, 0, cs.len())));
        },
        Some(i1) => match find_from(&cs, &delim, i1 + delim.len()) {
            None => {
                assert(markdown@.subrange(0, markdown@.len() as int) =~= markdown@);
                return Ok((empty_table(), piece(markdown, 0, cs.len())));
            },
            Some(i2) => (i1, i2),
        },
    };
    if !blank_between(&cs, 0, i1) {
        return Err(Error::ContentBeforeFrontmatter(piece(markdown, 0, i1)));
    }
    let block = piece(markdown, i1 + delim.len(), i2);
    match parse_toml(block.as_str()) {
        Err(message) => Err(Error::InvalidFrontmatter(message)),
        Ok(v) => {
            let body = replace_from(markdown, &cs, &delim, REJOIN, i2 + delim.len());
            Ok((v, body))
        },
    }
}

/// What `parse_markdown` makes of a document, as a relation on its result: the frontmatter
/// as `extract_frontmatter` finds it, the body rendered to HTML, and the excerpt.
pub open spec fn parses(doc: Seq<char>, r: Result<FrontmatterAndBody, Error>) -> bool {
    if has_block(doc) && !is_blank(before_block(doc)) {
        r matches Err(Error::ContentBeforeFrontmatter(t)) && t@ == before_block(doc)
    } else if has_block(doc) && toml_parse(block_text(doc)) is None {
        r matches Err(Error::InvalidFrontmatter(m)) && m@ == toml_error_message(block_text(doc))
    } else {
        &&& r is Ok
        &&& if has_block(doc) {
            toml_parse(block_text(doc)) == Some(r->Ok_0.frontmatter)
        } else {
            is_empty_table(r->Ok_0.frontmatter)
        }
        &&& r->Ok_0.body@ == body_html(body_text(doc))
        &&& match r->Ok_0.excerpt {
            Some(x) => excerpt_html(body_text(doc)) == Some(x@),
            None => excerpt_html(body_text(doc)) is None,
        }
    }
}

/// Parses a markdown document: its frontmatter, its body as HTML with highlighted code,
/// and its excerpt as HTML when the body marks one.
pub fn parse_markdown(markdown: &str) -> (r: Result<FrontmatterAndBody, Error>)
    ensures
        parses(markdown@, r),
{
    let (frontmatter, body) = extract_frontmatter(markdown)?;
    let (html, excerpt) = render(body.as_str());
    Ok(FrontmatterAndBody { frontmatter, body: html, excerpt })
}

/// Parsing is a function of the document: two parses of one text agree on the outcome,
/// on the frontmatter value (so on anything computed from it, such as its serialization),
/// on the body and on the excerpt, or on the error and its text.
pub proof fn law_parse_is_deterministic(
    doc: Seq<char>,
    r1: Result<FrontmatterAndBody, Error>,
    r2: Result<FrontmatterAndBody, Error>,
)
    requires
        parses(doc, r1),
        parses(doc, r2),
    ensures
        r1 is Ok <==> r2 is Ok,
        r1 is Ok ==> {
            &&& has_block(doc) ==> r1->Ok_0.frontmatter == r2->Ok_0.frontmatter
            &&& !has_block(doc) ==> is_empty_table(r1->Ok_0.frontmatter) && is_empty_table(
                r2->Ok_0.frontmatter,
            )
            &&& r1->Ok_0.body@ == r2->Ok_0.body@
            &&& r1->Ok_0.excerpt is Some <==> r2->Ok_0.excerpt is Some
            &&& r1->Ok_0.excerpt is Some ==> r1->Ok_0.excerpt->Some_0@
                == r2->Ok_0.excerpt->Some_0@
        },
        r1 is Err ==> match (r1->Err_0, r2->Err_0) {
            (Error::ContentBeforeFrontmatter(a), Error::ContentBeforeFrontmatter(b)) => a@ == b@,
            (Error::InvalidFrontmatter(a), Error::InvalidFrontmatter(b)) => a@ == b@,
            _ => false,
        },
{
}

/// The document's frontmatter block, if it has one, is preceded by white space only and
/// is a TOML document.
pub open spec fn frontmatter_readable(doc: Seq<char>) -> bool {
    !has_block(doc) || (is_blank(before_block(doc)) && toml_parse(block_text(doc)) is Some)
}

/// What the title/template schema reads from a readable document's frontmatter (a
/// document without a block has the empty table, so no title).
pub open spec fn doc_fields(doc: Seq<char>) -> Fields {
    if has_block(doc) {
        fields_of(toml_parse(block_text(doc))->Some_0)
    } else {
        Fields::NoTitle
    }
}

/// The frontmatter found by parsing is the one whose fields `doc_fields` reads.
pub proof fn lemma_parsed_fields(doc: Seq<char>, fm: Frontmatter)
    requires
        frontmatter_readable(doc),
        if has_block(doc) {
            toml_parse(block_text(doc)) == Some(fm)
        } else {
            is_empty_table(fm)
        },
    ensures
        fields_of(fm) == doc_fields(doc),
{
}

} // verus!
