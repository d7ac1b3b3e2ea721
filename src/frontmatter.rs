//! The metadata block of a document: a TOML table, read through the `toml` crate.
use vstd::prelude::*;
use crate::render::{toml_json, Json};

verus! {

#[verifier::external_type_specification]
#[verifier::external_body]
pub struct ExTomlValue(toml::Value);

/// The value that `toml::from_str` reads from a text, if the text is a TOML document.
pub uninterp spec fn toml_parse(s: Seq<char>) -> Option<toml::Value>;

/// The message of the error that `toml::from_str` gives for a text that is no TOML document.
pub uninterp spec fn toml_error_message(s: Seq<char>) -> Seq<char>;

/// The keys of a TOML table (empty for any other value).
pub uninterp spec fn toml_keys(v: toml::Value) -> Set<Seq<char>>;

/// The entries of a TOML table whose values are strings.
pub uninterp spec fn toml_strings(v: toml::Value) -> Map<Seq<char>, Seq<char>>;

/// Relies on `toml::from_str::<toml::Value>`: reading a document, and the message of its
/// error, are functions of the text.
#[verifier::external_body]
pub(crate) fn parse_toml(s: &str) -> (r: Result<toml::Value, String>)
    ensures
        r is Ok <==> toml_parse(s@) is Some,
        r matches Ok(v) ==> toml_parse(s@) == Some(v),
        r matches Err(m) ==> m@ == toml_error_message(s@),
{
    match toml::from_str::<toml::Value>(s) {
        Ok(v) => Ok(v),
        Err(e) => Err(e.to_string()),
    }
}

/// Relies on `toml::map::Map::new`: a new table has no entries, and goes to the template
/// engine as an empty object.
#[verifier::external_body]
pub(crate) fn empty_table() -> (r: toml::Value)
    ensures
        toml_keys(r) =~= Set::empty(),
        toml_strings(r) =~= Map::empty(),
        toml_json(r) == Json::Object(Map::empty()),
{
    toml::Value::Table(toml::map::Map::new())
}

/// Relies on `toml::Value::get` with a `&str` index: it finds the entry of a table
/// under that key, and nothing in any other value.
#[verifier::external_body]
pub(crate) fn has_key(v: &toml::Value, key: &str) -> (r: bool)
    ensures
        r == toml_keys(*v).contains(key@),
{
    v.get(key).is_some()
}

/// Relies on `toml::Value::get` and `toml::Value::as_str`: the string stored under a key
/// of a table, if the entry is there and holds a string.
#[verifier::external_body]
pub(crate) fn string_entry(v: &toml::Value, key: &str) -> (r: Option<String>)
    ensures
        r is Some <==> toml_strings(*v).contains_key(key@),
        r matches Some(s) ==> s@ == toml_strings(*v)[key@],
{
    v.get(key).and_then(toml::Value::as_str).map(String::from)
}

/// What a frontmatter schema of a title and an optional template reads from a table.
pub enum Fields {
    /// The title, and the template if one is named.
    Read(Seq<char>, Option<Seq<char>>),
    /// No string under `title`.
    NoTitle,
    /// A `template` entry that is not a string.
    BadTemplate,
}

/// How a table decodes into the title/template schema: `title` must be a string;
/// `template` may be absent, and must otherwise be a string. Other keys are ignored.
pub open spec fn fields_of(v: toml::Value) -> Fields {
    if !toml_strings(v).contains_key("title"@) {
        Fields::NoTitle
    } else if toml_strings(v).contains_key("template"@) {
        Fields::Read(toml_strings(v)["title"@], Some(toml_strings(v)["template"@]))
    } else if toml_keys(v).contains("template"@) {
        Fields::BadTemplate
    } else {
        Fields::Read(toml_strings(v)["title"@], None)
    }
}

/// A failure to decode the title/template schema.
#[derive(Debug, Clone, PartialEq, Eq)]
pub enum SchemaError {
    /// There is no string under `title`.
    MissingTitle,
    /// The `template` entry is not a string.
    TemplateNotString,
}

pub open spec fn opt_view(o: Option<String>) -> Option<Seq<char>> {
    match o {
        Some(s) => Some(s@),
        None => None,
    }
}

/// How a table decodes into a title and an optional template name, as a relation on the
/// result.
pub open spec fn decodes(v: toml::Value, r: Result<(String, Option<String>), SchemaError>) -> bool {
    match fields_of(v) {
        Fields::Read(title, template) => r matches Ok((t, tm)) && t@ == title && opt_view(tm)
            == template,
        Fields::NoTitle => r matches Err(SchemaError::MissingTitle),
        Fields::BadTemplate => r matches Err(SchemaError::TemplateNotString),
    }
}

/// Reads the title and the optional template name of a frontmatter table.
pub fn read_fields(v: &toml::Value) -> (r: Result<(String, Option<String>), SchemaError>)
    ensures
        decodes(*v, r),
{
    let title = match string_entry(v, "title") {
        Some(t) => t,
        None => {
            return Err(SchemaError::MissingTitle);
        },
    };
    match string_entry(v, "template") {
        Some(t) => Ok((title, Some(t))),
        None => {
            if has_key(v, "template") {
                Err(SchemaError::TemplateNotString)
            } else {
                Ok((title, None))
            }
        },
    }
}

/// Relies on `toml::Value::get` and `Clone`: a copy of the entry of a table under a key. A
/// table goes to the template engine as an object of its entries, each as it goes itself.
#[verifier::external_body]
pub(crate) fn table_entry(v: &toml::Value, key: &str) -> (r: Option<toml::Value>)
    ensures
        r is Some <==> toml_keys(*v).contains(key@),
        r matches Some(x) ==> (toml_json(*v) matches Json::Object(m) && m.contains_key(key@)
            && m[key@] == toml_json(x)),
{
    v.get(key).cloned()
}

} // verus!
