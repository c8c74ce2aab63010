//! Turning configuration text into a document, and a document into a
//! caller's configuration type.
use vstd::prelude::*;
use crate::document::Document;
use crate::error::{framed, Error, Result};

verus! {

#[verifier::external_type_specification]
#[verifier::external_body]
pub struct ExTomlValue(toml::Value);

/// Whether `toml` accepts a text as a TOML document.
pub uninterp spec fn toml_accepts(text: Seq<char>) -> bool;

/// The document that `toml` parses an accepted text into.
pub uninterp spec fn toml_document(text: Seq<char>) -> Document;

/// What `toml` reports as wrong with a text that it refuses.
pub uninterp spec fn toml_problem(text: Seq<char>) -> Seq<char>;

/// One `toml::Value` as a document, member for member: strings, integers and
/// booleans as they are, non-integer numbers and datetimes as their
/// `Display` text, arrays and tables (in the table's key order) converted
/// throughout. The conversion half of `parse_toml`.
#[verifier::external_body]
fn document_of(v: &toml::Value) -> Document {
    match v {
        toml::Value::String(s) => Document::String(s.clone()),
        toml::Value::Integer(i) => Document::Integer(*i),
        toml::Value::Boolean(b) => Document::Boolean(*b),
        toml::Value::Float(x) => Document::Decimal(x.to_string()),
        toml::Value::Datetime(d) => Document::Datetime(d.to_string()),
        toml::Value::Array(a) => Document::Array(a.iter().map(document_of).collect()),
        toml::Value::Table(t) => Document::Table(
            t.iter().map(|(k, x)| (k.clone(), document_of(x))).collect(),
        ),
    }
}

/// Relies on `toml::Table::from_str`, whose outcome depends on the text
/// alone, on `toml::de::Error::message` for what went wrong, and on
/// `document_of` for the parsed table.
#[verifier::external_body]
fn parse_toml(text: &str) -> (r: core::result::Result<Document, String>)
    ensures
        r is Ok <==> toml_accepts(text@),
        r matches Ok(d) ==> d == toml_document(text@),
        r matches Err(m) ==> m@ == toml_problem(text@),
{
    text.parse::<toml::Table>()
        .map(|t| document_of(&toml::Value::Table(t)))
        .map_err(|e| e.message().to_string())
}

/// A diagnostic line: a tab, `error: `, the problem and a newline.
fn diagnostic(problem: &str) -> (r: String)
    ensures
        r@ == framed("\terror: "@, problem@, "\n"@),
{
    let mut s = String::from_str("\terror: ");
    s.append(problem);
    s.append("\n");
    s
}

/// Parses configuration text into a document. Text that `toml` refuses
/// gives a syntax error holding one diagnostic line with its problem.
pub fn parse_document(text: &str) -> (r: Result<Document>)
    ensures
        toml_accepts(text@) ==> (r matches Ok(d) && d == toml_document(text@)),
        !toml_accepts(text@) ==> (r matches Err(Error::FileSyntax(m)) && m@ == framed(
            "\terror: "@,
            toml_problem(text@),
            "\n"@,
        )),
{
    match parse_toml(text) {
        Ok(d) => Ok(d),
        Err(m) => Err(Error::FileSyntax(diagnostic(m.as_str()))),
    }
}

/// A configuration type that is decoded from a parsed document.
pub trait ConfigFile: Sized {
    /// What decoding `doc` may give: `from_toml(doc)` returns a result `r`
    /// with `Self::decodes(doc, r)`. An impl that says nothing allows any
    /// result.
    open spec fn decodes(doc: Document, r: Result<Self>) -> bool {
        true
    }

    /// Builds the configuration from a parsed document.
    fn from_toml(toml: Document) -> (r: Result<Self>)
        ensures
            Self::decodes(toml, r),
    ;

    /// Parses `text` and decodes the document with `from_toml`. Text that is
    /// no TOML document gives a syntax error and `from_toml` is not called;
    /// otherwise the parsed document is decoded and its result returned.
    fn from_text(text: &str) -> (r: Result<Self>)
        ensures
            !toml_accepts(text@) ==> (r matches Err(Error::FileSyntax(m)) && m@ == framed(
                "\terror: "@,
                toml_problem(text@),
                "\n"@,
            )),
            toml_accepts(text@) ==> Self::decodes(toml_document(text@), r),
    {
        match parse_document(text) {
            Ok(doc) => Self::from_toml(doc),
            Err(e) => Err(e),
        }
    }
}

} // verus!
