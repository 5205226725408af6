//! Reading the detail source: one response describes one page, and the page
//! together with the city it was fetched for becomes an output record.

use crate::config::DetailShape;
use crate::error::ParseError;
use crate::json::{json_document, parse, Json, JsonValue};
use crate::model::{City, CityView, Record, RecordView};
use vstd::prelude::*;

verus! {

/// The page object inside a response of the given shape.  For the query
/// shape it is the first page listed under `query.pages`.
pub open spec fn page_of(doc: JsonValue, shape: DetailShape) -> Option<JsonValue> {
    match shape {
        DetailShape::Summary => Some(doc),
        DetailShape::QueryPages => match doc.member("query"@) {
            Some(query) => match query.member("pages"@) {
                Some(pages) => pages.first_member(),
                None => None,
            },
            None => None,
        },
    }
}

/// The record that a response document yields for `city`: country and
/// identifier come from the city, name and description from the page's
/// `title` and `extract`.
pub open spec fn record_in(doc: JsonValue, shape: DetailShape, city: CityView) -> Result<
    RecordView,
    ParseError,
> {
    match page_of(doc, shape) {
        None => Err(ParseError::Shape),
        Some(page) => match page.member("title"@) {
            None => Err(ParseError::Shape),
            Some(title) => match title.text() {
                None => Err(ParseError::Shape),
                Some(name) => match page.member("extract"@) {
                    None => Err(ParseError::Shape),
                    Some(extract) => match extract.text() {
                        None => Err(ParseError::Shape),
                        Some(description) => Ok(
                            RecordView { country: city.country, name, description, id: city.id },
                        ),
                    },
                },
            },
        },
    }
}

/// The record that a response body yields for `city`.
pub open spec fn record_in_body(body: Seq<u8>, shape: DetailShape, city: CityView) -> Result<
    RecordView,
    ParseError,
> {
    match json_document(body) {
        None => Err(ParseError::Syntax),
        Some(doc) => record_in(doc, shape, city),
    }
}

/// The page object inside a response of the given shape.
pub fn page_of_document(doc: &Json, shape: DetailShape) -> (r: Option<&Json>)
    ensures
        r matches Some(page) ==> page_of(doc@, shape) == Some(page@),
        r is None ==> page_of(doc@, shape) is None,
{
    match shape {
        DetailShape::Summary => Some(doc),
        DetailShape::QueryPages => match doc.member("query") {
            Some(query) => match query.member("pages") {
                Some(pages) => pages.first_member(),
                None => None,
            },
            None => None,
        },
    }
}

/// Reads the record for `city` from a response document.
///
/// Succeeds exactly when the document holds a page of the given shape whose
/// `title` and `extract` are strings; any other document is a `Shape` error.
pub fn record_from_document(doc: &Json, shape: DetailShape, city: &City) -> (r: Result<
    Record,
    ParseError,
>)
    ensures
        r matches Ok(record) ==> record_in(doc@, shape, city@) == Ok::<RecordView, ParseError>(
            record@,
        ),
        r matches Err(e) ==> record_in(doc@, shape, city@) == Err::<RecordView, ParseError>(e),
{
    let page = match page_of_document(doc, shape) {
        Some(page) => page,
        None => { return Err(ParseError::Shape); },
    };
    let title = match page.member("title") {
        Some(title) => title,
        None => { return Err(ParseError::Shape); },
    };
    let name = match title.as_text() {
        Some(name) => name,
        None => { return Err(ParseError::Shape); },
    };
    let extract = match page.member("extract") {
        Some(extract) => extract,
        None => { return Err(ParseError::Shape); },
    };
    let description = match extract.as_text() {
        Some(description) => description,
        None => { return Err(ParseError::Shape); },
    };
    Ok(
        Record {
            country: city.country.clone(),
            name: name.clone(),
            description: description.clone(),
            id: city.id.clone(),
        },
    )
}

/// Reads the record for `city` from a response body.
///
/// Fails with `Syntax` where the body is not JSON; otherwise as
/// [`record_from_document`] decides for the document.
pub fn parse_record(body: &[u8], shape: DetailShape, city: &City) -> (r: Result<
    Record,
    ParseError,
>)
    ensures
        r matches Ok(record) ==> record_in_body(body@, shape, city@) == Ok::<
            RecordView,
            ParseError,
        >(record@),
        r matches Err(e) ==> record_in_body(body@, shape, city@) == Err::<RecordView, ParseError>(
            e,
        ),
{
    match parse(body) {
        Ok(doc) => record_from_document(&doc, shape, city),
        Err(e) => Err(e),
    }
}

} // verus!
