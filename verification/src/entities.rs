//! Reading the entity source: the bindings of a graph-query response become
//! countries, or the cities of one country.
//!
//! A response has the shape
//! `{ "results": { "bindings": [ { "<var>": { "value": ".." }, .. }, .. ] } }`.
//! Identifiers arrive as URIs; the bare identifier is what follows a fixed
//! prefix.

use crate::error::ParseError;
use crate::json::{json_document, json_views, parse, Json, JsonValue};
use crate::model::{city_views, country_views, City, CityView, Country, CountryView};
use vstd::prelude::*;

verus! {

/// What follows `prefix` in `uri`; `None` unless `uri` starts with `prefix`
/// and goes on after it.
pub open spec fn strip_prefix(uri: Seq<char>, prefix: Seq<char>) -> Option<Seq<char>> {
    if prefix.len() < uri.len() && uri.take(prefix.len() as int) == prefix {
        Some(uri.skip(prefix.len() as int))
    } else {
        None
    }
}

/// The string that a binding holds for the variable `var`.
pub open spec fn binding_text(binding: JsonValue, var: Seq<char>) -> Option<Seq<char>> {
    match binding.member(var) {
        Some(cell) => match cell.member("value"@) {
            Some(value) => value.text(),
            None => None,
        },
        None => None,
    }
}

/// The bindings of a response document.
pub open spec fn bindings_of(doc: JsonValue) -> Option<Seq<JsonValue>> {
    match doc.member("results"@) {
        Some(results) => match results.member("bindings"@) {
            Some(bindings) => bindings.items(),
            None => None,
        },
        None => None,
    }
}

/// The country that one binding describes.
pub open spec fn country_of(binding: JsonValue, prefix: Seq<char>) -> Result<
    CountryView,
    ParseError,
> {
    match binding_text(binding, "entityLabel"@) {
        None => Err(ParseError::Shape),
        Some(name) => match binding_text(binding, "entity"@) {
            None => Err(ParseError::Shape),
            Some(uri) => match strip_prefix(uri, prefix) {
                None => Err(ParseError::Identifier),
                Some(id) => Ok(CountryView { name, id }),
            },
        },
    }
}

/// Whether one of `countries` carries the identifier `id`.
pub open spec fn has_id(countries: Seq<CountryView>, id: Seq<char>) -> bool {
    exists|j: int| 0 <= j < countries.len() && #[trigger] countries[j].id == id
}

/// Reads bindings from left to right behind the countries already read.  The
/// first binding that cannot be read, or that repeats an identifier, decides
/// the error.
pub open spec fn scan_countries(
    bindings: Seq<JsonValue>,
    prefix: Seq<char>,
    earlier: Seq<CountryView>,
) -> Result<Seq<CountryView>, ParseError>
    decreases bindings.len(),
{
    if bindings.len() == 0 {
        Ok(earlier)
    } else {
        match country_of(bindings[0], prefix) {
            Err(e) => Err(e),
            Ok(country) => if has_id(earlier, country.id) {
                Err(ParseError::DuplicateIdentifier)
            } else {
                scan_countries(bindings.drop_first(), prefix, earlier.push(country))
            },
        }
    }
}

/// The countries of a response document.
pub open spec fn countries_in(doc: JsonValue, prefix: Seq<char>) -> Result<
    Seq<CountryView>,
    ParseError,
> {
    match bindings_of(doc) {
        None => Err(ParseError::Shape),
        Some(bindings) => scan_countries(bindings, prefix, Seq::empty()),
    }
}

/// The countries of a response body.
pub open spec fn countries_in_body(body: Seq<u8>, prefix: Seq<char>) -> Result<
    Seq<CountryView>,
    ParseError,
> {
    match json_document(body) {
        None => Err(ParseError::Syntax),
        Some(doc) => countries_in(doc, prefix),
    }
}

/// The city that one binding describes, owned by the country named
/// `country`.
pub open spec fn city_of(binding: JsonValue, country: Seq<char>, prefix: Seq<char>) -> Result<
    CityView,
    ParseError,
> {
    match binding_text(binding, "name"@) {
        None => Err(ParseError::Shape),
        Some(name) => if name.len() == 0 {
            Err(ParseError::EmptyName)
        } else {
            match binding_text(binding, "entity"@) {
                None => Err(ParseError::Shape),
                Some(uri) => match strip_prefix(uri, prefix) {
                    None => Err(ParseError::Identifier),
                    Some(id) => Ok(CityView { country, name, id }),
                },
            }
        },
    }
}

/// Reads bindings from left to right behind the cities already read.  The
/// first binding that cannot be read decides the error.
pub open spec fn scan_cities(
    bindings: Seq<JsonValue>,
    country: Seq<char>,
    prefix: Seq<char>,
    earlier: Seq<CityView>,
) -> Result<Seq<CityView>, ParseError>
    decreases bindings.len(),
{
    if bindings.len() == 0 {
        Ok(earlier)
    } else {
        match city_of(bindings[0], country, prefix) {
            Err(e) => Err(e),
            Ok(city) => scan_cities(bindings.drop_first(), country, prefix, earlier.push(city)),
        }
    }
}

/// The cities of a response document, owned by the country named `country`.
pub open spec fn cities_in(doc: JsonValue, country: Seq<char>, prefix: Seq<char>) -> Result<
    Seq<CityView>,
    ParseError,
> {
    match bindings_of(doc) {
        None => Err(ParseError::Shape),
        Some(bindings) => scan_cities(bindings, country, prefix, Seq::empty()),
    }
}

/// The cities of a response body, owned by the country named `country`.
pub open spec fn cities_in_body(body: Seq<u8>, country: Seq<char>, prefix: Seq<char>) -> Result<
    Seq<CityView>,
    ParseError,
> {
    match json_document(body) {
        None => Err(ParseError::Syntax),
        Some(doc) => cities_in(doc, country, prefix),
    }
}

/// Whether no two of `countries` share an identifier.
pub open spec fn distinct_ids(countries: Seq<CountryView>) -> bool {
    forall|i: int, j: int|
        0 <= i < j < countries.len() ==> (#[trigger] countries[i]).id != (
        #[trigger] countries[j]).id
}

/// Whether every one of `countries` has an identifier.
pub open spec fn all_countries_wf(countries: Seq<CountryView>) -> bool {
    forall|i: int| 0 <= i < countries.len() ==> (#[trigger] countries[i]).wf()
}

/// Whether every one of `cities` has a name and belongs to `country`.
pub open spec fn all_cities_wf(cities: Seq<CityView>, country: Seq<char>) -> bool {
    forall|i: int|
        0 <= i < cities.len() ==> (#[trigger] cities[i]).wf() && cities[i].country == country
}

/// A successful scan keeps what was read before, reads one country per
/// binding, in order, and leaves every country with an identifier of its
/// own.
pub proof fn lemma_scan_countries(
    bindings: Seq<JsonValue>,
    prefix: Seq<char>,
    earlier: Seq<CountryView>,
)
    requires
        scan_countries(bindings, prefix, earlier) is Ok,
        distinct_ids(earlier),
        all_countries_wf(earlier),
    ensures
        ({
            let all = scan_countries(bindings, prefix, earlier)->Ok_0;
            &&& all.len() == earlier.len() + bindings.len()
            &&& all.take(earlier.len() as int) == earlier
            &&& forall|i: int|
                0 <= i < bindings.len() ==> country_of(#[trigger] bindings[i], prefix) == Ok::<
                    CountryView,
                    ParseError,
                >(all[earlier.len() + i])
            &&& distinct_ids(all)
            &&& all_countries_wf(all)
        }),
    decreases bindings.len(),
{
    let all = scan_countries(bindings, prefix, earlier)->Ok_0;
    if bindings.len() == 0 {
        assert(all.take(earlier.len() as int) =~= earlier);
    } else {
        let country = country_of(bindings[0], prefix)->Ok_0;
        let next = earlier.push(country);
        assert(!has_id(earlier, country.id));
        assert(distinct_ids(next)) by {
            assert forall|i: int, j: int| 0 <= i < j < next.len() implies (#[trigger] next[i]).id
                != (#[trigger] next[j]).id by {
                if j == earlier.len() {
                    assert(earlier[i].id != country.id);
                }
            }
        }
        lemma_scan_countries(bindings.drop_first(), prefix, next);
        assert(all.take(earlier.len() as int) =~= earlier) by {
            assert(all.take(next.len() as int) == next);
            assert forall|k: int| 0 <= k < earlier.len() implies all[k] == earlier[k] by {
                assert(all.take(next.len() as int)[k] == next[k]);
            }
        }
        assert forall|i: int| 0 <= i < bindings.len() implies country_of(
            #[trigger] bindings[i],
            prefix,
        ) == Ok::<CountryView, ParseError>(all[earlier.len() + i]) by {
            if i == 0 {
                assert(all.take(next.len() as int)[earlier.len() as int] == next[earlier.len() as int]);
            } else {
                assert(bindings.drop_first()[i - 1] == bindings[i]);
            }
        }
    }
}

/// A successful scan keeps what was read before and reads one city per
/// binding, in order; every city has a name and belongs to the country.
pub proof fn lemma_scan_cities(
    bindings: Seq<JsonValue>,
    country: Seq<char>,
    prefix: Seq<char>,
    earlier: Seq<CityView>,
)
    requires
        scan_cities(bindings, country, prefix, earlier) is Ok,
        all_cities_wf(earlier, country),
    ensures
        ({
            let all = scan_cities(bindings, country, prefix, earlier)->Ok_0;
            &&& all.len() == earlier.len() + bindings.len()
            &&& all.take(earlier.len() as int) == earlier
            &&& forall|i: int|
                0 <= i < bindings.len() ==> city_of(#[trigger] bindings[i], country, prefix) == Ok::<
                    CityView,
                    ParseError,
                >(all[earlier.len() + i])
            &&& all_cities_wf(all, country)
        }),
    decreases bindings.len(),
{
    let all = scan_cities(bindings, country, prefix, earlier)->Ok_0;
    if bindings.len() == 0 {
        assert(all.take(earlier.len() as int) =~= earlier);
    } else {
        let city = city_of(bindings[0], country, prefix)->Ok_0;
        let next = earlier.push(city);
        lemma_scan_cities(bindings.drop_first(), country, prefix, next);
        assert(all.take(earlier.len() as int) =~= earlier) by {
            assert(all.take(next.len() as int) == next);
            assert forall|k: int| 0 <= k < earlier.len() implies all[k] == earlier[k] by {
                assert(all.take(next.len() as int)[k] == next[k]);
            }
        }
        assert forall|i: int| 0 <= i < bindings.len() implies city_of(
            #[trigger] bindings[i],
            country,
            prefix,
        ) == Ok::<CityView, ParseError>(all[earlier.len() + i]) by {
            if i == 0 {
                assert(all.take(next.len() as int)[earlier.len() as int] == next[earlier.len() as int]);
            } else {
                assert(bindings.drop_first()[i - 1] == bindings[i]);
            }
        }
    }
}

/// Prefixing an identifier and stripping the prefix again gives the
/// identifier back, whatever the prefix, as long as the identifier is not
/// empty.
pub proof fn lemma_strip_undoes_prefixing(prefix: Seq<char>, id: Seq<char>)
    requires
        id.len() > 0,
    ensures
        strip_prefix(prefix + id, prefix) == Some(id),
{
    assert((prefix + id).take(prefix.len() as int) =~= prefix);
    assert((prefix + id).skip(prefix.len() as int) =~= id);
}

/// Strips `prefix` from an identifier URI.
pub fn strip_identifier(uri: &str, prefix: &str) -> (r: Result<String, ParseError>)
    ensures
        r matches Ok(id) ==> strip_prefix(uri@, prefix@) == Some(id@) && id@.len() > 0,
        r matches Err(e) ==> e == ParseError::Identifier && strip_prefix(uri@, prefix@) is None,
{
    let n = uri.unicode_len();
    let p = prefix.unicode_len();
    if n <= p {
        return Err(ParseError::Identifier);
    }
    let head = uri.substring_char(0, p).to_owned();
    let wanted = prefix.to_owned();
    if head == wanted {
        Ok(uri.substring_char(p, n).to_owned())
    } else {
        Err(ParseError::Identifier)
    }
}

/// The string that a binding holds for the variable `var`.
pub fn text_of_binding<'a>(binding: &'a Json, var: &str) -> (r: Option<&'a String>)
    ensures
        r matches Some(s) ==> binding_text(binding@, var@) == Some(s@),
        r is None ==> binding_text(binding@, var@) is None,
{
    match binding.member(var) {
        Some(cell) => match cell.member("value") {
            Some(value) => value.as_text(),
            None => None,
        },
        None => None,
    }
}

/// The bindings of a response document.
pub fn bindings_of_document(doc: &Json) -> (r: Option<&Vec<Json>>)
    ensures
        r matches Some(items) ==> bindings_of(doc@) == Some(json_views(items@)),
        r is None ==> bindings_of(doc@) is None,
{
    match doc.member("results") {
        Some(results) => match results.member("bindings") {
            Some(bindings) => bindings.as_array(),
            None => None,
        },
        None => None,
    }
}

/// Reads one binding as a country.
pub fn country_from_binding(binding: &Json, prefix: &str) -> (r: Result<Country, ParseError>)
    ensures
        r matches Ok(c) ==> country_of(binding@, prefix@) == Ok::<CountryView, ParseError>(c@)
            && c@.wf(),
        r matches Err(e) ==> country_of(binding@, prefix@) == Err::<CountryView, ParseError>(e),
{
    let name = match text_of_binding(binding, "entityLabel") {
        Some(s) => s,
        None => { return Err(ParseError::Shape); },
    };
    let uri = match text_of_binding(binding, "entity") {
        Some(s) => s,
        None => { return Err(ParseError::Shape); },
    };
    match strip_identifier(uri.as_str(), prefix) {
        Ok(id) => Ok(Country { name: name.clone(), id }),
        Err(e) => Err(e),
    }
}

/// Whether one of `countries` carries the identifier `id`.
pub fn contains_id(countries: &Vec<Country>, id: &String) -> (b: bool)
    ensures
        b == has_id(country_views(countries@), id@),
{
    let mut i: usize = 0;
    while i < countries.len()
        invariant
            i <= countries.len(),
            forall|j: int| 0 <= j < i ==> (#[trigger] country_views(countries@)[j]).id != id@,
        decreases countries.len() - i,
    {
        if countries[i].id == *id {
            assert(country_views(countries@)[i as int].id == id@);
            return true;
        }
        i += 1;
    }
    false
}

/// Reads the countries of a response document.
///
/// Succeeds exactly when the document has the response shape, every binding
/// names a country and carries an identifier URI under `prefix`, and no
/// identifier occurs twice.  The countries come in the order of the bindings.
pub fn countries_from_document(doc: &Json, prefix: &str) -> (r: Result<Vec<Country>, ParseError>)
    ensures
        r matches Ok(cs) ==> {
            &&& countries_in(doc@, prefix@) == Ok::<Seq<CountryView>, ParseError>(
                country_views(cs@),
            )
            &&& distinct_ids(country_views(cs@))
            &&& all_countries_wf(country_views(cs@))
        },
        r matches Err(e) ==> countries_in(doc@, prefix@) == Err::<Seq<CountryView>, ParseError>(e),
{
    let bindings = match bindings_of_document(doc) {
        Some(items) => items,
        None => { return Err(ParseError::Shape); },
    };
    let ghost all = json_views(bindings@);
    let mut out: Vec<Country> = Vec::new();
    let mut i: usize = 0;
    assert(all.skip(0) =~= all);
    assert(country_views(out@) =~= Seq::<CountryView>::empty());
    while i < bindings.len()
        invariant
            i <= bindings.len(),
            all == json_views(bindings@),
            bindings_of(doc@) == Some(all),
            scan_countries(all, prefix@, Seq::empty()) == scan_countries(
                all.skip(i as int),
                prefix@,
                country_views(out@),
            ),
        decreases bindings.len() - i,
    {
        proof {
            assert(all.skip(i as int).drop_first() =~= all.skip(i as int + 1));
            assert(all.skip(i as int).len() > 0);
            assert(all.skip(i as int)[0] == bindings[i as int]@);
        }
        match country_from_binding(&bindings[i], prefix) {
            Err(e) => {
                return Err(e);
            },
            Ok(country) => {
                if contains_id(&out, &country.id) {
                    return Err(ParseError::DuplicateIdentifier);
                }
                let ghost before = country_views(out@);
                out.push(country);
                assert(country_views(out@) =~= before.push(country@));
            },
        }
        i += 1;
    }
    proof {
        assert(all.skip(i as int).len() == 0);
        lemma_scan_countries(all, prefix@, Seq::empty());
    }
    Ok(out)
}

/// Reads the countries of a response body.
///
/// Fails with `Syntax` where the body is not JSON; otherwise as
/// [`countries_from_document`] decides for the document.
pub fn parse_countries(body: &[u8], prefix: &str) -> (r: Result<Vec<Country>, ParseError>)
    ensures
        r matches Ok(cs) ==> {
            &&& countries_in_body(body@, prefix@) == Ok::<Seq<CountryView>, ParseError>(
                country_views(cs@),
            )
            &&& distinct_ids(country_views(cs@))
            &&& all_countries_wf(country_views(cs@))
        },
        r matches Err(e) ==> countries_in_body(body@, prefix@) == Err::<
            Seq<CountryView>,
            ParseError,
        >(e),
{
    match parse(body) {
        Ok(doc) => countries_from_document(&doc, prefix),
        Err(e) => Err(e),
    }
}

/// Reads one binding as a city of the country named `country`.
pub fn city_from_binding(binding: &Json, country: &String, prefix: &str) -> (r: Result<
    City,
    ParseError,
>)
    ensures
        r matches Ok(c) ==> city_of(binding@, country@, prefix@) == Ok::<CityView, ParseError>(c@)
            && c@.wf() && c@.country == country@,
        r matches Err(e) ==> city_of(binding@, country@, prefix@) == Err::<CityView, ParseError>(
            e,
        ),
{
    let name = match text_of_binding(binding, "name") {
        Some(s) => s,
        None => { return Err(ParseError::Shape); },
    };
    if name.as_str().unicode_len() == 0 {
        return Err(ParseError::EmptyName);
    }
    let uri = match text_of_binding(binding, "entity") {
        Some(s) => s,
        None => { return Err(ParseError::Shape); },
    };
    match strip_identifier(uri.as_str(), prefix) {
        Ok(id) => Ok(City { country: country.clone(), name: name.clone(), id }),
        Err(e) => Err(e),
    }
}

/// Reads the cities of a response document for one country.
///
/// Succeeds exactly when the document has the response shape and every
/// binding carries a non-empty name and an identifier URI under `prefix`.
/// The cities come in the order of the bindings, each with a copy of the
/// country's display name.
pub fn cities_from_document(doc: &Json, country: &Country, prefix: &str) -> (r: Result<
    Vec<City>,
    ParseError,
>)
    ensures
        r matches Ok(cs) ==> {
            &&& cities_in(doc@, country@.name, prefix@) == Ok::<Seq<CityView>, ParseError>(
                city_views(cs@),
            )
            &&& all_cities_wf(city_views(cs@), country@.name)
        },
        r matches Err(e) ==> cities_in(doc@, country@.name, prefix@) == Err::<
            Seq<CityView>,
            ParseError,
        >(e),
{
    let bindings = match bindings_of_document(doc) {
        Some(items) => items,
        None => { return Err(ParseError::Shape); },
    };
    let ghost all = json_views(bindings@);
    let mut out: Vec<City> = Vec::new();
    let mut i: usize = 0;
    assert(all.skip(0) =~= all);
    assert(city_views(out@) =~= Seq::<CityView>::empty());
    while i < bindings.len()
        invariant
            i <= bindings.len(),
            all == json_views(bindings@),
            bindings_of(doc@) == Some(all),
            scan_cities(all, country@.name, prefix@, Seq::empty()) == scan_cities(
                all.skip(i as int),
                country@.name,
                prefix@,
                city_views(out@),
            ),
        decreases bindings.len() - i,
    {
        proof {
            assert(all.skip(i as int).drop_first() =~= all.skip(i as int + 1));
            assert(all.skip(i as int).len() > 0);
            assert(all.skip(i as int)[0] == bindings[i as int]@);
        }
        match city_from_binding(&bindings[i], &country.name, prefix) {
            Err(e) => {
                return Err(e);
            },
            Ok(city) => {
                let ghost before = city_views(out@);
                out.push(city);
                assert(city_views(out@) =~= before.push(city@));
            },
        }
        i += 1;
    }
    proof {
        assert(all.skip(i as int).len() == 0);
        lemma_scan_cities(all, country@.name, prefix@, Seq::empty());
    }
    Ok(out)
}

/// Reads the cities of a response body for one country.
///
/// Fails with `Syntax` where the body is not JSON; otherwise as
/// [`cities_from_document`] decides for the document.
pub fn parse_cities(body: &[u8], country: &Country, prefix: &str) -> (r: Result<
    Vec<City>,
    ParseError,
>)
    ensures
        r matches Ok(cs) ==> {
            &&& cities_in_body(body@, country@.name, prefix@) == Ok::<Seq<CityView>, ParseError>(
                city_views(cs@),
            )
            &&& all_cities_wf(city_views(cs@), country@.name)
        },
        r matches Err(e) ==> cities_in_body(body@, country@.name, prefix@) == Err::<
            Seq<CityView>,
            ParseError,
        >(e),
{
    match parse(body) {
        Ok(doc) => cities_from_document(&doc, country, prefix),
        Err(e) => Err(e),
    }
}

} // verus!
