//! The three requests of a harvest, described as plain values.  The caller
//! sends them; every one carries the configured identification.

use crate::config::PipelineConfig;
use crate::model::{City, Country};
use vstd::prelude::*;
use vstd::string::StringExecFns;

verus! {

/// Where graph queries are sent.
pub const ENTITY_ENDPOINT: &'static str = "https://query.wikidata.org/sparql?";

/// Where descriptions are asked for.
pub const DETAIL_ENDPOINT: &'static str = "https://en.wikipedia.org/w/api.php?";

/// The graph query for the countries.
pub const COUNTRIES_QUERY: &'static str = "
        SELECT DISTINCT ?entity ?entityLabel WHERE {
          ?entity wdt:P31 wd:Q6256 . 
          ?article schema:about ?entity .
          ?article schema:isPartOf <https://en.wikipedia.org/>.
          FILTER NOT EXISTS {?entity wdt:P31 wd:Q3024240}
          FILTER NOT EXISTS {?entity wdt:P31 wd:Q28171280}
          OPTIONAL { ?entity wdt:P576 ?dissolved } .
          FILTER (!BOUND(?dissolved)) 
          SERVICE wikibase:label { bd:serviceParam wikibase:language \"en\" . }
        }
        ORDER BY ?entityLabel
    ";

/// The graph query for the cities of a country, up to the country's
/// identifier.
pub const CITIES_QUERY_HEAD: &'static str = "
        SELECT DISTINCT ?entity ?article ?name WHERE {
            ?article schema:about ?entity .
            ?article schema:isPartOf <https://en.wikipedia.org/> .
            ?article schema:name ?name .
            ?entity (wdt:P31/(wdt:P279*)) wd:Q515.
            ?entity wdt:P17 wd:";

/// The graph query for the cities of a country, behind the country's
/// identifier.
pub const CITIES_QUERY_TAIL: &'static str = ".
        }
        ";

/// An HTTP GET as plain values.
#[derive(Debug, PartialEq, Eq)]
pub struct Request {
    pub url: String,
    /// Query parameters, in order.
    pub params: Vec<(String, String)>,
    /// The identification header.
    pub user_agent: String,
}

/// The mathematical value of a [`Request`].
pub ghost struct RequestView {
    pub url: Seq<char>,
    pub params: Seq<(Seq<char>, Seq<char>)>,
    pub user_agent: Seq<char>,
}

impl View for Request {
    type V = RequestView;

    open spec fn view(&self) -> RequestView {
        RequestView {
            url: self.url@,
            params: self.params@.map_values(|p: (String, String)| (p.0@, p.1@)),
            user_agent: self.user_agent@,
        }
    }
}

/// The text of the graph query for the cities of the country `id`.
pub open spec fn cities_query_text(id: Seq<char>) -> Seq<char> {
    CITIES_QUERY_HEAD@ + id + CITIES_QUERY_TAIL@
}

/// The parameters with which a description is asked for, for the page
/// titled `name`.
pub open spec fn detail_params(name: Seq<char>) -> Seq<(Seq<char>, Seq<char>)> {
    seq![
        ("action"@, "query"@),
        ("format"@, "json"@),
        ("prop"@, "extracts"@),
        ("exintro"@, "1"@),
        ("explaintext"@, "1"@),
        ("redirects"@, "1"@),
        ("titles"@, name),
    ]
}

/// One query parameter.
fn param(key: &str, value: &str) -> (r: (String, String))
    ensures
        r.0@ == key@,
        r.1@ == value@,
{
    (key.to_owned(), value.to_owned())
}

/// The request for the countries.
pub fn countries_request(config: &PipelineConfig) -> (r: Request)
    ensures
        r@.url == ENTITY_ENDPOINT@,
        r@.params == seq![("query"@, COUNTRIES_QUERY@), ("format"@, "json"@)],
        r@.user_agent == config.user_agent@,
{
    let mut params: Vec<(String, String)> = Vec::new();
    params.push(param("query", COUNTRIES_QUERY));
    params.push(param("format", "json"));
    let r = Request {
        url: ENTITY_ENDPOINT.to_owned(),
        params,
        user_agent: config.user_agent.clone(),
    };
    assert(r@.params =~= seq![("query"@, COUNTRIES_QUERY@), ("format"@, "json"@)]);
    r
}

/// The request for the cities of `country`.
pub fn cities_request(config: &PipelineConfig, country: &Country) -> (r: Request)
    ensures
        r@.url == ENTITY_ENDPOINT@,
        r@.params == seq![("query"@, cities_query_text(country@.id)), ("format"@, "json"@)],
        r@.user_agent == config.user_agent@,
{
    let mut query = CITIES_QUERY_HEAD.to_owned();
    query.append(country.id.as_str());
    query.append(CITIES_QUERY_TAIL);
    let mut params: Vec<(String, String)> = Vec::new();
    params.push(param("query", query.as_str()));
    params.push(param("format", "json"));
    let r = Request {
        url: ENTITY_ENDPOINT.to_owned(),
        params,
        user_agent: config.user_agent.clone(),
    };
    assert(r@.params =~= seq![("query"@, cities_query_text(country@.id)), ("format"@, "json"@)]);
    r
}

/// The request for the description of `city`, looked up by the city's name.
pub fn detail_request(config: &PipelineConfig, city: &City) -> (r: Request)
    ensures
        r@.url == DETAIL_ENDPOINT@,
        r@.params == detail_params(city@.name),
        r@.user_agent == config.user_agent@,
{
    let mut params: Vec<(String, String)> = Vec::new();
    params.push(param("action", "query"));
    params.push(param("format", "json"));
    params.push(param("prop", "extracts"));
    params.push(param("exintro", "1"));
    params.push(param("explaintext", "1"));
    params.push(param("redirects", "1"));
    params.push(param("titles", city.name.as_str()));
    let r = Request {
        url: DETAIL_ENDPOINT.to_owned(),
        params,
        user_agent: config.user_agent.clone(),
    };
    assert(r@.params =~= detail_params(city@.name));
    r
}

} // verus!
