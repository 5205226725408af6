use geo_harvest::config::{
    DetailShape, PipelineConfig, DEFAULT_CONCURRENCY, DEFAULT_ID_PREFIX, DEFAULT_MAX_RETRIES,
    DEFAULT_USER_AGENT,
};
use geo_harvest::model::{City, Country};
use geo_harvest::requests::{
    cities_request, countries_request, detail_request, COUNTRIES_QUERY, DETAIL_ENDPOINT,
    ENTITY_ENDPOINT,
};

fn pairs(params: &[(String, String)]) -> Vec<(&str, &str)> {
    params.iter().map(|(k, v)| (k.as_str(), v.as_str())).collect()
}

#[test]
fn the_defaults_are_fifty_five_and_wikidata() {
    let config = PipelineConfig::default();
    assert_eq!(config.expand_concurrency, 50);
    assert_eq!(config.detail_concurrency, 50);
    assert_eq!(config.max_retries, 5);
    assert_eq!(config.id_prefix, "http://www.wikidata.org/entity/");
    assert_eq!(config.user_agent, "JustTestingForNow/0.0 (testing@protonmail.ch)");
    assert_eq!(config.detail_shape, DetailShape::QueryPages);
    assert!(config.is_valid());
    assert_eq!(DEFAULT_CONCURRENCY, 50);
    assert_eq!(DEFAULT_MAX_RETRIES, 5);
    assert_eq!(config.id_prefix, DEFAULT_ID_PREFIX);
    assert_eq!(config.user_agent, DEFAULT_USER_AGENT);
}

#[test]
fn every_request_carries_the_configured_identification() {
    let mut config = PipelineConfig::default();
    config.user_agent = "harvester/1.0 (ops@example.org)".to_string();
    let country = Country { name: "Germany".to_string(), id: "Q183".to_string() };
    let city = City { country: "Germany".to_string(), name: "Berlin".to_string(), id: "Q64".to_string() };
    assert_eq!(countries_request(&config).user_agent, "harvester/1.0 (ops@example.org)");
    assert_eq!(cities_request(&config, &country).user_agent, "harvester/1.0 (ops@example.org)");
    assert_eq!(detail_request(&config, &city).user_agent, "harvester/1.0 (ops@example.org)");
}

#[test]
fn the_countries_request_asks_the_graph_endpoint_for_json() {
    let request = countries_request(&PipelineConfig::default());
    assert_eq!(request.url, "https://query.wikidata.org/sparql?");
    assert_eq!(request.url, ENTITY_ENDPOINT);
    assert_eq!(pairs(&request.params), vec![("query", COUNTRIES_QUERY), ("format", "json")]);
    assert!(COUNTRIES_QUERY.contains("SELECT DISTINCT ?entity ?entityLabel WHERE {"));
    assert!(COUNTRIES_QUERY.contains("ORDER BY ?entityLabel"));
}

#[test]
fn the_cities_request_names_the_country_by_identifier() {
    let country = Country { name: "Germany".to_string(), id: "Q183".to_string() };
    let request = cities_request(&PipelineConfig::default(), &country);
    assert_eq!(request.url, ENTITY_ENDPOINT);
    assert_eq!(request.params.len(), 2);
    assert_eq!(request.params[0].0, "query");
    assert_eq!(
        request.params[0].1,
        "
        SELECT DISTINCT ?entity ?article ?name WHERE {
            ?article schema:about ?entity .
            ?article schema:isPartOf <https://en.wikipedia.org/> .
            ?article schema:name ?name .
            ?entity (wdt:P31/(wdt:P279*)) wd:Q515.
            ?entity wdt:P17 wd:Q183.
        }
        "
    );
    assert_eq!(request.params[1], ("format".to_string(), "json".to_string()));
}

#[test]
fn the_detail_request_looks_the_city_up_by_name() {
    let city = City { country: "Germany".to_string(), name: "Frankfurt am Main".to_string(), id: "Q1794".to_string() };
    let request = detail_request(&PipelineConfig::default(), &city);
    assert_eq!(request.url, "https://en.wikipedia.org/w/api.php?");
    assert_eq!(request.url, DETAIL_ENDPOINT);
    assert_eq!(
        pairs(&request.params),
        vec![
            ("action", "query"),
            ("format", "json"),
            ("prop", "extracts"),
            ("exintro", "1"),
            ("explaintext", "1"),
            ("redirects", "1"),
            ("titles", "Frankfurt am Main"),
        ]
    );
}
