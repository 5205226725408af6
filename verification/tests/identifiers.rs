use geo_harvest::config::DEFAULT_ID_PREFIX;
use geo_harvest::entities::strip_identifier;
use geo_harvest::error::ParseError;

#[test]
fn the_wikidata_prefix_is_stripped() {
    let id = strip_identifier("http://www.wikidata.org/entity/Q183", DEFAULT_ID_PREFIX);
    assert_eq!(id, Ok("Q183".to_string()));
}

#[test]
fn the_default_prefix_is_the_wikidata_entity_prefix() {
    assert_eq!(DEFAULT_ID_PREFIX, "http://www.wikidata.org/entity/");
    assert_eq!(DEFAULT_ID_PREFIX.len(), 31);
}

#[test]
fn a_bare_identifier_is_not_taken_for_a_uri() {
    assert_eq!(strip_identifier("Q183", DEFAULT_ID_PREFIX), Err(ParseError::Identifier));
}

#[test]
fn stripping_undoes_prefixing_for_any_prefix() {
    for prefix in ["", "x", "http://www.wikidata.org/entity/", "pré/"] {
        for id in ["Q1", "Q64", "Zürich", "http://www.wikidata.org/entity/Q5"] {
            let uri = format!("{}{}", prefix, id);
            assert_eq!(strip_identifier(&uri, prefix), Ok(id.to_string()));
        }
    }
}

#[test]
fn the_prefix_alone_has_no_identifier() {
    assert_eq!(
        strip_identifier("http://www.wikidata.org/entity/", DEFAULT_ID_PREFIX),
        Err(ParseError::Identifier)
    );
    assert_eq!(strip_identifier("", ""), Err(ParseError::Identifier));
}

#[test]
fn another_prefix_of_the_same_length_is_rejected() {
    // As long as the default prefix, but under https.
    assert_eq!(
        strip_identifier("https://www.wikidata.org/entityQ183", DEFAULT_ID_PREFIX),
        Err(ParseError::Identifier)
    );
    assert_eq!(
        strip_identifier("http://www.wikidata.org/entitx/Q183", DEFAULT_ID_PREFIX),
        Err(ParseError::Identifier)
    );
}

#[test]
fn a_uri_shorter_than_the_prefix_is_rejected() {
    assert_eq!(
        strip_identifier("http://www.wikidata.org/", DEFAULT_ID_PREFIX),
        Err(ParseError::Identifier)
    );
}

#[test]
fn stripping_counts_characters_not_bytes() {
    assert_eq!(strip_identifier("ééQ1", "éé"), Ok("Q1".to_string()));
    assert_eq!(strip_identifier("éaQ1", "éé"), Err(ParseError::Identifier));
    assert_eq!(strip_identifier("abß", "ab"), Ok("ß".to_string()));
}
