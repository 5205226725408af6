use geo_harvest::error::SinkError;
use geo_harvest::model::Record;
use geo_harvest::sink::{serialize_data, header_row, Sink};

fn record(country: &str, name: &str, description: &str, id: &str) -> Record {
    Record {
        country: country.to_string(),
        name: name.to_string(),
        description: description.to_string(),
        id: id.to_string(),
    }
}

fn berlin() -> Record {
    record("Germany", "Berlin", "Capital of Germany.", "Q64")
}

fn paris() -> Record {
    record("France", "Paris", "Capital of France.", "Q90")
}

fn text(bytes: Result<Vec<u8>, SinkError>) -> String {
    String::from_utf8(bytes.unwrap()).unwrap()
}

#[test]
fn a_record_is_one_row_of_four_columns() {
    assert_eq!(
        text(serialize_data(false, &vec![berlin()])),
        "Germany,Berlin,Capital of Germany.,Q64\n"
    );
}

#[test]
fn the_columns_are_country_name_description_id() {
    assert_eq!(header_row(), vec!["country", "name", "description", "id"]);
    assert_eq!(berlin().fields(), vec!["Germany", "Berlin", "Capital of Germany.", "Q64"]);
}

#[test]
fn the_header_precedes_the_rows_when_due() {
    assert_eq!(
        text(serialize_data(true, &vec![berlin(), paris()])),
        "country,name,description,id\n\
         Germany,Berlin,Capital of Germany.,Q64\n\
         France,Paris,Capital of France.,Q90\n"
    );
}

#[test]
fn an_empty_batch_adds_nothing_not_even_the_header() {
    assert_eq!(text(serialize_data(true, &vec![])), "");
    assert_eq!(text(serialize_data(false, &vec![])), "");
}

#[test]
fn fields_are_quoted_where_the_format_needs_it() {
    let tricky = record("Côte d'Ivoire", "Abidjan, the city", "Says \"hello\".\nTwice.", "");
    assert_eq!(
        text(serialize_data(false, &vec![tricky])),
        "Côte d'Ivoire,\"Abidjan, the city\",\"Says \"\"hello\"\".\nTwice.\",\n"
    );
}

#[test]
fn a_sink_is_due_its_header_only_when_empty() {
    assert!(Sink::open(0).header_due);
    assert!(!Sink::open(1).header_due);
    assert!(!Sink::open(u64::MAX).header_due);
}

#[test]
fn the_header_is_emitted_with_the_first_batch_that_has_a_record() {
    let mut sink = Sink::open(0);
    assert_eq!(text(sink.emit(&vec![])), "");
    assert!(sink.header_due);
    assert_eq!(
        text(sink.emit(&vec![berlin()])),
        "country,name,description,id\nGermany,Berlin,Capital of Germany.,Q64\n"
    );
    assert!(!sink.header_due);
    assert_eq!(text(sink.emit(&vec![paris()])), "France,Paris,Capital of France.,Q90\n");
    assert_eq!(text(sink.emit(&vec![])), "");
    assert!(!sink.header_due);
}

#[test]
fn a_second_run_doubles_the_rows_and_keeps_one_header() {
    let batches = vec![vec![berlin()], vec![], vec![paris(), berlin()]];
    let mut file: Vec<u8> = Vec::new();
    for _run in 0..2 {
        let mut sink = Sink::open(file.len() as u64);
        for batch in &batches {
            file.extend(sink.emit(batch).unwrap());
        }
    }
    let written = String::from_utf8(file).unwrap();
    let lines: Vec<&str> = written.lines().collect();
    assert_eq!(
        lines,
        vec![
            "country,name,description,id",
            "Germany,Berlin,Capital of Germany.,Q64",
            "France,Paris,Capital of France.,Q90",
            "Germany,Berlin,Capital of Germany.,Q64",
            "Germany,Berlin,Capital of Germany.,Q64",
            "France,Paris,Capital of France.,Q90",
            "Germany,Berlin,Capital of Germany.,Q64",
        ]
    );
    assert_eq!(lines.iter().filter(|l| **l == "country,name,description,id").count(), 1);
}

#[test]
fn a_run_against_a_populated_sink_leaves_it_as_a_prefix() {
    let existing = b"country,name,description,id\nItaly,Rome,Capital of Italy.,Q220\n".to_vec();
    let mut file = existing.clone();
    let mut sink = Sink::open(file.len() as u64);
    file.extend(sink.emit(&vec![berlin()]).unwrap());
    file.extend(sink.emit(&vec![paris()]).unwrap());
    assert_eq!(&file[..existing.len()], &existing[..]);
    assert_eq!(
        String::from_utf8(file[existing.len()..].to_vec()).unwrap(),
        "Germany,Berlin,Capital of Germany.,Q64\nFrance,Paris,Capital of France.,Q90\n"
    );
}

#[test]
fn a_run_without_records_leaves_an_empty_sink_empty() {
    let mut sink = Sink::open(0);
    assert_eq!(text(sink.emit(&vec![])), "");
    assert_eq!(text(sink.emit(&vec![])), "");
    assert!(sink.header_due);
}
