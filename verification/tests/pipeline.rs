use geo_harvest::config::{DetailShape, PipelineConfig};
use geo_harvest::details::parse_record;
use geo_harvest::entities::{parse_cities, parse_countries};
use geo_harvest::error::{FetchError, ParseError, SinkError};
use geo_harvest::model::{City, Country, Record};
use geo_harvest::pipeline::{Command, Pipeline, RunReport, Stage};
use geo_harvest::requests::{cities_request, countries_request, detail_request, Request};
use geo_harvest::retry::Verdict;
use geo_harvest::runner::{Mode, StageRunner};
use std::cell::RefCell;
use std::collections::HashMap;

/// A source answers a request with a body or fails.
type Answer = Result<Vec<u8>, FetchError>;

/// Runs a whole harvest against the two sources and a sink held in memory.
/// `accept(bytes)` is the sink: it says whether it took the bytes.
fn harvest(
    config: PipelineConfig,
    sink_len: u64,
    entity_source: &dyn Fn(&Request) -> Answer,
    detail_source: &dyn Fn(&Request) -> Answer,
    accept: &mut dyn FnMut(&[u8]) -> bool,
) -> Result<RunReport, FetchError> {
    let mut run = Pipeline::new(config, sink_len).expect("a valid configuration");
    loop {
        match run.command() {
            Command::FetchCountries => {
                let answer = entity_source(&countries_request(run.config()));
                let countries = answer.and_then(|body| {
                    parse_countries(&body, &run.config().id_prefix).map_err(FetchError::Parse)
                });
                assert!(run.countries_fetched(countries));
            }
            Command::ExpandCities => {
                let mut runner = run.expansion_runner();
                let mut outstanding = Vec::new();
                loop {
                    while let Some(index) = runner.start_next() {
                        outstanding.push(index);
                    }
                    if runner.is_finished() {
                        break;
                    }
                    let index = outstanding.pop().expect("something is outstanding");
                    let country = &run.countries()[index];
                    let answer = entity_source(&cities_request(run.config(), country));
                    let cities = answer.and_then(|body| {
                        parse_cities(&body, country, &run.config().id_prefix)
                            .map_err(FetchError::Parse)
                    });
                    assert!(runner.complete(index, cities));
                }
                assert!(run.expansion_collected(runner));
            }
            Command::DetailBatch(_) => {
                let cities: Vec<City> = run.current_batch().unwrap().clone();
                let mut runner = run.detail_runner();
                assert_eq!(runner.total(), cities.len());
                let policy = run.retry_policy();
                let mut outstanding = Vec::new();
                loop {
                    while let Some(index) = runner.start_next() {
                        outstanding.push(index);
                    }
                    if runner.is_finished() {
                        break;
                    }
                    let index = outstanding.remove(0);
                    let city = &cities[index];
                    let mut state = policy.start();
                    let fetched = loop {
                        let answer = detail_source(&detail_request(run.config(), city));
                        match policy.step(state, answer) {
                            Verdict::Done(body) => break Ok(body),
                            Verdict::Failed(e) => break Err(e),
                            Verdict::Retry(next) => state = next,
                        }
                    };
                    let record = fetched.and_then(|body| {
                        parse_record(&body, run.config().detail_shape, city)
                            .map_err(FetchError::Parse)
                    });
                    assert!(runner.complete(index, record));
                }
                assert!(run.batch_collected(runner));
            }
            Command::Append => {
                let taken = accept(run.pending());
                assert!(run.batch_written(taken));
            }
            Command::Stop => break,
        }
    }
    run.outcome().expect("the run is over")
}

fn bindings(entries: &[(&str, &str, &str)]) -> Vec<u8> {
    let rows: Vec<String> = entries
        .iter()
        .map(|(label, name, id)| {
            format!(
                r#"{{"entity": {{"value": "http://www.wikidata.org/entity/{}"}}, "{}": {{"value": "{}"}}}}"#,
                id, label, name
            )
        })
        .collect();
    format!(r#"{{"results": {{"bindings": [{}]}}}}"#, rows.join(",")).into_bytes()
}

fn page(title: &str, extract: &str) -> Vec<u8> {
    format!(
        r#"{{"query": {{"pages": {{"1": {{"title": "{}", "extract": "{}"}}}}}}}}"#,
        title, extract
    )
    .into_bytes()
}

fn is_countries_query(request: &Request) -> bool {
    request.params[0].1.contains("wd:Q6256")
}

fn title_of(request: &Request) -> String {
    request.params.iter().find(|p| p.0 == "titles").unwrap().1.clone()
}

#[test]
fn one_country_two_cities_one_of_them_timing_out() {
    let detail_calls: RefCell<HashMap<String, u32>> = RefCell::new(HashMap::new());
    let entity_source = |request: &Request| -> Answer {
        if is_countries_query(request) {
            Ok(bindings(&[("entityLabel", "Germany", "Q183")]))
        } else {
            assert!(request.params[0].1.contains("wd:Q183."));
            Ok(bindings(&[("name", "Berlin", "Q64"), ("name", "Munich", "Q1726")]))
        }
    };
    let detail_source = |request: &Request| -> Answer {
        let title = title_of(request);
        *detail_calls.borrow_mut().entry(title.clone()).or_insert(0) += 1;
        if title == "Berlin" {
            Ok(page("Berlin", "Capital of Germany."))
        } else {
            Err(FetchError::Timeout)
        }
    };
    let mut file: Vec<u8> = Vec::new();
    let report = harvest(
        PipelineConfig::default(),
        0,
        &entity_source,
        &detail_source,
        &mut |bytes| {
            file.extend_from_slice(bytes);
            true
        },
    );
    assert_eq!(report, Ok(RunReport { batches_written: 1, sink_failures: 0 }));
    let written = String::from_utf8(file).unwrap();
    let lines: Vec<&str> = written.lines().collect();
    assert_eq!(lines, vec!["country,name,description,id", "Germany,Berlin,Capital of Germany.,Q64"]);
    assert_eq!(lines[1..], ["Germany,Berlin,Capital of Germany.,Q64"]);
    assert_eq!(detail_calls.borrow()["Berlin"], 1);
    assert_eq!(detail_calls.borrow()["Munich"], 6);
}

#[test]
fn running_twice_doubles_the_rows_under_one_header() {
    let entity_source = |request: &Request| -> Answer {
        if is_countries_query(request) {
            Ok(bindings(&[("entityLabel", "Germany", "Q183"), ("entityLabel", "France", "Q142")]))
        } else if request.params[0].1.contains("wd:Q183.") {
            Ok(bindings(&[("name", "Berlin", "Q64")]))
        } else {
            Ok(bindings(&[("name", "Paris", "Q90"), ("name", "Lyon", "Q456")]))
        }
    };
    let detail_source = |request: &Request| -> Answer {
        let title = title_of(request);
        Ok(page(&title, &format!("About {}.", title)))
    };
    let mut file: Vec<u8> = Vec::new();
    let mut after_first = Vec::new();
    for run in 0..2 {
        let sink_len = file.len() as u64;
        let report = harvest(
            PipelineConfig::default(),
            sink_len,
            &entity_source,
            &detail_source,
            &mut |bytes| {
                file.extend_from_slice(bytes);
                true
            },
        );
        assert_eq!(report, Ok(RunReport { batches_written: 2, sink_failures: 0 }));
        if run == 0 {
            after_first = file.clone();
        }
    }
    assert_eq!(&file[..after_first.len()], &after_first[..]);
    let first = String::from_utf8(after_first).unwrap();
    let both = String::from_utf8(file).unwrap();
    assert_eq!(
        first,
        "country,name,description,id\n\
         Germany,Berlin,About Berlin.,Q64\n\
         France,Paris,About Paris.,Q90\n\
         France,Lyon,About Lyon.,Q456\n"
    );
    let rows = |s: &str| s.lines().filter(|l| *l != "country,name,description,id").count();
    assert_eq!(rows(&first), 3);
    assert_eq!(rows(&both), 6);
    assert_eq!(both.lines().count(), 7);
}

#[test]
fn a_failure_to_fetch_the_countries_ends_the_run() {
    let entity_source = |_: &Request| -> Answer { Err(FetchError::HttpStatus(503)) };
    let detail_source = |_: &Request| -> Answer { panic!("no description is due") };
    let report = harvest(
        PipelineConfig::default(),
        0,
        &entity_source,
        &detail_source,
        &mut |_| panic!("nothing is to be written"),
    );
    assert_eq!(report, Err(FetchError::HttpStatus(503)));
}

#[test]
fn an_unreadable_country_list_ends_the_run() {
    let entity_source = |_: &Request| -> Answer { Ok(b"{\"results\": 1}".to_vec()) };
    let detail_source = |_: &Request| -> Answer { panic!("no description is due") };
    let report = harvest(
        PipelineConfig::default(),
        0,
        &entity_source,
        &detail_source,
        &mut |_| panic!("nothing is to be written"),
    );
    assert_eq!(report, Err(FetchError::Parse(ParseError::Shape)));
}

#[test]
fn one_country_that_cannot_be_expanded_ends_the_run() {
    let entity_source = |request: &Request| -> Answer {
        if is_countries_query(request) {
            Ok(bindings(&[("entityLabel", "Germany", "Q183"), ("entityLabel", "France", "Q142")]))
        } else if request.params[0].1.contains("wd:Q142.") {
            Err(FetchError::Transport)
        } else {
            Ok(bindings(&[("name", "Berlin", "Q64")]))
        }
    };
    let detail_source = |_: &Request| -> Answer { panic!("no description is due") };
    let report = harvest(
        PipelineConfig::default(),
        0,
        &entity_source,
        &detail_source,
        &mut |_| panic!("nothing is to be written"),
    );
    assert_eq!(report, Err(FetchError::Transport));
}

#[test]
fn no_countries_means_nothing_to_do() {
    let entity_source = |_: &Request| -> Answer { Ok(bindings(&[])) };
    let detail_source = |_: &Request| -> Answer { panic!("no description is due") };
    let report = harvest(
        PipelineConfig::default(),
        0,
        &entity_source,
        &detail_source,
        &mut |_| panic!("nothing is to be written"),
    );
    assert_eq!(report, Ok(RunReport { batches_written: 0, sink_failures: 0 }));
}

#[test]
fn a_sink_that_refuses_a_batch_does_not_stop_the_run() {
    let entity_source = |request: &Request| -> Answer {
        if is_countries_query(request) {
            Ok(bindings(&[("entityLabel", "Germany", "Q183"), ("entityLabel", "France", "Q142")]))
        } else if request.params[0].1.contains("wd:Q183.") {
            Ok(bindings(&[("name", "Berlin", "Q64")]))
        } else {
            Ok(bindings(&[("name", "Paris", "Q90")]))
        }
    };
    let detail_source = |request: &Request| -> Answer {
        let title = title_of(request);
        Ok(page(&title, "A capital."))
    };
    let mut file: Vec<u8> = Vec::new();
    let mut attempts = 0;
    let report = harvest(
        PipelineConfig::default(),
        0,
        &entity_source,
        &detail_source,
        &mut |bytes| {
            attempts += 1;
            if attempts == 1 {
                false
            } else {
                file.extend_from_slice(bytes);
                true
            }
        },
    )
    .unwrap();
    assert_eq!(report, RunReport { batches_written: 1, sink_failures: 1 });
    assert!(!report.persisted());
    assert_eq!(attempts, 2);
    // The header went with the refused batch and is not handed out again.
    assert_eq!(String::from_utf8(file).unwrap(), "France,Paris,A capital.,Q90\n");
}

#[test]
fn failed_descriptions_are_dropped_within_their_batch() {
    let entity_source = |request: &Request| -> Answer {
        if is_countries_query(request) {
            Ok(bindings(&[("entityLabel", "Germany", "Q183")]))
        } else {
            Ok(bindings(&[
                ("name", "Berlin", "Q64"),
                ("name", "Bonn", "Q586"),
                ("name", "Essen", "Q2066"),
                ("name", "Kiel", "Q1707"),
            ]))
        }
    };
    let detail_source = |request: &Request| -> Answer {
        match title_of(request).as_str() {
            "Bonn" => Err(FetchError::HttpStatus(404)),
            "Essen" => Ok(b"not json".to_vec()),
            title => Ok(page(title, "A city.")),
        }
    };
    let mut file: Vec<u8> = Vec::new();
    let mut config = PipelineConfig::default();
    config.detail_concurrency = 2;
    let report = harvest(config, 0, &entity_source, &detail_source, &mut |bytes| {
        file.extend_from_slice(bytes);
        true
    });
    assert_eq!(report, Ok(RunReport { batches_written: 1, sink_failures: 0 }));
    assert_eq!(
        String::from_utf8(file).unwrap(),
        "country,name,description,id\nGermany,Berlin,A city.,Q64\nGermany,Kiel,A city.,Q1707\n"
    );
}

#[test]
fn the_summary_shape_can_be_configured() {
    let entity_source = |request: &Request| -> Answer {
        if is_countries_query(request) {
            Ok(bindings(&[("entityLabel", "Germany", "Q183")]))
        } else {
            Ok(bindings(&[("name", "Berlin", "Q64")]))
        }
    };
    let detail_source = |_: &Request| -> Answer {
        Ok(br#"{"title": "Berlin", "extract": "Capital of Germany."}"#.to_vec())
    };
    let mut file: Vec<u8> = Vec::new();
    let mut config = PipelineConfig::default();
    config.detail_shape = DetailShape::Summary;
    harvest(config, 5, &entity_source, &detail_source, &mut |bytes| {
        file.extend_from_slice(bytes);
        true
    })
    .unwrap();
    assert_eq!(String::from_utf8(file).unwrap(), "Germany,Berlin,Capital of Germany.,Q64\n");
}

#[test]
fn a_configuration_without_concurrency_cannot_run() {
    let mut config = PipelineConfig::default();
    config.expand_concurrency = 0;
    assert!(!config.is_valid());
    assert!(Pipeline::new(config, 0).is_none());
    let mut config = PipelineConfig::default();
    config.detail_concurrency = 0;
    assert!(Pipeline::new(config, 0).is_none());
}

#[test]
fn the_stages_follow_one_another() {
    let mut run = Pipeline::new(PipelineConfig::default(), 0).unwrap();
    assert_eq!(run.stage(), Stage::FetchCountries);
    assert_eq!(run.command(), Command::FetchCountries);
    assert_eq!(run.outcome(), None);
    assert!(run.current_batch().is_none());

    let germany = Country { name: "Germany".to_string(), id: "Q183".to_string() };
    let france = Country { name: "France".to_string(), id: "Q142".to_string() };
    assert!(run.countries_fetched(Ok(vec![germany.clone(), france.clone()])));
    assert_eq!(run.stage(), Stage::ExpandCities);
    assert_eq!(run.command(), Command::ExpandCities);
    assert_eq!(run.countries(), &vec![germany, france]);

    let berlin = City { country: "Germany".to_string(), name: "Berlin".to_string(), id: "Q64".to_string() };
    let paris = City { country: "France".to_string(), name: "Paris".to_string(), id: "Q90".to_string() };
    assert!(run.cities_expanded(Ok(vec![vec![berlin.clone()], vec![paris.clone()]])));
    assert_eq!(run.command(), Command::DetailBatch(0));
    assert_eq!(run.current_batch(), Some(&vec![berlin]));

    let row = Record {
        country: "Germany".to_string(),
        name: "Berlin".to_string(),
        description: "Capital of Germany.".to_string(),
        id: "Q64".to_string(),
    };
    assert!(run.batch_detailed(vec![row]));
    assert_eq!(run.command(), Command::Append);
    assert_eq!(
        run.pending(),
        b"country,name,description,id\nGermany,Berlin,Capital of Germany.,Q64\n"
    );
    assert!(run.batch_written(true));
    assert!(run.pending().is_empty());

    assert_eq!(run.command(), Command::DetailBatch(1));
    assert_eq!(run.current_batch(), Some(&vec![paris]));
    assert!(run.batch_detailed(vec![]));
    assert_eq!(run.command(), Command::Append);
    assert!(run.pending().is_empty());
    assert!(run.batch_written(true));

    assert_eq!(run.stage(), Stage::Done);
    assert_eq!(run.command(), Command::Stop);
    assert_eq!(run.outcome(), Some(Ok(RunReport { batches_written: 2, sink_failures: 0 })));
    assert!(run.outcome().unwrap().unwrap().persisted());
}

#[test]
fn reports_out_of_turn_change_nothing() {
    let mut run = Pipeline::new(PipelineConfig::default(), 0).unwrap();
    assert!(!run.cities_expanded(Ok(vec![vec![]])));
    assert!(!run.batch_detailed(vec![]));
    assert!(!run.batch_written(true));
    assert_eq!(run.command(), Command::FetchCountries);
    assert!(run.countries_fetched(Ok(vec![])));
    assert!(!run.countries_fetched(Err(FetchError::Transport)));
    assert_eq!(run.command(), Command::ExpandCities);
    assert!(run.cities_expanded(Err(FetchError::Timeout)));
    assert_eq!(run.stage(), Stage::Failed);
    assert_eq!(run.outcome(), Some(Err(FetchError::Timeout)));
    assert!(!run.countries_fetched(Ok(vec![])));
    assert!(!run.cities_expanded(Ok(vec![])));
    assert!(!run.batch_detailed(vec![]));
    assert!(!run.batch_written(false));
    assert_eq!(run.outcome(), Some(Err(FetchError::Timeout)));
}

#[test]
fn the_runners_of_a_run_follow_its_configuration() {
    let mut config = PipelineConfig::default();
    config.expand_concurrency = 7;
    config.detail_concurrency = 3;
    config.max_retries = 2;
    let mut run = Pipeline::new(config, 0).unwrap();
    let countries = (0..4)
        .map(|i| Country { name: format!("C{}", i), id: format!("Q{}", i) })
        .collect();
    run.countries_fetched(Ok(countries));
    let expansion = run.expansion_runner();
    assert_eq!(expansion.total(), 4);
    assert_eq!(expansion.limit(), 7);
    assert_eq!(expansion.mode(), Mode::CollectAll);
    assert_eq!(run.detail_runner().total(), 0);
    let towns = |n: usize| -> Vec<City> {
        (0..n)
            .map(|i| City { country: "C".to_string(), name: format!("T{}", i), id: format!("Q{}", i) })
            .collect()
    };
    run.cities_expanded(Ok(vec![towns(9), towns(0), towns(2), towns(1)]));
    let detail = run.detail_runner();
    assert_eq!(detail.total(), 9);
    assert_eq!(detail.limit(), 3);
    assert_eq!(detail.mode(), Mode::DropFailures);
    run.batch_detailed(vec![]);
    assert_eq!(run.detail_runner().total(), 9);
    run.batch_written(true);
    assert_eq!(run.detail_runner().total(), 0);
    run.batch_detailed(vec![]);
    run.batch_written(true);
    assert_eq!(run.detail_runner().total(), 2);
    assert_eq!(run.retry_policy().max_retries, 2);
}

#[test]
fn the_last_sink_error_says_why_a_batch_was_lost() {
    let mut run = Pipeline::new(PipelineConfig::default(), 0).unwrap();
    let countries = (0..3)
        .map(|i| Country { name: format!("C{}", i), id: format!("Q{}", i) })
        .collect();
    run.countries_fetched(Ok(countries));
    assert!(run.cities_expanded(Ok(vec![vec![], vec![], vec![]])));
    assert_eq!(run.last_sink_error(), None);
    run.batch_detailed(vec![]);
    run.batch_written(true);
    assert_eq!(run.last_sink_error(), None);
    run.batch_detailed(vec![]);
    run.batch_written(false);
    assert_eq!(run.last_sink_error(), Some(SinkError::Write));
    run.batch_detailed(vec![]);
    run.batch_written(true);
    assert_eq!(run.last_sink_error(), Some(SinkError::Write));
    assert_eq!(run.outcome(), Some(Ok(RunReport { batches_written: 2, sink_failures: 1 })));
}

fn three_countries() -> Vec<Country> {
    (0..3).map(|i| Country { name: format!("C{}", i), id: format!("Q{}", i) }).collect()
}

fn town(i: usize) -> City {
    City { country: "C0".to_string(), name: format!("T{}", i), id: format!("Q10{}", i) }
}

fn row(i: usize) -> Record {
    Record {
        country: "C0".to_string(),
        name: format!("T{}", i),
        description: "A town.".to_string(),
        id: format!("Q10{}", i),
    }
}

#[test]
fn there_is_one_batch_per_country() {
    let mut run = Pipeline::new(PipelineConfig::default(), 0).unwrap();
    run.countries_fetched(Ok(three_countries()));
    assert!(!run.cities_expanded(Ok(vec![vec![], vec![]])));
    assert!(!run.cities_expanded(Ok(vec![vec![], vec![], vec![], vec![]])));
    assert_eq!(run.command(), Command::ExpandCities);
    assert!(run.cities_expanded(Ok(vec![vec![], vec![town(1)], vec![]])));
    assert_eq!(run.command(), Command::DetailBatch(0));
}

#[test]
fn a_batch_yields_no_more_records_than_it_has_cities() {
    let mut run = Pipeline::new(PipelineConfig::default(), 0).unwrap();
    run.countries_fetched(Ok(three_countries()));
    run.cities_expanded(Ok(vec![vec![town(0)], vec![town(1), town(2)], vec![]]));
    assert!(!run.batch_detailed(vec![row(0), row(1)]));
    assert_eq!(run.command(), Command::DetailBatch(0));
    assert!(run.batch_detailed(vec![row(0)]));
    assert!(run.batch_written(true));
    assert!(run.batch_detailed(vec![row(2)]));
    assert!(run.batch_written(true));
    assert!(!run.batch_detailed(vec![row(0)]));
    assert!(run.batch_detailed(vec![]));
    assert!(run.batch_written(true));
    assert_eq!(run.outcome(), Some(Ok(RunReport { batches_written: 3, sink_failures: 0 })));
}

#[test]
fn books_that_are_handed_in_report_what_the_stage_returns() {
    let mut run = Pipeline::new(PipelineConfig::default(), 0).unwrap();
    run.countries_fetched(Ok(three_countries()));

    // Books of a stage under way are not taken.
    let mut unfinished = run.expansion_runner();
    unfinished.start_next();
    assert!(!run.expansion_collected(unfinished));
    assert_eq!(run.command(), Command::ExpandCities);

    // Books for another number of items are not taken.
    let other = StageRunner::new(0, 1, Mode::CollectAll).unwrap();
    assert!(!run.expansion_collected(other));
    assert_eq!(run.command(), Command::ExpandCities);

    let mut books = run.expansion_runner();
    while let Some(index) = books.start_next() {
        books.complete(index, Ok(vec![town(index)]));
    }
    assert!(run.expansion_collected(books));
    assert_eq!(run.command(), Command::DetailBatch(0));

    let mut books = run.detail_runner();
    assert_eq!(books.start_next(), Some(0));
    assert!(!run.batch_collected(run.detail_runner()));
    books.complete(0, Err(FetchError::Timeout));
    assert!(run.batch_collected(books));
    assert_eq!(run.command(), Command::Append);
    assert!(run.pending().is_empty());
}

#[test]
fn books_of_a_failed_expansion_end_the_run() {
    let mut run = Pipeline::new(PipelineConfig::default(), 0).unwrap();
    run.countries_fetched(Ok(three_countries()));
    let mut books = run.expansion_runner();
    assert_eq!(books.start_next(), Some(0));
    assert_eq!(books.start_next(), Some(1));
    assert_eq!(books.start_next(), Some(2));
    books.complete(1, Err(FetchError::HttpStatus(500)));
    books.complete(0, Ok(vec![town(0)]));
    books.complete(2, Err(FetchError::Timeout));
    assert!(run.expansion_collected(books));
    assert_eq!(run.outcome(), Some(Err(FetchError::HttpStatus(500))));
}
