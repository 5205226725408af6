//! The orchestrator: three stages, strictly one after the other.
//!
//! 1. The countries are fetched.  A failure ends the run.
//! 2. Every country is expanded into its cities, all or nothing.  A failure
//!    ends the run.
//! 3. Batch by batch, in the order of the countries, the cities of one
//!    country are described and the records that came back are appended to
//!    the sink before the next batch begins.  A batch that cannot be
//!    written is counted and the run goes on.
//!
//! The orchestrator performs none of this.  It says what is due, takes the
//! caller's report of how it went, and moves on.

use crate::config::PipelineConfig;
use crate::error::{FetchError, SinkError};
use crate::model::{
    city_views, country_views, record_views, City, CityView, Country, CountryView, Record,
    RecordView,
};
use crate::retry::RetryPolicy;
use crate::runner::{
    lemma_collect_all_is_all_or_nothing, lemma_harvest, lemma_tally_bounds, Mode, Phase,
    RunnerView, StageError, StageRunner,
};
use crate::sink::{batch_bytes, header_due_after, run_bytes, Sink};
use vstd::prelude::*;

verus! {

/// Where a run stands.
#[derive(Clone, Copy, Debug, PartialEq, Eq, Structural)]
pub enum Stage {
    /// The countries have yet to be fetched.
    FetchCountries,
    /// The countries are known; their cities have yet to be fetched.
    ExpandCities,
    /// The batch under the cursor has yet to be described.
    Detail,
    /// The batch under the cursor has been described; its bytes have yet to
    /// be appended.
    Emit,
    /// Every batch has been dealt with.
    Done,
    /// A fatal failure ended the run.
    Failed,
}

/// What the caller is to do next.
#[derive(Clone, Copy, Debug, PartialEq, Eq, Structural)]
pub enum Command {
    /// Ask the entity source for the countries and report with
    /// `countries_fetched`.
    FetchCountries,
    /// Fetch the cities of every country, all or nothing, and report with
    /// `cities_expanded`.
    ExpandCities,
    /// Describe the cities of the batch with this index, dropping failures,
    /// and report with `batch_detailed`.
    DetailBatch(usize),
    /// Append the pending bytes to the sink and report with `batch_written`.
    Append,
    /// Nothing is left to do.
    Stop,
}

/// How a run that reached its end went.
#[derive(Clone, Copy, Debug, PartialEq, Eq, Structural)]
pub struct RunReport {
    /// Batches whose bytes the sink took.
    pub batches_written: usize,
    /// Batches that could not be encoded or that the sink refused.
    pub sink_failures: usize,
}

impl RunReport {
    /// Whether everything that was harvested reached the sink.
    pub open spec fn spec_persisted(self) -> bool {
        self.sink_failures == 0
    }

    /// Whether everything that was harvested reached the sink.
    #[verifier::when_used_as_spec(spec_persisted)]
    pub fn persisted(self) -> (b: bool)
        ensures
            b == (self.sink_failures == 0),
    {
        self.sink_failures == 0
    }
}

/// A run as mathematics.
pub ghost struct PipelineView {
    pub stage: Stage,
    pub countries: Seq<CountryView>,
    /// One batch of cities per country, in the order of the countries.
    pub batches: Seq<Seq<CityView>>,
    /// The index of the batch that is being described or emitted.
    pub cursor: nat,
    /// Whether the header row has yet to be emitted.
    pub header_due: bool,
    /// The bytes that wait to be appended.
    pub pending: Seq<u8>,
    pub batches_written: nat,
    pub sink_failures: nat,
    /// Why the batch that failed last did not reach the sink.
    pub last_sink_error: Option<SinkError>,
    /// The failure that ended the run.
    pub failure: Option<FetchError>,
}

impl PipelineView {
    /// A run that has not begun, against a sink of `sink_len` bytes.
    pub open spec fn fresh(sink_len: nat) -> PipelineView {
        PipelineView {
            stage: Stage::FetchCountries,
            countries: Seq::empty(),
            batches: Seq::empty(),
            cursor: 0,
            header_due: Sink::opened(sink_len).header_due,
            pending: Seq::empty(),
            batches_written: 0,
            sink_failures: 0,
            last_sink_error: None,
            failure: None,
        }
    }

    /// What is due.
    pub open spec fn command(self) -> Command {
        match self.stage {
            Stage::FetchCountries => Command::FetchCountries,
            Stage::ExpandCities => Command::ExpandCities,
            Stage::Detail => Command::DetailBatch(self.cursor as usize),
            Stage::Emit => Command::Append,
            Stage::Done => Command::Stop,
            Stage::Failed => Command::Stop,
        }
    }

    /// The stage that follows the batch under the cursor.
    pub open spec fn stage_after_batch(self) -> Stage {
        if self.cursor + 1 < self.batches.len() {
            Stage::Detail
        } else {
            Stage::Done
        }
    }

    /// The run after the entity source answered the request for countries.
    /// Outside the first stage the report changes nothing.
    pub open spec fn countries_fetched(self, outcome: Result<Seq<CountryView>, FetchError>) -> Self {
        if self.stage != Stage::FetchCountries {
            self
        } else {
            match outcome {
                Ok(countries) => PipelineView { stage: Stage::ExpandCities, countries, ..self },
                Err(e) => PipelineView { stage: Stage::Failed, failure: Some(e), ..self },
            }
        }
    }

    /// Whether a report of how the expansion stage ended is due: the run is
    /// in its second stage, and batches, if any came back, are as many as
    /// the countries.
    pub open spec fn expansion_due(self, outcome: Result<Seq<Seq<CityView>>, FetchError>) -> bool {
        &&& self.stage is ExpandCities
        &&& outcome matches Ok(batches) ==> batches.len() == self.countries.len()
    }

    /// The run after the expansion stage ended.  A report that is not due
    /// changes nothing.
    pub open spec fn cities_expanded(
        self,
        outcome: Result<Seq<Seq<CityView>>, FetchError>,
    ) -> Self {
        if !self.expansion_due(outcome) {
            self
        } else {
            match outcome {
                Ok(batches) => PipelineView {
                    stage: if batches.len() > 0 {
                        Stage::Detail
                    } else {
                        Stage::Done
                    },
                    batches,
                    cursor: 0,
                    ..self
                },
                Err(e) => PipelineView { stage: Stage::Failed, failure: Some(e), ..self },
            }
        }
    }

    /// Whether a report of the records of the batch under the cursor is
    /// due: the run is in its detail stage, and the records are no more than
    /// the cities of the batch.
    pub open spec fn detail_due(self, records: Seq<RecordView>) -> bool {
        &&& self.stage is Detail
        &&& self.cursor < self.batches.len()
        &&& records.len() <= self.batches[self.cursor as int].len()
    }

    /// The run after the batch under the cursor was described and `records`
    /// came back.  The records are encoded at once: their bytes wait to be
    /// appended, or, where they cannot be encoded, the batch counts as a sink
    /// failure and the run moves on.  A report that is not due changes
    /// nothing.
    pub open spec fn batch_detailed(self, records: Seq<RecordView>) -> Self {
        if !self.detail_due(records) {
            self
        } else {
            match batch_bytes(self.header_due, records) {
                Some(bytes) => PipelineView {
                    stage: Stage::Emit,
                    pending: bytes,
                    header_due: header_due_after(self.header_due, records),
                    ..self
                },
                None => PipelineView {
                    stage: self.stage_after_batch(),
                    cursor: self.cursor + 1,
                    sink_failures: self.sink_failures + 1,
                    last_sink_error: Some(SinkError::Encode),
                    ..self
                },
            }
        }
    }

    /// The run after the books of the expansion stage were handed in.  What
    /// the stage returns is what is reported: its batches, or the failure
    /// that failed it.  Books of a stage that is not over change nothing.
    pub open spec fn expansion_collected(self, runner: RunnerView<Vec<City>>) -> Self {
        match runner.outcome() {
            Ok(batches) => self.cities_expanded(Ok(batch_views(batches))),
            Err(StageError::Failed(e)) => self.cities_expanded(Err(e)),
            Err(StageError::Unfinished) => self,
        }
    }

    /// The run after the books of the detail stage of the batch under the
    /// cursor were handed in.  What the stage returns is what is reported.
    /// Books of a stage that is not over or that failed change nothing.
    pub open spec fn batch_collected(self, runner: RunnerView<Record>) -> Self {
        match runner.outcome() {
            Ok(records) => self.batch_detailed(record_views(records)),
            Err(_) => self,
        }
    }

    /// The run after the caller tried to append the pending bytes.  Outside
    /// the emit stage the report changes nothing.
    pub open spec fn batch_written(self, written: bool) -> Self {
        if self.stage != Stage::Emit {
            self
        } else {
            PipelineView {
                stage: self.stage_after_batch(),
                cursor: self.cursor + 1,
                pending: Seq::empty(),
                batches_written: if written {
                    self.batches_written + 1
                } else {
                    self.batches_written
                },
                sink_failures: if written {
                    self.sink_failures
                } else {
                    self.sink_failures + 1
                },
                last_sink_error: if written {
                    self.last_sink_error
                } else {
                    Some(SinkError::Write)
                },
                ..self
            }
        }
    }

    /// The run after each of `batches` came back as the records of the batch
    /// under the cursor and was then written, one batch after the other,
    /// together with all the bytes that were handed out on the way.
    pub open spec fn emit_all(self, batches: Seq<Seq<RecordView>>) -> (PipelineView, Seq<u8>)
        decreases batches.len(),
    {
        if batches.len() == 0 {
            (self, Seq::empty())
        } else {
            let detailed = self.batch_detailed(batches[0]);
            let (end, rest) = detailed.batch_written(true).emit_all(batches.drop_first());
            (end, detailed.pending + rest)
        }
    }

    /// How the run ended; `None` while it is under way.
    pub open spec fn outcome(self) -> Option<Result<RunReport, FetchError>> {
        match self.stage {
            Stage::Done => Some(
                Ok(
                    RunReport {
                        batches_written: self.batches_written as usize,
                        sink_failures: self.sink_failures as usize,
                    },
                ),
            ),
            Stage::Failed => Some(Err(self.failure->Some_0)),
            _ => None,
        }
    }

    /// What stays true of a run whatever is reported.
    pub open spec fn inv(self) -> bool {
        &&& self.cursor <= self.batches.len()
        &&& self.batches_written + self.sink_failures == self.cursor
        &&& (self.stage is Detail || self.stage is Emit) ==> self.cursor < self.batches.len()
        &&& self.stage is Done ==> self.cursor == self.batches.len()
        &&& (self.stage is Detail || self.stage is Emit || self.stage is Done)
            ==> self.batches.len() == self.countries.len()
        &&& (self.stage is FetchCountries || self.stage is ExpandCities || self.stage is Failed)
            ==> self.cursor == 0 && self.batches.len() == 0
        &&& self.stage is FetchCountries ==> self.countries.len() == 0
        &&& self.stage is Failed <==> self.failure is Some
        &&& self.sink_failures > 0 <==> self.last_sink_error is Some
        &&& !(self.stage is Emit) ==> self.pending.len() == 0
    }
}

/// The values of a list of batches.
pub open spec fn batch_views(batches: Seq<Vec<City>>) -> Seq<Seq<CityView>> {
    batches.map_values(|b: Vec<City>| city_views(b@))
}

/// The value of what the entity source answered.
pub open spec fn countries_outcome(outcome: Result<Vec<Country>, FetchError>) -> Result<
    Seq<CountryView>,
    FetchError,
> {
    match outcome {
        Ok(countries) => Ok(country_views(countries@)),
        Err(e) => Err(e),
    }
}

/// The value of what the expansion stage returned.
pub open spec fn cities_outcome(outcome: Result<Vec<Vec<City>>, FetchError>) -> Result<
    Seq<Seq<CityView>>,
    FetchError,
> {
    match outcome {
        Ok(batches) => Ok(batch_views(batches@)),
        Err(e) => Err(e),
    }
}

/// Every report leaves a run in order: the cursor never moves back, a batch
/// is counted exactly once, as written or as failed, and a run that has
/// ended stays as it is.
pub proof fn lemma_reports_keep_order(
    view: PipelineView,
    countries: Result<Seq<CountryView>, FetchError>,
    batches: Result<Seq<Seq<CityView>>, FetchError>,
    records: Seq<RecordView>,
    written: bool,
)
    requires
        view.inv(),
    ensures
        view.countries_fetched(countries).inv(),
        view.cities_expanded(batches).inv(),
        view.batch_detailed(records).inv(),
        view.batch_written(written).inv(),
        view.batch_detailed(records).cursor >= view.cursor,
        view.batch_written(written).cursor >= view.cursor,
        view.stage is Emit ==> view.batch_written(written).cursor == view.cursor + 1,
        view.outcome() is Some ==> {
            &&& view.countries_fetched(countries) == view
            &&& view.cities_expanded(batches) == view
            &&& view.batch_detailed(records) == view
            &&& view.batch_written(written) == view
        },
{
}

/// From the first batch that is due to the last, a run whose batches come
/// back with no more records than cities, can all be encoded and are all
/// written hands out, in order, exactly the bytes of a sink run over the
/// records that came back, and then is done with every batch counted as
/// written.
pub proof fn lemma_emissions_are_the_sink_run(view: PipelineView, batches: Seq<Seq<RecordView>>)
    requires
        view.inv(),
        view.stage is Detail,
        batches.len() == view.batches.len() - view.cursor,
        forall|k: int|
            0 <= k < batches.len() ==> (#[trigger] batches[k]).len() <= view.batches[view.cursor
                + k].len(),
        run_bytes(view.header_due, batches) is Some,
    ensures
        view.emit_all(batches).0.stage is Done,
        view.emit_all(batches).0.inv(),
        view.emit_all(batches).0.batches_written == view.batches_written + batches.len(),
        view.emit_all(batches).0.sink_failures == view.sink_failures,
        view.emit_all(batches).1 == run_bytes(view.header_due, batches)->Some_0,
    decreases batches.len(),
{
    let detailed = view.batch_detailed(batches[0]);
    let written = detailed.batch_written(true);
    let rest = batches.drop_first();
    if rest.len() > 0 {
        assert forall|k: int| 0 <= k < rest.len() implies (#[trigger] rest[k]).len()
            <= written.batches[written.cursor + k].len() by {
            assert(rest[k] == batches[k + 1]);
        }
        lemma_emissions_are_the_sink_run(written, rest);
    } else {
        assert(written.emit_all(rest).1 =~= Seq::<u8>::empty());
        assert(run_bytes(written.header_due, rest)->Some_0 =~= Seq::<u8>::empty());
    }
}

/// A run.
#[derive(Debug)]
pub struct Pipeline {
    config: PipelineConfig,
    stage: Stage,
    countries: Vec<Country>,
    batches: Vec<Vec<City>>,
    cursor: usize,
    sink: Sink,
    pending: Vec<u8>,
    batches_written: usize,
    sink_failures: usize,
    last_sink_error: Option<SinkError>,
    failure: Option<FetchError>,
}

impl View for Pipeline {
    type V = PipelineView;

    closed spec fn view(&self) -> PipelineView {
        PipelineView {
            stage: self.stage,
            countries: country_views(self.countries@),
            batches: batch_views(self.batches@),
            cursor: self.cursor as nat,
            header_due: self.sink.header_due,
            pending: self.pending@,
            batches_written: self.batches_written as nat,
            sink_failures: self.sink_failures as nat,
            last_sink_error: self.last_sink_error,
            failure: self.failure,
        }
    }
}

impl Pipeline {
    /// Whether the run is in order and its configuration can drive it.
    pub closed spec fn wf(&self) -> bool {
        &&& self@.inv()
        &&& self.config.is_valid()
    }

    /// The configuration the run was built with.
    pub closed spec fn spec_config(&self) -> PipelineConfig {
        self.config
    }

    /// A run that is in order keeps its invariant and a usable
    /// configuration.
    pub proof fn lemma_wf(&self)
        requires
            self.wf(),
        ensures
            self@.inv(),
            self.spec_config().is_valid(),
    {
    }

    /// Begins a run against a sink that holds `sink_len` bytes.  There is no
    /// run for a configuration whose concurrency bounds are not both at
    /// least one.
    pub fn new(config: PipelineConfig, sink_len: u64) -> (r: Option<Pipeline>)
        ensures
            r is Some <==> config.is_valid(),
            r matches Some(p) ==> p.wf() && p@ == PipelineView::fresh(sink_len as nat)
                && p.spec_config() == config,
    {
        if !config.is_valid() {
            return None;
        }
        let p = Pipeline {
            config,
            stage: Stage::FetchCountries,
            countries: Vec::new(),
            batches: Vec::new(),
            cursor: 0,
            sink: Sink::open(sink_len),
            pending: Vec::new(),
            batches_written: 0,
            sink_failures: 0,
            last_sink_error: None,
            failure: None,
        };
        proof {
            assert(p@.countries =~= Seq::<CountryView>::empty());
            assert(p@.batches =~= Seq::<Seq<CityView>>::empty());
        }
        Some(p)
    }

    /// The configuration the run was built with.
    pub fn config(&self) -> (r: &PipelineConfig)
        ensures
            *r == self.spec_config(),
    {
        &self.config
    }

    /// Where the run stands.
    pub fn stage(&self) -> (r: Stage)
        ensures
            r == self@.stage,
    {
        self.stage
    }

    /// What is due.
    pub fn command(&self) -> (r: Command)
        ensures
            r == self@.command(),
    {
        match self.stage {
            Stage::FetchCountries => Command::FetchCountries,
            Stage::ExpandCities => Command::ExpandCities,
            Stage::Detail => Command::DetailBatch(self.cursor),
            Stage::Emit => Command::Append,
            Stage::Done => Command::Stop,
            Stage::Failed => Command::Stop,
        }
    }

    /// The countries of the run; empty until they have been fetched.
    pub fn countries(&self) -> (r: &Vec<Country>)
        ensures
            country_views(r@) == self@.countries,
    {
        &self.countries
    }

    /// The cities of the batch under the cursor, while a batch is being
    /// described or emitted.
    pub fn current_batch(&self) -> (r: Option<&Vec<City>>)
        requires
            self.wf(),
        ensures
            r is Some <==> self@.stage is Detail || self@.stage is Emit,
            r matches Some(cities) ==> city_views(cities@) == self@.batches[self@.cursor as int],
    {
        match self.stage {
            Stage::Detail | Stage::Emit => {
                assert(self.cursor < self.batches@.len());
                Some(&self.batches[self.cursor])
            },
            _ => None,
        }
    }

    /// The bytes that wait to be appended; empty outside the emit stage.
    pub fn pending(&self) -> (r: &Vec<u8>)
        ensures
            r@ == self@.pending,
    {
        &self.pending
    }

    /// Why the batch that failed last did not reach the sink; `None` while
    /// every batch has reached it.
    pub fn last_sink_error(&self) -> (r: Option<SinkError>)
        ensures
            r == self@.last_sink_error,
    {
        self.last_sink_error
    }

    /// How the run ended; `None` while it is under way.
    pub fn outcome(&self) -> (r: Option<Result<RunReport, FetchError>>)
        requires
            self.wf(),
        ensures
            r == self@.outcome(),
    {
        match self.stage {
            Stage::Done => Some(
                Ok(
                    RunReport {
                        batches_written: self.batches_written,
                        sink_failures: self.sink_failures,
                    },
                ),
            ),
            Stage::Failed => Some(Err(self.failure.unwrap())),
            _ => None,
        }
    }

    /// The policy under which each description is fetched.
    pub fn retry_policy(&self) -> (r: RetryPolicy)
        ensures
            r.max_retries == self.spec_config().max_retries,
    {
        RetryPolicy::new(self.config.max_retries)
    }

    /// The books for the expansion stage: one item per country, all or
    /// nothing, bounded by the configured expansion concurrency.
    pub fn expansion_runner(&self) -> (r: StageRunner<Vec<City>>)
        requires
            self.wf(),
        ensures
            r.wf(),
            r@ == RunnerView::<Vec<City>>::fresh(
                self@.countries.len(),
                self.spec_config().expand_concurrency as nat,
                Mode::CollectAll,
            ),
    {
        StageRunner::new(
            self.countries.len(),
            self.config.expand_concurrency,
            Mode::CollectAll,
        ).unwrap()
    }

    /// The books for describing the batch under the cursor: one item per
    /// city, failures are dropped, bounded by the configured detail
    /// concurrency.  Outside the detail and emit stages there is no batch
    /// and the books are for no item.
    pub fn detail_runner(&self) -> (r: StageRunner<Record>)
        requires
            self.wf(),
        ensures
            r.wf(),
            r@ == RunnerView::<Record>::fresh(
                if self@.stage is Detail || self@.stage is Emit {
                    self@.batches[self@.cursor as int].len()
                } else {
                    0
                },
                self.spec_config().detail_concurrency as nat,
                Mode::DropFailures,
            ),
    {
        let total = match self.current_batch() {
            Some(cities) => cities.len(),
            None => 0,
        };
        StageRunner::new(total, self.config.detail_concurrency, Mode::DropFailures).unwrap()
    }

    /// Takes the entity source's answer to the request for countries, and
    /// says whether the report was due.  A failure ends the run.
    pub fn countries_fetched(&mut self, outcome: Result<Vec<Country>, FetchError>) -> (due: bool)
        requires
            old(self).wf(),
        ensures
            final(self).wf(),
            final(self).spec_config() == old(self).spec_config(),
            final(self)@ == old(self)@.countries_fetched(countries_outcome(outcome)),
            due == (old(self)@.stage is FetchCountries),
    {
        match self.stage {
            Stage::FetchCountries => {},
            _ => {
                return false;
            },
        }
        match outcome {
            Ok(countries) => {
                self.countries = countries;
                self.stage = Stage::ExpandCities;
            },
            Err(e) => {
                self.failure = Some(e);
                self.stage = Stage::Failed;
            },
        }
        true
    }

    /// Takes what the expansion stage returned, and says whether the report
    /// was due.  A failure ends the run; otherwise there is one batch per
    /// country, and the batches are taken up one by one, in order.
    pub fn cities_expanded(&mut self, outcome: Result<Vec<Vec<City>>, FetchError>) -> (due: bool)
        requires
            old(self).wf(),
        ensures
            final(self).wf(),
            final(self).spec_config() == old(self).spec_config(),
            final(self)@ == old(self)@.cities_expanded(cities_outcome(outcome)),
            due == old(self)@.expansion_due(cities_outcome(outcome)),
    {
        match self.stage {
            Stage::ExpandCities => {},
            _ => {
                return false;
            },
        }
        match outcome {
            Ok(batches) => {
                if batches.len() != self.countries.len() {
                    return false;
                }
                self.stage = if batches.len() > 0 {
                    Stage::Detail
                } else {
                    Stage::Done
                };
                self.batches = batches;
                self.cursor = 0;
            },
            Err(e) => {
                self.failure = Some(e);
                self.stage = Stage::Failed;
            },
        }
        true
    }

    /// Takes the books of the expansion stage once the stage is over and
    /// reports what the stage returns: one batch per country, or the failure
    /// that failed the stage, which ends the run.  Says whether anything was
    /// reported and due.
    pub fn expansion_collected(&mut self, runner: StageRunner<Vec<City>>) -> (due: bool)
        requires
            old(self).wf(),
            runner.wf(),
        ensures
            final(self).wf(),
            final(self).spec_config() == old(self).spec_config(),
            final(self)@ == old(self)@.expansion_collected(runner@),
            due == match runner@.outcome() {
                Ok(batches) => old(self)@.expansion_due(Ok(batch_views(batches))),
                Err(StageError::Failed(e)) => old(self)@.expansion_due(Err(e)),
                Err(StageError::Unfinished) => false,
            },
            old(self)@.stage is ExpandCities && runner@.finished() && runner@.mode is CollectAll
                && runner@.slots.len() == old(self)@.countries.len() ==> due,
    {
        proof {
            runner.lemma_wf();
            if runner@.finished() && runner@.mode is CollectAll {
                lemma_collect_all_is_all_or_nothing(runner@);
            }
        }
        match runner.collect() {
            Ok(batches) => self.cities_expanded(Ok(batches)),
            Err(StageError::Failed(e)) => self.cities_expanded(Err(e)),
            Err(StageError::Unfinished) => false,
        }
    }

    /// Takes the books of the detail stage of the batch under the cursor
    /// once the stage is over and reports the records it returns.  Says
    /// whether anything was reported and due.
    pub fn batch_collected(&mut self, runner: StageRunner<Record>) -> (due: bool)
        requires
            old(self).wf(),
            runner.wf(),
        ensures
            final(self).wf(),
            final(self).spec_config() == old(self).spec_config(),
            final(self)@ == old(self)@.batch_collected(runner@),
            due == match runner@.outcome() {
                Ok(records) => old(self)@.detail_due(record_views(records)),
                Err(_) => false,
            },
            old(self)@.stage is Detail && runner@.finished() && runner@.mode is DropFailures
                && runner@.slots.len() == old(self)@.batches[old(self)@.cursor as int].len()
                ==> due,
    {
        proof {
            runner.lemma_wf();
            lemma_harvest(runner@.slots);
            lemma_tally_bounds(runner@.slots, Phase::Done);
        }
        match runner.collect() {
            Ok(records) => self.batch_detailed(records),
            Err(_) => false,
        }
    }

    /// Takes the records that came back for the batch under the cursor, and
    /// says whether the report was due.  The records are encoded at once and
    /// their bytes wait to be appended; a batch that cannot be encoded
    /// counts as a sink failure and the run moves on to the next batch.
    pub fn batch_detailed(&mut self, records: Vec<Record>) -> (due: bool)
        requires
            old(self).wf(),
        ensures
            final(self).wf(),
            final(self).spec_config() == old(self).spec_config(),
            final(self)@ == old(self)@.batch_detailed(record_views(records@)),
            due == old(self)@.detail_due(record_views(records@)),
    {
        match self.stage {
            Stage::Detail => {},
            _ => {
                return false;
            },
        }
        assert(self.cursor < self.batches.len());
        if records.len() > self.batches[self.cursor].len() {
            return false;
        }
        match self.sink.emit(&records) {
            Ok(bytes) => {
                self.pending = bytes;
                self.stage = Stage::Emit;
            },
            Err(e) => {
                self.sink_failures = self.sink_failures + 1;
                self.last_sink_error = Some(e);
                self.move_on();
            },
        }
        true
    }

    /// Takes the caller's word on whether the pending bytes were appended,
    /// and says whether the report was due.  Either way the run moves on to
    /// the next batch; a refused batch counts as a sink failure.
    pub fn batch_written(&mut self, written: bool) -> (due: bool)
        requires
            old(self).wf(),
        ensures
            final(self).wf(),
            final(self).spec_config() == old(self).spec_config(),
            final(self)@ == old(self)@.batch_written(written),
            due == (old(self)@.stage is Emit),
    {
        match self.stage {
            Stage::Emit => {},
            _ => {
                return false;
            },
        }
        assert(self.cursor < self.batches.len());
        if written {
            self.batches_written = self.batches_written + 1;
        } else {
            self.sink_failures = self.sink_failures + 1;
            self.last_sink_error = Some(SinkError::Write);
        }
        self.pending = Vec::new();
        self.move_on();
        true
    }

    /// Moves the cursor past the current batch.
    fn move_on(&mut self)
        requires
            old(self).cursor < old(self).batches@.len(),
        ensures
            final(self).cursor == old(self).cursor + 1,
            final(self).stage == old(self)@.stage_after_batch(),
            final(self).config == old(self).config,
            final(self).countries == old(self).countries,
            final(self).batches == old(self).batches,
            final(self).sink == old(self).sink,
            final(self).pending == old(self).pending,
            final(self).batches_written == old(self).batches_written,
            final(self).sink_failures == old(self).sink_failures,
            final(self).last_sink_error == old(self).last_sink_error,
            final(self).failure == old(self).failure,
    {
        assert(self.cursor < self.batches.len());
        self.cursor = self.cursor + 1;
        self.stage = if self.cursor < self.batches.len() {
            Stage::Detail
        } else {
            Stage::Done
        };
    }
}

} // verus!
