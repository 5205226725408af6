//! The knobs of a harvest, gathered in one value that is handed to the
//! pipeline when it is built.

use vstd::prelude::*;

verus! {

/// How many transforms a stage keeps outstanding unless told otherwise.
pub const DEFAULT_CONCURRENCY: usize = 50;

/// How many times a timed-out fetch is tried again unless told otherwise.
pub const DEFAULT_MAX_RETRIES: u32 = 5;

/// The URI prefix in front of every identifier the entity source returns.
pub const DEFAULT_ID_PREFIX: &'static str = "http://www.wikidata.org/entity/";

/// The identification sent with every request.
pub const DEFAULT_USER_AGENT: &'static str = "JustTestingForNow/0.0 (testing@protonmail.ch)";

/// Which of the two response shapes the detail source answers with.
#[derive(Clone, Copy, Debug, PartialEq, Eq, Structural)]
pub enum DetailShape {
    /// `{ "title": .., "extract": .. }`
    Summary,
    /// `{ "query": { "pages": { "<page id>": { "title": .., "extract": .. } } } }`
    QueryPages,
}

/// Everything a run can be tuned with.
#[derive(Debug)]
pub struct PipelineConfig {
    /// Bound on outstanding city-list fetches.
    pub expand_concurrency: usize,
    /// Bound on outstanding description fetches within one batch.
    pub detail_concurrency: usize,
    /// Extra attempts granted to a description fetch that timed out.
    pub max_retries: u32,
    /// Prefix stripped from identifier URIs.
    pub id_prefix: String,
    /// Identification sent with every request.
    pub user_agent: String,
    /// Response shape of the detail source.
    pub detail_shape: DetailShape,
}

impl PipelineConfig {
    /// A configuration can drive a run when both stages may have at least
    /// one transform outstanding.
    pub open spec fn spec_is_valid(&self) -> bool {
        self.expand_concurrency >= 1 && self.detail_concurrency >= 1
    }

    /// Whether both concurrency bounds are at least one.
    #[verifier::when_used_as_spec(spec_is_valid)]
    pub fn is_valid(&self) -> (b: bool)
        ensures
            b == self.spec_is_valid(),
    {
        self.expand_concurrency >= 1 && self.detail_concurrency >= 1
    }
}

impl Clone for PipelineConfig {
    fn clone(&self) -> (r: Self)
        ensures
            r == *self,
    {
        PipelineConfig {
            expand_concurrency: self.expand_concurrency,
            detail_concurrency: self.detail_concurrency,
            max_retries: self.max_retries,
            id_prefix: self.id_prefix.clone(),
            user_agent: self.user_agent.clone(),
            detail_shape: self.detail_shape,
        }
    }
}

impl Default for PipelineConfig {
    fn default() -> (r: Self)
        ensures
            r.expand_concurrency == DEFAULT_CONCURRENCY,
            r.detail_concurrency == DEFAULT_CONCURRENCY,
            r.max_retries == DEFAULT_MAX_RETRIES,
            r.id_prefix@ == DEFAULT_ID_PREFIX@,
            r.user_agent@ == DEFAULT_USER_AGENT@,
            r.detail_shape == DetailShape::QueryPages,
            r.is_valid(),
    {
        PipelineConfig {
            expand_concurrency: DEFAULT_CONCURRENCY,
            detail_concurrency: DEFAULT_CONCURRENCY,
            max_retries: DEFAULT_MAX_RETRIES,
            id_prefix: DEFAULT_ID_PREFIX.to_owned(),
            user_agent: DEFAULT_USER_AGENT.to_owned(),
            detail_shape: DetailShape::QueryPages,
        }
    }
}

} // verus!
