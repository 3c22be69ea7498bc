//! Saved correlations between streams.

use vstd::prelude::*;
use vstd::string::*;
use crate::alert_state::ulid_text_of;
use crate::alert_state::ulid_text;
use crate::status::CorrelationError;
use crate::text::lemma_filter_prefix_step;

verus! {

#[derive(Clone, Copy, Debug, PartialEq, Eq, Structural)]
pub enum CorrelationVersion {
    V1,
}

/// A stored correlation. The identifier is a 128-bit ULID.
#[derive(Debug)]
pub struct CorrelationConfig {
    pub version: CorrelationVersion,
    pub id: u128,
    pub query: String,
}

/// What a client sends to save a correlation.
#[derive(Debug)]
pub struct CorrelationRequest {
    pub version: CorrelationVersion,
    pub query: String,
}

impl Clone for CorrelationConfig {
    fn clone(&self) -> (copy: Self)
        ensures
            copy == *self,
    {
        CorrelationConfig { version: self.version, id: self.id, query: self.query.clone() }
    }
}

impl CorrelationConfig {
    /// The correlation that a request asks for, under the identifier `id`.
    pub fn from_request(id: u128, val: CorrelationRequest) -> (config: CorrelationConfig)
        ensures
            config == (CorrelationConfig { version: val.version, id, query: val.query }),
    {
        Self { version: val.version, id, query: val.query }
    }
}

/// The correlations that the server knows.
#[derive(Debug)]
pub struct Correlation {
    pub configs: Vec<CorrelationConfig>,
}

/// Whether no correlation of the list has the identifier `id`.
pub open spec fn unknown(configs: Seq<CorrelationConfig>, id: u128) -> bool {
    forall|j: int| 0 <= j < configs.len() ==> (#[trigger] configs[j]).id != id
}

/// Whether position `i` holds the first correlation with the identifier
/// `id`.
pub open spec fn first_known_at(configs: Seq<CorrelationConfig>, id: u128, i: int) -> bool {
    &&& 0 <= i < configs.len()
    &&& configs[i].id == id
    &&& forall|j: int| 0 <= j < i ==> (#[trigger] configs[j]).id != id
}

/// The message that reports a missing correlation.
pub open spec fn missing_correlation_text(id: u128) -> Seq<char> {
    "Unable to find correlation with ID- "@ + ulid_text(id)
}

impl Correlation {
    /// A table without correlations.
    pub fn new() -> (table: Correlation)
        ensures
            table.configs@.len() == 0,
    {
        Correlation { configs: Vec::new() }
    }

    fn position(&self, id: u128) -> (found: Option<usize>)
        ensures
            match found {
                Some(i) => first_known_at(self.configs@, id, i as int),
                None => unknown(self.configs@, id),
            },
    {
        let mut i: usize = 0;
        while i < self.configs.len()
            invariant
                i <= self.configs.len(),
                forall|j: int| 0 <= j < i ==> (#[trigger] self.configs@[j]).id != id,
            decreases self.configs.len() - i,
        {
            if self.configs[i].id == id {
                return Some(i);
            }
            i += 1;
        }
        None
    }

    /// Takes over the correlations read from storage, after those already
    /// known.
    pub fn load(&mut self, stored: &Vec<CorrelationConfig>)
        ensures
            final(self).configs@ == old(self).configs@ + stored@,
    {
        let mut i: usize = 0;
        while i < stored.len()
            invariant
                i <= stored.len(),
                self.configs@ == old(self).configs@ + stored@.subrange(0, i as int),
            decreases stored.len() - i,
        {
            self.configs.push(stored[i].clone());
            proof {
                assert(self.configs@ =~= old(self).configs@ + stored@.subrange(0, i + 1));
            }
            i += 1;
        }
        proof {
            assert(stored@.subrange(0, i as int) =~= stored@);
        }
    }

    /// The first correlation with the identifier `correlation_id`.
    pub fn get_correlation_by_id(&self, correlation_id: u128) -> (outcome: Result<
        CorrelationConfig,
        CorrelationError,
    >)
        ensures
            match outcome {
                Ok(config) => exists|i: int|
                    first_known_at(self.configs@, correlation_id, i) && config == self.configs@[i],
                Err(error) => unknown(self.configs@, correlation_id) && is_anyhow_error(
                    error,
                    missing_correlation_text(correlation_id),
                ),
            },
    {
        match self.position(correlation_id) {
            Some(i) => Ok(self.configs[i].clone()),
            None => {
                let mut text = "Unable to find correlation with ID- ".to_owned();
                let name = ulid_text_of(correlation_id);
                text.append(name.as_str());
                Err(CorrelationError::AnyhowError(text))
            },
        }
    }

    /// Puts a correlation at the end of the table and drops every other
    /// correlation with its identifier.
    pub fn update(&mut self, correlation: &CorrelationConfig)
        ensures
            final(self).configs@ == old(self).configs@.filter(
                |c: CorrelationConfig| c.id != correlation.id,
            ).push(*correlation),
    {
        let ghost keep = |c: CorrelationConfig| c.id != correlation.id;
        let mut kept: Vec<CorrelationConfig> = Vec::new();
        let mut i: usize = 0;
        while i < self.configs.len()
            invariant
                i <= self.configs.len(),
                keep == (|c: CorrelationConfig| c.id != correlation.id),
                kept@ == self.configs@.subrange(0, i as int).filter(keep),
            decreases self.configs.len() - i,
        {
            proof {
                lemma_filter_prefix_step(self.configs@, i as int, keep);
            }
            if self.configs[i].id != correlation.id {
                kept.push(self.configs[i].clone());
            }
            i += 1;
        }
        proof {
            assert(self.configs@.subrange(0, i as int) =~= self.configs@);
        }
        kept.push(correlation.clone());
        self.configs = kept;
    }

    /// Takes the first correlation with the identifier `correlation_id` out
    /// of the table and says whether there was one.
    pub fn delete(&mut self, correlation_id: u128) -> (removed: bool)
        ensures
            removed == !unknown(old(self).configs@, correlation_id),
            !removed ==> *final(self) == *old(self),
            forall|i: int|
                first_known_at(old(self).configs@, correlation_id, i) ==> final(self).configs@
                    == old(self).configs@.remove(i),
    {
        match self.position(correlation_id) {
            Some(i) => {
                self.configs.remove(i);
                true
            },
            None => false,
        }
    }
}

/// Whether `error` is a general error with the message `text`.
pub open spec fn is_anyhow_error(error: CorrelationError, text: Seq<char>) -> bool {
    error matches CorrelationError::AnyhowError(message) && message@ == text
}

} // verus!
