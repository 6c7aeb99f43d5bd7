//! Data model: request categories, upstream model identifiers, token usage,
//! and the cached record of one request/response exchange.
//!
//! Monetary cost is tracked in integer milli-cents (thousandths of a cent),
//! and sampling temperature in hundredths, so that every amount in the core
//! is an exact integer.

use vstd::prelude::*;

verus! {

/// The upstream chat models that the client can address.
#[derive(Clone, Copy, Debug, PartialEq, Eq, Hash, Structural)]
pub enum GptModel {
    Gpt35Turbo,
    Gpt35Turbo16k,
    Gpt35Turbo0613,
    Gpt4,
    Gpt40314,
    Gpt432k,
    Gpt432k0314,
    Gpt40613,
}

/// The wire name of each model, as the upstream service spells it.
pub open spec fn spec_model_string(m: GptModel) -> Seq<char> {
    match m {
        GptModel::Gpt35Turbo => "gpt-3.5-turbo"@,
        GptModel::Gpt35Turbo16k => "gpt-3.5-turbo-16k"@,
        GptModel::Gpt35Turbo0613 => "gpt-3.5-turbo-0613"@,
        GptModel::Gpt4 => "gpt-4"@,
        GptModel::Gpt40314 => "gpt-4-0314"@,
        GptModel::Gpt432k => "gpt-4-32k"@,
        GptModel::Gpt432k0314 => "gpt-4-32k-0314"@,
        GptModel::Gpt40613 => "gpt-4-0613"@,
    }
}

/// True when the string is the wire name of some model.
pub open spec fn is_model_string(s: Seq<char>) -> bool {
    exists|m: GptModel| spec_model_string(m) == s
}

/// Distinct models have distinct wire names.
pub proof fn lemma_model_string_injective(m1: GptModel, m2: GptModel)
    requires
        spec_model_string(m1) == spec_model_string(m2),
    ensures
        m1 == m2,
{
    reveal_strlit("gpt-3.5-turbo");
    reveal_strlit("gpt-3.5-turbo-16k");
    reveal_strlit("gpt-3.5-turbo-0613");
    reveal_strlit("gpt-4");
    reveal_strlit("gpt-4-0314");
    reveal_strlit("gpt-4-32k");
    reveal_strlit("gpt-4-32k-0314");
    reveal_strlit("gpt-4-0613");
    assert("gpt-3.5-turbo"@.len() == 13);
    assert("gpt-3.5-turbo-16k"@.len() == 17);
    assert("gpt-3.5-turbo-0613"@.len() == 18);
    assert("gpt-4"@.len() == 5);
    assert("gpt-4-0314"@.len() == 10);
    assert("gpt-4-32k"@.len() == 9);
    assert("gpt-4-32k-0314"@.len() == 14);
    assert("gpt-4-0613"@.len() == 10);
    assert("gpt-4-0314"@[7] == '3');
    assert("gpt-4-0613"@[7] == '6');
}

impl GptModel {
    /// The wire name of this model, for the request payload.
    pub fn to_model_string(&self) -> (r: String)
        ensures
            r@ == spec_model_string(*self),
    {
        match self {
            GptModel::Gpt35Turbo => String::from_str("gpt-3.5-turbo"),
            GptModel::Gpt35Turbo16k => String::from_str("gpt-3.5-turbo-16k"),
            GptModel::Gpt35Turbo0613 => String::from_str("gpt-3.5-turbo-0613"),
            GptModel::Gpt4 => String::from_str("gpt-4"),
            GptModel::Gpt40314 => String::from_str("gpt-4-0314"),
            GptModel::Gpt432k => String::from_str("gpt-4-32k"),
            GptModel::Gpt432k0314 => String::from_str("gpt-4-32k-0314"),
            GptModel::Gpt40613 => String::from_str("gpt-4-0613"),
        }
    }

    /// Whether a string is the wire name of some model, so that callers
    /// can test before converting.
    pub fn is_known_model_string(s: &String) -> (b: bool)
        ensures
            b == is_model_string(s@),
    {
        if *s == String::from_str("gpt-3.5-turbo") || *s == String::from_str("gpt-3.5-turbo-16k")
            || *s == String::from_str("gpt-3.5-turbo-0613") || *s == String::from_str("gpt-4")
            || *s == String::from_str("gpt-4-0314") || *s == String::from_str("gpt-4-32k") || *s
            == String::from_str("gpt-4-32k-0314") || *s == String::from_str("gpt-4-0613") {
            proof {
                assert(spec_model_string(GptModel::Gpt35Turbo) == "gpt-3.5-turbo"@);
                assert(spec_model_string(GptModel::Gpt35Turbo16k) == "gpt-3.5-turbo-16k"@);
                assert(spec_model_string(GptModel::Gpt35Turbo0613) == "gpt-3.5-turbo-0613"@);
                assert(spec_model_string(GptModel::Gpt4) == "gpt-4"@);
                assert(spec_model_string(GptModel::Gpt40314) == "gpt-4-0314"@);
                assert(spec_model_string(GptModel::Gpt432k) == "gpt-4-32k"@);
                assert(spec_model_string(GptModel::Gpt432k0314) == "gpt-4-32k-0314"@);
                assert(spec_model_string(GptModel::Gpt40613) == "gpt-4-0613"@);
            }
            true
        } else {
            assert(forall|m: GptModel| spec_model_string(m) != s@) by {
                assert(spec_model_string(GptModel::Gpt35Turbo) != s@);
                assert(spec_model_string(GptModel::Gpt35Turbo16k) != s@);
                assert(spec_model_string(GptModel::Gpt35Turbo0613) != s@);
                assert(spec_model_string(GptModel::Gpt4) != s@);
                assert(spec_model_string(GptModel::Gpt40314) != s@);
                assert(spec_model_string(GptModel::Gpt432k) != s@);
                assert(spec_model_string(GptModel::Gpt432k0314) != s@);
                assert(spec_model_string(GptModel::Gpt40613) != s@);
            }
            false
        }
    }

    /// The model whose wire name is the given string.
    pub fn from_string(model: &String) -> (r: GptModel)
        requires
            is_model_string(model@),
        ensures
            spec_model_string(r) == model@,
    {
        if *model == String::from_str("gpt-3.5-turbo") {
            GptModel::Gpt35Turbo
        } else if *model == String::from_str("gpt-3.5-turbo-16k") {
            GptModel::Gpt35Turbo16k
        } else if *model == String::from_str("gpt-3.5-turbo-0613") {
            GptModel::Gpt35Turbo0613
        } else if *model == String::from_str("gpt-4") {
            GptModel::Gpt4
        } else if *model == String::from_str("gpt-4-0314") {
            GptModel::Gpt40314
        } else if *model == String::from_str("gpt-4-32k") {
            GptModel::Gpt432k
        } else if *model == String::from_str("gpt-4-32k-0314") {
            GptModel::Gpt432k0314
        } else {
            GptModel::Gpt40613
        }
    }
}

/// The category of a request: it decides how the cache key is derived and
/// how the payload is built.
#[derive(Clone, Copy, Debug, PartialEq, Eq, Structural)]
pub enum QueryType {
    /// A plain prompt completion; the key is the normalized prompt.
    PromptCompletion,
    /// A completion over an extracted document text; the key is the literal
    /// composite of title and battery label.
    DocumentCompletion,
    /// A completion over the concatenated document responses in the cache;
    /// the key has the same composite form and is always overwritable.
    AggregationCompletion,
}

/// Token usage reported by the upstream service for one exchange.
#[derive(Clone, Copy, Debug, PartialEq, Eq, Structural)]
pub struct Usage {
    pub prompt_tokens: u64,
    pub completion_tokens: u64,
    pub total_tokens: u64,
}

/// The immutable record of one request/response exchange.
///
/// Created on a cache miss and never mutated afterwards: an update of the
/// entry at a key is always a replacement, with the old record routed to the
/// graveyard.
#[derive(Debug, PartialEq)]
pub struct Query {
    /// The prompt sent for a prompt completion, or the battery stamp for a
    /// document or aggregation completion.
    pub prompt: String,
    /// Cost of the exchange in milli-cents.
    pub cost: u64,
    /// The response body returned by the upstream service.
    pub response: String,
    /// Token usage reported with the response.
    pub usage: Usage,
    /// Elapsed time from request to response, in milliseconds.
    pub process_time: u64,
    /// Model that produced the response.
    pub model: GptModel,
    /// Category of the request.
    pub query_type: QueryType,
    /// Sampling temperature in hundredths.
    pub temperature: u32,
    /// Whether this instance was served from the cache rather than freshly
    /// computed.
    pub from_cache: bool,
}

impl Clone for Query {
    fn clone(&self) -> (r: Self)
        ensures
            r == *self,
    {
        Query {
            prompt: self.prompt.clone(),
            cost: self.cost,
            response: self.response.clone(),
            usage: self.usage,
            process_time: self.process_time,
            model: self.model,
            query_type: self.query_type,
            temperature: self.temperature,
            from_cache: self.from_cache,
        }
    }
}

impl Query {
    /// The response body of this exchange.
    pub fn response(&self) -> (r: &String)
        ensures
            r == &self.response,
    {
        &self.response
    }
}

/// Outcome classification for a request that could not be served.
#[derive(Debug)]
pub enum Status {
    Success,
    Error(String),
    NotFoundError,
    OpenAIError,
    APIReachedLimit,
}

/// An error reported by the transport layer.
#[derive(Debug, PartialEq)]
pub struct APIError {
    pub message: String,
}

} // verus!
