//! Configuration of the NeMo Guardrails provider, which checks prompts and
//! responses through NeMo's `/v1/guardrail/checks` endpoint.

use vstd::prelude::*;

verus! {

/// Default timeout for NeMo HTTP calls (10 seconds).
pub const DEFAULT_TIMEOUT_MS: u64 = 10_000;

/// The default per-request timeout, used when the configuration gives none.
pub fn default_timeout_ms() -> (r: u64)
    ensures
        r == DEFAULT_TIMEOUT_MS,
{
    DEFAULT_TIMEOUT_MS
}

/// An error raised while building or running a filter.
pub struct FilterError {
    /// What went wrong, for the operator.
    pub message: String,
}

/// NeMo-specific configuration fields, as read from the provider settings.
pub struct NemoConfig {
    /// NeMo endpoint URL.
    pub endpoint: String,
    /// Per-request timeout in milliseconds.
    pub timeout_ms: u64,
}

/// NeMo Guardrails provider.
pub struct NemoProvider {
    endpoint: String,
    timeout_ms: u64,
}

/// The message of the error for an empty endpoint.
pub open spec fn empty_endpoint_message() -> Seq<char> {
    "ai_guardrails (nemo): 'endpoint' must not be empty"@
}

/// The message of the error for a zero timeout.
pub open spec fn zero_timeout_message() -> Seq<char> {
    "ai_guardrails (nemo): 'timeout_ms' must be greater than zero"@
}

impl NemoProvider {
    /// The endpoint the provider calls.
    pub closed spec fn spec_endpoint(&self) -> Seq<char> {
        self.endpoint@
    }

    /// The provider's per-request timeout in milliseconds.
    pub closed spec fn spec_timeout_ms(&self) -> u64 {
        self.timeout_ms
    }

    /// Validate NeMo-specific config: the endpoint must not be empty and
    /// the timeout must be positive (checked in that order).
    pub fn from_config(cfg: NemoConfig) -> (r: Result<Self, FilterError>)
        ensures
            r is Ok <==> cfg.endpoint@.len() != 0 && cfg.timeout_ms != 0,
            r matches Ok(p) ==> p.spec_endpoint() == cfg.endpoint@ && p.spec_timeout_ms()
                == cfg.timeout_ms,
            r matches Err(e) ==> e.message@ == (if cfg.endpoint@.len() == 0 {
                empty_endpoint_message()
            } else {
                zero_timeout_message()
            }),
    {
        if cfg.endpoint.as_str().unicode_len() == 0 {
            return Err(
                FilterError {
                    message: "ai_guardrails (nemo): 'endpoint' must not be empty".to_owned(),
                },
            );
        }
        if cfg.timeout_ms == 0 {
            return Err(
                FilterError {
                    message: "ai_guardrails (nemo): 'timeout_ms' must be greater than zero".to_owned(),
                },
            );
        }
        Ok(NemoProvider { endpoint: cfg.endpoint, timeout_ms: cfg.timeout_ms })
    }

    /// The endpoint the provider calls.
    pub fn endpoint(&self) -> (r: &str)
        ensures
            r@ == self.spec_endpoint(),
    {
        self.endpoint.as_str()
    }

    /// The provider's per-request timeout in milliseconds.
    pub fn timeout_ms(&self) -> (r: u64)
        ensures
            r == self.spec_timeout_ms(),
    {
        self.timeout_ms
    }
}

} // verus!
