//! Whether a fill was routed through the target builder, and how that was decided.

use crate::domain::decimal::Decimal;
use crate::domain::primitives::Address;
use vstd::prelude::*;

verus! {

/// How an attribution was determined.
#[derive(Debug, Clone, Copy, PartialEq, Eq, Hash, Structural)]
pub enum AttributionMode {
    /// A positive builder fee is taken to mean that the builder routed the fill.
    Heuristic,
    /// The fill was looked up in the builder's published fill logs.
    Logs,
}

/// How much an attribution can be relied on.
#[derive(Debug, Clone, Copy, PartialEq, Eq, Hash, Structural)]
pub enum AttributionConfidence {
    /// Settled: a trade id matched, or the logs hold no matching row.
    Exact,
    /// A log row matched within the tolerances.
    Fuzzy,
    /// Heuristic only.
    Low,
}

/// The earlier name of [`AttributionConfidence`].
pub type Confidence = AttributionConfidence;

/// The attribution of one fill.
#[derive(Debug, PartialEq, Eq)]
pub struct Attribution {
    /// Whether the fill is attributed to the target builder.
    pub attributed: bool,
    /// How that was determined.
    pub mode: AttributionMode,
    /// How reliable it is.
    pub confidence: AttributionConfidence,
    /// The builder matched; only set by a match in the logs.
    pub builder: Option<Address>,
}

impl Attribution {
    /// The heuristic attribution of a fill with the given builder fee: attributed
    /// exactly when the fee is present and positive, with low confidence and no
    /// builder named.
    pub fn from_heuristic(builder_fee: Option<&Decimal>) -> (r: Attribution)
        ensures
            r.attributed == (builder_fee matches Some(fee) && fee.mantissa() > 0),
            r.mode == AttributionMode::Heuristic,
            r.confidence == AttributionConfidence::Low,
            r.builder is None,
    {
        let attributed = match builder_fee {
            Some(fee) => fee.is_positive(),
            None => false,
        };
        Attribution {
            attributed,
            mode: AttributionMode::Heuristic,
            confidence: AttributionConfidence::Low,
            builder: None,
        }
    }

    /// An attribution decided against the logs.
    pub fn from_logs_match(
        matched: bool,
        builder: Option<Address>,
        confidence: AttributionConfidence,
    ) -> (r: Attribution)
        ensures
            r.attributed == matched,
            r.mode == AttributionMode::Logs,
            r.confidence == confidence,
            r.builder == builder,
    {
        Attribution { attributed: matched, mode: AttributionMode::Logs, confidence, builder }
    }

    /// A heuristic attribution that says what is given.
    pub fn heuristic(attributed: bool) -> (r: Attribution)
        ensures
            r.attributed == attributed,
            r.mode == AttributionMode::Heuristic,
            r.confidence == AttributionConfidence::Low,
            r.builder is None,
    {
        Attribution {
            attributed,
            mode: AttributionMode::Heuristic,
            confidence: AttributionConfidence::Low,
            builder: None,
        }
    }

    /// A logs attribution with exact confidence.
    pub fn logs(attributed: bool, builder: Option<Address>) -> (r: Attribution)
        ensures
            r.attributed == attributed,
            r.mode == AttributionMode::Logs,
            r.confidence == AttributionConfidence::Exact,
            r.builder == builder,
    {
        Attribution::from_logs_match(attributed, builder, AttributionConfidence::Exact)
    }
}

impl Clone for Attribution {
    fn clone(&self) -> (r: Attribution)
        ensures
            r == *self,
    {
        let builder = match &self.builder {
            Some(b) => Some(b.clone()),
            None => None,
        };
        Attribution {
            attributed: self.attributed,
            mode: self.mode,
            confidence: self.confidence,
            builder,
        }
    }
}

} // verus!
