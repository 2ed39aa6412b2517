//! Attributing fills to the target builder, by heuristic, by the builder's logs,
//! or by the logs with the heuristic to fall back on.

use crate::compile::incremental::AttributionRow;
use crate::config::BuilderAttributionMode;
use crate::datasource::builder_logs::BuilderLogsError;
use crate::domain::attribution::Attribution;
use crate::domain::attribution::AttributionConfidence;
use crate::domain::attribution::AttributionMode;
use crate::domain::builder_logs::BuilderLogFill;
use crate::domain::fill::Fill;
use crate::domain::primitives::Address;
use crate::engine::builder_logs_matcher::log_match;
use crate::engine::builder_logs_matcher::BuilderLogsIndex;
use crate::engine::builder_logs_matcher::MatchTolerances;
use vstd::prelude::*;
use vstd::string::StringExecFns;

verus! {

/// Why attributions could not be ingested.
#[derive(Debug)]
pub enum AttributionIngestionError {
    /// The builder's logs could not be had.
    Logs(BuilderLogsError),
    /// The configured target builder is empty.
    InvalidTargetBuilder,
    /// The timestamp is outside the range of dates.
    InvalidTimestamp(i64),
}

/// The UTC day of a timestamp as `YYYYMMDD`, `None` outside the range of dates.
pub uninterp spec fn utc_day_text(time_ms: i64) -> Option<Seq<char>>;

/// `chrono::Utc.timestamp_millis_opt` and the `%Y%m%d` format of the date it
/// gives: the UTC day of the timestamp, or nothing where chrono has no date for
/// it.
#[verifier::external_body]
fn utc_day(time_ms: i64) -> (r: Option<String>)
    ensures
        match r {
            Some(day) => utc_day_text(time_ms) == Some(day@),
            None => utc_day_text(time_ms) is None,
        },
{
    let date = chrono::TimeZone::timestamp_millis_opt(&chrono::Utc, time_ms).single()?;
    Some(date.format("%Y%m%d").to_string())
}

/// The UTC day of a timestamp as `YYYYMMDD`.
pub fn yyyymmdd_utc(time_ms: i64) -> (r: Result<String, AttributionIngestionError>)
    ensures
        match r {
            Ok(day) => utc_day_text(time_ms) == Some(day@),
            Err(AttributionIngestionError::InvalidTimestamp(t)) => t == time_ms && utc_day_text(
                time_ms,
            ) is None,
            Err(_) => false,
        },
{
    match utc_day(time_ms) {
        Some(day) => Ok(day),
        None => Err(AttributionIngestionError::InvalidTimestamp(time_ms)),
    }
}

impl AttributionIngestionError {
    /// The error in words.
    pub fn message(&self) -> (r: String)
        ensures
            r@ == (match *self {
                AttributionIngestionError::Logs(e) => match e {
                    BuilderLogsError::Http(m) => "http error: "@ + m@,
                    BuilderLogsError::HttpStatus(status) => "unexpected http status: "@
                        + crate::text::int_text(status as int),
                    BuilderLogsError::Lz4(m) => "lz4 decode error: "@ + m@,
                    BuilderLogsError::Csv(m) => "csv parse error: "@ + m@,
                },
                AttributionIngestionError::InvalidTargetBuilder => "invalid target builder address"@,
                AttributionIngestionError::InvalidTimestamp(t) => "invalid timestamp: "@
                    + crate::text::int_text(t as int),
            }),
    {
        match self {
            AttributionIngestionError::Logs(e) => e.message(),
            AttributionIngestionError::InvalidTargetBuilder => {
                "invalid target builder address".to_owned()
            },
            AttributionIngestionError::InvalidTimestamp(t) => {
                let mut text = "invalid timestamp: ".to_owned();
                text.append(crate::text::i64_text(*t).as_str());
                text
            },
        }
    }
}

/// Attributes fills.
#[derive(Debug, Clone, Copy)]
pub struct AttributionIngestor {
    /// How far a log row may lie from a fill.
    pub tolerances: MatchTolerances,
}

impl Default for AttributionIngestor {
    fn default() -> (r: AttributionIngestor)
        ensures
            r.tolerances.time_ms == 1000,
            r.tolerances.px_abs.mantissa() == 1 && r.tolerances.px_abs.scale() == 6,
            r.tolerances.sz_abs.mantissa() == 1 && r.tolerances.sz_abs.scale() == 6,
    {
        AttributionIngestor { tolerances: MatchTolerances::default() }
    }
}

/// What the logs say of a fill, where there are logs.
pub open spec fn logs_say(
    logs: Option<Seq<BuilderLogFill>>,
    fill: Fill,
    t: MatchTolerances,
) -> Option<AttributionConfidence> {
    match logs {
        Some(rows) => log_match(rows, fill, t),
        None => None,
    }
}

/// The attribution of a fill in a mode. By heuristic a positive builder fee
/// attributes, with low confidence and no builder named. By logs a match
/// attributes to the target builder with the confidence of the match, and no
/// match settles that the fill is not attributed. In `Auto` a match in the logs
/// counts as by logs and anything else goes by heuristic.
pub open spec fn attribution_in_mode(
    mode: BuilderAttributionMode,
    fill: Fill,
    logs: Option<Seq<BuilderLogFill>>,
    t: MatchTolerances,
    target_builder: Address,
) -> Attribution {
    let heuristic = Attribution {
        attributed: fill.builder_fee matches Some(fee) && fee.mantissa() > 0,
        mode: AttributionMode::Heuristic,
        confidence: AttributionConfidence::Low,
        builder: None,
    };
    match mode {
        BuilderAttributionMode::Heuristic => heuristic,
        BuilderAttributionMode::Logs => match logs_say(logs, fill, t) {
            Some(confidence) => Attribution {
                attributed: true,
                mode: AttributionMode::Logs,
                confidence,
                builder: Some(target_builder),
            },
            None => Attribution {
                attributed: false,
                mode: AttributionMode::Logs,
                confidence: AttributionConfidence::Exact,
                builder: None,
            },
        },
        BuilderAttributionMode::Auto => match logs_say(logs, fill, t) {
            Some(confidence) => Attribution {
                attributed: true,
                mode: AttributionMode::Logs,
                confidence,
                builder: Some(target_builder),
            },
            None => heuristic,
        },
    }
}

/// The rows of an optional index.
pub open spec fn index_rows(index: Option<&BuilderLogsIndex<'_>>) -> Option<Seq<BuilderLogFill>> {
    match index {
        Some(i) => Some(i.rows()),
        None => None,
    }
}

/// The text that stands for a mode in a stored row.
pub open spec fn mode_text(mode: AttributionMode) -> Seq<char> {
    match mode {
        AttributionMode::Heuristic => "heuristic"@,
        AttributionMode::Logs => "logs"@,
    }
}

/// The text that stands for a confidence in a stored row.
pub open spec fn confidence_text(confidence: AttributionConfidence) -> Seq<char> {
    match confidence {
        AttributionConfidence::Exact => "exact"@,
        AttributionConfidence::Fuzzy => "fuzzy"@,
        AttributionConfidence::Low => "low"@,
    }
}

impl AttributionIngestor {
    /// Attributes one fill in the mode given, against the day's logs where there
    /// are any.
    pub fn attribute_fill(
        &self,
        mode: BuilderAttributionMode,
        fill: &Fill,
        logs_index: Option<&BuilderLogsIndex<'_>>,
        target_builder: &Address,
    ) -> (r: Attribution)
        requires
            logs_index matches Some(index) ==> index.wf(),
        ensures
            r == attribution_in_mode(
                mode,
                *fill,
                index_rows(logs_index),
                self.tolerances,
                *target_builder,
            ),
    {
        match mode {
            BuilderAttributionMode::Heuristic => Attribution::from_heuristic(
                fill.builder_fee.as_ref(),
            ),
            BuilderAttributionMode::Logs => {
                let confidence = match logs_index {
                    Some(index) => index.match_fill(fill, &self.tolerances),
                    None => None,
                };
                match confidence {
                    Some(confidence) => Attribution::from_logs_match(
                        true,
                        Some(target_builder.clone()),
                        confidence,
                    ),
                    None => Attribution::from_logs_match(false, None, AttributionConfidence::Exact),
                }
            },
            BuilderAttributionMode::Auto => {
                let confidence = match logs_index {
                    Some(index) => index.match_fill(fill, &self.tolerances),
                    None => None,
                };
                match confidence {
                    Some(confidence) => Attribution::from_logs_match(
                        true,
                        Some(target_builder.clone()),
                        confidence,
                    ),
                    None => Attribution::from_heuristic(fill.builder_fee.as_ref()),
                }
            },
        }
    }

    /// The UTC day of each fill, in their order. The first fill whose time is
    /// outside the range of dates fails the whole.
    pub fn days_of(fills: &[Fill]) -> (r: Result<Vec<String>, AttributionIngestionError>)
        ensures
            match r {
                Ok(days) => days@.len() == fills@.len() && forall|k: int|
                    0 <= k < fills@.len() ==> utc_day_text(fills@[k].time_ms.0) == Some(
                        (#[trigger] days@[k])@,
                    ),
                Err(AttributionIngestionError::InvalidTimestamp(t)) => exists|k: int|
                    0 <= k < fills@.len() && (#[trigger] fills@[k]).time_ms.0 == t && utc_day_text(
                        t,
                    ) is None && forall|j: int|
                        0 <= j < k ==> utc_day_text((#[trigger] fills@[j]).time_ms.0) is Some,
                Err(_) => false,
            },
    {
        let mut days: Vec<String> = Vec::new();
        let mut i: usize = 0;
        while i < fills.len()
            invariant
                i <= fills@.len(),
                days@.len() == i,
                forall|k: int|
                    0 <= k < i ==> utc_day_text(fills@[k].time_ms.0) == Some((#[trigger] days@[k])@),
                forall|j: int| 0 <= j < i ==> utc_day_text((#[trigger] fills@[j]).time_ms.0) is Some,
            decreases fills@.len() - i,
        {
            match yyyymmdd_utc(fills[i].time_ms.as_ms()) {
                Ok(day) => {
                    days.push(day);
                },
                Err(e) => {
                    return Err(e);
                },
            }
            i += 1;
        }
        Ok(days)
    }

    /// Where the run of one day ends that starts at `start`: the index of the
    /// first later fill of another day, or the number of fills. Each day's logs
    /// are fetched once for such a run.
    pub fn run_end(days: &Vec<String>, start: usize) -> (end: usize)
        requires
            start < days@.len(),
        ensures
            start < end <= days@.len(),
            forall|k: int| start <= k < end ==> (#[trigger] days@[k])@ == days@[start as int]@,
            end < days@.len() ==> days@[end as int]@ != days@[start as int]@,
    {
        let count = days.len();
        let mut end: usize = start + 1;
        while end < count
            invariant
                count == days@.len(),
                start < end <= days@.len(),
                forall|k: int| start <= k < end ==> (#[trigger] days@[k])@ == days@[start as int]@,
            decreases days@.len() - end,
        {
            if !crate::text::str_equal(days[end].as_str(), days[start].as_str()) {
                return end;
            }
            end += 1;
        }
        end
    }

    /// Whether a mode looks at the builder's logs at all.
    pub fn needs_logs(mode: BuilderAttributionMode) -> (r: bool)
        ensures
            r == (mode != BuilderAttributionMode::Heuristic),
    {
        match mode {
            BuilderAttributionMode::Heuristic => false,
            _ => true,
        }
    }

    /// The target builder as an address. An empty text is no builder.
    pub fn target_builder(configured: &str) -> (r: Result<Address, AttributionIngestionError>)
        ensures
            match r {
                Ok(builder) => configured@.len() > 0 && builder.0@ == configured@,
                Err(AttributionIngestionError::InvalidTargetBuilder) => configured@.len() == 0,
                Err(_) => false,
            },
    {
        if configured.is_empty() {
            Err(AttributionIngestionError::InvalidTargetBuilder)
        } else {
            Ok(Address::new(configured.to_owned()))
        }
    }

    /// What a day's fetch of the logs means for the attribution of that day's
    /// fills: the rows to match against, nothing (the heuristic then decides), or
    /// the failure. Only the mode that goes by logs alone fails with the fetch.
    pub fn logs_for_day(
        mode: BuilderAttributionMode,
        fetched: Result<Vec<BuilderLogFill>, BuilderLogsError>,
    ) -> (r: Result<Option<Vec<BuilderLogFill>>, AttributionIngestionError>)
        ensures
            match (mode, fetched) {
                (BuilderAttributionMode::Heuristic, _) => r matches Ok(None),
                (_, Ok(rows)) => r matches Ok(Some(kept)) && kept == rows,
                (BuilderAttributionMode::Logs, Err(e)) => r matches Err(
                    AttributionIngestionError::Logs(f),
                ) && f == e,
                (BuilderAttributionMode::Auto, Err(_)) => r matches Ok(None),
            },
    {
        match mode {
            BuilderAttributionMode::Heuristic => Ok(None),
            BuilderAttributionMode::Logs => match fetched {
                Ok(rows) => Ok(Some(rows)),
                Err(e) => Err(AttributionIngestionError::Logs(e)),
            },
            BuilderAttributionMode::Auto => match fetched {
                Ok(rows) => Ok(Some(rows)),
                Err(_) => Ok(None),
            },
        }
    }

    /// The row that stores an attribution.
    pub fn attribution_row(fill_key: &str, attribution: &Attribution) -> (r: AttributionRow)
        ensures
            r.fill_key@ == fill_key@,
            r.attributed == attribution.attributed,
            r.mode@ == mode_text(attribution.mode),
            r.confidence@ == confidence_text(attribution.confidence),
            match (r.builder, attribution.builder) {
                (Some(a), Some(b)) => a@ == b.0@,
                (None, None) => true,
                _ => false,
            },
    {
        AttributionRow {
            fill_key: fill_key.to_owned(),
            attributed: attribution.attributed,
            mode: match attribution.mode {
                AttributionMode::Heuristic => "heuristic".to_owned(),
                AttributionMode::Logs => "logs".to_owned(),
            },
            confidence: match attribution.confidence {
                AttributionConfidence::Exact => "exact".to_owned(),
                AttributionConfidence::Fuzzy => "fuzzy".to_owned(),
                AttributionConfidence::Low => "low".to_owned(),
            },
            builder: match &attribution.builder {
                Some(b) => Some(b.to_string()),
                None => None,
            },
        }
    }

    /// Attributes the fills of one day, in their order, and gives the rows to
    /// store.
    pub fn attribute_day(
        &self,
        mode: BuilderAttributionMode,
        fills: &[Fill],
        logs: Option<&Vec<BuilderLogFill>>,
        target_builder: &Address,
    ) -> (r: Vec<AttributionRow>)
        ensures
            r@.len() == fills@.len(),
            forall|i: int|
                0 <= i < fills@.len() ==> {
                    let a = attribution_in_mode(
                        mode,
                        fills@[i],
                        match logs {
                            Some(rows) => Some(rows@),
                            None => None,
                        },
                        self.tolerances,
                        *target_builder,
                    );
                    &&& (#[trigger] r@[i]).fill_key@ == fills@[i].fill_key@
                    &&& r@[i].attributed == a.attributed
                    &&& r@[i].mode@ == mode_text(a.mode)
                    &&& r@[i].confidence@ == confidence_text(a.confidence)
                    &&& r@[i].builder is Some == a.builder is Some
                    &&& r@[i].builder matches Some(b) ==> b@ == target_builder.0@
                },
    {
        let mut rows: Vec<AttributionRow> = Vec::new();
        let index: Option<BuilderLogsIndex> = match logs {
            Some(day_logs) => Some(BuilderLogsIndex::new(day_logs.as_slice())),
            None => None,
        };
        let ghost day: Option<Seq<BuilderLogFill>> = match logs {
            Some(day_logs) => Some(day_logs@),
            None => None,
        };
        let mut i: usize = 0;
        while i < fills.len()
            invariant
                i <= fills@.len(),
                match index {
                    Some(held) => held.wf() && day == Some(held.rows()),
                    None => day is None,
                },
                rows@.len() == i,
                forall|k: int|
                    0 <= k < i ==> {
                        let a = attribution_in_mode(
                            mode,
                            fills@[k],
                            day,
                            self.tolerances,
                            *target_builder,
                        );
                        &&& (#[trigger] rows@[k]).fill_key@ == fills@[k].fill_key@
                        &&& rows@[k].attributed == a.attributed
                        &&& rows@[k].mode@ == mode_text(a.mode)
                        &&& rows@[k].confidence@ == confidence_text(a.confidence)
                        &&& rows@[k].builder is Some == a.builder is Some
                        &&& rows@[k].builder matches Some(b) ==> b@ == target_builder.0@
                    },
            decreases fills@.len() - i,
        {
            let attribution = match &index {
                Some(held) => self.attribute_fill(mode, &fills[i], Some(held), target_builder),
                None => self.attribute_fill(mode, &fills[i], None, target_builder),
            };
            rows.push(AttributionIngestor::attribution_row(fills[i].fill_key(), &attribution));
            i += 1;
        }
        rows
    }
}

} // verus!
