//! What is counted and measured, by name and label.

use vstd::prelude::*;
use vstd::string::*;

use crate::time::Duration;

verus! {

broadcast use vstd::string::group_string_axioms;

/// Something that is counted or measured.
#[derive(Debug)]
pub struct Metric {
    pub name: String,
    /// A label and its value.
    pub label: Option<(String, String)>,
}

pub struct MetricView {
    pub name: Seq<char>,
    pub label: Option<(Seq<char>, Seq<char>)>,
}

impl DeepView for Metric {
    type V = MetricView;

    open spec fn deep_view(&self) -> MetricView {
        MetricView {
            name: self.name@,
            label: match self.label {
                Some(l) => Some((l.0@, l.1@)),
                None => None,
            },
        }
    }
}

fn labelled(name: &str, label: &str, value: &str) -> (r: Metric)
    ensures
        r.deep_view() == (MetricView { name: name@, label: Some((label@, value@)) }),
{
    Metric { name: name.to_owned(), label: Some((label.to_owned(), value.to_owned())) }
}

/// The time that a round took, by how it ended.
pub fn record_turn_duration(outcome: &str) -> (r: Metric)
    ensures
        r.deep_view() == (MetricView {
            name: "referee_base_turn_duration_seconds"@,
            label: Some(("outcome"@, outcome@)),
        }),
{
    labelled("referee_base_turn_duration_seconds", "outcome", outcome)
}

/// A round that has ended, by how.
pub fn turn_completed(outcome: &str) -> (r: Metric)
    ensures
        r.deep_view() == (MetricView {
            name: "referee_base_turns_total"@,
            label: Some(("outcome"@, outcome@)),
        }),
{
    labelled("referee_base_turns_total", "outcome", outcome)
}

/// A look into the cache, by whether something was found.
pub fn cache_access(hit: bool) -> (r: Metric)
    ensures
        r.deep_view() == (MetricView {
            name: "referee_base_cache_total"@,
            label: Some(
                (
                    "result"@,
                    if hit {
                        "hit"@
                    } else {
                        "miss"@
                    },
                ),
            ),
        }),
{
    let value = if hit {
        "hit"
    } else {
        "miss"
    };
    labelled("referee_base_cache_total", "result", value)
}

/// A tool call that has ended, by whether it did what it was asked for.
pub fn tool_completed(ok: bool) -> (r: Metric)
    ensures
        r.deep_view() == (MetricView {
            name: "referee_base_tool_total"@,
            label: Some(
                (
                    "result"@,
                    if ok {
                        "ok"@
                    } else {
                        "fail"@
                    },
                ),
            ),
        }),
{
    let value = if ok {
        "ok"
    } else {
        "fail"
    };
    labelled("referee_base_tool_total", "result", value)
}

/// A call of the model that is tried again.
pub fn llm_retry() -> (r: Metric)
    ensures
        r.deep_view() == (MetricView { name: "referee_base_llm_retry_total"@, label: None }),
{
    Metric { name: "referee_base_llm_retry_total".to_owned(), label: None }
}

/// A chat that was refused for a budget, by whose budget it was.
pub fn budget_rejected(kind: &str) -> (r: Metric)
    ensures
        r.deep_view() == (MetricView {
            name: "referee_base_budget_rejected_total"@,
            label: Some(("scope"@, kind@)),
        }),
{
    labelled("referee_base_budget_rejected_total", "scope", kind)
}

/// A piece of a prompt that was cut or dropped, by its kind.
pub fn prompt_truncated(kind: &str) -> (r: Metric)
    ensures
        r.deep_view() == (MetricView {
            name: "referee_base_prompt_truncated_total"@,
            label: Some(("kind"@, kind@)),
        }),
{
    labelled("referee_base_prompt_truncated_total", "kind", kind)
}

/// The time since a moment, in milliseconds of a clock.
#[derive(Debug, Clone, Copy, PartialEq, Eq)]
pub struct Timer {
    pub start: u64,
}

impl Timer {
    pub fn start(now: u64) -> (r: Timer)
        ensures
            r == (Timer { start: now }),
    {
        Timer { start: now }
    }

    /// The time since the start; nothing where the clock went back.
    pub fn finish(self, now: u64) -> (r: Duration)
        ensures
            r.wf(),
            r.total() == (if now >= self.start {
                (now - self.start) * 1_000_000
            } else {
                0
            }),
    {
        if now >= self.start {
            Duration::from_millis(now - self.start)
        } else {
            Duration::from_millis(0)
        }
    }
}

} // verus!
