//! Incident explanation: sentry's triage of a unit fused with the drift that
//! contextd correlates with it.
use vstd::prelude::*;

use crate::json::{
    as_list, as_numeric, as_text, deref_value, entry, field_array, field_number, field_text,
    field_text_or, get, object_fields, opt_text, text_field, text_or, text_value, Json, JsonNumber,
};
use crate::varlink::VarlinkCall;

verus! {

/// An incident explanation. The confidence is the number sentry sent (the
/// integer zero when it sent none).
#[derive(Debug, Clone)]
pub struct IncidentReport {
    pub unit: String,
    pub status: String,
    pub root_cause: String,
    pub confidence: JsonNumber,
    pub recommended_action: String,
    pub remediation_command: Option<String>,
    pub journal_slice: Vec<String>,
    pub recent_drift: Vec<String>,
}

/// The content of an incident explanation.
pub ghost struct IncidentSummary {
    pub unit: Seq<char>,
    pub status: Seq<char>,
    pub root_cause: Seq<char>,
    pub confidence: JsonNumber,
    pub recommended_action: Seq<char>,
    pub remediation_command: Option<Seq<char>>,
    pub journal_slice: Seq<Seq<char>>,
    pub recent_drift: Seq<Seq<char>>,
}

impl View for IncidentReport {
    type V = IncidentSummary;

    open spec fn view(&self) -> IncidentSummary {
        IncidentSummary {
            unit: self.unit@,
            status: self.status@,
            root_cause: self.root_cause@,
            confidence: self.confidence,
            recommended_action: self.recommended_action@,
            remediation_command: opt_text(self.remediation_command),
            journal_slice: self.journal_slice@.map_values(|s: String| s@),
            recent_drift: self.recent_drift@.map_values(|s: String| s@),
        }
    }
}

/// The string items of `items`, in order (`filter_map(as_str)`).
pub open spec fn texts_of(items: Seq<Json>) -> Seq<Seq<char>>
    decreases items.len(),
{
    if items.len() == 0 {
        Seq::empty()
    } else {
        let prev = texts_of(items.drop_last());
        match as_text(Some(items.last())) {
            Some(t) => prev.push(t),
            None => prev,
        }
    }
}

/// The `summary` texts of the events that have one, in order.
pub open spec fn summaries_of(events: Seq<Json>) -> Seq<Seq<char>>
    decreases events.len(),
{
    if events.len() == 0 {
        Seq::empty()
    } else {
        let prev = summaries_of(events.drop_last());
        match as_text(get(events.last(), "summary"@)) {
            Some(t) => prev.push(t),
            None => prev,
        }
    }
}

/// The explanation of `unit` given sentry's `TriageUnit` reply and
/// contextd's `GetTimeline` reply, where `None` stands for a daemon that
/// could not be asked or did not answer: each field sentry sends replaces
/// its default, and the summaries of contextd's events are the recent drift.
pub open spec fn incident_summary(unit: Seq<char>, triage: Option<Json>, timeline: Option<Json>) -> IncidentSummary {
    IncidentSummary {
        unit,
        status: match triage {
            Some(t) => text_or(t, "status"@, "active"@),
            None => "active"@,
        },
        root_cause: match triage {
            Some(t) => text_or(t, "root_cause"@, "No active failure record found in sentry."@),
            None => "No active failure record found in sentry."@,
        },
        confidence: match triage {
            Some(t) => match as_numeric(get(t, "confidence"@)) {
                Some(n) => n,
                None => JsonNumber::PosInt(0),
            },
            None => JsonNumber::PosInt(0),
        },
        recommended_action: match triage {
            Some(t) => text_or(t, "recommended_action"@, "Inspect journal logs using journalctl."@),
            None => "Inspect journal logs using journalctl."@,
        },
        remediation_command: match triage {
            Some(t) => as_text(get(t, "remediation_command"@)),
            None => None,
        },
        journal_slice: match triage {
            Some(t) => match as_list(get(t, "journal_slice"@)) {
                Some(items) => texts_of(items),
                None => Seq::empty(),
            },
            None => Seq::empty(),
        },
        recent_drift: match timeline {
            Some(r) => match as_list(get(r, "events"@)) {
                Some(events) => summaries_of(events),
                None => Seq::empty(),
            },
            None => Seq::empty(),
        },
    }
}

/// Whether `p` are the parameters `{"unit": unit}`.
pub open spec fn is_unit_query(p: Option<Json>, unit: Seq<char>) -> bool {
    object_fields(p) matches Some(f) && f.len() == 1 && text_field(f[0], "unit"@, unit)
}

fn unit_params(unit: &str) -> (p: Option<Json>)
    ensures
        is_unit_query(p, unit@),
{
    let mut fields: Vec<(String, Json)> = Vec::new();
    fields.push(entry("unit", text_value(unit)));
    Some(Json::Object(fields))
}

/// The call that asks sentry to triage `unit`.
pub fn triage_call(unit: &str) -> (c: VarlinkCall)
    ensures
        c.method@ == "io.syntrop.Sentry1.TriageUnit"@,
        is_unit_query(c.parameters, unit@),
{
    VarlinkCall { method: String::from_str("io.syntrop.Sentry1.TriageUnit"), parameters: unit_params(unit) }
}

/// The call that asks contextd for the timeline of `unit`.
pub fn timeline_call(unit: &str) -> (c: VarlinkCall)
    ensures
        c.method@ == "io.syntrop.Context1.GetTimeline"@,
        is_unit_query(c.parameters, unit@),
{
    VarlinkCall { method: String::from_str("io.syntrop.Context1.GetTimeline"), parameters: unit_params(unit) }
}

fn string_items(items: &Vec<Json>) -> (r: Vec<String>)
    ensures
        r@.map_values(|s: String| s@) == texts_of(items@),
{
    let mut out: Vec<String> = Vec::new();
    let mut i: usize = 0;
    while i < items.len()
        invariant
            i <= items.len(),
            out@.map_values(|s: String| s@) == texts_of(items@.subrange(0, i as int)),
        decreases items.len() - i,
    {
        assert(items@.subrange(0, i + 1).drop_last() == items@.subrange(0, i as int));
        let ghost before = out@;
        match items[i].as_str() {
            Some(s) => {
                let t = s.clone();
                out.push(t);
                assert(out@.map_values(|s: String| s@) =~= before.map_values(|s: String| s@).push(
                    t@,
                ));
            },
            None => {},
        }
        i = i + 1;
    }
    assert(items@.subrange(0, items.len() as int) == items@);
    out
}

fn event_summaries(events: &Vec<Json>) -> (r: Vec<String>)
    ensures
        r@.map_values(|s: String| s@) == summaries_of(events@),
{
    let mut out: Vec<String> = Vec::new();
    let mut i: usize = 0;
    while i < events.len()
        invariant
            i <= events.len(),
            out@.map_values(|s: String| s@) == summaries_of(events@.subrange(0, i as int)),
        decreases events.len() - i,
    {
        assert(events@.subrange(0, i + 1).drop_last() == events@.subrange(0, i as int));
        let ghost before = out@;
        match field_text(&events[i], "summary") {
            Some(t) => {
                let ghost tv = t@;
                out.push(t);
                assert(out@.map_values(|s: String| s@) =~= before.map_values(|s: String| s@).push(
                    tv,
                ));
            },
            None => {},
        }
        i = i + 1;
    }
    assert(events@.subrange(0, events.len() as int) == events@);
    out
}

/// Fuses sentry's triage of `unit` with contextd's timeline of it; `None`
/// stands for a daemon that could not be asked or did not answer.
pub fn incident_report(unit: &str, triage: Option<&Json>, timeline: Option<&Json>) -> (r: IncidentReport)
    ensures
        r@ == incident_summary(unit@, deref_value(triage), deref_value(timeline)),
{
    let (status, root_cause, confidence, recommended_action, remediation_command, journal_slice) =
        match triage {
        Some(t) => {
            let confidence = match field_number(t, "confidence") {
                Some(n) => n,
                None => JsonNumber::PosInt(0),
            };
            let journal_slice = match field_array(t, "journal_slice") {
                Some(items) => string_items(items),
                None => {
                    let v: Vec<String> = Vec::new();
                    assert(v@.map_values(|s: String| s@) =~= Seq::<Seq<char>>::empty());
                    v
                },
            };
            (
                field_text_or(t, "status", "active"),
                field_text_or(t, "root_cause", "No active failure record found in sentry."),
                confidence,
                field_text_or(t, "recommended_action", "Inspect journal logs using journalctl."),
                field_text(t, "remediation_command"),
                journal_slice,
            )
        },
        None => {
            let v: Vec<String> = Vec::new();
            assert(v@.map_values(|s: String| s@) =~= Seq::<Seq<char>>::empty());
            (
                String::from_str("active"),
                String::from_str("No active failure record found in sentry."),
                JsonNumber::PosInt(0),
                String::from_str("Inspect journal logs using journalctl."),
                None,
                v,
            )
        },
    };
    let recent_drift = match timeline {
        Some(res) => match field_array(res, "events") {
            Some(events) => event_summaries(events),
            None => {
                let v: Vec<String> = Vec::new();
                assert(v@.map_values(|s: String| s@) =~= Seq::<Seq<char>>::empty());
                v
            },
        },
        None => {
            let v: Vec<String> = Vec::new();
            assert(v@.map_values(|s: String| s@) =~= Seq::<Seq<char>>::empty());
            v
        },
    };
    IncidentReport {
        unit: String::from_str(unit),
        status,
        root_cause,
        confidence,
        recommended_action,
        remediation_command,
        journal_slice,
        recent_drift,
    }
}

/// Whether a JSON value is a string.
pub open spec fn is_text(j: Json) -> bool {
    as_text(Some(j)) is Some
}

/// The string items of `items`, in order.
pub open spec fn text_items(items: Seq<Json>) -> Seq<Json> {
    items.filter(|j: Json| is_text(j))
}

/// Whether an event carries a string `summary`.
pub open spec fn has_summary(e: Json) -> bool {
    as_text(get(e, "summary"@)) is Some
}

/// The events of `events` that carry a string `summary`, in order.
pub open spec fn summarised_events(events: Seq<Json>) -> Seq<Json> {
    events.filter(|e: Json| has_summary(e))
}

proof fn lemma_texts_of_items(items: Seq<Json>)
    ensures
        texts_of(items).len() == text_items(items).len(),
        forall|k: int|
            0 <= k < text_items(items).len() ==> as_text(Some(#[trigger] text_items(items)[k]))
                == Some(texts_of(items)[k]),
    decreases items.len(),
{
    reveal(Seq::filter);
    if items.len() > 0 {
        lemma_texts_of_items(items.drop_last());
        assert(text_items(items) == if is_text(items.last()) {
            text_items(items.drop_last()).push(items.last())
        } else {
            text_items(items.drop_last())
        });
    }
}

proof fn lemma_summaries_of_events(events: Seq<Json>)
    ensures
        summaries_of(events).len() == summarised_events(events).len(),
        forall|k: int|
            0 <= k < summarised_events(events).len() ==> as_text(
                get(#[trigger] summarised_events(events)[k], "summary"@),
            ) == Some(summaries_of(events)[k]),
    decreases events.len(),
{
    reveal(Seq::filter);
    if events.len() > 0 {
        lemma_summaries_of_events(events.drop_last());
        assert(summarised_events(events) == if has_summary(events.last()) {
            summarised_events(events.drop_last()).push(events.last())
        } else {
            summarised_events(events.drop_last())
        });
    }
}

/// The explanation of a unit names that unit. Each field sentry sends as
/// text (`status`, `root_cause`, `recommended_action`,
/// `remediation_command`) or as a number (`confidence`) is taken as sent;
/// a field it does not send, or sentry not answering, leaves the default
/// ("active", "No active failure record found in sentry.", the integer 0,
/// "Inspect journal logs using journalctl.", no command). The journal lines
/// are the string items of sentry's `journal_slice`, in order; the recent
/// drift is the `summary` text of each of contextd's events that has one,
/// in order; either is empty when its array is missing.
pub proof fn lemma_incident_fields(unit: Seq<char>, triage: Option<Json>, timeline: Option<Json>)
    ensures
        incident_summary(unit, triage, timeline).unit == unit,
        ({
            let r = incident_summary(unit, triage, timeline);
            match triage {
                None => {
                    &&& r.status == "active"@
                    &&& r.root_cause == "No active failure record found in sentry."@
                    &&& r.confidence == JsonNumber::PosInt(0)
                    &&& r.recommended_action == "Inspect journal logs using journalctl."@
                    &&& r.remediation_command is None
                    &&& r.journal_slice.len() == 0
                },
                Some(t) => {
                    &&& r.status == (match as_text(get(t, "status"@)) {
                        Some(v) => v,
                        None => "active"@,
                    })
                    &&& r.root_cause == (match as_text(get(t, "root_cause"@)) {
                        Some(v) => v,
                        None => "No active failure record found in sentry."@,
                    })
                    &&& r.confidence == (match as_numeric(get(t, "confidence"@)) {
                        Some(n) => n,
                        None => JsonNumber::PosInt(0),
                    })
                    &&& r.recommended_action == (match as_text(get(t, "recommended_action"@)) {
                        Some(v) => v,
                        None => "Inspect journal logs using journalctl."@,
                    })
                    &&& r.remediation_command == as_text(get(t, "remediation_command"@))
                    &&& match as_list(get(t, "journal_slice"@)) {
                        None => r.journal_slice.len() == 0,
                        Some(items) => {
                            &&& r.journal_slice.len() == text_items(items).len()
                            &&& forall|k: int|
                                0 <= k < text_items(items).len() ==> as_text(
                                    Some(#[trigger] text_items(items)[k]),
                                ) == Some(r.journal_slice[k])
                        },
                    }
                },
            }
        }),
        ({
            let r = incident_summary(unit, triage, timeline);
            match timeline {
                None => r.recent_drift.len() == 0,
                Some(tl) => match as_list(get(tl, "events"@)) {
                    None => r.recent_drift.len() == 0,
                    Some(events) => {
                        &&& r.recent_drift.len() == summarised_events(events).len()
                        &&& forall|k: int|
                            0 <= k < summarised_events(events).len() ==> as_text(
                                get(#[trigger] summarised_events(events)[k], "summary"@),
                            ) == Some(r.recent_drift[k])
                    },
                },
            }
        }),
{
    match triage {
        Some(t) => match as_list(get(t, "journal_slice"@)) {
            Some(items) => lemma_texts_of_items(items),
            None => {},
        },
        None => {},
    }
    match timeline {
        Some(tl) => match as_list(get(tl, "events"@)) {
            Some(events) => lemma_summaries_of_events(events),
            None => {},
        },
        None => {},
    }
}

} // verus!
