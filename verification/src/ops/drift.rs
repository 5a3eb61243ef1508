//! The configuration and state drift timeline that contextd reports.
use vstd::prelude::*;

use crate::json::{
    as_list, as_text, as_unsigned, entry, field_array, field_text_or, field_u64_or, get, object_fields, text_field,
    text_or, text_value, unsigned_or, value_field, Json, JsonNumber,
};
use crate::varlink::VarlinkCall;

verus! {

/// One configuration or state drift record.
#[derive(Debug, Clone)]
pub struct DriftEvent {
    pub path: String,
    pub change_type: String,
    pub timestamp: u64,
    pub details: String,
}

/// The content of a drift record.
pub ghost struct DriftSummary {
    pub path: Seq<char>,
    pub change_type: Seq<char>,
    pub timestamp: u64,
    pub details: Seq<char>,
}

impl View for DriftEvent {
    type V = DriftSummary;

    open spec fn view(&self) -> DriftSummary {
        DriftSummary {
            path: self.path@,
            change_type: self.change_type@,
            timestamp: self.timestamp,
            details: self.details@,
        }
    }
}

/// The record of one event entry: its unit, source, timestamp and summary,
/// each missing field taking its default.
pub open spec fn drift_summary(e: Json) -> DriftSummary {
    DriftSummary {
        path: text_or(e, "unit"@, "-"@),
        change_type: text_or(e, "source"@, "event"@),
        timestamp: unsigned_or(e, "timestamp_us"@, 0),
        details: text_or(e, "summary"@, ""@),
    }
}

/// The records of a `ListEvents` reply: one per entry of its `events` array.
pub open spec fn drift_listing(res: Json) -> Seq<DriftSummary> {
    match as_list(get(res, "events"@)) {
        Some(es) => es.map_values(|e: Json| drift_summary(e)),
        None => Seq::empty(),
    }
}

/// Whether `p` are the parameters of a drift query: the events of the last
/// day, at most one hundred of them, of `unit` when one is given.
pub open spec fn is_drift_query(p: Option<Json>, unit: Option<Seq<char>>) -> bool {
    object_fields(p) matches Some(f) && f.len() == (if unit is Some {
        3int
    } else {
        2int
    }) && value_field(f[0], "since_seconds"@, Json::Number(JsonNumber::PosInt(86400))) && value_field(
        f[1],
        "limit"@,
        Json::Number(JsonNumber::PosInt(100)),
    ) && (unit matches Some(u) ==> text_field(f[2], "unit"@, u))
}

/// The call that asks contextd for recent drift, of `unit` when one is given.
pub fn drift_call(unit: Option<&str>) -> (c: VarlinkCall)
    ensures
        c.method@ == "io.syntrop.Context1.ListEvents"@,
        is_drift_query(
            c.parameters,
            match unit {
                Some(u) => Some(u@),
                None => None,
            },
        ),
{
    let mut fields: Vec<(String, Json)> = Vec::new();
    fields.push(entry("since_seconds", Json::Number(JsonNumber::PosInt(86400))));
    fields.push(entry("limit", Json::Number(JsonNumber::PosInt(100))));
    match unit {
        Some(u) => {
            fields.push(entry("unit", text_value(u)));
        },
        None => {},
    }
    VarlinkCall {
        method: String::from_str("io.syntrop.Context1.ListEvents"),
        parameters: Some(Json::Object(fields)),
    }
}

fn drift_event(e: &Json) -> (r: DriftEvent)
    ensures
        r@ == drift_summary(*e),
{
    DriftEvent {
        path: field_text_or(e, "unit", "-"),
        change_type: field_text_or(e, "source", "event"),
        timestamp: field_u64_or(e, "timestamp_us", 0),
        details: field_text_or(e, "summary", ""),
    }
}

/// The drift records of a `ListEvents` reply.
pub fn decode_drift(res: &Json) -> (r: Vec<DriftEvent>)
    ensures
        r@.map_values(|e: DriftEvent| e@) == drift_listing(*res),
{
    let mut out: Vec<DriftEvent> = Vec::new();
    match field_array(res, "events") {
        Some(es) => {
            let mut i: usize = 0;
            while i < es.len()
                invariant
                    i <= es.len(),
                    out@.map_values(|e: DriftEvent| e@) == es@.subrange(0, i as int).map_values(
                        |e: Json| drift_summary(e),
                    ),
                decreases es.len() - i,
            {
                let ghost before = out@;
                let e = drift_event(&es[i]);
                out.push(e);
                assert(out@.map_values(|e: DriftEvent| e@) =~= before.map_values(
                    |e: DriftEvent| e@,
                ).push(e@));
                assert(es@.subrange(0, i + 1).map_values(|e: Json| drift_summary(e)) =~= es@.subrange(
                    0,
                    i as int,
                ).map_values(|e: Json| drift_summary(e)).push(drift_summary(es@[i as int])));
                i = i + 1;
            }
            assert(es@.subrange(0, es.len() as int) == es@);
        },
        None => {},
    }
    out
}

/// Decoding a `ListEvents` reply gives one record per entry of its `events`
/// array, in order (none when it has no such array), and each record field
/// is the like-named field of its own entry: the path is the `unit` text
/// (else "-"), the change type the `source` text (else "event"), the
/// timestamp the unsigned `timestamp_us` (else 0) and the details the
/// `summary` text (else "").
pub proof fn lemma_drift_records(res: Json)
    ensures
        as_list(get(res, "events"@)) is None ==> drift_listing(res).len() == 0,
        forall|es: Seq<Json>|
            as_list(get(res, "events"@)) == Some(es) ==> #[trigger] drift_listing(res).len()
                == es.len(),
        forall|es: Seq<Json>, i: int|
            as_list(get(res, "events"@)) == Some(es) && 0 <= i < es.len() ==> {
                let e = #[trigger] es[i];
                let r = drift_listing(res)[i];
                &&& r.path == (match as_text(get(e, "unit"@)) {
                    Some(t) => t,
                    None => "-"@,
                })
                &&& r.change_type == (match as_text(get(e, "source"@)) {
                    Some(t) => t,
                    None => "event"@,
                })
                &&& r.timestamp == (match as_unsigned(get(e, "timestamp_us"@)) {
                    Some(u) => u,
                    None => 0,
                })
                &&& r.details == (match as_text(get(e, "summary"@)) {
                    Some(t) => t,
                    None => ""@,
                })
            },
{
}

} // verus!
