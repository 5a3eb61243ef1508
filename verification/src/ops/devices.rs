//! The accelerator inventory that inferenced reports.
use vstd::prelude::*;

use crate::json::{
    as_list, as_numeric, as_text, as_unsigned, field_array, field_number, field_text_or, field_u64_or, get, number_or_zero, text_or,
    unsigned_or, Json, JsonNumber,
};
use crate::varlink::{is_call, VarlinkCall};

verus! {

/// Status of one accelerator or compute device. The PSI pressure is the
/// number the daemon sent (the integer zero when it sent none).
#[derive(Debug, Clone)]
pub struct DeviceReport {
    pub id: String,
    pub device_type: String,
    pub vendor: String,
    pub model: String,
    pub memory_total_bytes: u64,
    pub memory_used_bytes: u64,
    pub psi_pressure: JsonNumber,
    pub status: String,
}

/// The content of a device report.
pub ghost struct DeviceSummary {
    pub id: Seq<char>,
    pub device_type: Seq<char>,
    pub vendor: Seq<char>,
    pub model: Seq<char>,
    pub memory_total_bytes: u64,
    pub memory_used_bytes: u64,
    pub psi_pressure: JsonNumber,
    pub status: Seq<char>,
}

impl View for DeviceReport {
    type V = DeviceSummary;

    open spec fn view(&self) -> DeviceSummary {
        DeviceSummary {
            id: self.id@,
            device_type: self.device_type@,
            vendor: self.vendor@,
            model: self.model@,
            memory_total_bytes: self.memory_total_bytes,
            memory_used_bytes: self.memory_used_bytes,
            psi_pressure: self.psi_pressure,
            status: self.status@,
        }
    }
}

/// The report of one device entry, each missing field taking its default.
pub open spec fn device_summary(d: Json) -> DeviceSummary {
    DeviceSummary {
        id: text_or(d, "id"@, "unknown"@),
        device_type: text_or(d, "type"@, "cpu"@),
        vendor: text_or(d, "vendor"@, ""@),
        model: text_or(d, "model"@, ""@),
        memory_total_bytes: unsigned_or(d, "memory_total"@, 0),
        memory_used_bytes: unsigned_or(d, "memory_used"@, 0),
        psi_pressure: number_or_zero(d, "psi_pressure"@),
        status: text_or(d, "status"@, "ready"@),
    }
}

/// The reports of a `ListDevices` reply: one per entry of its `devices`
/// array, none when it has no such array.
pub open spec fn device_listing(res: Json) -> Seq<DeviceSummary> {
    match as_list(get(res, "devices"@)) {
        Some(ds) => ds.map_values(|d: Json| device_summary(d)),
        None => Seq::empty(),
    }
}

/// The call that asks inferenced for its devices.
pub fn devices_call() -> (c: VarlinkCall)
    ensures
        is_call(c, "io.syntrop.Inference1.ListDevices"@, None),
{
    VarlinkCall { method: String::from_str("io.syntrop.Inference1.ListDevices"), parameters: None }
}

fn device_report(d: &Json) -> (r: DeviceReport)
    ensures
        r@ == device_summary(*d),
{
    let psi = match field_number(d, "psi_pressure") {
        Some(n) => n,
        None => JsonNumber::PosInt(0),
    };
    DeviceReport {
        id: field_text_or(d, "id", "unknown"),
        device_type: field_text_or(d, "type", "cpu"),
        vendor: field_text_or(d, "vendor", ""),
        model: field_text_or(d, "model", ""),
        memory_total_bytes: field_u64_or(d, "memory_total", 0),
        memory_used_bytes: field_u64_or(d, "memory_used", 0),
        psi_pressure: psi,
        status: field_text_or(d, "status", "ready"),
    }
}

/// The device reports of a `ListDevices` reply.
pub fn decode_devices(res: &Json) -> (r: Vec<DeviceReport>)
    ensures
        r@.map_values(|e: DeviceReport| e@) == device_listing(*res),
{
    let mut out: Vec<DeviceReport> = Vec::new();
    match field_array(res, "devices") {
        Some(ds) => {
            let mut i: usize = 0;
            while i < ds.len()
                invariant
                    i <= ds.len(),
                    out@.map_values(|e: DeviceReport| e@) == ds@.subrange(0, i as int).map_values(
                        |d: Json| device_summary(d),
                    ),
                decreases ds.len() - i,
            {
                let ghost before = out@;
                let e = device_report(&ds[i]);
                out.push(e);
                assert(out@.map_values(|e: DeviceReport| e@) =~= before.map_values(
                    |e: DeviceReport| e@,
                ).push(e@));
                assert(ds@.subrange(0, i + 1).map_values(|d: Json| device_summary(d)) =~= ds@.subrange(
                    0,
                    i as int,
                ).map_values(|d: Json| device_summary(d)).push(device_summary(ds@[i as int])));
                i = i + 1;
            }
            assert(ds@.subrange(0, ds.len() as int) == ds@);
        },
        None => {},
    }
    out
}

/// Decoding a `ListDevices` reply gives one report per entry of its
/// `devices` array, in order (none when it has no such array), and each
/// report field is the like-named field of its own entry: `id`, `type`,
/// `vendor`, `model` and `status` as texts (else "unknown", "cpu", "", ""
/// and "ready"), `memory_total` and `memory_used` as unsigned numbers (else
/// 0), and `psi_pressure` as a number (else the integer 0).
pub proof fn lemma_device_reports(res: Json)
    ensures
        as_list(get(res, "devices"@)) is None ==> device_listing(res).len() == 0,
        forall|ds: Seq<Json>|
            as_list(get(res, "devices"@)) == Some(ds) ==> #[trigger] device_listing(res).len()
                == ds.len(),
        forall|ds: Seq<Json>, i: int|
            as_list(get(res, "devices"@)) == Some(ds) && 0 <= i < ds.len() ==> {
                let d = #[trigger] ds[i];
                let r = device_listing(res)[i];
                &&& r.id == (match as_text(get(d, "id"@)) {
                    Some(t) => t,
                    None => "unknown"@,
                })
                &&& r.device_type == (match as_text(get(d, "type"@)) {
                    Some(t) => t,
                    None => "cpu"@,
                })
                &&& r.vendor == (match as_text(get(d, "vendor"@)) {
                    Some(t) => t,
                    None => ""@,
                })
                &&& r.model == (match as_text(get(d, "model"@)) {
                    Some(t) => t,
                    None => ""@,
                })
                &&& r.memory_total_bytes == (match as_unsigned(get(d, "memory_total"@)) {
                    Some(u) => u,
                    None => 0,
                })
                &&& r.memory_used_bytes == (match as_unsigned(get(d, "memory_used"@)) {
                    Some(u) => u,
                    None => 0,
                })
                &&& r.psi_pressure == (match as_numeric(get(d, "psi_pressure"@)) {
                    Some(n) => n,
                    None => JsonNumber::PosInt(0),
                })
                &&& r.status == (match as_text(get(d, "status"@)) {
                    Some(t) => t,
                    None => "ready"@,
                })
            },
{
}

} // verus!
