use syntropctl::daemon::DaemonEndpoint;
use syntropctl::error::{IoKind, SyntropctlError};
use syntropctl::json::{Json, JsonNumber};
use syntropctl::ops::devices::{decode_devices, devices_call, DeviceReport};
use syntropctl::ops::drift::{decode_drift, drift_call, DriftEvent};
use syntropctl::ops::explain::{incident_report, timeline_call, triage_call, IncidentReport};
use syntropctl::ops::inference::{
    decode_embedding, decode_generation, embed_call, generate_call, GenerationOutput,
};
use syntropctl::ops::models::{merge_model_catalog, ModelEntry};
use syntropctl::ops::run::{decode_tool_result, tool_call, ToolRunResult};
use syntropctl::ops::status::{daemon_status, StatusProbe};
use syntropctl::varlink::ServiceInfo;

fn text(s: &str) -> Json {
    Json::Str(s.to_string())
}

fn uint(u: u64) -> Json {
    Json::Number(JsonNumber::PosInt(u))
}

fn obj(fields: Vec<(&str, Json)>) -> Json {
    Json::Object(fields.into_iter().map(|(k, v)| (k.to_string(), v)).collect())
}

fn float_of(n: JsonNumber) -> f64 {
    match n {
        JsonNumber::PosInt(u) => u as f64,
        JsonNumber::NegInt(i) => i as f64,
        JsonNumber::Float(bits) => f64::from_bits(bits),
    }
}

fn field_names(p: &Option<Json>) -> Vec<String> {
    match p {
        Some(Json::Object(fields)) => fields.iter().map(|(k, _)| k.clone()).collect(),
        _ => Vec::new(),
    }
}

#[test]
fn test_check_daemon_status_missing_socket() {
    let ep = DaemonEndpoint::from_name("sentry").unwrap();
    let socket = ep.socket_path(Some("/tmp/definitely_not_a_real_socket.sock"));
    let status = daemon_status(&ep, socket, StatusProbe::SocketMissing);

    assert_eq!(status.name, "sentry");
    assert_eq!(status.unit_name, "sentry.service");
    assert_eq!(status.socket_path, "/tmp/definitely_not_a_real_socket.sock");
    assert!(!status.socket_exists);
    assert!(!status.responsive);
    assert!(status.error_message.is_some());
    assert!(status.latency_ms.is_none());
}

#[test]
fn daemon_status_after_answer_and_failure() {
    let ep = DaemonEndpoint::from_name("runtimed").unwrap();
    let info = ServiceInfo {
        vendor: "Syntropd Project".to_string(),
        product: "runtimed".to_string(),
        version: "0.1.0".to_string(),
        url: "https://github.com/syntropd".to_string(),
        interfaces: vec!["io.syntrop.Runtime1".to_string()],
    };
    let s = daemon_status(&ep, ep.socket_path(None), StatusProbe::Answered { latency_ms: 2, info });
    assert!(s.socket_exists && s.responsive);
    assert_eq!(s.latency_ms, Some(2));
    assert_eq!(s.product.as_deref(), Some("runtimed"));
    assert_eq!(s.version.as_deref(), Some("0.1.0"));
    assert_eq!(s.interfaces, vec!["io.syntrop.Runtime1".to_string()]);
    assert!(s.error_message.is_none());

    let f = daemon_status(&ep, ep.socket_path(None), StatusProbe::Failed("refused".to_string()));
    assert!(f.socket_exists && !f.responsive);
    assert_eq!(f.error_message.as_deref(), Some("refused"));
}

#[test]
fn test_incident_report_creation() {
    let report = IncidentReport {
        unit: "caddy.service".to_string(),
        status: "failed".to_string(),
        root_cause: "Port 443 already bound by nginx".to_string(),
        confidence: JsonNumber::Float(0.95f64.to_bits()),
        recommended_action: "Stop conflicting nginx service".to_string(),
        remediation_command: Some("systemctl stop nginx".to_string()),
        journal_slice: vec!["bind: address already in use".to_string()],
        recent_drift: vec!["/etc/caddy/Caddyfile modified".to_string()],
    };

    assert_eq!(report.unit, "caddy.service");
    assert_eq!(report.status, "failed");
    assert!(float_of(report.confidence) > 0.9);
    assert_eq!(report.journal_slice.len(), 1);
}

#[test]
fn test_drift_and_tool_run_results() {
    let drift = DriftEvent {
        path: "/etc/systemd/system/sentry.service.d/override.conf".to_string(),
        change_type: "created".to_string(),
        timestamp: 1727145000,
        details: "Added MemoryMax=2G drop-in".to_string(),
    };
    assert_eq!(drift.change_type, "created");

    let tool_run = ToolRunResult {
        exit_code: 0,
        stdout: "Linux 6.12.0".to_string(),
        stderr: String::new(),
        duration_ms: 12,
    };
    assert_eq!(tool_run.exit_code, 0);

    let gen_output = GenerationOutput {
        text: "Root cause found".to_string(),
        prompt_tokens: 10,
        completion_tokens: 3,
        finish_reason: "stop".to_string(),
        duration_ms: 45,
    };
    assert_eq!(gen_output.finish_reason, "stop");
}

#[test]
fn devices_are_decoded_with_defaults() {
    let reply = obj(vec![(
        "devices",
        Json::Array(vec![
            obj(vec![
                ("id", text("gpu0")),
                ("type", text("gpu")),
                ("vendor", text("NVIDIA")),
                ("model", text("RTX 4090")),
                ("memory_total", uint(25_769_803_776)),
                ("memory_used", uint(4_294_967_296)),
                ("psi_pressure", Json::Number(JsonNumber::Float(0.5f64.to_bits()))),
                ("status", text("active")),
            ]),
            obj(vec![("memory_total", text("not a number"))]),
        ]),
    )]);
    let devices: Vec<DeviceReport> = decode_devices(&reply);
    assert_eq!(devices.len(), 2);
    assert_eq!(devices[0].id, "gpu0");
    assert_eq!(devices[0].model, "RTX 4090");
    assert_eq!(devices[0].memory_total_bytes, 25_769_803_776);
    assert_eq!(float_of(devices[0].psi_pressure), 0.5);
    assert_eq!(devices[1].id, "unknown");
    assert_eq!(devices[1].device_type, "cpu");
    assert_eq!(devices[1].vendor, "");
    assert_eq!(devices[1].memory_total_bytes, 0);
    assert_eq!(devices[1].psi_pressure, JsonNumber::PosInt(0));
    assert_eq!(devices[1].status, "ready");
    assert!(decode_devices(&obj(vec![])).is_empty());
    assert_eq!(devices_call().method, "io.syntrop.Inference1.ListDevices");
}

#[test]
fn drift_query_and_events() {
    let call = drift_call(Some("nginx.service"));
    assert_eq!(call.method, "io.syntrop.Context1.ListEvents");
    assert_eq!(field_names(&call.parameters), vec!["since_seconds", "limit", "unit"]);
    assert_eq!(field_names(&drift_call(None).parameters), vec!["since_seconds", "limit"]);

    let reply = obj(vec![(
        "events",
        Json::Array(vec![
            obj(vec![
                ("unit", text("/etc/resolv.conf")),
                ("source", text("updated")),
                ("timestamp_us", uint(1727145100)),
                ("summary", text("nameserver updated")),
            ]),
            obj(vec![]),
        ]),
    )]);
    let events = decode_drift(&reply);
    assert_eq!(events.len(), 2);
    assert_eq!(events[0].path, "/etc/resolv.conf");
    assert_eq!(events[0].timestamp, 1727145100);
    assert_eq!(events[1].path, "-");
    assert_eq!(events[1].change_type, "event");
    assert_eq!(events[1].details, "");
}

#[test]
fn incident_fuses_triage_and_timeline() {
    let triage = obj(vec![
        ("root_cause", text("Disk full")),
        ("confidence", Json::Number(JsonNumber::Float(0.98f64.to_bits()))),
        ("remediation_command", text("journalctl --vacuum-size=500M")),
        ("journal_slice", Json::Array(vec![text("FATAL: no space"), uint(3), text("retrying")])),
        ("status", text("failed")),
    ]);
    let timeline = obj(vec![(
        "events",
        Json::Array(vec![obj(vec![("summary", text("Disk usage exceeded 99%"))]), obj(vec![])]),
    )]);
    let r = incident_report("postgresql.service", Some(&triage), Some(&timeline));
    assert_eq!(r.unit, "postgresql.service");
    assert_eq!(r.status, "failed");
    assert_eq!(r.root_cause, "Disk full");
    assert_eq!(float_of(r.confidence), 0.98);
    assert_eq!(r.recommended_action, "Inspect journal logs using journalctl.");
    assert_eq!(r.remediation_command.as_deref(), Some("journalctl --vacuum-size=500M"));
    assert_eq!(r.journal_slice, vec!["FATAL: no space", "retrying"]);
    assert_eq!(r.recent_drift, vec!["Disk usage exceeded 99%"]);

    let quiet = incident_report("nginx.service", None, None);
    assert_eq!(quiet.status, "active");
    assert_eq!(quiet.root_cause, "No active failure record found in sentry.");
    assert_eq!(quiet.confidence, JsonNumber::PosInt(0));
    assert!(quiet.remediation_command.is_none());
    assert!(quiet.journal_slice.is_empty() && quiet.recent_drift.is_empty());

    assert_eq!(triage_call("x").method, "io.syntrop.Sentry1.TriageUnit");
    assert_eq!(timeline_call("x").method, "io.syntrop.Context1.GetTimeline");
}

#[test]
fn generation_and_embedding_replies() {
    let reply = obj(vec![(
        "result",
        obj(vec![("text", text("Root cause found")), ("prompt_tokens", uint(10)), ("duration_ms", uint(45))]),
    )]);
    let out = decode_generation(&reply).unwrap();
    assert_eq!(out.text, "Root cause found");
    assert_eq!(out.prompt_tokens, 10);
    assert_eq!(out.completion_tokens, 0);
    assert_eq!(out.finish_reason, "stop");
    assert_eq!(out.duration_ms, 45);
    match decode_generation(&obj(vec![])) {
        Err(SyntropctlError::MalformedReply(m)) => {
            assert_eq!(m, "Missing 'result' object in Generate reply")
        },
        other => panic!("unexpected {:?}", other),
    }

    let call = generate_call("hi", "qwen2.5-coder-7b", 256, Json::Null);
    assert_eq!(call.method, "io.syntrop.Runtime1.Generate");
    assert_eq!(field_names(&call.parameters), vec!["model", "prompt", "max_tokens", "temperature"]);

    let emb = obj(vec![(
        "embedding",
        Json::Array(vec![uint(1), text("x"), Json::Number(JsonNumber::NegInt(-2))]),
    )]);
    assert_eq!(decode_embedding(&emb).unwrap(), vec![JsonNumber::PosInt(1), JsonNumber::NegInt(-2)]);
    match decode_embedding(&obj(vec![("embedding", text("no"))])) {
        Err(SyntropctlError::MalformedReply(m)) => {
            assert_eq!(m, "Missing 'embedding' array in Embed reply")
        },
        other => panic!("unexpected {:?}", other),
    }
    assert_eq!(field_names(&embed_call("t", "m").parameters), vec!["model", "text"]);
}

#[test]
fn tool_results_read_result_or_reply() {
    let nested = obj(vec![(
        "result",
        obj(vec![("exit_code", uint(2)), ("stdout", text("out")), ("duration_ms", uint(7))]),
    )]);
    let r = decode_tool_result(&nested);
    assert_eq!(r.exit_code, 2);
    assert_eq!(r.stdout, "out");
    assert_eq!(r.stderr, "");
    assert_eq!(r.duration_ms, 7);

    let flat = obj(vec![("exit_code", Json::Number(JsonNumber::NegInt(-9)))]);
    assert_eq!(decode_tool_result(&flat).exit_code, -9);
    assert_eq!(decode_tool_result(&obj(vec![])).exit_code, -1);
    // An exit code beyond 32 bits is cut to its low 32 bits.
    assert_eq!(decode_tool_result(&obj(vec![("exit_code", uint(1u64 << 32 | 5))])).exit_code, 5);

    let args = vec!["-la".to_string(), "/tmp".to_string()];
    let call = tool_call("ls", &args, Some("strict"));
    assert_eq!(call.method, "io.syntrop.Tool1.ExecuteTool");
    assert_eq!(field_names(&call.parameters), vec!["name", "args", "sandbox"]);
    assert_eq!(field_names(&tool_call("ls", &args, None).parameters), vec!["name", "args"]);
}

#[test]
fn model_catalog_prefers_loaded_and_drops_duplicates() {
    let loaded = obj(vec![(
        "models",
        Json::Array(vec![
            obj(vec![
                ("name", text("qwen2.5-coder-7b")),
                ("memory_bytes", uint(4_294_967_296)),
                ("parameter_count", uint(7_000_000_000)),
                ("compute_backend", text("cpu-avx2")),
                ("context_window", uint(8192)),
            ]),
            obj(vec![("memory_bytes", uint(1))]),
        ]),
    )]);
    let cached = obj(vec![(
        "models",
        Json::Array(vec![
            obj(vec![("name", text("qwen2.5-coder-7b")), ("size_bytes", uint(9))]),
            obj(vec![("name", text("llama-3-8b")), ("size_bytes", uint(16))]),
            obj(vec![("name", text("llama-3-8b")), ("size_bytes", uint(17))]),
        ]),
    )]);
    let catalog: Vec<ModelEntry> = merge_model_catalog(Some(&loaded), Some(&cached));
    assert_eq!(catalog.len(), 2);
    assert_eq!(catalog[0].name, "qwen2.5-coder-7b");
    assert_eq!(catalog[0].status, "loaded");
    assert_eq!(catalog[0].size_bytes, 4_294_967_296);
    assert_eq!(catalog[0].parameter_count, Some(7_000_000_000));
    assert_eq!(catalog[0].backend.as_deref(), Some("cpu-avx2"));
    assert_eq!(catalog[0].context_window, Some(8192));
    assert_eq!(catalog[1].name, "llama-3-8b");
    assert_eq!(catalog[1].status, "cached");
    assert_eq!(catalog[1].size_bytes, 16);
    assert!(catalog[1].backend.is_none());

    let only_cached = merge_model_catalog(None, Some(&cached));
    assert_eq!(only_cached.len(), 2);
    assert_eq!(only_cached[0].status, "cached");
    assert_eq!(only_cached[0].size_bytes, 9);
    assert!(merge_model_catalog(None, None).is_empty());
}

#[test]
fn missing_socket_errors_name_daemon_and_path() {
    match syntropctl::error::missing_socket_error("toold", "/run/syntrop/io.syntrop.Tool1") {
        SyntropctlError::DaemonUnavailable { daemon, socket, source } => {
            assert_eq!(daemon, "toold");
            assert_eq!(socket, "/run/syntrop/io.syntrop.Tool1");
            assert_eq!(source.kind, IoKind::NotFound);
            assert_eq!(source.message, "Socket file does not exist");
        },
        other => panic!("unexpected {:?}", other),
    }
}
