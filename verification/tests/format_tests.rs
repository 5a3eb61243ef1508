use syntropctl::commands::{
    described_interfaces, info_target, missing_socket_message, run_exit_status, status_targets,
};
use syntropctl::daemon::DaemonKind;
use syntropctl::json::JsonNumber;
use syntropctl::ops::drift::DriftEvent;
use syntropctl::ops::explain::IncidentReport;
use syntropctl::ops::inference::GenerationOutput;
use syntropctl::ops::status::DaemonStatus;
use syntropctl::render::{
    byte_scale, plain_byte_count, ByteScale,
    drift_table_lines, fleet_info_lines, generation_footer_text, incident_report_lines, info_lines,
    status_table_lines,
};
use syntropctl::varlink::ServiceInfo;

fn sample_status() -> DaemonStatus {
    DaemonStatus {
        name: "runtimed".to_string(),
        unit_name: "runtimed.service".to_string(),
        socket_path: "/run/syntrop/io.syntrop.Runtime1".to_string(),
        socket_exists: true,
        responsive: true,
        latency_ms: Some(2),
        product: Some("runtimed".to_string()),
        version: Some("0.1.0".to_string()),
        interfaces: vec!["io.syntrop.Runtime1".to_string()],
        error_message: None,
    }
}

#[test]
fn test_print_tables_do_not_panic_when_empty() {
    let status = status_table_lines(&vec![]);
    assert_eq!(status.len(), 2);
    let drift = drift_table_lines(&vec![]);
    assert_eq!(drift, vec!["No recent configuration drift or modified units recorded."]);
}

#[test]
fn test_print_tables_with_mock_data() {
    let lines = status_table_lines(&vec![sample_status()]);
    assert_eq!(
        lines[0],
        format!(
            "{:<14} {:<20} {:<12} {:<10} {:<8} {:<16}",
            "DAEMON", "UNIT", "SOCKET", "STATUS", "LATENCY", "PRODUCT/VERSION"
        )
    );
    assert_eq!(lines[1], "-".repeat(84));
    assert_eq!(
        lines[2],
        format!(
            "{:<14} {:<20} {:<12} {:<10} {:<8} {:<16}",
            "runtimed", "runtimed.service", "active", "responsive", "2ms", "runtimed v0.1.0"
        )
    );

    let drift = vec![DriftEvent {
        path: "/etc/resolv.conf".to_string(),
        change_type: "updated".to_string(),
        timestamp: 1727145100,
        details: "nameserver updated by systemd-resolved".to_string(),
    }];
    let lines = drift_table_lines(&drift);
    assert_eq!(lines.len(), 3);
    assert_eq!(lines[1], "-".repeat(78));
    assert_eq!(
        lines[2],
        format!(
            "{:<28} {:<12} {:<12} {:<24}",
            "/etc/resolv.conf", "updated", 1727145100u64, "nameserver updated by systemd-resolved"
        )
    );
}

#[test]
fn status_labels_for_missing_and_unreachable_daemons() {
    let mut missing = sample_status();
    missing.socket_exists = false;
    missing.responsive = false;
    missing.latency_ms = None;
    missing.product = None;
    missing.version = None;
    missing.error_message = Some("Socket file not found".to_string());
    let mut unreachable = missing.clone();
    unreachable.socket_exists = true;
    unreachable.error_message = None;
    let lines = status_table_lines(&vec![missing, unreachable]);
    assert_eq!(
        lines[2],
        format!(
            "{:<14} {:<20} {:<12} {:<10} {:<8} {:<16}",
            "runtimed", "runtimed.service", "missing", "inactive", "-", "Socket file not found"
        )
    );
    assert_eq!(
        lines[3],
        format!(
            "{:<14} {:<20} {:<12} {:<10} {:<8} {:<16}",
            "runtimed", "runtimed.service", "active", "unreachable", "-", "-"
        )
    );
}

#[test]
fn test_print_incident_report() {
    let report = IncidentReport {
        unit: "postgresql.service".to_string(),
        status: "activating (auto-restart)".to_string(),
        root_cause: "Disk space exhausted on /var/lib/pgsql".to_string(),
        confidence: JsonNumber::Float(0.98f64.to_bits()),
        recommended_action: "Free disk space or resize filesystem".to_string(),
        remediation_command: Some("journalctl --vacuum-size=500M".to_string()),
        journal_slice: vec!["FATAL: could not write to file: No space left on device".to_string()],
        recent_drift: vec!["Disk usage exceeded 99%".to_string()],
    };

    let lines = incident_report_lines(&report, "98.0");
    assert_eq!(
        lines,
        vec![
            "=== Syntropd Incident Diagnosis: postgresql.service ===",
            "Unit Status:      activating (auto-restart)",
            "Root Cause:       Disk space exhausted on /var/lib/pgsql",
            "Confidence:       98.0%",
            "Recommended Fix:  Free disk space or resize filesystem",
            "Remediation Cmd:  journalctl --vacuum-size=500M",
            "",
            "Correlated Configuration Drift:",
            "  * Disk usage exceeded 99%",
            "",
            "Associated Journal Logs:",
            "  FATAL: could not write to file: No space left on device",
        ]
    );
}

#[test]
fn info_renderings() {
    let info = ServiceInfo {
        vendor: "Syntropd Project".to_string(),
        product: "testd".to_string(),
        version: "1.0.0".to_string(),
        url: "https://github.com/syntropd".to_string(),
        interfaces: vec!["org.varlink.service".to_string(), "io.syntrop.Test1".to_string()],
    };
    assert_eq!(described_interfaces(&info), vec!["io.syntrop.Test1"]);
    let lines = info_lines(
        "testd",
        &info,
        &vec![("io.syntrop.Test1".to_string(), "interface io.syntrop.Test1".to_string())],
    );
    assert_eq!(
        lines,
        vec![
            "=== Daemon: testd ===",
            "Product:    testd",
            "Vendor:     Syntropd Project",
            "Version:    1.0.0",
            "URL:        https://github.com/syntropd",
            "",
            "Interfaces:",
            "  - org.varlink.service",
            "  - io.syntrop.Test1",
            "",
            "--- Interface: io.syntrop.Test1 ---",
            "interface io.syntrop.Test1",
        ]
    );
    let fleet = fleet_info_lines("testd", &info);
    assert_eq!(
        fleet[0],
        format!("Daemon: {:<12} | Product: {:<16} | Version: {}", "testd", "testd", "1.0.0")
    );
    assert_eq!(fleet[1], "    * org.varlink.service");
}

#[test]
fn command_decisions() {
    assert_eq!(status_targets(None).unwrap().len(), 7);
    let one = status_targets(Some("runtimed")).unwrap();
    assert_eq!(one.len(), 1);
    assert_eq!(one[0].kind, DaemonKind::Runtimed);
    let err = status_targets(Some("nope")).unwrap_err();
    assert!(err.starts_with("Unknown daemon 'nope'. Valid daemons: sentry"));
    assert_eq!(info_target("toold").unwrap().kind, DaemonKind::Toold);
    assert!(info_target("nope").unwrap_err().starts_with("Unknown daemon 'nope'. Valid:"));
    assert_eq!(
        missing_socket_message("toold", "/run/syntrop/io.syntrop.Tool1"),
        "Daemon 'toold' socket not found at /run/syntrop/io.syntrop.Tool1"
    );
    assert_eq!(run_exit_status(0), 0);
    assert_eq!(run_exit_status(3), 3);
    assert_eq!(run_exit_status(-1), 255);
    assert_eq!(run_exit_status(256), 1);
    assert_eq!(run_exit_status(-256), 1);
    assert_eq!(run_exit_status(257), 1);
    assert_eq!(run_exit_status(258), 2);

    let out = GenerationOutput {
        text: "x".to_string(),
        prompt_tokens: 10,
        completion_tokens: 3,
        finish_reason: "stop".to_string(),
        duration_ms: 45,
    };
    assert_eq!(
        generation_footer_text(&out),
        "[Prompt: 10 tokens | Completion: 3 tokens | Completed in 45ms]"
    );
}

#[test]
fn byte_units_follow_thresholds() {
    assert_eq!(byte_scale(0), ByteScale::Bytes);
    assert_eq!(byte_scale(1023), ByteScale::Bytes);
    assert_eq!(byte_scale(1024), ByteScale::KiB);
    assert_eq!(byte_scale(1024 * 1024), ByteScale::MiB);
    assert_eq!(byte_scale(4_294_967_296), ByteScale::GiB);
    assert_eq!(plain_byte_count(512), "512 B");
    assert_eq!(plain_byte_count(0), "0 B");
}
