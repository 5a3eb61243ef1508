//! Plain-text renderings of the reports: the lines the client prints.
use vstd::prelude::*;

use crate::json::opt_text;
use crate::ops::drift::DriftEvent;
use crate::ops::explain::IncidentReport;
use crate::ops::inference::GenerationOutput;
use crate::daemon::DaemonEndpoint;
use crate::ops::status::{status_after, DaemonStatus, StatusProbe};
use crate::text::{
    decimal, lemma_pad_right, pad_right, push_decimal, push_padded, repeat_char, repeated,
};
use crate::varlink::ServiceInfo;

verus! {

/// The text of a list of strings.
pub open spec fn texts(v: Seq<String>) -> Seq<Seq<char>> {
    v.map_values(|s: String| s@)
}

// ---------------------------------------------------------------------------
// Fleet status table
// ---------------------------------------------------------------------------

/// A status table line: six columns, left-aligned in widths 14, 20, 12, 10,
/// 8 and 16, separated by one space.
pub open spec fn status_line(
    a: Seq<char>,
    b: Seq<char>,
    c: Seq<char>,
    d: Seq<char>,
    e: Seq<char>,
    f: Seq<char>,
) -> Seq<char> {
    pad_right(a, 14) + " "@ + pad_right(b, 20) + " "@ + pad_right(c, 12) + " "@ + pad_right(d, 10)
        + " "@ + pad_right(e, 8) + " "@ + pad_right(f, 16)
}

/// The socket column of a status: whether the socket file exists.
pub open spec fn socket_label(s: DaemonStatus) -> Seq<char> {
    if s.socket_exists {
        "active"@
    } else {
        "missing"@
    }
}

/// The status column: responsive, unreachable (socket but no answer) or
/// inactive (no socket).
pub open spec fn status_label(s: DaemonStatus) -> Seq<char> {
    if s.responsive {
        "responsive"@
    } else if s.socket_exists {
        "unreachable"@
    } else {
        "inactive"@
    }
}

/// The latency column: milliseconds, or a dash.
pub open spec fn latency_label(s: DaemonStatus) -> Seq<char> {
    match s.latency_ms {
        Some(l) => decimal(l as nat) + "ms"@,
        None => "-"@,
    }
}

/// The product column: product and version, the product alone, or else
/// the error message or a dash.
pub open spec fn product_label(s: DaemonStatus) -> Seq<char> {
    match (opt_text(s.product), opt_text(s.version)) {
        (Some(p), Some(v)) => p + " v"@ + v,
        (Some(p), None) => p,
        _ => match opt_text(s.error_message) {
            Some(m) => m,
            None => "-"@,
        },
    }
}

/// The line of one daemon in the status table.
pub open spec fn status_row(s: DaemonStatus) -> Seq<char> {
    status_line(
        s.name@,
        s.unit_name@,
        socket_label(s),
        status_label(s),
        latency_label(s),
        product_label(s),
    )
}

/// The fleet status table: a header, a rule, and one line per daemon.
pub open spec fn status_table(statuses: Seq<DaemonStatus>) -> Seq<Seq<char>> {
    seq![
        status_line(
            "DAEMON"@,
            "UNIT"@,
            "SOCKET"@,
            "STATUS"@,
            "LATENCY"@,
            "PRODUCT/VERSION"@,
        ),
        repeated('-', 84),
    ] + statuses.map_values(|s: DaemonStatus| status_row(s))
}

fn status_line_text(a: &str, b: &str, c: &str, d: &str, e: &str, f: &str) -> (r: String)
    ensures
        r@ == status_line(a@, b@, c@, d@, e@, f@),
{
    let mut line = String::new();
    push_padded(&mut line, a, 14);
    line.append(" ");
    push_padded(&mut line, b, 20);
    line.append(" ");
    push_padded(&mut line, c, 12);
    line.append(" ");
    push_padded(&mut line, d, 10);
    line.append(" ");
    push_padded(&mut line, e, 8);
    line.append(" ");
    push_padded(&mut line, f, 16);
    assert(Seq::<char>::empty() + pad_right(a@, 14) =~= pad_right(a@, 14));
    line
}

fn status_row_text(s: &DaemonStatus) -> (r: String)
    ensures
        r@ == status_row(*s),
{
    let sock = if s.socket_exists {
        "active"
    } else {
        "missing"
    };
    let state = if s.responsive {
        "responsive"
    } else if s.socket_exists {
        "unreachable"
    } else {
        "inactive"
    };
    let mut latency = String::new();
    match s.latency_ms {
        Some(l) => {
            push_decimal(&mut latency, l);
            latency.append("ms");
            assert(Seq::<char>::empty() + decimal(l as nat) =~= decimal(l as nat));
        },
        None => {
            latency.append("-");
            assert(Seq::<char>::empty() + "-"@ =~= "-"@);
        },
    }
    let mut product = String::new();
    match (&s.product, &s.version) {
        (Some(p), Some(v)) => {
            product.append(p.as_str());
            product.append(" v");
            product.append(v.as_str());
            assert(Seq::<char>::empty() + p@ =~= p@);
        },
        (Some(p), None) => {
            product.append(p.as_str());
            assert(Seq::<char>::empty() + p@ =~= p@);
        },
        _ => match &s.error_message {
            Some(m) => {
                product.append(m.as_str());
                assert(Seq::<char>::empty() + m@ =~= m@);
            },
            None => {
                product.append("-");
                assert(Seq::<char>::empty() + "-"@ =~= "-"@);
            },
        },
    }
    status_line_text(
        s.name.as_str(),
        s.unit_name.as_str(),
        sock,
        state,
        latency.as_str(),
        product.as_str(),
    )
}

/// The lines of the fleet status table.
pub fn status_table_lines(statuses: &Vec<DaemonStatus>) -> (r: Vec<String>)
    ensures
        texts(r@) == status_table(statuses@),
{
    let mut lines: Vec<String> = Vec::new();
    lines.push(status_line_text("DAEMON", "UNIT", "SOCKET", "STATUS", "LATENCY", "PRODUCT/VERSION"));
    lines.push(repeat_char('-', 84));
    let ghost head = texts(lines@);
    let mut i: usize = 0;
    while i < statuses.len()
        invariant
            i <= statuses.len(),
            head.len() == 2,
            texts(lines@) == head + statuses@.subrange(0, i as int).map_values(
                |s: DaemonStatus| status_row(s),
            ),
        decreases statuses.len() - i,
    {
        let ghost before = lines@;
        let row = status_row_text(&statuses[i]);
        lines.push(row);
        assert(texts(lines@) =~= texts(before).push(row@));
        assert(statuses@.subrange(0, i + 1).map_values(|s: DaemonStatus| status_row(s))
            =~= statuses@.subrange(0, i as int).map_values(|s: DaemonStatus| status_row(s)).push(
            status_row(statuses@[i as int]),
        ));
        i = i + 1;
    }
    assert(statuses@.subrange(0, statuses.len() as int) == statuses@);
    lines
}

/// What the columns of a daemon's status line say follows from what probing
/// found: a daemon that answered is "responsive", with its socket "active",
/// its latency in milliseconds and its product and version; one whose socket
/// exists but that did not answer is "unreachable", with the failure
/// message; one without a socket file is "inactive", its socket "missing",
/// with the message "Socket file not found".
pub proof fn lemma_status_columns(
    s: DaemonStatus,
    endpoint: DaemonEndpoint,
    socket: Seq<char>,
    probe: StatusProbe,
)
    requires
        status_after(s, endpoint, socket, probe),
    ensures
        status_label(s) == (match probe {
            StatusProbe::SocketMissing => "inactive"@,
            StatusProbe::Answered { .. } => "responsive"@,
            StatusProbe::Failed(_) => "unreachable"@,
        }),
        socket_label(s) == (match probe {
            StatusProbe::SocketMissing => "missing"@,
            _ => "active"@,
        }),
        latency_label(s) == (match probe {
            StatusProbe::Answered { latency_ms, .. } => decimal(latency_ms as nat) + "ms"@,
            _ => "-"@,
        }),
        product_label(s) == (match probe {
            StatusProbe::SocketMissing => "Socket file not found"@,
            StatusProbe::Answered { info, .. } => info.product@ + " v"@ + info.version@,
            StatusProbe::Failed(message) => message@,
        }),
{
}

/// The status table has a header, a rule, and then one line per daemon, in
/// order, each starting with the daemon's name.
pub proof fn lemma_status_table_rows(statuses: Seq<DaemonStatus>)
    ensures
        status_table(statuses).len() == statuses.len() + 2,
        forall|k: int|
            0 <= k < statuses.len() ==> #[trigger] status_table(statuses)[k + 2] == status_row(
                statuses[k],
            ) && status_row(statuses[k]).subrange(0, statuses[k].name@.len() as int)
                == statuses[k].name@,
{
    assert forall|k: int| 0 <= k < statuses.len() implies #[trigger] status_table(statuses)[k + 2]
        == status_row(statuses[k]) && status_row(statuses[k]).subrange(
        0,
        statuses[k].name@.len() as int,
    ) == statuses[k].name@ by {
        let n = statuses[k].name@;
        lemma_pad_right(n, 14);
        let row = status_row(statuses[k]);
        let first = pad_right(n, 14);
        assert(row.subrange(0, first.len() as int) == first);
        assert(row.subrange(0, n.len() as int) == first.subrange(0, n.len() as int));
    }
}

// ---------------------------------------------------------------------------
// Drift timeline
// ---------------------------------------------------------------------------

/// A drift table line: four columns, left-aligned in widths 28, 12, 12 and
/// 24, separated by one space.
pub open spec fn drift_line(a: Seq<char>, b: Seq<char>, c: Seq<char>, d: Seq<char>) -> Seq<char> {
    pad_right(a, 28) + " "@ + pad_right(b, 12) + " "@ + pad_right(c, 12) + " "@ + pad_right(d, 24)
}

/// The line of one drift record.
pub open spec fn drift_row(e: DriftEvent) -> Seq<char> {
    drift_line(e.path@, e.change_type@, decimal(e.timestamp as nat), e.details@)
}

/// The drift timeline: a notice when there is no record, else a header, a
/// rule and one line per record.
pub open spec fn drift_table(events: Seq<DriftEvent>) -> Seq<Seq<char>> {
    if events.len() == 0 {
        seq!["No recent configuration drift or modified units recorded."@]
    } else {
        seq![drift_line("PATH/TARGET"@, "CHANGE"@, "TIMESTAMP"@, "DETAILS"@), repeated('-', 78)]
            + events.map_values(|e: DriftEvent| drift_row(e))
    }
}

fn drift_line_text(a: &str, b: &str, c: &str, d: &str) -> (r: String)
    ensures
        r@ == drift_line(a@, b@, c@, d@),
{
    let mut line = String::new();
    push_padded(&mut line, a, 28);
    line.append(" ");
    push_padded(&mut line, b, 12);
    line.append(" ");
    push_padded(&mut line, c, 12);
    line.append(" ");
    push_padded(&mut line, d, 24);
    assert(Seq::<char>::empty() + pad_right(a@, 28) =~= pad_right(a@, 28));
    line
}

/// The lines of the drift timeline.
pub fn drift_table_lines(events: &Vec<DriftEvent>) -> (r: Vec<String>)
    ensures
        texts(r@) == drift_table(events@),
{
    let mut lines: Vec<String> = Vec::new();
    if events.len() == 0 {
        lines.push(String::from_str("No recent configuration drift or modified units recorded."));
        assert(texts(lines@) =~= drift_table(events@));
        return lines;
    }
    lines.push(drift_line_text("PATH/TARGET", "CHANGE", "TIMESTAMP", "DETAILS"));
    lines.push(repeat_char('-', 78));
    let ghost head = texts(lines@);
    let mut i: usize = 0;
    while i < events.len()
        invariant
            i <= events.len(),
            events.len() > 0,
            head.len() == 2,
            head == seq![
                drift_line("PATH/TARGET"@, "CHANGE"@, "TIMESTAMP"@, "DETAILS"@),
                repeated('-', 78),
            ],
            texts(lines@) == head + events@.subrange(0, i as int).map_values(
                |e: DriftEvent| drift_row(e),
            ),
        decreases events.len() - i,
    {
        let ghost before = lines@;
        let mut ts = String::new();
        push_decimal(&mut ts, events[i].timestamp);
        assert(Seq::<char>::empty() + decimal(events[i as int].timestamp as nat) =~= decimal(
            events[i as int].timestamp as nat,
        ));
        let row = drift_line_text(
            events[i].path.as_str(),
            events[i].change_type.as_str(),
            ts.as_str(),
            events[i].details.as_str(),
        );
        lines.push(row);
        assert(texts(lines@) =~= texts(before).push(row@));
        assert(events@.subrange(0, i + 1).map_values(|e: DriftEvent| drift_row(e))
            =~= events@.subrange(0, i as int).map_values(|e: DriftEvent| drift_row(e)).push(
            drift_row(events@[i as int]),
        ));
        i = i + 1;
    }
    assert(events@.subrange(0, events.len() as int) == events@);
    lines
}

/// With no drift record the timeline is a single notice; otherwise it is a
/// header, a rule, and one line per record, in order, each starting with
/// the record's path.
pub proof fn lemma_drift_table_rows(events: Seq<DriftEvent>)
    ensures
        events.len() == 0 ==> drift_table(events) == seq![
            "No recent configuration drift or modified units recorded."@,
        ],
        events.len() > 0 ==> drift_table(events).len() == events.len() + 2,
        events.len() > 0 ==> forall|k: int|
            0 <= k < events.len() ==> #[trigger] drift_table(events)[k + 2] == drift_row(events[k])
                && drift_row(events[k]).subrange(0, events[k].path@.len() as int) == events[k].path@,
{
    assert forall|k: int| 0 <= k < events.len() implies drift_row(events[k]).subrange(
        0,
        events[k].path@.len() as int,
    ) == events[k].path@ by {
        let n = events[k].path@;
        lemma_pad_right(n, 28);
        let row = drift_row(events[k]);
        let first = pad_right(n, 28);
        assert(row.subrange(0, first.len() as int) == first);
        assert(row.subrange(0, n.len() as int) == first.subrange(0, n.len() as int));
    }
}

// ---------------------------------------------------------------------------
// Incident report
// ---------------------------------------------------------------------------

/// `items`, each behind `prefix`.
pub open spec fn prefixed(prefix: Seq<char>, items: Seq<Seq<char>>) -> Seq<Seq<char>> {
    items.map_values(|t: Seq<char>| prefix + t)
}

/// The incident diagnosis, with the confidence already written as a
/// percentage: the unit, its status, the root cause, the confidence and the
/// recommended fix; the remediation command when there is one; the
/// correlated drift and the journal lines, each under a heading after a
/// blank line, when there are any.
pub open spec fn incident_text(r: IncidentReport, confidence: Seq<char>) -> Seq<Seq<char>> {
    let head = seq![
        "=== Syntropd Incident Diagnosis: "@ + r.unit@ + " ==="@,
        "Unit Status:      "@ + r.status@,
        "Root Cause:       "@ + r.root_cause@,
        "Confidence:       "@ + confidence + "%"@,
        "Recommended Fix:  "@ + r.recommended_action@,
    ];
    let with_cmd = match opt_text(r.remediation_command) {
        Some(c) => head.push("Remediation Cmd:  "@ + c),
        None => head,
    };
    let drift = texts(r.recent_drift@);
    let with_drift = if drift.len() > 0 {
        with_cmd + seq![""@, "Correlated Configuration Drift:"@] + prefixed("  * "@, drift)
    } else {
        with_cmd
    };
    let journal = texts(r.journal_slice@);
    if journal.len() > 0 {
        with_drift + seq![""@, "Associated Journal Logs:"@] + prefixed("  "@, journal)
    } else {
        with_drift
    }
}

/// The incident diagnosis starts with the unit, its status, its root cause,
/// the confidence as a percentage and the recommended fix, one per line;
/// then the remediation command when there is one; then, when there are
/// any, each correlated drift summary as a bullet under its heading, and
/// each journal line, indented, under its heading, every block after a
/// blank line. Nothing else is printed.
pub proof fn lemma_incident_lines(r: IncidentReport, confidence: Seq<char>)
    ensures
        ({
            let t = incident_text(r, confidence);
            let cmd: int = if opt_text(r.remediation_command) is Some {
                1
            } else {
                0
            };
            let nd = r.recent_drift@.len() as int;
            let nj = r.journal_slice@.len() as int;
            let d0 = 5 + cmd;
            let j0 = d0 + if nd > 0 {
                nd + 2
            } else {
                0
            };
            &&& t.len() == j0 + if nj > 0 {
                nj + 2
            } else {
                0
            }
            &&& t[0] == "=== Syntropd Incident Diagnosis: "@ + r.unit@ + " ==="@
            &&& t[1] == "Unit Status:      "@ + r.status@
            &&& t[2] == "Root Cause:       "@ + r.root_cause@
            &&& t[3] == "Confidence:       "@ + confidence + "%"@
            &&& t[4] == "Recommended Fix:  "@ + r.recommended_action@
            &&& (opt_text(r.remediation_command) matches Some(c) ==> t[5] == "Remediation Cmd:  "@ + c)
            &&& (nd > 0 ==> t[d0] == ""@ && t[d0 + 1] == "Correlated Configuration Drift:"@)
            &&& (forall|k: int| 0 <= k < nd ==> t[d0 + 2 + k] == "  * "@ + (#[trigger] r.recent_drift@[k])@)
            &&& (nj > 0 ==> t[j0] == ""@ && t[j0 + 1] == "Associated Journal Logs:"@)
            &&& (forall|k: int| 0 <= k < nj ==> t[j0 + 2 + k] == "  "@ + (#[trigger] r.journal_slice@[k])@)
        }),
{
    let head = seq![
        "=== Syntropd Incident Diagnosis: "@ + r.unit@ + " ==="@,
        "Unit Status:      "@ + r.status@,
        "Root Cause:       "@ + r.root_cause@,
        "Confidence:       "@ + confidence + "%"@,
        "Recommended Fix:  "@ + r.recommended_action@,
    ];
    let with_cmd = match opt_text(r.remediation_command) {
        Some(c) => head.push("Remediation Cmd:  "@ + c),
        None => head,
    };
    let drift = texts(r.recent_drift@);
    let with_drift = if drift.len() > 0 {
        with_cmd + seq![""@, "Correlated Configuration Drift:"@] + prefixed("  * "@, drift)
    } else {
        with_cmd
    };
    let journal = texts(r.journal_slice@);
    let t = incident_text(r, confidence);
    assert(t == if journal.len() > 0 {
        with_drift + seq![""@, "Associated Journal Logs:"@] + prefixed("  "@, journal)
    } else {
        with_drift
    });
    assert forall|k: int| 0 <= k < with_cmd.len() implies #[trigger] with_drift[k] == with_cmd[k] by {}
    assert forall|k: int| 0 <= k < with_drift.len() implies #[trigger] t[k] == with_drift[k] by {}
    assert forall|k: int| 0 <= k < drift.len() implies with_drift[with_cmd.len() + 2 + k] == "  * "@
        + (#[trigger] r.recent_drift@[k])@ by {
        assert(drift[k] == r.recent_drift@[k]@);
    }
    assert forall|k: int| 0 <= k < journal.len() implies t[with_drift.len() + 2 + k] == "  "@
        + (#[trigger] r.journal_slice@[k])@ by {
        assert(journal[k] == r.journal_slice@[k]@);
    }
}

/// `prefix` followed by `s`.
fn joined(prefix: &str, s: &str) -> (r: String)
    ensures
        r@ == prefix@ + s@,
{
    let mut r = String::from_str(prefix);
    r.append(s);
    r
}

/// Appends each of `items`, behind `prefix`, to `lines`.
fn push_prefixed(lines: &mut Vec<String>, prefix: &str, items: &Vec<String>)
    ensures
        texts(final(lines)@) == texts(old(lines)@) + prefixed(prefix@, texts(items@)),
{
    let ghost base = texts(lines@);
    let mut i: usize = 0;
    while i < items.len()
        invariant
            i <= items.len(),
            texts(lines@) == base + prefixed(prefix@, texts(items@.subrange(0, i as int))),
        decreases items.len() - i,
    {
        let ghost before = lines@;
        let line = joined(prefix, items[i].as_str());
        lines.push(line);
        assert(texts(lines@) =~= texts(before).push(line@));
        assert(prefixed(prefix@, texts(items@.subrange(0, i + 1))) =~= prefixed(
            prefix@,
            texts(items@.subrange(0, i as int)),
        ).push(prefix@ + items@[i as int]@));
        i = i + 1;
    }
    assert(items@.subrange(0, items.len() as int) == items@);
}

/// The lines of an incident diagnosis; `confidence` is the confidence
/// written as a percentage.
pub fn incident_report_lines(report: &IncidentReport, confidence: &str) -> (r: Vec<String>)
    ensures
        texts(r@) == incident_text(*report, confidence@),
{
    let mut lines: Vec<String> = Vec::new();
    let mut title = joined("=== Syntropd Incident Diagnosis: ", report.unit.as_str());
    title.append(" ===");
    lines.push(title);
    lines.push(joined("Unit Status:      ", report.status.as_str()));
    lines.push(joined("Root Cause:       ", report.root_cause.as_str()));
    let mut conf = joined("Confidence:       ", confidence);
    conf.append("%");
    lines.push(conf);
    lines.push(joined("Recommended Fix:  ", report.recommended_action.as_str()));
    match &report.remediation_command {
        Some(c) => {
            lines.push(joined("Remediation Cmd:  ", c.as_str()));
        },
        None => {},
    }
    let ghost head = seq![
        "=== Syntropd Incident Diagnosis: "@ + report.unit@ + " ==="@,
        "Unit Status:      "@ + report.status@,
        "Root Cause:       "@ + report.root_cause@,
        "Confidence:       "@ + confidence@ + "%"@,
        "Recommended Fix:  "@ + report.recommended_action@,
    ];
    let ghost with_cmd = match opt_text(report.remediation_command) {
        Some(c) => head.push("Remediation Cmd:  "@ + c),
        None => head,
    };
    assert(texts(lines@) =~= with_cmd);
    let ghost drift = texts(report.recent_drift@);
    if report.recent_drift.len() > 0 {
        lines.push(String::from_str(""));
        lines.push(String::from_str("Correlated Configuration Drift:"));
        assert(texts(lines@) =~= with_cmd + seq![""@, "Correlated Configuration Drift:"@]);
        push_prefixed(&mut lines, "  * ", &report.recent_drift);
    }
    let ghost with_drift = if drift.len() > 0 {
        with_cmd + seq![""@, "Correlated Configuration Drift:"@] + prefixed("  * "@, drift)
    } else {
        with_cmd
    };
    assert(texts(lines@) == with_drift);
    if report.journal_slice.len() > 0 {
        lines.push(String::from_str(""));
        lines.push(String::from_str("Associated Journal Logs:"));
        assert(texts(lines@) =~= with_drift + seq![""@, "Associated Journal Logs:"@]);
        push_prefixed(&mut lines, "  ", &report.journal_slice);
    }
    assert(texts(lines@) == incident_text(*report, confidence@));
    lines
}

// ---------------------------------------------------------------------------
// Generation summary and daemon introspection
// ---------------------------------------------------------------------------

/// The summary printed after a generation: token counts and duration.
pub open spec fn generation_footer(out: GenerationOutput) -> Seq<char> {
    "[Prompt: "@ + decimal(out.prompt_tokens as nat) + " tokens | Completion: "@ + decimal(
        out.completion_tokens as nat,
    ) + " tokens | Completed in "@ + decimal(out.duration_ms as nat) + "ms]"@
}

/// The summary line of a generation.
pub fn generation_footer_text(out: &GenerationOutput) -> (r: String)
    ensures
        r@ == generation_footer(*out),
{
    let mut r = String::from_str("[Prompt: ");
    push_decimal(&mut r, out.prompt_tokens as u64);
    r.append(" tokens | Completion: ");
    push_decimal(&mut r, out.completion_tokens as u64);
    r.append(" tokens | Completed in ");
    push_decimal(&mut r, out.duration_ms);
    r.append("ms]");
    r
}

/// The description of one daemon: its metadata, its interfaces, then each
/// interface description under a heading after a blank line.
pub open spec fn info_text(
    name: Seq<char>,
    info: ServiceInfo,
    descriptions: Seq<(String, String)>,
) -> Seq<Seq<char>> {
    seq![
        "=== Daemon: "@ + name + " ==="@,
        "Product:    "@ + info.product@,
        "Vendor:     "@ + info.vendor@,
        "Version:    "@ + info.version@,
        "URL:        "@ + info.url@,
        ""@,
        "Interfaces:"@,
    ] + prefixed("  - "@, texts(info.interfaces@)) + described(descriptions)
}

/// For each described interface, a blank line, its heading and its
/// description.
pub open spec fn described(descriptions: Seq<(String, String)>) -> Seq<Seq<char>>
    decreases descriptions.len(),
{
    if descriptions.len() == 0 {
        Seq::empty()
    } else {
        let d = descriptions.last();
        described(descriptions.drop_last()) + seq![
            ""@,
            "--- Interface: "@ + d.0@ + " ---"@,
            d.1@,
        ]
    }
}

/// The lines describing daemon `name`, given its metadata and the
/// descriptions of its interfaces.
pub fn info_lines(name: &str, info: &ServiceInfo, descriptions: &Vec<(String, String)>) -> (r: Vec<String>)
    ensures
        texts(r@) == info_text(name@, *info, descriptions@),
{
    let mut lines: Vec<String> = Vec::new();
    let mut title = joined("=== Daemon: ", name);
    title.append(" ===");
    lines.push(title);
    lines.push(joined("Product:    ", info.product.as_str()));
    lines.push(joined("Vendor:     ", info.vendor.as_str()));
    lines.push(joined("Version:    ", info.version.as_str()));
    lines.push(joined("URL:        ", info.url.as_str()));
    lines.push(String::from_str(""));
    lines.push(String::from_str("Interfaces:"));
    push_prefixed(&mut lines, "  - ", &info.interfaces);
    let ghost head = texts(lines@);
    let mut i: usize = 0;
    assert(described(descriptions@.subrange(0, 0)) =~= Seq::<Seq<char>>::empty());
    assert(head + Seq::<Seq<char>>::empty() =~= head);
    while i < descriptions.len()
        invariant
            i <= descriptions.len(),
            texts(lines@) == head + described(descriptions@.subrange(0, i as int)),
        decreases descriptions.len() - i,
    {
        let ghost before = texts(lines@);
        lines.push(String::from_str(""));
        let mut heading = joined("--- Interface: ", descriptions[i].0.as_str());
        heading.append(" ---");
        lines.push(heading);
        lines.push(descriptions[i].1.clone());
        assert(descriptions@.subrange(0, i + 1).drop_last() =~= descriptions@.subrange(0, i as int));
        assert(texts(lines@) =~= before + seq![
            ""@,
            "--- Interface: "@ + descriptions@[i as int].0@ + " ---"@,
            descriptions@[i as int].1@,
        ]);
        i = i + 1;
    }
    assert(descriptions@.subrange(0, descriptions.len() as int) == descriptions@);
    lines
}

/// The line of one daemon in the fleet overview: name and product
/// left-aligned in widths 12 and 16, then the version.
pub open spec fn fleet_info_line(name: Seq<char>, info: ServiceInfo) -> Seq<char> {
    "Daemon: "@ + pad_right(name, 12) + " | Product: "@ + pad_right(info.product@, 16)
        + " | Version: "@ + info.version@
}

/// The fleet overview of one daemon: its line, then its interfaces.
pub open spec fn fleet_info_text(name: Seq<char>, info: ServiceInfo) -> Seq<Seq<char>> {
    seq![fleet_info_line(name, info)] + prefixed("    * "@, texts(info.interfaces@))
}

/// The fleet overview lines of daemon `name`.
pub fn fleet_info_lines(name: &str, info: &ServiceInfo) -> (r: Vec<String>)
    ensures
        texts(r@) == fleet_info_text(name@, *info),
{
    let mut line = String::from_str("Daemon: ");
    push_padded(&mut line, name, 12);
    line.append(" | Product: ");
    push_padded(&mut line, info.product.as_str(), 16);
    line.append(" | Version: ");
    line.append(info.version.as_str());
    let mut lines: Vec<String> = Vec::new();
    lines.push(line);
    push_prefixed(&mut lines, "    * ", &info.interfaces);
    lines
}

// ---------------------------------------------------------------------------
// Byte sizes
// ---------------------------------------------------------------------------

/// The unit a byte count is shown in.
#[derive(Debug, Clone, Copy, PartialEq, Eq, Structural)]
pub enum ByteScale {
    Bytes,
    KiB,
    MiB,
    GiB,
}

/// The unit for `bytes`: the largest of GiB, MiB and KiB that the count
/// reaches, else plain bytes.
pub open spec fn scale_of(bytes: u64) -> ByteScale {
    if bytes >= 1024 * 1024 * 1024 {
        ByteScale::GiB
    } else if bytes >= 1024 * 1024 {
        ByteScale::MiB
    } else if bytes >= 1024 {
        ByteScale::KiB
    } else {
        ByteScale::Bytes
    }
}

/// The unit a byte count is shown in.
pub fn byte_scale(bytes: u64) -> (r: ByteScale)
    ensures
        r == scale_of(bytes),
{
    if bytes >= 1024 * 1024 * 1024 {
        ByteScale::GiB
    } else if bytes >= 1024 * 1024 {
        ByteScale::MiB
    } else if bytes >= 1024 {
        ByteScale::KiB
    } else {
        ByteScale::Bytes
    }
}

/// A byte count written as a whole number of bytes (how counts below one
/// KiB are shown).
pub fn plain_byte_count(bytes: u64) -> (r: String)
    ensures
        r@ == decimal(bytes as nat) + " B"@,
{
    let mut r = String::new();
    push_decimal(&mut r, bytes);
    r.append(" B");
    assert(Seq::<char>::empty() + decimal(bytes as nat) =~= decimal(bytes as nat));
    r
}
} // verus!
