use syntropctl::daemon::{DaemonEndpoint, DaemonKind};

#[test]
fn test_all_daemons_present() {
    let daemons = DaemonEndpoint::all();
    assert_eq!(daemons.len(), 7);
    let names: Vec<&str> = daemons.iter().map(|d| d.name).collect();
    assert!(names.contains(&"sentry"));
    assert!(names.contains(&"inferenced"));
    assert!(names.contains(&"modeld"));
    assert!(names.contains(&"contextd"));
    assert!(names.contains(&"toold"));
    assert!(names.contains(&"runtimed"));
    assert!(names.contains(&"routerd"));
}

#[test]
fn test_lookup_by_canonical_name() {
    let sentry = DaemonEndpoint::from_name("sentry").unwrap();
    assert_eq!(sentry.kind, DaemonKind::Sentry);
    assert_eq!(sentry.unit_name, "sentry.service");
    assert_eq!(sentry.interface, "io.syntrop.Sentry1");

    let toold = DaemonEndpoint::from_name("toold").unwrap();
    assert_eq!(toold.kind, DaemonKind::Toold);
    assert_eq!(toold.unit_name, "toold.service");
    assert_eq!(toold.interface, "io.syntrop.Tool1");

    let routerd = DaemonEndpoint::from_name("routerd").unwrap();
    assert_eq!(routerd.kind, DaemonKind::Routerd);
    assert_eq!(routerd.unit_name, "routerd.service");
    assert_eq!(routerd.interface, "io.syntrop.Router1");
}

#[test]
fn test_lookup_by_unit_name() {
    let runtimed = DaemonEndpoint::from_name("runtimed.service").unwrap();
    assert_eq!(runtimed.kind, DaemonKind::Runtimed);

    let routerd = DaemonEndpoint::from_name("routerd.service").unwrap();
    assert_eq!(routerd.kind, DaemonKind::Routerd);

    let unknown = DaemonEndpoint::from_name("nonexistent_daemon");
    assert!(unknown.is_none());
}

#[test]
fn test_environment_variable_socket_override() {
    let ep = DaemonEndpoint::from_name("runtimed").unwrap();
    assert_eq!(ep.socket_path(None), "/run/syntrop/io.syntrop.Runtime1");
    assert_eq!(ep.socket_path(Some("/tmp/custom_runtime.sock")), "/tmp/custom_runtime.sock");

    let ep_r = DaemonEndpoint::from_name("routerd").unwrap();
    assert_eq!(ep_r.env_var, "SYNTROP_ROUTER_SOCKET");
    assert_eq!(ep_r.socket_path(None), "/run/syntrop/io.syntrop.Router1");
    assert_eq!(ep_r.socket_path(Some("/tmp/custom_router.sock")), "/tmp/custom_router.sock");
}

#[test]
fn blank_socket_override_falls_back_to_default() {
    let ep = DaemonEndpoint::from_name("modeld").unwrap();
    assert_eq!(ep.socket_path(Some("   \t")), "/run/syntrop/io.syntrop.Model1");
    assert_eq!(ep.socket_path(Some("")), "/run/syntrop/io.syntrop.Model1");
    // The override is taken as given, surrounding blanks included.
    assert_eq!(ep.socket_path(Some(" /tmp/m.sock ")), " /tmp/m.sock ");
}

#[test]
fn lookup_trims_and_ignores_case() {
    let ep = DaemonEndpoint::from_name("  SENTRY\n").unwrap();
    assert_eq!(ep.kind, DaemonKind::Sentry);
    let ep = DaemonEndpoint::from_name("ConTextD.Service").unwrap();
    assert_eq!(ep.kind, DaemonKind::Contextd);
    // Non-ASCII letters are lower-cased too.
    let ep = DaemonEndpoint::from_name("TOOLDÄ").unwrap();
    assert_eq!(ep.kind, DaemonKind::Toold);
}

#[test]
fn lookup_by_text_holding_a_name() {
    // A key that holds a daemon's name designates it.
    let ep = DaemonEndpoint::from_name("my-toold-instance").unwrap();
    assert_eq!(ep.kind, DaemonKind::Toold);
    // The first daemon in registry order wins.
    let ep = DaemonEndpoint::from_name("runtimed+sentry").unwrap();
    assert_eq!(ep.kind, DaemonKind::Sentry);
    assert!(DaemonEndpoint::from_name("").is_none());
}

#[test]
fn every_daemon_is_found_by_its_names() {
    for d in DaemonEndpoint::all() {
        assert_eq!(DaemonEndpoint::from_name(d.name).unwrap().kind, d.kind);
        assert_eq!(DaemonEndpoint::from_name(d.unit_name).unwrap().kind, d.kind);
        assert_eq!(DaemonEndpoint::from_name(&d.name.to_uppercase()).unwrap().kind, d.kind);
        assert_eq!(DaemonEndpoint::from_name(&d.unit_name.to_uppercase()).unwrap().kind, d.kind);
        assert_eq!(d.unit_name, format!("{}.service", d.name));
        assert_eq!(d.default_socket, format!("/run/syntrop/{}", d.interface));
    }
}
