use lynx_element_bridge::devserver::{
    after_build, artifact_state, hex_lower, is_source_change, join_path, Arguments, Backend, BuildAction,
    BuildPlan, ModifyKind, WatchEventKind,
};

#[test]
fn yew_plan_only_serves_and_watches_yew() {
    let plan = BuildPlan::new("/repo", Backend::Yew);
    assert_eq!(plan.packages, ["yew-lynx-counter"]);
    assert_eq!(plan.artifacts[0].0, "/yew_lynx_counter.wasm");
    assert!(plan.watch_paths.contains(&String::from("/repo/examples/counter")));
    assert!(plan.watch_paths.contains(&String::from("/repo/runtimes/yew")));
    assert!(!plan.watch_paths.contains(&String::from("/repo/examples/dioxus-counter")));
}

#[test]
fn dioxus_plan_only_serves_and_watches_dioxus() {
    let plan = BuildPlan::new("/repo", Backend::Dioxus);
    assert_eq!(plan.packages, ["lynx-element-bridge-dioxus-counter"]);
    assert_eq!(plan.artifacts[0].0, "/lynx_element_bridge_dioxus_counter.wasm");
    assert!(plan.watch_paths.contains(&String::from("/repo/examples/dioxus-counter")));
    assert!(plan.watch_paths.contains(&String::from("/repo/runtimes/dioxus")));
    assert!(!plan.watch_paths.contains(&String::from("/repo/examples/counter")));
}

#[test]
fn watcher_ignores_reads_but_accepts_content_changes() {
    assert!(!is_source_change(WatchEventKind::Access));
    assert!(is_source_change(WatchEventKind::Modify(ModifyKind::Data)));
    assert!(!is_source_change(WatchEventKind::Modify(ModifyKind::Metadata)));
    assert!(is_source_change(WatchEventKind::Remove));
}

#[test]
fn all_plan_builds_both_guests() {
    let plan = BuildPlan::new("/repo/", Backend::All);
    assert_eq!(plan.packages, ["yew-lynx-counter", "lynx-element-bridge-dioxus-counter"]);
    assert_eq!(plan.artifacts.len(), 2);
    assert_eq!(plan.watch_paths.len(), 12);
    assert_eq!(plan.watch_paths[0], "/repo/Cargo.toml");
    assert_eq!(join_path("", "x"), "x");
}

#[test]
fn arguments_take_defaults_and_report_the_first_error() {
    let none: Vec<String> = Vec::new();
    let defaults = Arguments::parse(&none).unwrap().unwrap();
    assert_eq!(defaults.backend, Backend::All);
    assert_eq!(defaults.bind, "0.0.0.0");
    assert_eq!(defaults.port, 8000);
    let args = |v: &[&str]| v.iter().map(|s| s.to_string()).collect::<Vec<String>>();
    let parsed = Arguments::parse(&args(&["--backend", "yew", "--port", "9000", "--bind", "127.0.0.1"]))
        .unwrap()
        .unwrap();
    assert_eq!(parsed.backend, Backend::Yew);
    assert_eq!(parsed.port, 9000);
    assert_eq!(parsed.bind, "127.0.0.1");
    assert!(Arguments::parse(&args(&["--help"])).unwrap().is_none());
    assert_eq!(Arguments::parse(&args(&["--port", "0"])).unwrap_err(), "port must be between 1 and 65535");
    assert_eq!(Arguments::parse(&args(&["--backend", "vue"])).unwrap_err(), "unsupported backend: vue");
    assert_eq!(Arguments::parse(&args(&["--x"])).unwrap_err(), "unknown argument: --x");
    assert_eq!(Arguments::parse(&args(&["--port"])).unwrap_err(), "--port requires a value");
    assert!(Arguments::parse(&args(&["--port", "70000"])).unwrap_err().starts_with("invalid port: "));
    assert_eq!(Backend::parse("dioxus"), Ok(Backend::Dioxus));
}

#[test]
fn artifacts_are_described_by_their_sha256_and_size() {
    let state = artifact_state("/page.wasm", b"abc");
    assert_eq!(state.path, "/page.wasm");
    assert_eq!(state.sha256, "ba7816bf8f01cfea414140de5dae2223b00361a396177a9cb410ff61f20015ad");
    assert_eq!(state.size, 3);
    assert_eq!(hex_lower(&[0x00, 0x0f, 0xa0, 0xff]), "000fa0ff");
}

#[test]
fn builds_are_published_rebuilt_or_dropped() {
    assert_eq!(after_build(false, true, 4), (BuildAction::KeepPrevious, 4));
    assert_eq!(after_build(true, true, 4), (BuildAction::Rebuild, 4));
    assert_eq!(after_build(true, false, 4), (BuildAction::Publish(5), 5));
}

#[test]
fn port_text_is_an_optional_plus_and_decimal_digits() {
    let args = |v: &[&str]| v.iter().map(|s| s.to_string()).collect::<Vec<String>>();
    assert_eq!(Arguments::parse(&args(&["--port", "+8080"])).unwrap().unwrap().port, 8080);
    assert_eq!(Arguments::parse(&args(&["--port", "008080"])).unwrap().unwrap().port, 8080);
    assert_eq!(Arguments::parse(&args(&["--port", "65535"])).unwrap().unwrap().port, 65535);
    for bad in ["", "+", "-1", " 80", "80 ", "8_0", "0x50", "65536"] {
        assert!(Arguments::parse(&args(&["--port", bad])).unwrap_err().starts_with("invalid port: "), "{bad}");
    }
}
