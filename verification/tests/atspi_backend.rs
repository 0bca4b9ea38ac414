use adesk::a11y_error::A11yError;
use adesk::backend::{lazy_unavailable, UnavailableSource};
use adesk::correlate::{correlate, matches_app_id, matches_application, CandidateApp, Correlation};
use adesk::dbus::{
    absent_interface_error, backend_error, error_name, is_absent_interface, is_missing_element,
    is_missing_name, missing_element_error, BusFailure, DaemonFailure, ElementAddress,
};
use adesk::model::{AppId, WindowId};
use adesk::source::{ElementHandle, InvokeOutcome, SourceNode, SourceOptions, WindowTarget};
use adesk::fixture::trim;
use adesk::walk::{action_failure, choose_action, Walk};

#[test]
fn a_handle_round_trips_through_an_element_address() {
    let address = ElementAddress::parse(":1.42|/org/a11y/atspi/accessible/root")
        .expect("a well-formed handle parses");
    assert_eq!(address.name.as_str(), ":1.42");
    assert_eq!(address.path.as_str(), "/org/a11y/atspi/accessible/root");
    assert_eq!(address.handle(), ":1.42|/org/a11y/atspi/accessible/root");
}

#[test]
fn a_handle_that_is_not_one_of_ours_does_not_parse() {
    assert_eq!(ElementAddress::parse(""), None);
    assert_eq!(ElementAddress::parse(":1.42"), None, "no separator");
    assert_eq!(
        ElementAddress::parse(":1.42|not/a/path"),
        None,
        "an object path starts with a slash"
    );
    assert_eq!(ElementAddress::parse(":1.42|"), None, "an empty path");
    assert_eq!(ElementAddress::parse("not a bus name|/org/a11y/atspi/accessible/root"), None);
}

#[test]
fn well_known_names_and_the_root_path_parse() {
    let address = ElementAddress::parse("org.a11y.Bus|/").expect("a well-known name and /");
    assert_eq!(address.name, "org.a11y.Bus");
    assert_eq!(address.path, "/");
    assert_eq!(address.handle(), "org.a11y.Bus|/");
}

#[test]
fn malformed_names_and_paths_are_refused() {
    assert_eq!(ElementAddress::parse("1abc.def|/a"), None, "an element starts with a digit");
    assert_eq!(ElementAddress::parse(":1..42|/a"), None, "an empty element");
    assert_eq!(ElementAddress::parse(":nodots|/a"), None, "a unique name has two elements");
    assert_eq!(ElementAddress::parse(":1.42|/a//b"), None, "an empty path element");
    assert_eq!(ElementAddress::parse(":1.42|/a/"), None, "a trailing slash");
    assert_eq!(ElementAddress::parse(":1.42|/a-b"), None, "a dash in a path");
    assert_eq!(ElementAddress::parse(":1.42|/a|b"), None, "a second separator");
}

#[test]
fn an_absent_interface_is_not_a_real_failure() {
    assert!(absent_interface_error("org.freedesktop.DBus.Error.UnknownInterface"));
    assert!(absent_interface_error("org.freedesktop.DBus.Error.UnknownMethod"));
    assert!(absent_interface_error("org.freedesktop.DBus.Error.UnknownProperty"));

    assert!(!absent_interface_error("org.freedesktop.DBus.Error.AccessDenied"));
    assert!(!absent_interface_error("org.freedesktop.DBus.Error.NoReply"));
    assert!(!absent_interface_error("com.example.CustomError"));
}

#[test]
fn a_gone_element_is_recognized_by_its_error_name() {
    assert!(missing_element_error("org.freedesktop.DBus.Error.ServiceUnknown"));
    assert!(missing_element_error("org.freedesktop.DBus.Error.NameHasNoOwner"));
    assert!(missing_element_error("org.freedesktop.DBus.Error.UnknownObject"));

    assert!(!missing_element_error("org.freedesktop.DBus.Error.LimitsExceeded"));
    assert!(!missing_element_error("org.freedesktop.DBus.Error.UnknownMethod"));
}

#[test]
fn a_gone_bus_name_is_recognized_by_its_fdo_error() {
    assert!(is_missing_name(&DaemonFailure::ServiceUnknown("gone".into())));
    assert!(is_missing_name(&DaemonFailure::NameHasNoOwner("gone".into())));

    assert!(!is_missing_name(&DaemonFailure::Bus(BusFailure::InterfaceNotFound)));

    assert!(!is_missing_name(&DaemonFailure::AccessDenied("nope".into())));
    assert!(!is_missing_name(&DaemonFailure::LimitsExceeded("wedged".into())));
}

#[test]
fn failures_are_classified_by_their_error_name() {
    let unknown_method = BusFailure::MethodError("org.freedesktop.DBus.Error.UnknownMethod".into());
    let no_reply = BusFailure::MethodError("org.freedesktop.DBus.Error.NoReply".into());
    assert!(is_absent_interface(&BusFailure::InterfaceNotFound));
    assert!(is_absent_interface(&unknown_method));
    assert!(!is_absent_interface(&no_reply));
    assert!(!is_absent_interface(&BusFailure::Other));
    assert!(is_missing_element(&no_reply));
    assert!(!is_missing_element(&BusFailure::InterfaceNotFound));
    assert!(is_missing_name(&DaemonFailure::Bus(no_reply.clone())));
    assert_eq!(error_name(&no_reply), Some("org.freedesktop.DBus.Error.NoReply"));
    assert_eq!(error_name(&BusFailure::Other), None);
}

#[test]
fn a_backend_error_names_the_call_it_came_from() {
    let error = backend_error("reading an element's extents", "boom");
    assert!(matches!(
        &error,
        A11yError::Backend(message) if message == "reading an element's extents: boom"
    ));
}

fn calculator_target() -> WindowTarget {
    WindowTarget {
        title: Some("Calculator".into()),
        app_id: Some(AppId("org.gnome.Calculator".into())),
        ..WindowTarget::new(WindowId(4))
    }
}

#[test]
fn an_application_name_matches_its_desktop_file_id() {
    assert!(matches_app_id("org.gnome.Calculator", "org.gnome.Calculator"));
    assert!(matches_app_id("org.gnome.Calculator", "org.gnome.calculator"));
    assert!(matches_app_id("org.gnome.Calculator (Nightly)", "org.gnome.Calculator"));
    assert!(!matches_app_id("Files", "org.gnome.Calculator"));
}

#[test]
fn an_application_matches_on_its_id_or_on_the_window_title() {
    assert!(matches_application("org.gnome.Calculator", &calculator_target()));
    assert!(matches_application("Calculator — 12", &calculator_target()));
    assert!(!matches_application("Files", &calculator_target()));
}

#[test]
fn an_empty_title_never_matches_every_application() {
    let target = WindowTarget { title: Some(String::new()), app_id: None, ..WindowTarget::new(WindowId(4)) };
    assert!(!matches_application("Files", &target));
}

#[test]
fn a_target_without_any_key_correlates_with_nothing() {
    let target = WindowTarget::new(WindowId(4));
    assert!(!matches_application("Files", &target));
}

fn app(name: Option<&str>, pid: Option<i32>, frames: &[Option<&str>]) -> CandidateApp {
    CandidateApp {
        name: name.map(str::to_owned),
        pid,
        frames: frames.iter().map(|f| f.map(str::to_owned)).collect(),
    }
}

#[test]
fn the_pid_rung_wins_and_picks_the_frame_by_title() {
    let apps = vec![
        app(Some("Files"), Some(10), &[Some("Home")]),
        app(Some("org.gnome.Calculator"), Some(42), &[Some("Other"), Some("Calculator")]),
    ];
    let target = WindowTarget { pid: Some(42), ..calculator_target() };
    assert_eq!(correlate(&apps, &target).unwrap(), Correlation::Frame { app: 1, frame: 1 });

    // A known process whose frames carry no such title: its first frame.
    let target = WindowTarget { pid: Some(10), ..calculator_target() };
    assert_eq!(correlate(&apps, &target).unwrap(), Correlation::Frame { app: 0, frame: 0 });

    // A known process that publishes no frame: the application's own root.
    let apps = vec![app(Some("daemon"), Some(7), &[])];
    let target = WindowTarget { pid: Some(7), ..WindowTarget::new(WindowId(1)) };
    assert_eq!(correlate(&apps, &target).unwrap(), Correlation::ApplicationRoot { app: 0 });
}

#[test]
fn the_title_rung_finds_an_exactly_named_frame_anywhere() {
    let apps = vec![
        app(Some("Files"), None, &[Some("Home")]),
        app(None, None, &[None, Some("Calculator")]),
    ];
    let target = WindowTarget { pid: Some(99), ..calculator_target() };
    assert_eq!(correlate(&apps, &target).unwrap(), Correlation::Frame { app: 1, frame: 1 });
}

#[test]
fn the_identity_rung_takes_the_first_frame_of_a_matching_application() {
    let apps = vec![
        app(Some("org.gnome.Calculator"), None, &[]),
        app(Some("Calculator Pro"), None, &[Some("Main"), Some("Help")]),
    ];
    assert_eq!(
        correlate(&apps, &calculator_target()).unwrap(),
        Correlation::Frame { app: 1, frame: 0 }
    );
}

#[test]
fn nothing_matching_is_reported_and_never_guessed() {
    let apps = vec![app(Some("Files"), Some(3), &[Some("Home")])];
    match correlate(&apps, &calculator_target()) {
        Err(A11yError::NotCorrelated(id)) => assert_eq!(id, WindowId(4)),
        other => panic!("expected NotCorrelated, got {other:?}"),
    }
    assert!(correlate(&apps, &WindowTarget::new(WindowId(4))).is_err());
}

#[test]
fn the_off_backend_answers_with_its_reason() {
    let source = UnavailableSource::new("accessibility is disabled");
    assert_eq!(source.name(), "off");
    assert!(!source.is_available());
    match source.snapshot(&WindowTarget::new(WindowId(1)), SourceOptions::new(1, 1)) {
        Err(A11yError::Unavailable(reason)) => assert_eq!(reason, "accessibility is disabled"),
        other => panic!("expected Unavailable, got {other:?}"),
    }
    match source.invoke(&ElementHandle::from("x"), Some("click")) {
        Err(A11yError::Unavailable(reason)) => assert_eq!(reason, "accessibility is disabled"),
        other => panic!("expected Unavailable, got {other:?}"),
    }
}

#[test]
fn the_lazy_backend_names_itself_when_there_is_no_bus() {
    match lazy_unavailable() {
        A11yError::Unavailable(m) => assert_eq!(m, "the atspi backend has no accessibility bus"),
        other => panic!("expected Unavailable, got {other:?}"),
    }
}

fn leaf(name: &str) -> SourceNode {
    SourceNode {
        role: "label".into(),
        name: name.into(),
        description: None,
        value: None,
        states: Vec::new(),
        bounds: None,
        actions: Vec::new(),
        handle: ElementHandle(name.into()),
        children: Vec::new(),
    }
}

/// A toolkit tree: element `k` has the names and children listed at `k`.
fn drive(tree: &[(&str, Vec<usize>)], opts: SourceOptions) -> (SourceNode, bool, Vec<(usize, u32)>) {
    let mut walk = Walk::new(0, opts);
    let mut visited = Vec::new();
    while let Some((key, depth)) = walk.next_read() {
        visited.push((key, depth));
        let (name, children) = &tree[key];
        walk.on_read(leaf(name), children.clone());
    }
    let (root, truncated) = walk.finish().expect("the root was read");
    (root, truncated, visited)
}

fn names(node: &SourceNode, out: &mut Vec<String>) {
    out.push(node.name.clone());
    for child in &node.children {
        names(child, out);
    }
}

fn sample() -> Vec<(&'static str, Vec<usize>)> {
    vec![
        ("Main", vec![1, 4, 5]),
        ("Toolbar", vec![2, 3]),
        ("Open", vec![]),
        ("Save As", vec![]),
        ("Entry", vec![]),
        ("Ready", vec![]),
    ]
}

#[test]
fn the_walk_reads_in_pre_order_and_rebuilds_the_tree() {
    let (root, truncated, visited) = drive(&sample(), SourceOptions::new(12, 2000));
    assert!(!truncated);
    assert_eq!(visited, vec![(0, 0), (1, 1), (2, 2), (3, 2), (4, 1), (5, 1)]);
    let mut seen = Vec::new();
    names(&root, &mut seen);
    assert_eq!(seen, ["Main", "Toolbar", "Open", "Save As", "Entry", "Ready"]);
    assert_eq!(root.children.len(), 3);
    assert_eq!(root.children[0].children.len(), 2);
}

#[test]
fn the_depth_bound_keeps_the_element_and_drops_its_children() {
    let (root, truncated, visited) = drive(&sample(), SourceOptions::new(1, 2000));
    assert!(truncated);
    assert_eq!(visited, vec![(0, 0), (1, 1), (4, 1), (5, 1)]);
    assert_eq!(root.children.len(), 3);
    assert!(root.children[0].children.is_empty());
}

#[test]
fn the_node_budget_cuts_the_walk_and_folds_the_open_elements() {
    let (root, truncated, visited) = drive(&sample(), SourceOptions::new(12, 3));
    assert!(truncated);
    assert_eq!(visited.len(), 3);
    let mut seen = Vec::new();
    names(&root, &mut seen);
    assert_eq!(seen, ["Main", "Toolbar", "Open"]);

    // A zero budget still reads the root.
    let (root, truncated, visited) = drive(&sample(), SourceOptions::new(12, 0));
    assert!(truncated);
    assert_eq!(visited, vec![(0, 0)]);
    assert_eq!(root.name, "Main");
    assert!(root.children.is_empty());
}

fn whole(tree: &[(&str, Vec<usize>)], key: usize) -> SourceNode {
    let (name, children) = &tree[key];
    let mut node = leaf(name);
    for child in children {
        node.children.push(whole(tree, *child));
    }
    node
}

#[test]
fn the_walk_keeps_what_a_fixture_snapshot_keeps() {
    let tree = sample();
    let full = whole(&tree, 0);
    for max_depth in [0u32, 1, 2, 12] {
        for max_nodes in [0u32, 1, 2, 3, 4, 5, 6, 2000] {
            let opts = SourceOptions::new(max_depth, max_nodes);
            let (root, truncated, visited) = drive(&tree, opts);
            let (kept, cut) = trim(&full, opts);
            assert_eq!(root, kept, "depth {max_depth}, nodes {max_nodes}");
            assert_eq!(truncated, cut, "depth {max_depth}, nodes {max_nodes}");
            assert!(visited.len() <= 6);
        }
    }
}

#[test]
fn a_walk_that_read_nothing_has_no_root() {
    let walk = Walk::new(0, SourceOptions::new(1, 1));
    match walk.finish() {
        Err(A11yError::Backend(m)) => assert_eq!(m, "the accessibility walk produced no window root"),
        other => panic!("expected a backend error, got {other:?}"),
    }
}

#[test]
fn the_requested_action_is_found_by_name_and_the_default_is_the_first() {
    let actions = vec!["click".to_string(), "press".to_string(), "click".to_string()];
    assert_eq!(choose_action(&actions, Some("press")), Some(1));
    assert_eq!(choose_action(&actions, Some("click")), Some(0));
    assert_eq!(choose_action(&actions, None), Some(0));
    assert_eq!(choose_action(&actions, Some("activate")), None);
    assert_eq!(choose_action(&Vec::new(), None), None);
}

#[test]
fn a_failed_action_call_is_an_absence_a_gone_element_or_an_error() {
    assert!(matches!(
        action_failure(&BusFailure::InterfaceNotFound, "invoking an element action", "x"),
        Ok(InvokeOutcome::NoSuchAction)
    ));
    let gone = BusFailure::MethodError("org.freedesktop.DBus.Error.UnknownObject".into());
    assert!(matches!(action_failure(&gone, "invoking an element action", "x"), Ok(InvokeOutcome::Gone)));
    match action_failure(&BusFailure::Other, "invoking an element action", "timeout") {
        Err(A11yError::Backend(m)) => assert_eq!(m, "invoking an element action: timeout"),
        other => panic!("expected a backend error, got {other:?}"),
    }
}
