use std::collections::HashSet;
use std::time::Duration;

use adesk::a11y_error::A11yError;
use adesk::find::{collect_matches, NodeMatch, NodeQuery};
use adesk::fixture::{node, FixtureSource};
use adesk::model::{
    AccessibleId, AccessibleNode, AccessibleState, AccessibleTree, AppId, ErrorCode, Rect, WindowId,
};
use adesk::outline::{escape, render_text, TextOptions};
use adesk::registry::{Registry, MAX_TRACKED_ELEMENTS};
use adesk::service::{
    check_find_query, find_from_snapshot, invocation_answer, resolve_invocation, tree_from_snapshot,
    FindQuery, TreeOptions, FIND_MAX_DEPTH, FIND_MAX_NODES, SNAPSHOT_TIMEOUT_MS,
};
use adesk::source::{ElementHandle, InvokeOutcome, SourceNode, SourceOptions, SourceSnapshot, WindowTarget};

// ---- source ---------------------------------------------------------------

#[test]
fn window_target_new_leaves_the_correlation_keys_empty() {
    let target = WindowTarget::new(WindowId(3));
    assert_eq!(target.window_id, WindowId(3));
    assert_eq!(target.title, None);
    assert_eq!(target.app_id, None);
    assert_eq!(target.pid, None);
}

#[test]
fn handles_compare_by_their_string() {
    assert_eq!(ElementHandle::from("a/b"), ElementHandle("a/b".into()));
    assert_eq!(ElementHandle::from("a/b").as_str(), "a/b");
    assert_ne!(ElementHandle("a".into()), ElementHandle("b".into()));

    let mut set = HashSet::new();
    set.insert(ElementHandle("a".into()));
    set.insert(ElementHandle("a".into()));
    assert_eq!(set.len(), 1);
}

fn label(name: &str) -> SourceNode {
    SourceNode {
        role: "label".into(),
        name: name.into(),
        description: None,
        value: None,
        states: Vec::new(),
        bounds: None,
        actions: Vec::new(),
        handle: ElementHandle("label".into()),
        children: Vec::new(),
    }
}

#[test]
fn plain_data_types_derive_the_expected_traits() {
    let opts = SourceOptions::new(1, 2);
    let copied = opts;
    assert_eq!(copied, opts);
    assert_eq!(format!("{opts:?}"), "SourceOptions { max_depth: 1, max_nodes: 2 }");

    let snapshot = SourceSnapshot { app_name: None, root: label("Ready"), truncated: true };
    assert_eq!(snapshot.root, label("Ready"));
    assert!(snapshot.truncated);
}

// ---- text -----------------------------------------------------------------

fn anode(id: u64, role: &str, name: &str) -> AccessibleNode {
    AccessibleNode {
        id: AccessibleId(id),
        role: role.into(),
        name: name.into(),
        description: None,
        value: None,
        states: Vec::new(),
        bounds: None,
        actions: Vec::new(),
        children: Vec::new(),
    }
}

fn rect(x: i32, y: i32, w: u32, h: u32) -> Option<Rect> {
    Some(Rect { x, y, w, h })
}

fn text_sample() -> AccessibleTree {
    let mut text = anode(3, "text", "File name:");
    text.bounds = rect(0, 0, 80, 24);

    let mut entry = anode(4, "entry", "");
    entry.value = Some("report.txt".into());
    entry.states = vec![AccessibleState::Focused];
    entry.actions = vec!["set_value".into()];
    entry.bounds = rect(88, 0, 400, 24);

    let mut open = anode(5, "push_button", "Open");
    open.actions = vec!["click".into()];

    let mut cancel = anode(6, "push_button", "Cancel");
    cancel.states = vec![AccessibleState::Enabled, AccessibleState::Sensitive];

    let mut dialog = anode(2, "dialog", "Open File");
    dialog.bounds = rect(10, 10, 620, 460);
    dialog.children = vec![text, entry, open, cancel];

    let mut root = anode(1, "frame", "Open File");
    root.bounds = rect(0, 0, 640, 480);
    root.children = vec![dialog];

    AccessibleTree {
        window_id: WindowId(17),
        app_id: Some(AppId("org.gnome.TextEditor".into())),
        app_name: Some("Text Editor".into()),
        root,
        node_count: 6,
        truncated: false,
    }
}

#[test]
fn golden_outline() {
    assert_eq!(
        render_text(&text_sample(), TextOptions::default()),
        [r#"frame "Open File" bounds=0,0,640,480 id=1"#, "\n", r#"  dialog "Open File" bounds=10,10,620,460 id=2"#, "\n", r#"    text "File name:" bounds=0,0,80,24 id=3"#, "\n", r#"    entry "" value="report.txt" states=[focused] actions=[set_value] bounds=88,0,400,24 id=4"#, "\n", r#"    push_button "Open" actions=[click] id=5"#, "\n", r#"    push_button "Cancel" states=[enabled,sensitive] id=6"#].concat()
    );
}

#[test]
fn the_root_is_at_depth_zero_and_lines_have_no_trailing_newline() {
    let text = render_text(&text_sample(), TextOptions::default());
    assert!(text.starts_with("frame "));
    assert!(!text.ends_with('\n'));
    assert_eq!(text.lines().count(), 6);
}

#[test]
fn a_bare_node_renders_role_name_and_id_only() {
    let mut tree = text_sample();
    tree.root = anode(9, "label", "");
    assert_eq!(render_text(&tree, TextOptions::default()), r#"label "" id=9"#);
}

#[test]
fn an_empty_string_value_is_rendered_while_an_absent_one_is_not() {
    let mut tree = text_sample();

    let mut empty = anode(9, "label", "Ready");
    empty.value = Some(String::new());
    tree.root = empty;
    assert_eq!(render_text(&tree, TextOptions::default()), r#"label "Ready" value="" id=9"#);

    let absent = anode(9, "label", "Ready");
    assert_eq!(absent.value, None);
    tree.root = absent;
    assert_eq!(render_text(&tree, TextOptions::default()), r#"label "Ready" id=9"#);
}

#[test]
fn indent_is_configurable_and_zero_removes_it() {
    let tree = text_sample();

    let wide = TextOptions { indent: 4, ..TextOptions::default() };
    let text = render_text(&tree, wide);
    assert!(text.lines().nth(1).unwrap().starts_with("    dialog "));
    assert!(text.lines().nth(2).unwrap().starts_with("        text "));

    let flat = TextOptions { indent: 0, ..TextOptions::default() };
    let text = render_text(&tree, flat);
    assert!(text.lines().nth(2).unwrap().starts_with(r#"text "File name:""#));
}

#[test]
fn include_ids_projects_the_id_out() {
    let opts = TextOptions { include_ids: false, ..TextOptions::default() };
    let text = render_text(&text_sample(), opts);
    assert!(!text.contains(" id="));
    assert!(text.starts_with(r#"frame "Open File" bounds=0,0,640,480"#));
}

#[test]
fn include_bounds_projects_the_bounds_out() {
    let text = render_text(&text_sample(), TextOptions { include_bounds: false, ..TextOptions::default() });
    assert!(!text.contains(" bounds="));
    assert!(text.lines().next().unwrap().ends_with(" id=1"));
}

#[test]
fn include_states_projects_the_states_out() {
    let text = render_text(&text_sample(), TextOptions { include_states: false, ..TextOptions::default() });
    assert!(!text.contains(" states="));
    assert!(text.contains(r#"actions=[set_value]"#));
}

#[test]
fn include_actions_projects_the_actions_out() {
    let text = render_text(&text_sample(), TextOptions { include_actions: false, ..TextOptions::default() });
    assert!(!text.contains(" actions="));
    assert!(text.contains("states=[focused]"));
}

#[test]
fn every_projection_off_leaves_role_name_value_and_children() {
    let text = render_text(
        &text_sample(),
        TextOptions {
            indent: 1,
            include_ids: false,
            include_bounds: false,
            include_states: false,
            include_actions: false,
        },
    );
    assert_eq!(
        text,
        [r#"frame "Open File""#, "\n", r#" dialog "Open File""#, "\n", r#"  text "File name:""#, "\n", r#"  entry "" value="report.txt""#, "\n", r#"  push_button "Open""#, "\n", r#"  push_button "Cancel""#].concat()
    );
}

#[test]
fn names_and_values_are_escaped() {
    let mut tree = text_sample();
    let mut root = anode(1, "label", "a\"b\\c\nd\te");
    root.value = Some("v\"w\\x\ny\tz".into());
    tree.root = root;

    assert_eq!(
        render_text(&tree, TextOptions::default()),
        r#"label "a\"b\\c\nd\te" value="v\"w\\x\ny\tz" id=1"#
    );
}

#[test]
fn escaping_keeps_one_line_per_node() {
    let mut tree = text_sample();
    tree.root = anode(1, "label", "two\nlines");
    let text = render_text(&tree, TextOptions::default());
    assert_eq!(text.lines().count(), 1);
    assert_eq!(text, r#"label "two\nlines" id=1"#);
}

#[test]
fn options_default_to_two_spaces_and_every_section_on() {
    let opts = TextOptions::default();
    assert_eq!(
        opts,
        TextOptions {
            indent: 2,
            include_ids: true,
            include_bounds: true,
            include_states: true,
            include_actions: true,
        }
    );
}

#[test]
fn states_render_in_their_reported_order() {
    let mut tree = text_sample();
    tree.root = anode(1, "check_box", "Wrap");
    tree.root.states =
        vec![AccessibleState::Enabled, AccessibleState::ReadOnly, AccessibleState::Checked];
    assert_eq!(
        render_text(&tree, TextOptions::default()),
        r#"check_box "Wrap" states=[enabled,read_only,checked] id=1"#
    );
}

// ---- find -----------------------------------------------------------------

fn snode(role: &str, name: &str, children: Vec<SourceNode>) -> SourceNode {
    SourceNode {
        role: role.into(),
        name: name.into(),
        description: None,
        value: None,
        states: Vec::new(),
        bounds: None,
        actions: Vec::new(),
        handle: ElementHandle(format!("{role}/{name}")),
        children,
    }
}

fn valued(mut node: SourceNode, value: &str) -> SourceNode {
    node.value = Some(value.into());
    node
}

fn find_sample() -> SourceNode {
    snode(
        "frame",
        "Main",
        vec![
            snode(
                "panel",
                "Toolbar",
                vec![snode("push_button", "Open", Vec::new()), snode("push_button", "Save As", Vec::new())],
            ),
            valued(snode("entry", "", Vec::new()), "hello world"),
            snode("label", "Ready", Vec::new()),
        ],
    )
}

fn query(max_results: u32) -> NodeQuery {
    NodeQuery { max_results, ..NodeQuery::default() }
}

fn collect<'a>(root: &'a SourceNode, query: &NodeQuery) -> (Vec<NodeMatch<'a>>, bool) {
    collect_matches(root, query, query.max_results)
}

fn names(matches: &[NodeMatch<'_>]) -> Vec<String> {
    matches.iter().map(|m| m.node.name.clone()).collect()
}

#[test]
fn an_omitted_filter_matches_everything_in_pre_order() {
    let tree = find_sample();
    let (matches, truncated) = collect(&tree, &query(50));

    assert!(!truncated);
    assert_eq!(names(&matches), ["Main", "Toolbar", "Open", "Save As", "", "Ready"]);
    assert_eq!(matches[0].node.role, "frame");
    assert_eq!(matches[4].node.role, "entry");
}

#[test]
fn role_is_an_exact_lowercase_match() {
    let tree = find_sample();

    let (matches, truncated) =
        collect(&tree, &NodeQuery { role: Some("push_button".into()), ..query(50) });
    assert!(!truncated);
    assert_eq!(names(&matches), ["Open", "Save As"]);

    for role in ["push", "PUSH_BUTTON", "push button", "button_"] {
        let (matches, truncated) = collect(&tree, &NodeQuery { role: Some(role.into()), ..query(50) });
        assert!(matches.is_empty(), "{role} must not match");
        assert!(!truncated);
    }
}

#[test]
fn name_is_an_exact_match() {
    let tree = find_sample();

    let (matches, _) = collect(&tree, &NodeQuery { name: Some("Open".into()), ..query(50) });
    assert_eq!(names(&matches), ["Open"]);

    for name in ["Ope", "open", "Open "] {
        let (matches, _) = collect(&tree, &NodeQuery { name: Some(name.into()), ..query(50) });
        assert!(matches.is_empty(), "{name} must not match");
    }
}

#[test]
fn name_contains_is_a_case_insensitive_substring() {
    let tree = find_sample();

    let (matches, _) = collect(&tree, &NodeQuery { name_contains: Some("open".into()), ..query(50) });
    assert_eq!(names(&matches), ["Open"]);

    let (matches, _) = collect(&tree, &NodeQuery { name_contains: Some("sAVe".into()), ..query(50) });
    assert_eq!(names(&matches), ["Save As"]);

    let (matches, _) = collect(&tree, &NodeQuery { name_contains: Some(String::new()), ..query(50) });
    assert_eq!(matches.len(), 6);
}

#[test]
fn value_contains_matches_only_nodes_that_have_a_value() {
    let tree = find_sample();

    let (matches, _) = collect(&tree, &NodeQuery { value_contains: Some("WORLD".into()), ..query(50) });
    assert_eq!(names(&matches), [""]);
    assert_eq!(matches[0].node.value.as_deref(), Some("hello world"));

    let (matches, _) = collect(&tree, &NodeQuery { value_contains: Some("open".into()), ..query(50) });
    assert!(matches.is_empty());
}

#[test]
fn filters_are_anded() {
    let tree = find_sample();

    let (matches, _) = collect(
        &tree,
        &NodeQuery { role: Some("push_button".into()), name_contains: Some("save".into()), ..query(50) },
    );
    assert_eq!(names(&matches), ["Save As"]);

    let (matches, _) = collect(
        &tree,
        &NodeQuery { role: Some("push_button".into()), name: Some("Ready".into()), ..query(50) },
    );
    assert!(matches.is_empty());
}

#[test]
fn path_is_the_ancestor_names_excluding_the_match() {
    let tree = find_sample();

    let (matches, _) = collect(&tree, &NodeQuery { name_contains: Some("As".into()), ..query(50) });
    assert_eq!(names(&matches), ["Save As"]);
    assert_eq!(matches[0].path, ["Main", "Toolbar"]);

    let (matches, _) = collect(&tree, &NodeQuery { role: Some("frame".into()), ..query(50) });
    assert!(matches[0].path.is_empty());

    let (matches, _) = collect(&tree, &NodeQuery { role: Some("label".into()), ..query(50) });
    assert_eq!(matches[0].path, ["Main"]);
}

#[test]
fn max_results_bounds_the_matches_and_reports_truncation() {
    let tree = find_sample();

    let (matches, truncated) = collect(&tree, &query(3));
    assert_eq!(names(&matches), ["Main", "Toolbar", "Open"]);
    assert!(truncated, "three of six matches must report truncation");

    let (matches, truncated) = collect(&tree, &query(6));
    assert_eq!(matches.len(), 6);
    assert!(!truncated);

    let (matches, truncated) = collect(&tree, &query(7));
    assert_eq!(matches.len(), 6);
    assert!(!truncated);

    let (matches, truncated) = collect(&tree, &query(1));
    assert_eq!(names(&matches), ["Main"]);
    assert!(truncated);
}

#[test]
fn max_results_of_zero_yields_no_matches_and_reports_truncation() {
    let tree = find_sample();
    let (matches, truncated) = collect(&tree, &query(0));
    assert!(matches.is_empty());
    assert!(truncated);
}

#[test]
fn no_match_reports_no_truncation() {
    let tree = find_sample();
    let (matches, truncated) = collect(&tree, &NodeQuery { role: Some("menu".into()), ..query(2) });
    assert!(matches.is_empty());
    assert!(!truncated);
}

#[test]
fn a_single_node_tree_is_matched_at_the_root() {
    let tree = snode("frame", "Only", Vec::new());
    let (matches, truncated) = collect(&tree, &query(50));
    assert_eq!(names(&matches), ["Only"]);
    assert!(matches[0].path.is_empty());
    assert!(!truncated);
}

#[test]
fn the_default_query_has_no_filters() {
    let query = NodeQuery::default();
    assert_eq!(query.role, None);
    assert_eq!(query.name, None);
    assert_eq!(query.name_contains, None);
    assert_eq!(query.value_contains, None);
    assert_eq!(query.max_results, 0);
}

// ---- service --------------------------------------------------------------

#[test]
fn documented_defaults_and_bounds() {
    assert_eq!(
        TreeOptions::default(),
        TreeOptions {
            max_depth: 12,
            max_nodes: 2000,
            include_states: true,
            include_bounds: true,
            include_actions: true,
        }
    );
    assert_eq!(
        FindQuery::default(),
        FindQuery { role: None, name: None, name_contains: None, value_contains: None, max_results: 50 }
    );
    assert_eq!(Duration::from_millis(SNAPSHOT_TIMEOUT_MS), Duration::from_secs(5));
    assert_eq!(FIND_MAX_DEPTH, 16);
    assert_eq!(FIND_MAX_NODES, 5000);
    assert_eq!(MAX_TRACKED_ELEMENTS, 65_536);
}

fn fixture_sample() -> SourceNode {
    node("frame", "Main")
        .child(
            node("panel", "Toolbar")
                .child(node("push_button", "Open").action("click").build())
                .child(node("Push Button", "Save As").action("click").build())
                .build(),
        )
        .child(node("entry", "").value("hello world").action("set_value").build())
        .child(node("label", "Ready").build())
        .build()
}

fn handles(node: &SourceNode) -> Vec<String> {
    let mut out = vec![node.handle.as_str().to_owned()];
    for child in &node.children {
        out.extend(handles(child));
    }
    out
}

fn ids(node: &AccessibleNode) -> Vec<u64> {
    let mut out = vec![node.id.0];
    for child in &node.children {
        out.extend(ids(child));
    }
    out
}

fn roles(node: &AccessibleNode) -> Vec<String> {
    let mut out = vec![node.role.clone()];
    for child in &node.children {
        out.extend(roles(child));
    }
    out
}

fn target() -> WindowTarget {
    WindowTarget {
        title: Some("Main".into()),
        app_id: Some(AppId("org.example.App".into())),
        pid: Some(7),
        ..WindowTarget::new(WindowId(17))
    }
}

#[test]
fn the_tree_assigns_ids_in_pre_order_and_keeps_them_across_snapshots() {
    let mut source = FixtureSource::new(fixture_sample()).with_app_name("Fixture App");
    let mut registry = Registry::new(MAX_TRACKED_ELEMENTS);
    let snapshot = source.snapshot(&target(), SourceOptions::new(12, 2000)).unwrap();
    let tree = tree_from_snapshot(&target(), TreeOptions::default(), snapshot, &mut registry);
    assert_eq!(tree.window_id, WindowId(17));
    assert_eq!(tree.app_id, Some(AppId("org.example.App".into())));
    assert_eq!(tree.app_name.as_deref(), Some("Fixture App"));
    assert_eq!(tree.node_count, 6);
    assert!(!tree.truncated);
    assert_eq!(ids(&tree.root), [0, 1, 2, 3, 4, 5]);
    assert_eq!(roles(&tree.root), ["frame", "panel", "push_button", "push_button", "entry", "label"]);
    assert_eq!(registry.len(), 6);

    let again = source.snapshot(&target(), SourceOptions::new(12, 2000)).unwrap();
    let tree = tree_from_snapshot(&target(), TreeOptions::default(), again, &mut registry);
    assert_eq!(ids(&tree.root), [0, 1, 2, 3, 4, 5]);
    assert_eq!(registry.len(), 6, "a second snapshot of the same elements tracks no more handles");
}

#[test]
fn the_projection_flags_blank_the_fields_they_turn_off() {
    let mut source = FixtureSource::new(
        node("frame", "Main")
            .state(AccessibleState::Active)
            .bounds(Rect { x: 0, y: 0, w: 200, h: 100 })
            .action("set_value")
            .build(),
    );
    let mut registry = Registry::new(16);
    let opts = TreeOptions { include_states: false, include_bounds: false, include_actions: false, ..TreeOptions::default() };
    let snapshot = source.snapshot(&target(), SourceOptions::new(12, 2000)).unwrap();
    let tree = tree_from_snapshot(&target(), opts, snapshot, &mut registry);
    assert!(tree.root.states.is_empty());
    assert_eq!(tree.root.bounds, None);
    assert!(tree.root.actions.is_empty());

    let snapshot = source.snapshot(&target(), SourceOptions::new(12, 2000)).unwrap();
    let tree = tree_from_snapshot(&target(), TreeOptions::default(), snapshot, &mut registry);
    assert_eq!(tree.root.states, [AccessibleState::Active]);
    assert_eq!(tree.root.bounds, Some(Rect { x: 0, y: 0, w: 200, h: 100 }));
    assert_eq!(tree.root.actions, ["set_value"]);
}

#[test]
fn find_returns_matches_in_pre_order_with_ids_and_paths() {
    let mut source = FixtureSource::new(fixture_sample());
    let mut registry = Registry::new(MAX_TRACKED_ELEMENTS);
    let query = FindQuery { role: Some("push_button".into()), ..FindQuery::default() };
    let snapshot = source.snapshot(&target(), SourceOptions::new(FIND_MAX_DEPTH, FIND_MAX_NODES)).unwrap();
    let found = find_from_snapshot(&query, snapshot, &mut registry);
    assert!(!found.truncated);
    let names: Vec<&str> = found.matches.iter().map(|m| m.name.as_str()).collect();
    assert_eq!(names, ["Open", "Save As"]);
    assert_eq!(found.matches[0].id, AccessibleId(0));
    assert_eq!(found.matches[1].id, AccessibleId(1));
    assert_eq!(found.matches[0].path, ["Main", "Toolbar"]);

    let query = FindQuery { max_results: 1, ..FindQuery::default() };
    let snapshot = source.snapshot(&target(), SourceOptions::new(FIND_MAX_DEPTH, FIND_MAX_NODES)).unwrap();
    let found = find_from_snapshot(&query, snapshot, &mut registry);
    assert!(found.truncated);
    assert_eq!(found.matches.len(), 1);
}

#[test]
fn a_zero_max_results_is_an_invalid_request() {
    let query = FindQuery { max_results: 0, ..FindQuery::default() };
    match check_find_query(&query) {
        Err(A11yError::InvalidRequest(m)) => assert_eq!(m, "max_results must be at least 1"),
        other => panic!("expected an invalid request, got {other:?}"),
    }
    assert!(check_find_query(&FindQuery::default()).is_ok());
}

#[test]
fn an_invocation_resolves_through_the_registry_after_availability() {
    let mut registry = Registry::new(16);
    let id = registry.assign(&ElementHandle::from("fixture/0/0"));
    assert_eq!(resolve_invocation(true, "fixture", &registry, id).unwrap(), ElementHandle::from("fixture/0/0"));
    match resolve_invocation(true, "fixture", &registry, AccessibleId(9999)) {
        Err(A11yError::UnknownNode(unknown)) => assert_eq!(unknown, AccessibleId(9999)),
        other => panic!("expected an unknown node, got {other:?}"),
    }
    match resolve_invocation(false, "fixture", &registry, id) {
        Err(A11yError::Unavailable(m)) => assert_eq!(m, "backend fixture is not available"),
        other => panic!("expected unavailable, got {other:?}"),
    }
}

#[test]
fn an_invocation_answer_names_the_action() {
    let id = AccessibleId(4);
    assert_eq!(invocation_answer(id, Some("click"), InvokeOutcome::Invoked("click".into())).unwrap(), "click");
    assert!(matches!(
        invocation_answer(id, Some("press"), InvokeOutcome::NoSuchAction),
        Err(A11yError::InvalidRequest(_))
    ));
    match invocation_answer(id, None, InvokeOutcome::Gone) {
        Err(e) => assert_eq!(e.to_core().code, ErrorCode::UnknownAccessible),
        Ok(name) => panic!("a gone element invoked {name}"),
    }
}

#[test]
fn the_registry_never_reuses_an_id() {
    let mut registry = Registry::new(2);
    let a = registry.assign(&ElementHandle::from("a"));
    let b = registry.assign(&ElementHandle::from("b"));
    assert_eq!(registry.assign(&ElementHandle::from("a")), a);
    let c = registry.assign(&ElementHandle::from("c"));
    assert!(a != b && b != c && a != c);
    assert!(c.0 > b.0);
    assert!(registry.len() <= 2);
    assert_eq!(registry.handle_of(c), Some(ElementHandle::from("c")));
}

// ---- fixture --------------------------------------------------------------

#[test]
fn every_field_the_builder_sets_reaches_the_node() {
    let built = node("push_button", "Open")
        .value("v")
        .description("an action")
        .state(AccessibleState::Enabled)
        .states(&[AccessibleState::Focusable, AccessibleState::Sensitive])
        .bounds(Rect { x: 1, y: 2, w: 30, h: 40 })
        .action("click")
        .actions(&["press", "activate"])
        .child(node("label", "inner").build())
        .children(vec![node("label", "second").build()])
        .build();

    assert_eq!(built.role, "push_button");
    assert_eq!(built.name, "Open");
    assert_eq!(built.value.as_deref(), Some("v"));
    assert_eq!(built.description.as_deref(), Some("an action"));
    assert_eq!(
        built.states,
        [AccessibleState::Enabled, AccessibleState::Focusable, AccessibleState::Sensitive]
    );
    assert_eq!(built.bounds, Some(Rect { x: 1, y: 2, w: 30, h: 40 }));
    assert_eq!(built.actions, ["click", "press", "activate"]);
    assert_eq!(built.children.len(), 2);
}

#[test]
fn default_handles_follow_the_tree_path() {
    assert_eq!(
        handles(&fixture_sample()),
        ["fixture", "fixture/0", "fixture/0/0", "fixture/0/1", "fixture/1", "fixture/2"]
    );
    let tree = node("frame", "Main").handle("window-1").child(node("label", "Ready").build()).build();
    assert_eq!(handles(&tree), ["window-1", "window-1/0"]);
}

#[test]
fn fixture_bounds_trim_the_tree_and_report_truncation() {
    let mut source = FixtureSource::new(fixture_sample());
    let root_only = source.snapshot(&target(), SourceOptions::new(0, 2000)).unwrap();
    assert_eq!(handles(&root_only.root), ["fixture"]);
    assert!(root_only.truncated);

    let three = source.snapshot(&target(), SourceOptions::new(12, 3)).unwrap();
    assert_eq!(handles(&three.root), ["fixture", "fixture/0", "fixture/0/0"]);
    assert!(three.truncated);

    let whole = source.snapshot(&target(), SourceOptions::new(12, 2000)).unwrap();
    assert_eq!(handles(&whole.root).len(), 6);
    assert!(!whole.truncated);

    let mut forced = FixtureSource::new(fixture_sample()).with_truncated(true);
    assert!(forced.snapshot(&target(), SourceOptions::new(12, 2000)).unwrap().truncated);
}

#[test]
fn fixture_invocations_are_recorded_and_distinguished() {
    let mut source = FixtureSource::new(fixture_sample());
    assert_eq!(
        source.invoke(&ElementHandle::from("fixture/0/0"), Some("click")).unwrap(),
        InvokeOutcome::Invoked("click".into())
    );
    assert_eq!(
        source.invoke(&ElementHandle::from("fixture/1"), None).unwrap(),
        InvokeOutcome::Invoked("set_value".into())
    );
    assert_eq!(source.invoke(&ElementHandle::from("fixture/2"), Some("click")).unwrap(), InvokeOutcome::NoSuchAction);
    assert_eq!(source.invoke(&ElementHandle::from("fixture/9"), None).unwrap(), InvokeOutcome::Gone);
    assert_eq!(source.invocations().len(), 4);
    assert!(source.has_invocation("fixture/0/0", Some("click")));
    assert!(source.has_invocation("fixture/1", None));
    assert!(!source.has_invocation("fixture/0/0", Some("press")));

    let mut off = FixtureSource::new(fixture_sample()).with_availability(false);
    assert!(!off.is_available());
    assert!(matches!(off.snapshot(&target(), SourceOptions::new(12, 2000)), Err(A11yError::Unavailable(_))));
    assert!(matches!(off.invoke(&ElementHandle::from("fixture"), None), Err(A11yError::Unavailable(_))));
    assert!(off.invocations().is_empty());
    assert_eq!(off.last_target(), None);
}

#[test]
fn the_four_reserved_characters_are_escaped_and_nothing_else() {
    assert_eq!(escape("plain text"), "plain text");
    assert_eq!(escape("a\"b\\c\nd\te"), r#"a\"b\\c\nd\te"#);
    assert_eq!(escape("\r"), "\r");
}
