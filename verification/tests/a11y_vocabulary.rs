use adesk::a11y_error::A11yError;
use adesk::atspi_map::{relative_bounds, role_name, states, text_value};
use adesk::model::{state_name, AccessibleId, AccessibleState, ErrorCode, Rect, WindowId};
use adesk::role::normalize_role;
use atspi::{State, StateSet};

fn state_set(list: &[State]) -> u64 {
    list.iter().copied().collect::<StateSet>().bits()
}

#[test]
fn documented_examples() {
    assert_eq!(normalize_role("push button"), "push_button");
    assert_eq!(normalize_role("  Read Only "), "read_only");
    assert_eq!(normalize_role("menu_item"), "menu_item");
    assert_eq!(normalize_role(""), "");
}

#[test]
fn case_is_folded() {
    assert_eq!(normalize_role("PUSH_BUTTON"), "push_button");
    assert_eq!(normalize_role("PageTabList"), "pagetablist");
    assert_eq!(normalize_role("Push Button"), "push_button");
}

#[test]
fn digits_are_kept() {
    assert_eq!(normalize_role("table cell 2"), "table_cell_2");
    assert_eq!(normalize_role("h1"), "h1");
    assert_eq!(normalize_role("1st item"), "1st_item");
}

#[test]
fn separator_runs_collapse_and_never_dangle() {
    assert_eq!(normalize_role("a---b"), "a_b");
    assert_eq!(normalize_role("__x__"), "x");
    assert_eq!(normalize_role("---a---b---"), "a_b");
    assert_eq!(normalize_role("a.b/c"), "a_b_c");
    assert_eq!(normalize_role("   "), "");
    assert_eq!(normalize_role("!!!"), "");
}

#[test]
fn non_ascii_characters_are_separators() {
    assert_eq!(normalize_role("café"), "caf");
    assert_eq!(normalize_role("naïve"), "na_ve");
    assert_eq!(normalize_role("日本語"), "");
}

#[test]
fn already_normalized_names_are_stable() {
    for role in ["push_button", "menu_item", "table_cell", "label"] {
        assert_eq!(normalize_role(role), role);
    }
}

#[test]
fn normalizing_twice_changes_nothing() {
    for raw in ["Push Button", "  a--b  ", "naïve", "table cell 2", "!!!"] {
        let once = normalize_role(raw);
        assert_eq!(normalize_role(&once), once);
    }
}

#[test]
fn the_mapping_covers_the_documented_subset_in_wire_name_order() {
    let raw = state_set(&[
        State::Visible,
        State::Enabled,
        State::Focusable,
        State::Focused,
        State::Sensitive,
        State::Showing,
        State::Checkable,
        State::Checked,
        State::Selected,
        State::Selectable,
        State::Expandable,
        State::Expanded,
        State::Collapsed,
        State::Editable,
        State::MultiLine,
        State::ReadOnly,
        State::Pressed,
        State::Active,
        State::Busy,
        State::Modal,
        State::Defunct,
        State::Invalid,
    ]);

    assert_eq!(
        states(raw),
        vec![
            AccessibleState::Active,
            AccessibleState::Busy,
            AccessibleState::Checkable,
            AccessibleState::Checked,
            AccessibleState::Collapsed,
            AccessibleState::Defunct,
            AccessibleState::Editable,
            AccessibleState::Enabled,
            AccessibleState::Expandable,
            AccessibleState::Expanded,
            AccessibleState::Focusable,
            AccessibleState::Focused,
            AccessibleState::Invalid,
            AccessibleState::Modal,
            AccessibleState::Multiline,
            AccessibleState::Pressed,
            AccessibleState::ReadOnly,
            AccessibleState::Selectable,
            AccessibleState::Selected,
            AccessibleState::Sensitive,
            AccessibleState::Showing,
            AccessibleState::Visible,
        ],
        "every documented flag must survive, sorted by its wire name"
    );
}

#[test]
fn flags_without_an_agp_counterpart_are_dropped() {
    let raw = state_set(&[
        State::Armed,
        State::HasTooltip,
        State::Horizontal,
        State::Iconified,
        State::Multiselectable,
        State::Opaque,
        State::Resizable,
        State::SingleLine,
        State::Stale,
        State::Transient,
        State::Vertical,
        State::ManagesDescendants,
        State::Indeterminate,
        State::Required,
        State::Truncated,
        State::Animated,
        State::InvalidEntry,
        State::SupportsAutocompletion,
        State::SelectableText,
        State::IsDefault,
        State::Visited,
        State::HasPopup,
    ]);

    assert!(states(raw).is_empty());
}

#[test]
fn the_mapped_flags_are_sorted_and_de_duplicated() {
    let raw = state_set(&[State::Visible, State::Visible, State::Enabled, State::Active]);
    let mapped = states(raw);

    assert_eq!(
        mapped,
        vec![AccessibleState::Active, AccessibleState::Enabled, AccessibleState::Visible]
    );

    let mut sorted = mapped.clone();
    sorted.sort_unstable_by_key(|state| state_name(*state));
    sorted.dedup();
    assert_eq!(mapped, sorted, "the output is already in normal form");
}

#[test]
fn an_empty_or_unknown_bitfield_maps_to_nothing() {
    assert!(states(StateSet::empty().bits()).is_empty());
    assert!(states(StateSet::from_bits(0).unwrap().bits()).is_empty());
}

#[test]
fn the_raw_bitfield_is_read_by_bit() {
    assert_eq!(
        states(StateSet::from_bits(1).unwrap().bits()),
        vec![AccessibleState::Invalid]
    );
}

#[test]
fn extents_are_made_relative_to_the_window_origin() {
    assert_eq!(
        relative_bounds((100, 200, 30, 40), (100, 200)),
        Some(Rect { x: 0, y: 0, w: 30, h: 40 })
    );
    assert_eq!(
        relative_bounds((140, 260, 30, 40), (100, 200)),
        Some(Rect { x: 40, y: 60, w: 30, h: 40 })
    );
}

#[test]
fn a_zero_origin_leaves_the_extents_alone() {
    assert_eq!(
        relative_bounds((12, 34, 5, 6), (0, 0)),
        Some(Rect { x: 12, y: 34, w: 5, h: 6 })
    );
}

#[test]
fn an_element_outside_the_window_keeps_its_negative_position() {
    assert_eq!(
        relative_bounds((80, 20, 10, 10), (100, 40)),
        Some(Rect { x: -20, y: -20, w: 10, h: 10 })
    );
}

#[test]
fn empty_or_degenerate_extents_have_no_bounds() {
    assert_eq!(relative_bounds((0, 0, 0, 0), (0, 0)), None);
    assert_eq!(relative_bounds((5, 5, 0, 10), (0, 0)), None);
    assert_eq!(relative_bounds((5, 5, 10, 0), (0, 0)), None);
    assert_eq!(relative_bounds((5, 5, -1, -1), (0, 0)), None);
    assert_eq!(relative_bounds((5, 5, -3, 40), (10, 10)), None);
}

#[test]
fn only_an_empty_field_is_none() {
    assert_eq!(text_value(""), None);
    assert_eq!(text_value("   "), None);
    assert_eq!(text_value("\n\t "), None);

    assert_eq!(text_value("Ready"), Some("Ready".to_owned()));
    assert_eq!(text_value("report.txt"), Some("report.txt".to_owned()));
    assert_eq!(
        text_value("  Ready  "),
        Some("  Ready  ".to_owned()),
        "a field with content is handed on verbatim"
    );
}

#[test]
fn roles_are_normalized_to_the_wire_vocabulary() {
    assert_eq!(role_name("push button"), "push_button");
    assert_eq!(role_name("Push Button"), "push_button");
    assert_eq!(role_name("  Read Only "), "read_only");
    assert_eq!(role_name(""), "");
}

#[test]
fn unavailable_maps_to_not_supported_and_keeps_the_detail() {
    let mapped = A11yError::Unavailable("no session bus".into()).to_core();
    assert_eq!(mapped.code, ErrorCode::NotSupported);
    assert!(mapped.message.contains("no session bus"));
}

#[test]
fn not_correlated_maps_to_not_supported_and_names_the_window() {
    let mapped = A11yError::NotCorrelated(WindowId(42)).to_core();
    assert_eq!(mapped.code, ErrorCode::NotSupported);
    assert!(mapped.message.contains("42"));
}

#[test]
fn unknown_node_maps_to_unknown_accessible() {
    let mapped = A11yError::UnknownNode(AccessibleId(7)).to_core();
    assert_eq!(mapped.code, ErrorCode::UnknownAccessible);
    assert_eq!(mapped.message, "unknown accessible 7");
}

#[test]
fn unknown_action_maps_to_invalid_request_and_names_both() {
    let mapped = A11yError::UnknownAction { id: AccessibleId(7), action: "press".into() }.to_core();
    assert_eq!(mapped.code, ErrorCode::InvalidRequest);
    assert!(mapped.message.contains('7'));
    assert!(mapped.message.contains("press"));
}

#[test]
fn invalid_request_maps_to_invalid_request() {
    let mapped = A11yError::InvalidRequest("max_results is zero".into()).to_core();
    assert_eq!(mapped.code, ErrorCode::InvalidRequest);
    assert_eq!(mapped.message, "max_results is zero");
}

#[test]
fn backend_maps_to_internal_and_keeps_the_detail() {
    let mapped = A11yError::Backend("walk timed out".into()).to_core();
    assert_eq!(mapped.code, ErrorCode::Internal);
    assert!(mapped.message.contains("walk timed out"));
}

#[test]
fn error_is_a_std_error_with_a_stable_display() {
    let err = A11yError::UnknownNode(AccessibleId(3));
    assert_eq!(err.message(), "unknown accessible node 3");
}

#[test]
fn every_error_variant_has_its_message() {
    assert_eq!(
        A11yError::Unavailable("x".into()).message(),
        "accessibility backend unavailable: x"
    );
    assert_eq!(
        A11yError::NotCorrelated(WindowId(5)).message(),
        "no accessible subtree correlates with window 5"
    );
    assert_eq!(
        A11yError::UnknownAction { id: AccessibleId(2), action: "press".into() }.message(),
        "accessible node 2 exposes no action press"
    );
    assert_eq!(
        A11yError::InvalidRequest("bad".into()).message(),
        "invalid accessibility request: bad"
    );
    assert_eq!(A11yError::Backend("boom".into()).message(), "accessibility backend error: boom");
}

#[test]
fn state_names_match_the_agp_wire_names() {
    let expected = [
        (AccessibleState::Enabled, "enabled"),
        (AccessibleState::Sensitive, "sensitive"),
        (AccessibleState::Showing, "showing"),
        (AccessibleState::Visible, "visible"),
        (AccessibleState::Focusable, "focusable"),
        (AccessibleState::Focused, "focused"),
        (AccessibleState::Checkable, "checkable"),
        (AccessibleState::Checked, "checked"),
        (AccessibleState::Selected, "selected"),
        (AccessibleState::Selectable, "selectable"),
        (AccessibleState::Expandable, "expandable"),
        (AccessibleState::Expanded, "expanded"),
        (AccessibleState::Collapsed, "collapsed"),
        (AccessibleState::Editable, "editable"),
        (AccessibleState::Multiline, "multiline"),
        (AccessibleState::ReadOnly, "read_only"),
        (AccessibleState::Pressed, "pressed"),
        (AccessibleState::Active, "active"),
        (AccessibleState::Busy, "busy"),
        (AccessibleState::Modal, "modal"),
        (AccessibleState::Defunct, "defunct"),
        (AccessibleState::Invalid, "invalid"),
    ];
    assert_eq!(expected.len(), 22);
    for (state, wire) in expected {
        assert_eq!(state_name(state), wire, "state_name must mirror the serde wire name");
    }
}
