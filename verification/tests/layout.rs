use bridgescope::device::DeviceTarget;
use bridgescope::i18n::Language;
use bridgescope::layout::{
    attribute_rows, find_node, format_node_dump, node_label, node_matches, subtree_matches,
    LayoutCommand, LayoutEvent, LayoutNode, LayoutPanelState, LayoutSnapshot,
};

fn node(id: usize, class: &str, text: &str, resource_id: &str, children: Vec<LayoutNode>) -> LayoutNode {
    LayoutNode {
        id,
        class: class.to_owned(),
        resource_id: resource_id.to_owned(),
        text: text.to_owned(),
        content_description: String::new(),
        package: "com.example".to_owned(),
        bounds: [0, 0, 1080, -1],
        clickable: false,
        scrollable: false,
        enabled: true,
        selected: false,
        focused: false,
        children,
    }
}

fn tree() -> LayoutNode {
    node(
        0,
        "android.widget.FrameLayout",
        "",
        "",
        vec![
            node(1, "android.widget.TextView", "Hello", "com.example:id/title", vec![]),
            node(2, "android.widget.LinearLayout", "", "", vec![node(3, "android.widget.Button", "OK", "", vec![])]),
        ],
    )
}

#[test]
fn nodes_are_found_depth_first() {
    let root = tree();
    assert_eq!(root.count(), 4);
    assert_eq!(find_node(&root, 3).map(|n| n.class.as_str()), Some("android.widget.Button"));
    assert!(find_node(&root, 9).is_none());
}

#[test]
fn search_matches_fields_and_subtrees() {
    let root = tree();
    assert!(node_matches(&root.children[0], "title"));
    assert!(node_matches(&root.children[0], "hello"));
    assert!(!node_matches(&root.children[1], "ok"));
    assert!(subtree_matches(&root.children[1], "ok"));
    assert!(subtree_matches(&root, "button"));
    assert!(!subtree_matches(&root, "missing"));
}

#[test]
fn labels_and_dumps_read_like_the_tree() {
    let root = tree();
    assert_eq!(node_label(Language::English, &root.children[0]), "TextView · \"Hello\" · title");
    assert_eq!(node_label(Language::English, &root), "FrameLayout");
    let dump = format_node_dump(&root.children[1]);
    assert_eq!(
        dump,
        "android.widget.LinearLayout bounds=(0, 0, 1080, -1) text=\"\" id=\n  android.widget.Button bounds=(0, 0, 1080, -1) text=\"OK\" id=\n"
    );
    let rows = attribute_rows(Language::English, &root);
    assert_eq!(rows.len(), 12);
    assert_eq!(rows[5], ("attr_bounds", "(0, 0, 1080, -1)".to_owned()));
    assert_eq!(rows[6], ("attr_children", "2".to_owned()));
}

#[test]
fn captures_are_matched_by_request_and_reset_with_the_device() {
    let mut state = LayoutPanelState::default();
    state.reset_for(Some(DeviceTarget::new("s", 1)));
    let command = bridgescope::layout::auto_capture(&mut state, true, 0, 1);
    assert!(matches!(command, Some(LayoutCommand::CaptureLayout { request_id: 1, .. })));
    assert!(bridgescope::layout::auto_capture(&mut state, true, 1, 2).is_none());
    state.handle_event(LayoutEvent::LayoutCaptured {
        request_id: 7,
        snapshot: LayoutSnapshot { root: tree(), raw_xml: String::new() },
    });
    assert!(state.snapshot.is_none(), "another request");
    state.handle_event(LayoutEvent::LayoutCaptured {
        request_id: 1,
        snapshot: LayoutSnapshot { root: tree(), raw_xml: "<hierarchy/>".to_owned() },
    });
    assert!(state.snapshot.is_some());
    assert!(state.request.is_none());
    state.selected = Some(2);
    assert_eq!(state.selected_node().map(|n| n.id), Some(2));
    state.reset_for(None);
    assert!(state.snapshot.is_none());
    assert!(state.selected_node().is_none());
}
