use quickterm::config::Position;
use quickterm::error::QuicktermError;
use quickterm::ipc::{
    con_id_selector, con_mark_selector, find_marked, find_titled, find_workspace,
    find_workspace_name_for_node, focused_workspace, mark_command, mark_for_shell, mark_matches,
    move_back_command, pop_command, popup_placement, Rect, TreeNode, Workspace, MARK_QT_PATTERN,
};

fn node(id: i64, name: Option<&str>, ws: bool, marks: &[&str], children: Vec<TreeNode>) -> TreeNode {
    TreeNode {
        id,
        name: name.map(|s| s.to_string()),
        is_workspace: ws,
        marks: marks.iter().map(|s| s.to_string()).collect(),
        children,
    }
}

fn sample_tree() -> TreeNode {
    node(
        1,
        Some("root"),
        false,
        &[],
        vec![
            node(
                2,
                Some("1"),
                true,
                &[],
                vec![
                    node(4, Some("python - quickterm"), false, &["quickterm_python"], vec![]),
                    node(5, Some("editor"), false, &["other"], vec![]),
                ],
            ),
            node(
                3,
                Some("2"),
                true,
                &[],
                vec![node(6, Some("js - quickterm"), false, &["quickterm_js"], vec![])],
            ),
        ],
    )
}

#[test]
fn marks_are_prefixed() {
    assert_eq!(mark_for_shell("python"), "quickterm_python");
}

#[test]
fn every_shell_mark_matches_the_terminal_pattern() {
    for shell in ["python", "js", "", "a.*b"] {
        assert!(mark_matches(&mark_for_shell(shell), MARK_QT_PATTERN));
    }
    assert_ne!(mark_for_shell("js"), mark_for_shell("j"));
}

#[test]
fn mark_patterns_match_prefixes() {
    assert!(mark_matches("quickterm_python", MARK_QT_PATTERN));
    assert!(mark_matches("quickterm_", MARK_QT_PATTERN));
    assert!(!mark_matches("quickter", MARK_QT_PATTERN));
    assert!(!mark_matches("other_python", MARK_QT_PATTERN));
    assert!(mark_matches("quickterm_js", "quickterm_js"));
    assert!(!mark_matches("quickterm_js2", "quickterm_js"));
    assert!(mark_matches("anything", ".*"));
}

#[test]
fn marked_nodes_come_in_iteration_order() {
    let tree = sample_tree();
    // The iterator pops the last pushed child first.
    assert_eq!(find_marked(&tree, MARK_QT_PATTERN), vec![6, 4]);
    assert_eq!(find_marked(&tree, "quickterm_python"), vec![4]);
    assert_eq!(find_marked(&tree, "nothing"), Vec::<i64>::new());
    assert_eq!(find_titled(&tree, "editor"), vec![5]);
}

#[test]
fn workspace_of_a_node_is_found() {
    let tree = sample_tree();
    assert_eq!(find_workspace_name_for_node(&tree, 4, None).as_deref(), Some("1"));
    assert_eq!(find_workspace_name_for_node(&tree, 6, None).as_deref(), Some("2"));
    assert_eq!(find_workspace_name_for_node(&tree, 3, None).as_deref(), Some("2"));
    assert_eq!(find_workspace_name_for_node(&tree, 1, None), None);
    assert_eq!(find_workspace_name_for_node(&tree, 99, None), None);
}

#[test]
fn current_workspace_node_is_found_by_name() {
    let tree = sample_tree();
    let ws = find_workspace(&tree, "2").unwrap();
    assert_eq!(ws.id, 3);
    assert_eq!(find_marked(ws, MARK_QT_PATTERN), vec![6]);
    assert!(find_workspace(&tree, "editor").is_none());
}

#[test]
fn focused_workspace_is_the_first_focused() {
    let rect = Rect { x: 0, y: 0, width: 10, height: 10 };
    let list = vec![
        Workspace { name: "a".to_string(), focused: false, rect },
        Workspace { name: "b".to_string(), focused: true, rect: Rect { x: 1, ..rect } },
        Workspace { name: "c".to_string(), focused: true, rect },
    ];
    let info = focused_workspace(&list).unwrap();
    assert_eq!(info.name, "b");
    assert_eq!(info.rect.x, 1);
    match focused_workspace(&vec![]) {
        Err(QuicktermError::Ipc(m)) => assert_eq!(m, "no current workspace"),
        other => panic!("unexpected {:?}", other),
    }
}

#[test]
fn center_placement_centers_popup_rect() {
    let rect = Rect { x: 0, y: 0, width: 2000, height: 1000 };
    assert_eq!(popup_placement(rect, Position::Center, 880, 550), (560, 225));
    assert_eq!(popup_placement(rect, Position::Top, 2000, 250), (0, 0));
    assert_eq!(popup_placement(rect, Position::Bottom, 2000, 250), (0, 744));
    let odd = Rect { x: 10, y: 20, width: 100, height: 50 };
    assert_eq!(popup_placement(odd, Position::Center, 105, 60), (8, 15));
}

#[test]
fn commands_are_spelled_out() {
    assert_eq!(con_id_selector(42), "[con_id=42]");
    assert_eq!(con_id_selector(-7), "[con_id=-7]");
    assert_eq!(con_id_selector(i64::MIN), "[con_id=-9223372036854775808]");
    assert_eq!(con_mark_selector("quickterm_js"), "[con_mark=quickterm_js]");
    assert_eq!(mark_command("quickterm_js"), "mark quickterm_js");
    assert_eq!(
        move_back_command("[con_id=42]"),
        "[con_id=42] floating enable, move scratchpad"
    );
    assert_eq!(
        pop_command("quickterm_js", 880, 550, 560, 225),
        "[con_mark=quickterm_js], move scratchpad, scratchpad show, resize set 880 px 550 px, move absolute position 560px 225px"
    );
}
