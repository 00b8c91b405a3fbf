use i3daemon::daemon::{EventError, I3Daemon, Output, WindowChange, WorkspaceChange};
use i3daemon::node::{Node, NodeType, WindowProperties};
use i3daemon::tree::Tree;

fn node(id: usize, node_type: NodeType, nodes: Vec<Node>) -> Node {
    Node {
        id,
        name: None,
        num: None,
        node_type,
        output: None,
        window_properties: None,
        nodes,
        floating_nodes: vec![],
    }
}

fn win(id: usize, class: &str) -> Node {
    let mut n = node(id, NodeType::Con, vec![]);
    n.window_properties = Some(WindowProperties {
        title: Some("t".to_string()),
        class: Some(class.to_string()),
    });
    n.output = Some("eDP-1".to_string());
    n
}

fn ws(num: i32, name: &str, windows: Vec<Node>) -> Node {
    let mut n = node(1000 + num.unsigned_abs() as usize, NodeType::Workspace, windows);
    n.num = Some(num);
    n.name = Some(name.to_string());
    n.output = Some("eDP-1".to_string());
    n
}

fn root(workspaces: Vec<Node>) -> Node {
    node(1, NodeType::Root, vec![node(2, NodeType::Output, workspaces)])
}

fn output(name: &str, width: i64, height: i64) -> Output {
    Output { name: name.to_string(), width, height }
}

#[test]
fn bootstrap_renames_only_stale_workspaces() {
    let r = root(vec![ws(1, "1", vec![win(5, "Gimp")]), ws(2, "2", vec![])]);
    let tree = Tree::new(&r).unwrap();
    let mut d = I3Daemon::new();
    let commands = d.init_state(&tree);
    assert_eq!(commands, vec!["rename workspace \"1\" to \"1: Gimp\"".to_string()]);
    assert_eq!(d.window_to_workspace_num.get(&5), Some(&1));
}

#[test]
fn bootstrap_with_firefox_window() {
    let r = root(vec![ws(1, "1", vec![win(5, "firefox")]), ws(2, "2", vec![])]);
    let tree = Tree::new(&r).unwrap();
    let mut d = I3Daemon::new();
    let commands = d.init_state(&tree);
    assert_eq!(commands, vec!["rename workspace \"1\" to \"1: \u{e007}\"".to_string()]);
}

#[test]
fn new_window_registers_and_renames() {
    let r = root(vec![ws(3, "3", vec![win(5, "vlc")])]);
    let tree = Tree::new(&r).unwrap();
    let mut d = I3Daemon::new();
    let commands = d.handle_window_event(WindowChange::New, &win(5, "vlc"), &tree).unwrap();
    assert_eq!(commands, vec!["rename workspace \"3\" to \"3: \u{f144}\"".to_string()]);
    assert_eq!(d.window_to_workspace_num.get(&5), Some(&3));
}

#[test]
fn untracked_change_is_ignored() {
    let r = root(vec![ws(3, "3", vec![win(5, "vlc")])]);
    let tree = Tree::new(&r).unwrap();
    let mut d = I3Daemon::new();
    let commands = d.handle_window_event(WindowChange::Focus, &win(5, "vlc"), &tree).unwrap();
    assert!(commands.is_empty());
    assert!(d.window_to_workspace_num.is_empty());
}

#[test]
fn move_renames_both_workspaces() {
    let before = Tree::new(&root(vec![ws(1, "1", vec![win(5, "vlc")]), ws(2, "2", vec![])])).unwrap();
    let mut d = I3Daemon::new();
    d.init_state(&before);
    let after = Tree::new(&root(vec![ws(1, "1: \u{f144}", vec![]), ws(2, "2", vec![win(5, "vlc")])])).unwrap();
    let commands = d.handle_window_event(WindowChange::Move, &win(5, "vlc"), &after).unwrap();
    assert_eq!(
        commands,
        vec![
            "rename workspace \"1: \u{f144}\" to \"1\"".to_string(),
            "rename workspace \"2\" to \"2: \u{f144}\"".to_string(),
        ]
    );
    assert_eq!(d.window_to_workspace_num.get(&5), Some(&2));
}

#[test]
fn move_of_untracked_window_is_an_error() {
    let tree = Tree::new(&root(vec![ws(2, "2", vec![win(5, "vlc")])])).unwrap();
    let mut d = I3Daemon::new();
    assert_eq!(
        d.handle_window_event(WindowChange::Move, &win(5, "vlc"), &tree).err(),
        Some(EventError::UntrackedWindow { id: 5 })
    );
}

#[test]
fn move_to_nowhere_is_an_error() {
    let before = Tree::new(&root(vec![ws(1, "1", vec![win(5, "vlc")])])).unwrap();
    let mut d = I3Daemon::new();
    d.init_state(&before);
    let after = Tree::new(&root(vec![ws(1, "1", vec![])])).unwrap();
    assert_eq!(
        d.handle_window_event(WindowChange::Move, &win(5, "vlc"), &after).err(),
        Some(EventError::WindowNotInTree { id: 5 })
    );
    assert_eq!(d.window_to_workspace_num.get(&5), Some(&1));
}

#[test]
fn close_unregisters() {
    let before = Tree::new(&root(vec![ws(1, "1", vec![win(5, "vlc")])])).unwrap();
    let mut d = I3Daemon::new();
    d.init_state(&before);
    let after = Tree::new(&root(vec![ws(1, "1: \u{f144}", vec![])])).unwrap();
    let commands = d.handle_window_event(WindowChange::Close, &win(5, "vlc"), &after).unwrap();
    assert!(commands.is_empty());
    assert!(d.window_to_workspace_num.get(&5).is_none());
}

#[test]
fn title_change_renames() {
    let tree = Tree::new(&root(vec![ws(1, "1: old", vec![win(5, "Gimp")])])).unwrap();
    let mut d = I3Daemon::new();
    let commands = d.handle_window_event(WindowChange::Title, &win(5, "Gimp"), &tree).unwrap();
    assert_eq!(commands, vec!["rename workspace \"1: old\" to \"1: Gimp\"".to_string()]);
}

#[test]
fn workspace_empty_event_renames() {
    let d = I3Daemon::new();
    let commands = d.handle_workspace_event(WorkspaceChange::Empty, &Some(ws(4, "4: x", vec![]))).unwrap();
    assert_eq!(commands, vec!["rename workspace \"4: x\" to \"4\"".to_string()]);
    assert_eq!(d.handle_workspace_event(WorkspaceChange::Empty, &None).err(), Some(EventError::NoWorkspace));
    assert!(d.handle_workspace_event(WorkspaceChange::Focus, &None).unwrap().is_empty());
}

fn scratch_move(d: &mut I3Daemon, output_name: &str) -> Vec<String> {
    let tree = Tree::new(&root(vec![ws(-1, "__i3_scratch", vec![]), ws(1, "1", vec![win(5, "Gimp")])])).unwrap();
    let mut container = win(5, "Gimp");
    container.output = Some(output_name.to_string());
    let commands = d.handle_window_event(WindowChange::Move, &container, &tree).unwrap();
    d.window_to_workspace_num.insert(5, -1);
    commands
}

#[test]
fn scratchpad_resize_is_debounced() {
    let mut d = I3Daemon::new();
    d.update_outputs(vec![output("eDP-1", 1920, 1080), output("HDMI-1", 2560, 1440)]);
    d.window_to_workspace_num.insert(5, -1);
    let resize = |c: &Vec<String>| c.iter().filter(|s| s.starts_with("resize set width")).count();
    let first = scratch_move(&mut d, "eDP-1");
    let second = scratch_move(&mut d, "eDP-1");
    assert!(resize(&first) + resize(&second) <= 1);
    let third = scratch_move(&mut d, "HDMI-1");
    assert_eq!(
        third[..4].to_vec(),
        vec![
            "border pixel 10".to_string(),
            "resize set width 2432 px".to_string(),
            "resize set height 1368 px".to_string(),
            "move position center".to_string(),
        ]
    );
    assert!(scratch_move(&mut d, "HDMI-1").iter().all(|s| !s.starts_with("resize")));
}

#[test]
fn scratchpad_exit_without_output_is_an_error() {
    let mut d = I3Daemon::new();
    d.window_to_workspace_num.insert(5, -1);
    let tree = Tree::new(&root(vec![ws(1, "1", vec![win(5, "Gimp")])])).unwrap();
    let mut container = win(5, "Gimp");
    container.output = None;
    assert_eq!(
        d.handle_window_event(WindowChange::Move, &container, &tree).err(),
        Some(EventError::NoOutput { id: 5 })
    );
}

#[test]
fn scratchpad_resize_onto_unknown_output_does_nothing() {
    let mut d = I3Daemon::new();
    d.update_outputs(vec![output("eDP-1", 1920, 1080)]);
    d.window_to_workspace_num.insert(5, -1);
    scratch_move(&mut d, "eDP-1");
    let c = scratch_move(&mut d, "DP-9");
    assert!(c.iter().all(|s| !s.starts_with("resize")));
    let c = scratch_move(&mut d, "eDP-1");
    assert!(c.iter().all(|s| !s.starts_with("resize")));
}

#[test]
fn resize_uses_ninety_five_percent() {
    let mut d = I3Daemon::new();
    d.update_outputs(vec![output("A", 100, 50), output("B", 1920, 1080)]);
    d.window_to_workspace_num.insert(5, -1);
    scratch_move(&mut d, "A");
    let c = scratch_move(&mut d, "B");
    assert_eq!(c[1], "resize set width 1824 px");
    assert_eq!(c[2], "resize set height 1026 px");
    let c = scratch_move(&mut d, "A");
    assert_eq!(c[1], "resize set width 95 px");
    assert_eq!(c[2], "resize set height 47 px");
}

#[test]
fn malformed_container_is_an_error() {
    let tree = Tree::new(&root(vec![])).unwrap();
    let mut d = I3Daemon::new();
    let mut container = win(5, "Gimp");
    container.window_properties = Some(WindowProperties { title: Some("t".to_string()), class: None });
    assert_eq!(
        d.handle_window_event(WindowChange::New, &container, &tree).err(),
        Some(EventError::MalformedNode { id: 5 })
    );
}
