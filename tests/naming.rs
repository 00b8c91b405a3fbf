use i3daemon::naming::{expected_name_of, rename_workspace};
use i3daemon::tree::Workspace;
use i3daemon::window::Window;

fn window(id: usize, class: &str, title: &str) -> Window {
    Window { id, window_class: class.to_string(), window_title: title.to_string() }
}

fn workspace(num: i32, name: &str, windows: Vec<Window>) -> Workspace {
    Workspace { num, name: name.to_string(), output: "eDP-1".to_string(), windows }
}

#[test]
fn pycharm_label_ignores_title() {
    assert_eq!(window(1, "jetbrains-pycharm", "anything [x]").get_name(), "pycharm");
    assert_eq!(window(1, "jetbrains-pycharm", "").get_name(), "pycharm");
}

#[test]
fn terminal_ws_session_gives_bare_symbol() {
    assert_eq!(window(1, "Alacritty", " WSfoo: bar").get_name(), "\u{f120}");
}

#[test]
fn terminal_session_names_label() {
    let name = window(1, "Alacritty", " myproj: bar").get_name();
    assert!(name.contains("myproj"));
    assert_eq!(name, "\u{f120} myproj");
}

#[test]
fn terminal_without_leading_space_gives_bare_symbol() {
    assert_eq!(window(1, "Alacritty", "myproj: bar").get_name(), "\u{f120}");
}

#[test]
fn terminal_title_without_colon_is_one_segment() {
    assert_eq!(window(1, "Alacritty", " shell").get_name(), "\u{f120} shell");
}

#[test]
fn idea_project_before_bracket() {
    assert_eq!(window(1, "jetbrains-idea-ce", "proj [~/src/proj] - Main.java").get_name(), "\u{f121} proj");
}

#[test]
fn idea_without_bracket_gives_bare_symbol() {
    assert_eq!(window(1, "jetbrains-idea-ce", "Welcome").get_name(), "\u{f121}");
}

#[test]
fn constant_labels() {
    assert_eq!(window(1, "firefox", "x").get_name(), "\u{e007}");
    assert_eq!(window(1, "Slack", "x").get_name(), "\u{f086}");
    assert_eq!(window(1, "Thunar", "x").get_name(), "\u{f07c}");
    assert_eq!(window(1, "qBittorrent", "x").get_name(), "\u{f0ed} qB");
    assert_eq!(window(1, "vlc", "x").get_name(), "\u{f144}");
    assert_eq!(window(1, "Zathura", "x").get_name(), "\u{f1c1}");
    assert_eq!(window(1, "Galculator", "x").get_name(), "\u{f1ec}");
    assert_eq!(window(1, "beekeeper-studio", "x").get_name(), "\u{f1c0} SQL");
}

#[test]
fn unknown_class_labels_itself() {
    assert_eq!(window(1, "Gimp", "x").get_name(), "Gimp");
    assert_eq!(window(1, "", "x").get_name(), "");
}

#[test]
fn empty_workspace_named_by_number() {
    assert_eq!(expected_name_of(&workspace(3, "3: old", vec![])), "3");
}

#[test]
fn one_window_workspace_named_by_label() {
    let ws = workspace(2, "2", vec![window(7, "Firefox", "x")]);
    assert_eq!(expected_name_of(&ws), "2: Firefox");
    let ws = workspace(2, "2", vec![window(7, "firefox", "x")]);
    assert_eq!(expected_name_of(&ws), "2: \u{e007}");
}

#[test]
fn first_window_drives_name() {
    let ws = workspace(12, "12", vec![window(7, "vlc", "x"), window(8, "Gimp", "y")]);
    assert_eq!(expected_name_of(&ws), "12: \u{f144}");
}

#[test]
fn rename_issued_when_name_differs() {
    let mut commands = Vec::new();
    rename_workspace(&mut commands, &workspace(1, "1", vec![window(7, "Gimp", "x")]));
    assert_eq!(commands, vec!["rename workspace \"1\" to \"1: Gimp\"".to_string()]);
}

#[test]
fn rename_twice_issues_at_most_one() {
    let mut ws = workspace(4, "4", vec![window(7, "Gimp", "x")]);
    let mut commands = Vec::new();
    rename_workspace(&mut commands, &ws);
    assert_eq!(commands.len(), 1);
    ws.name = expected_name_of(&ws);
    rename_workspace(&mut commands, &ws);
    assert_eq!(commands.len(), 1);
}

#[test]
fn scratchpad_never_renamed() {
    let mut commands = Vec::new();
    rename_workspace(&mut commands, &workspace(-1, "__i3_scratch", vec![window(7, "Gimp", "x")]));
    rename_workspace(&mut commands, &workspace(-1, "__i3_scratch", vec![]));
    assert!(commands.is_empty());
}

#[test]
fn negative_number_text() {
    let mut s = String::new();
    i3daemon::text::push_int(&mut s, -42);
    assert_eq!(s, "-42");
    let mut s = String::new();
    i3daemon::text::push_int(&mut s, i64::MIN);
    assert_eq!(s, "-9223372036854775808");
}
