use sway_tools::run_or::{find_window, plan, Action, Instruction, RunOrError};
use sway_tools::tree::{Node, WindowProperties};

fn node(class: &str, title: &str, id: u64, pid: u64) -> Node {
    let properties = WindowProperties {
        class: class.to_string(),
        instance: "instance".to_string(),
        title: title.to_string(),
        transient_for: None,
        window_role: None,
    };
    Node::new(None, false, id, pid, properties, "con".to_string())
}

fn windows() -> Vec<Node> {
    vec![
        node("Firefox", "Mozilla Firefox", 11, 101),
        node("Alacritty", "zsh", 12, 102),
        node("Alacritty", "vim", 13, 103),
        node("Firefox", "zsh", 14, 104),
    ]
}

fn some(s: &str) -> Option<String> {
    Some(s.to_string())
}

#[test]
fn a_node_matches_by_class_title_or_both() {
    let n = node("Alacritty", "zsh", 1, 2);
    assert!(n.matches(&some("Alacritty"), &None));
    assert!(n.matches(&None, &some("zsh")));
    assert!(n.matches(&some("Alacritty"), &some("zsh")));
    assert!(n.matches(&None, &None));
    assert!(!n.matches(&some("alacritty"), &None));
    assert!(!n.matches(&some("Alacritty"), &some("vim")));
    assert!(!n.matches(&some("Firefox"), &some("zsh")));
    assert!(!n.matches(&None, &some("zsh ")));
}

#[test]
fn find_window_returns_the_first_match() {
    let w = windows();
    assert_eq!(find_window(&w, &some("Alacritty"), &None), Some(1));
    assert_eq!(find_window(&w, &None, &some("zsh")), Some(1));
    assert_eq!(find_window(&w, &some("Firefox"), &some("zsh")), Some(3));
    assert_eq!(find_window(&w, &some("Alacritty"), &some("vim")), Some(2));
    assert_eq!(find_window(&w, &some("Firefox"), &None), Some(0));
    assert_eq!(find_window(&w, &some("Emacs"), &None), None);
    assert_eq!(find_window(&w, &some("Firefox"), &some("vim")), None);
    assert_eq!(find_window(&Vec::new(), &some("Firefox"), &None), None);
}

#[test]
fn plan_needs_a_class_or_a_title() {
    assert_eq!(
        plan(&windows(), &None, &None, Instruction::Focus, "firefox"),
        Err(RunOrError::NoCriteria)
    );
    assert_eq!(
        plan(&Vec::new(), &None, &None, Instruction::Kill, "firefox"),
        Err(RunOrError::NoCriteria)
    );
}

#[test]
fn plan_launches_what_is_not_open() {
    assert_eq!(
        plan(&windows(), &some("Emacs"), &None, Instruction::Focus, "emacs --daemon"),
        Ok(Action::Launch("emacs --daemon".to_string()))
    );
    assert_eq!(
        plan(&Vec::new(), &None, &some("zsh"), Instruction::Kill, "alacritty"),
        Ok(Action::Launch("alacritty".to_string()))
    );
}

#[test]
fn plan_kills_the_process_of_the_first_match() {
    assert_eq!(
        plan(&windows(), &some("Alacritty"), &None, Instruction::Kill, "alacritty"),
        Ok(Action::Kill("102".to_string()))
    );
    assert_eq!(
        plan(&windows(), &some("Alacritty"), &some("vim"), Instruction::Kill, "alacritty"),
        Ok(Action::Kill("103".to_string()))
    );
}

#[test]
fn plan_focuses_the_container_of_the_first_match() {
    assert_eq!(
        plan(&windows(), &None, &some("zsh"), Instruction::Focus, "alacritty"),
        Ok(Action::Focus("[con_id=\"12\"] focus".to_string()))
    );
    assert_eq!(
        plan(&windows(), &some("Firefox"), &some("zsh"), Instruction::Focus, "firefox"),
        Ok(Action::Focus("[con_id=\"14\"] focus".to_string()))
    );
}

#[test]
fn the_error_has_a_message() {
    assert_eq!(
        RunOrError::NoCriteria.message(),
        "Neither a window class nor a window title is given."
    );
}
