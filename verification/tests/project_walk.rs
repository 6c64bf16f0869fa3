use pika::ui::project_search::{finder_step, search_step, WalkStep};

#[test]
fn search_step_skips_hidden_and_build_dirs() {
    let s = |n: &str| n.to_string();
    assert_eq!(search_step(&s(".git"), "/p/.git", true, false), WalkStep::Skip);
    assert_eq!(search_step(&s("target"), "/p/target", true, false), WalkStep::Skip);
    assert_eq!(search_step(&s("node_modules"), "/p/node_modules", true, false), WalkStep::Skip);
    assert_eq!(search_step(&s("src"), "/p/src", true, false), WalkStep::Descend);
    assert_eq!(search_step(&s("main.rs"), "/p/main.rs", false, true), WalkStep::Take);
    assert_eq!(search_step(&s("logo.png"), "/p/logo.png", false, true), WalkStep::Skip);
    assert_eq!(search_step(&s("fifo"), "/p/fifo", false, false), WalkStep::Skip);
}

#[test]
fn finder_step_stops_below_ten_levels() {
    let s = |n: &str| n.to_string();
    assert_eq!(finder_step(&s("a.rs"), false, 10), WalkStep::Take);
    assert_eq!(finder_step(&s("a.rs"), false, 11), WalkStep::Skip);
    assert_eq!(finder_step(&s("src"), true, 0), WalkStep::Descend);
    assert_eq!(finder_step(&s(".env"), false, 0), WalkStep::Skip);
}
