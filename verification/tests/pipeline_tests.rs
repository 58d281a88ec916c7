use mdsite::pipeline::{plan, OutputTree, SourceFile, SourceTree};
use mdsite::template::{render, template_file_name};
use mdsite::watch::{react, WatchAction, WatchEvent};

fn s(x: &str) -> String {
    String::from(x)
}

fn sample_tree() -> SourceTree {
    SourceTree {
        dirs: vec![vec![s("sub")], vec![s("empty_dir")]],
        files: vec![
            SourceFile {
                dir: vec![],
                stem: s("a"),
                ext: s("md"),
                content: s("# Hi\n\nSome **text**."),
            },
            SourceFile {
                dir: vec![s("sub")],
                stem: s("b"),
                ext: s("md"),
                content: s("plain"),
            },
            SourceFile {
                dir: vec![],
                stem: s("notes"),
                ext: s("txt"),
                content: s("ignored"),
            },
        ],
    }
}

#[test]
fn placeholder_replaced_with_body() {
    assert_eq!(render("<html>{{{}}}</html>", "BODY").as_str(), "<html>BODY</html>");
}

#[test]
fn only_first_placeholder_replaced() {
    assert_eq!(render("A{{{}}}B{{{}}}C", "X").as_str(), "AXB{{{}}}C");
}

#[test]
fn absent_placeholder_drops_body() {
    assert_eq!(render("<html></html>", "BODY").as_str(), "<html></html>");
}

#[test]
fn template_file_name_is_fixed() {
    assert_eq!(template_file_name().as_str(), "template.html");
}

#[test]
fn directories_are_mirrored() {
    // every source subdirectory appears in the plan, matching files or not
    let tree = sample_tree();
    let out = plan(&tree, "<html>{{{}}}</html>");
    assert_eq!(out.dirs, vec![vec![s("sub")], vec![s("empty_dir")]]);
}

#[test]
fn only_markup_files_are_planned() {
    let tree = sample_tree();
    let out = plan(&tree, "<html>{{{}}}</html>");
    assert_eq!(out.files.len(), 2);
    assert_eq!(out.files[0].name.as_str(), "a.html");
    assert_eq!(out.files[1].name.as_str(), "b.html");
    assert_eq!(out.files[1].dir, vec![s("sub")]);
}

#[test]
fn end_to_end_scenario() {
    let tree = sample_tree();
    let out = plan(&tree, "<html>{{{}}}</html>");
    assert_eq!(
        out.files[0].content.as_str(),
        "<html><h1>Hi</h1><br><p>Some <strong>text</strong>.</p></html>"
    );
    assert_eq!(out.files[1].content.as_str(), "<html><p>plain</p></html>");
}

#[test]
fn rerunning_the_pipeline_is_idempotent() {
    let first: OutputTree = plan(&sample_tree(), "<html>{{{}}}</html>");
    let second: OutputTree = plan(&sample_tree(), "<html>{{{}}}</html>");
    assert_eq!(first, second);
}

#[test]
fn any_change_event_triggers_a_full_rebuild() {
    let a = WatchEvent::Change { path: String::from("sub/b.md") };
    let b = WatchEvent::Change { path: String::from("somewhere/else.txt") };
    assert_eq!(react(&a), WatchAction::Rebuild);
    assert_eq!(react(&b), WatchAction::Rebuild);
}

#[test]
fn watcher_failure_is_reported_not_rebuilt() {
    let e = WatchEvent::Failure { message: String::from("overflow") };
    assert_eq!(react(&e), WatchAction::Report);
}

#[test]
fn empty_tree_plans_nothing() {
    let tree = SourceTree { dirs: vec![], files: vec![] };
    let out = plan(&tree, "<html>{{{}}}</html>");
    assert!(out.dirs.is_empty());
    assert!(out.files.is_empty());
}

#[test]
fn template_without_placeholder_drops_every_body() {
    let tree = sample_tree();
    let out = plan(&tree, "<html></html>");
    assert_eq!(out.files[0].content.as_str(), "<html></html>");
    assert_eq!(out.files[1].content.as_str(), "<html></html>");
}
