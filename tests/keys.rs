use taskstore::keys::{InputChange, Key, Reload};
use taskstore::project::Project;
use taskstore::state::{App, ViewMode};
use taskstore::task::{Priority, Status};

fn titled(t: &str) -> Project {
    Project::fresh(t.to_string())
}

fn titles(ps: &[Project]) -> Vec<String> {
    ps.iter().map(|p| p.title.clone()).collect()
}

#[test]
fn adding_a_project_goes_through_the_input() {
    let mut app = App::setup(vec![titled("a")]);
    let e = app.handle_key(Key::Char('a'), &String::new());
    assert!(matches!(e.input, InputChange::Reset));
    assert!(e.persist.is_none());
    assert_eq!(app.view_mode, ViewMode::AddProject);
    let e = app.handle_key(Key::Char('x'), &String::new());
    assert!(matches!(e.input, InputChange::Edit));
    let e = app.handle_key(Key::Enter, &"b".to_string());
    assert_eq!(app.view_mode, ViewMode::ViewProjects);
    let (next, how) = e.persist.unwrap();
    assert_eq!(how, Reload::Projects);
    assert_eq!(titles(&next), vec!["a", "b"]);
}

#[test]
fn adding_an_existing_title_persists_nothing() {
    let mut app = App::setup(vec![titled("a")]);
    app.handle_key(Key::Char('n'), &String::new());
    let e = app.handle_key(Key::Enter, &"a".to_string());
    assert!(e.persist.is_none());
    assert_eq!(app.view_mode, ViewMode::ViewProjects);
}

#[test]
fn rename_fills_the_input_with_the_title() {
    let mut app = App::setup(vec![titled("a"), titled("b")]);
    app.handle_key(Key::Down, &String::new());
    let e = app.handle_key(Key::Char('r'), &String::new());
    assert!(matches!(e.input, InputChange::Fill(ref t) if t == "b"));
    assert_eq!(app.view_mode, ViewMode::RenameProject);
    let e = app.handle_key(Key::Enter, &"c".to_string());
    assert!(matches!(e.input, InputChange::Reset));
    assert_eq!(titles(&e.persist.unwrap().0), vec!["a", "c"]);
}

#[test]
fn delete_asks_then_persists_with_a_retreat() {
    let mut app = App::setup(vec![titled("a"), titled("b")]);
    app.handle_key(Key::Char('d'), &String::new());
    assert_eq!(app.view_mode, ViewMode::DeleteProject);
    let e = app.handle_key(Key::Char('y'), &String::new());
    let (next, how) = e.persist.unwrap();
    assert_eq!(how, Reload::ProjectsAfterDelete);
    assert_eq!(titles(&next), vec!["b"]);
    let mut empty = App::setup(vec![]);
    empty.handle_key(Key::Char('d'), &String::new());
    assert_eq!(empty.view_mode, ViewMode::ViewProjects);
}

#[test]
fn task_keys_preselect_the_current_values() {
    let mut p = titled("p");
    p.tasks[0].status = Status::ThreeQuarters;
    p.tasks[0].priority = Priority::Low;
    let mut app = App::setup(vec![p]);
    app.handle_key(Key::Enter, &String::new());
    assert_eq!(app.view_mode, ViewMode::ViewTasks);
    app.handle_key(Key::Enter, &String::new());
    assert_eq!(app.view_mode, ViewMode::ChangeStatusTask);
    assert_eq!(app.selected_status_task_index.selected(), Some(3));
    app.handle_key(Key::Char('j'), &String::new());
    let e = app.handle_key(Key::Enter, &String::new());
    let (next, how) = e.persist.unwrap();
    assert_eq!(how, Reload::Tasks);
    assert_eq!(next[0].tasks[0].status, Status::Done);
    assert_eq!(app.selected_status_task_index.selected(), Some(0));
    app.handle_key(Key::Char('p'), &String::new());
    assert_eq!(app.view_mode, ViewMode::ChangePriorityTask);
    assert_eq!(app.selected_priority_task_index.selected(), Some(2));
}

#[test]
fn quitting_and_leaving_the_notice() {
    let mut app = App::setup(vec![]);
    app.change_view(ViewMode::InfoMigration);
    let e = app.handle_key(Key::Other, &String::new());
    assert!(!e.quit);
    assert_eq!(app.view_mode, ViewMode::ViewProjects);
    let e = app.handle_key(Key::Char('q'), &String::new());
    assert!(e.quit);
}
