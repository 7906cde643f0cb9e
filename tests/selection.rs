use taskstore::project::Project;
use taskstore::state::{App, Cursor, ListKind, ViewMode};
use taskstore::task::{Priority, Status, Task};

fn titled(t: &str) -> Project {
    Project::fresh(t.to_string())
}

#[test]
fn advance_and_retreat_wrap_around() {
    let mut c = Cursor { selected: Some(2) };
    c.advance(3);
    assert_eq!(c.selected, Some(0));
    c.retreat(3);
    assert_eq!(c.selected, Some(2));
    c.retreat(3);
    assert_eq!(c.selected, Some(1));
    c.advance(0);
    assert_eq!(c.selected, None);
    c.retreat(4);
    assert_eq!(c.selected, Some(0));
}

#[test]
fn clamp_keeps_the_cursor_in_range() {
    let mut c = Cursor { selected: Some(7) };
    c.clamp(3);
    assert_eq!(c.selected, Some(2));
    c.clamp(0);
    assert_eq!(c.selected, None);
    c.clamp(2);
    assert_eq!(c.selected, Some(0));
}

#[test]
fn deleting_the_last_project_retreats_the_cursor() {
    let mut app = App::setup(vec![titled("a"), titled("b"), titled("c")]);
    app.selected_project_index.select(Some(2));
    let left = Project::delete(&app);
    Project::reload_after_delete(&mut app, left);
    assert_eq!(app.projects.len(), 2);
    assert_eq!(app.selected_project_index.selected(), Some(1));
}

#[test]
fn deleting_the_only_project_clears_the_cursor() {
    let mut app = App::setup(vec![titled("a")]);
    let left = Project::delete(&app);
    Project::reload_after_delete(&mut app, left);
    assert!(app.projects.is_empty());
    assert_eq!(app.selected_project_index.selected(), None);
    assert_eq!(app.selected_task_index.selected(), None);
}

#[test]
fn deleting_the_last_task_retreats_the_cursor() {
    let mut app = App::setup(vec![titled("p")]);
    app.view_mode = ViewMode::DeleteTask;
    app.selected_task_index.select(Some(2));
    let left = Task::delete(&app);
    Task::reload_after_delete(&mut app, left);
    assert_eq!(app.projects[0].tasks.len(), 2);
    assert_eq!(app.selected_task_index.selected(), Some(1));
}

#[test]
fn next_and_previous_move_in_the_current_list() {
    let mut app = App::setup(vec![titled("a"), titled("b")]);
    assert_eq!(app.use_state(), ListKind::Projects);
    app.next();
    assert_eq!(app.selected_project_index.selected(), Some(1));
    app.next();
    assert_eq!(app.selected_project_index.selected(), Some(0));
    app.change_view(ViewMode::ChangeStatusTask);
    assert_eq!(app.use_state(), ListKind::Statuses);
    app.previous();
    assert_eq!(app.selected_status_task_index.selected(), Some(4));
    assert_eq!(app.selected_status(), Some(Status::Done));
    app.change_view(ViewMode::ChangePriorityTask);
    app.next();
    assert_eq!(app.selected_priority(), Some(Priority::Medium));
    app.change_view(ViewMode::ViewTasks);
    app.previous();
    assert_eq!(app.selected_task_index.selected(), Some(2));
}

#[test]
fn setup_on_an_empty_store_selects_nothing() {
    let app = App::setup(vec![]);
    assert_eq!(app.selected_project_index.selected(), None);
    assert_eq!(app.selected_task_index.selected(), None);
    assert_eq!(app.selected_status_task_index.selected(), Some(0));
}

#[test]
fn reload_keeps_the_task_cursor_on_its_task() {
    let mut p = titled("p");
    p.tasks.push(Task { title: "plank".to_string(), status: Status::Zero, priority: Priority::High });
    let mut app = App::setup(vec![titled("o")]);
    app.selected_task_index.select(Some(0));
    Task::reload(&mut app, vec![p]);
    assert_eq!(app.projects[0].tasks[0].title, "plank");
    assert_eq!(app.selected_task_index.selected(), Some(1));
}

#[test]
fn deleting_the_last_of_equally_titled_tasks_keeps_the_row() {
    let p = Project {
        title: "p".to_string(),
        tasks: vec![
            Task { title: "A".to_string(), status: Status::Zero, priority: Priority::Unset },
            Task { title: "A".to_string(), status: Status::Zero, priority: Priority::Unset },
            Task { title: "B".to_string(), status: Status::Zero, priority: Priority::Unset },
        ],
    };
    let mut app = App::setup(vec![p]);
    app.selected_task_index.select(Some(2));
    let left = Task::delete(&app);
    Task::reload_after_delete(&mut app, left);
    assert_eq!(app.projects[0].tasks.len(), 2);
    assert_eq!(app.selected_task_index.selected(), Some(1));
}

#[test]
fn moving_in_the_status_list_keeps_the_task_cursor() {
    let mut app = App::setup(vec![titled("a")]);
    app.selected_task_index.select(Some(2));
    app.change_view(ViewMode::ChangeStatusTask);
    app.next();
    app.previous();
    assert_eq!(app.selected_task_index.selected(), Some(2));
}

#[test]
fn moving_in_the_project_list_keeps_the_task_cursor() {
    let empty = Project { title: "b".to_string(), tasks: vec![] };
    let mut app = App::setup(vec![titled("a"), empty]);
    app.selected_task_index.select(Some(2));
    app.next();
    assert_eq!(app.selected_project_index.selected(), Some(1));
    assert_eq!(app.selected_task_index.selected(), Some(2));
    app.previous();
    assert_eq!(app.selected_project_index.selected(), Some(0));
    assert_eq!(app.selected_task_index.selected(), Some(2));
}

#[test]
fn entering_a_project_without_tasks_clears_the_task_cursor() {
    let empty = Project { title: "b".to_string(), tasks: vec![] };
    let mut app = App::setup(vec![titled("a"), empty]);
    app.selected_task_index.select(Some(2));
    app.next();
    app.handle_key(taskstore::keys::Key::Enter, &String::new());
    assert_eq!(app.view_mode, ViewMode::ViewTasks);
    assert_eq!(app.selected_task_index.selected(), None);
}
