use taskstore::date::Date;
use taskstore::project::{add_project, BackfillError, Project, ProgressShade};
use taskstore::state::{App, Cursor, ViewMode};
use taskstore::task::{Priority, Status, Task};

fn d(year: i32, month: u32, day: u32) -> Date {
    Date { year, month, day }
}

fn titled(t: &str) -> Project {
    Project::fresh(t.to_string())
}

fn titles(ps: &[Project]) -> Vec<String> {
    ps.iter().map(|p| p.title.clone()).collect()
}

fn task(title: &str, status: Status, priority: Priority) -> Task {
    Task { title: title.to_string(), status, priority }
}

#[test]
fn new_project_holds_the_template_tasks() {
    let p = Project::fresh("A".to_string());
    let names: Vec<&str> = p.tasks.iter().map(|t| t.title.as_str()).collect();
    assert_eq!(names, vec!["pushups", "squats", "dumbbell"]);
    assert!(p.tasks.iter().all(|t| t.status == Status::Zero && t.priority == Priority::Unset));
}

#[test]
fn creating_a_title_twice_keeps_one_project() {
    let app = App::setup(vec![]);
    let once = Project::create_titled(&app.projects, "A".to_string()).unwrap();
    assert_eq!(titles(&once), vec!["A"]);
    assert!(Project::create_titled(&once, "A".to_string()).is_none());
    let mut ps = once;
    add_project(&mut ps, "A".to_string());
    assert_eq!(ps.iter().filter(|p| p.title == "A").count(), 1);
}

#[test]
fn empty_title_creates_a_dated_project() {
    let app = App::setup(vec![titled("work")]);
    let next = Project::create(&app, String::new()).unwrap();
    assert_eq!(next.len(), 2);
    assert_eq!(next[0].title, "work");
    assert_eq!(Project::backfill(vec![titled(&next[1].title)], Date { year: 1, month: 1, day: 1 }).map(|v| v.len()), Ok(1));
}

#[test]
fn rename_and_delete_act_on_the_selected_project() {
    let mut app = App::setup(vec![titled("a"), titled("b"), titled("c")]);
    app.selected_project_index.select(Some(1));
    let renamed = Project::rename(&app, "B".to_string());
    assert_eq!(titles(&renamed), vec!["a", "B", "c"]);
    assert_eq!(renamed[1].tasks.len(), 3);
    let deleted = Project::delete(&app);
    assert_eq!(titles(&deleted), vec!["a", "c"]);
}

#[test]
fn backfill_fills_each_day_up_to_today() {
    let ps = vec![titled("01.01.2024")];
    let out = Project::backfill(ps, d(2024, 1, 3)).unwrap();
    assert_eq!(titles(&out), vec!["01.01.2024", "02.01.2024", "03.01.2024"]);
}

#[test]
fn backfill_skips_days_already_present() {
    let ps = vec![titled("30.12.2023"), titled("31.12.2023"), titled("work")];
    let out = Project::backfill_from(ps, d(2023, 12, 30), d(2024, 1, 2));
    assert_eq!(
        titles(&out),
        vec!["30.12.2023", "31.12.2023", "work", "01.01.2024", "02.01.2024"]
    );
}

#[test]
fn backfill_after_today_adds_nothing() {
    let ps = vec![titled("05.01.2024")];
    let out = Project::backfill(ps, d(2024, 1, 3)).unwrap();
    assert_eq!(titles(&out), vec!["05.01.2024"]);
}

#[test]
fn backfill_needs_a_dated_project() {
    assert_eq!(Project::backfill(vec![], d(2024, 1, 3)).err(), Some(BackfillError::NoDatedProject));
    let ps = vec![titled("work"), titled("home")];
    assert_eq!(Project::backfill(ps, d(2024, 1, 3)).err(), Some(BackfillError::NoDatedProject));
}

#[test]
fn backfill_starts_at_the_earliest_dated_title() {
    let ps = vec![titled("Inbox"), titled("01.01.2024")];
    let out = Project::backfill(ps, d(2024, 1, 2)).unwrap();
    assert_eq!(titles(&out), vec!["Inbox", "01.01.2024", "02.01.2024"]);
    let ps = vec![titled("03.01.2024"), titled("work"), titled("01.01.2024")];
    let out = Project::backfill(ps, d(2024, 1, 3)).unwrap();
    assert_eq!(titles(&out), vec!["03.01.2024", "work", "01.01.2024", "02.01.2024"]);
}

#[test]
fn empty_task_title_does_nothing_without_a_selection() {
    let app = App::setup(vec![]);
    assert!(Task::create(&app, String::new()).is_none());
}

#[test]
fn progress_counts_finished_tasks() {
    let mut p = titled("x");
    assert_eq!(p.progress(), (0, 3, 0));
    p.tasks[0].status = Status::Done;
    assert_eq!(p.progress(), (1, 3, 33));
    p.tasks = vec![];
    assert_eq!(p.progress(), (0, 0, 0));
    p.tasks = vec![task("a", Status::Done, Priority::Unset), task("b", Status::Half, Priority::Unset)];
    assert_eq!(p.progress(), (1, 2, 50));
}

#[test]
fn progress_shades_follow_the_share() {
    assert_eq!(ProgressShade::of_percentage(0), ProgressShade::Idle);
    assert_eq!(ProgressShade::of_percentage(33), ProgressShade::Started);
    assert_eq!(ProgressShade::of_percentage(66), ProgressShade::Advanced);
    assert_eq!(ProgressShade::of_percentage(99), ProgressShade::Other);
    assert_eq!(ProgressShade::of_percentage(100), ProgressShade::Complete);
    assert_eq!(ProgressShade::of_percentage(10), ProgressShade::Other);
}

#[test]
fn task_edits_act_on_the_selected_task() {
    let mut app = App::setup(vec![titled("p")]);
    app.selected_task_index = Cursor { selected: Some(1) };
    let r = Task::rename(&app, "lunges".to_string());
    assert_eq!(r[0].tasks[1].title, "lunges");
    let r = Task::change_status(&app, Status::ThreeQuarters);
    assert_eq!(r[0].tasks[1].status, Status::ThreeQuarters);
    let r = Task::change_priority(&app, Priority::High);
    assert_eq!(r[0].tasks[1].priority, Priority::High);
    let r = Task::delete(&app);
    let names: Vec<&str> = r[0].tasks.iter().map(|t| t.title.as_str()).collect();
    assert_eq!(names, vec!["pushups", "dumbbell"]);
    assert!(Task::create(&app, String::new()).is_none());
    let r = Task::create(&app, "plank".to_string()).unwrap();
    assert_eq!(r[0].tasks.len(), 4);
    assert_eq!(r[0].tasks[3].title, "plank");
    assert_eq!(app.view_mode, ViewMode::ViewProjects);
}

#[test]
fn tasks_are_listed_by_priority_then_status() {
    let p = Project {
        title: "p".to_string(),
        tasks: vec![
            task("a", Status::Done, Priority::Unset),
            task("b", Status::Zero, Priority::Low),
            task("c", Status::Half, Priority::High),
            task("d", Status::Zero, Priority::High),
            task("e", Status::Zero, Priority::Unset),
        ],
    };
    let mut app = App::setup(vec![p]);
    app.selected_task_index.select(Some(1));
    Task::load_items(&mut app);
    let names: Vec<&str> = app.projects[0].tasks.iter().map(|t| t.title.as_str()).collect();
    assert_eq!(names, vec!["d", "c", "b", "e", "a"]);
    assert_eq!(app.selected_task_index.selected(), Some(2));
}

#[test]
fn project_rows_show_progress() {
    let mut done = titled("b");
    for t in done.tasks.iter_mut() {
        t.status = Status::Done;
    }
    let rows = Project::load_items(&vec![titled("a"), done, Project { title: "c".to_string(), tasks: vec![] }]);
    assert_eq!(
        rows,
        vec![(0, 3, ProgressShade::Idle), (3, 3, ProgressShade::Complete), (0, 0, ProgressShade::Idle)]
    );
}
