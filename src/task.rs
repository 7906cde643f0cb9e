//! Tasks: their status and priority domains and the edits made to them.

use crate::project::{copy_projects, projects_view, selected_project, Project, ProjectView};
use crate::sort::{lemma_stable_sorted_len, lemma_stable_sorted_map, stable_sort_by_keys, stable_sorted};
use crate::state::{back_one, clamped, App};
use vstd::prelude::*;

verus! {

/// Progress of a task, stored on disk as a percentage string.
#[derive(Clone, Copy, Debug, PartialEq, Eq, Structural)]
pub enum Status {
    Zero,
    Quarter,
    Half,
    ThreeQuarters,
    Done,
}

/// Rank of a task: `High` is stored as 1, `Low` as 3 and `Unset` as 0.
#[derive(Clone, Copy, Debug, PartialEq, Eq, Structural)]
pub enum Priority {
    High,
    Medium,
    Low,
    Unset,
}

pub struct Task {
    pub title: String,
    pub status: Status,
    pub priority: Priority,
}

pub struct TaskView {
    pub title: Seq<char>,
    pub status: Status,
    pub priority: Priority,
}

impl View for Task {
    type V = TaskView;

    open spec fn view(&self) -> TaskView {
        TaskView { title: self.title@, status: self.status, priority: self.priority }
    }
}

/// The statuses in the order in which they are offered.
pub const TASK_STATUSES: [Status; 5] = [
    Status::Zero,
    Status::Quarter,
    Status::Half,
    Status::ThreeQuarters,
    Status::Done,
];

/// The priorities in the order in which they are offered: highest first.
pub const TASK_PRIORITIES: [Priority; 4] = [
    Priority::High,
    Priority::Medium,
    Priority::Low,
    Priority::Unset,
];

pub open spec fn status_text(s: Status) -> Seq<char> {
    match s {
        Status::Zero => "0"@,
        Status::Quarter => "25"@,
        Status::Half => "50"@,
        Status::ThreeQuarters => "75"@,
        Status::Done => "100"@,
    }
}

/// The status written as `t`, if any.
pub open spec fn status_of_text(t: Seq<char>) -> Option<Status> {
    if t == "0"@ {
        Some(Status::Zero)
    } else if t == "25"@ {
        Some(Status::Quarter)
    } else if t == "50"@ {
        Some(Status::Half)
    } else if t == "75"@ {
        Some(Status::ThreeQuarters)
    } else if t == "100"@ {
        Some(Status::Done)
    } else {
        None
    }
}

pub open spec fn priority_number(p: Priority) -> int {
    match p {
        Priority::High => 1,
        Priority::Medium => 2,
        Priority::Low => 3,
        Priority::Unset => 0,
    }
}

/// The priority stored as `n`, if any.
pub open spec fn priority_of_number(n: int) -> Option<Priority> {
    if n == 1 {
        Some(Priority::High)
    } else if n == 2 {
        Some(Priority::Medium)
    } else if n == 3 {
        Some(Priority::Low)
    } else if n == 0 {
        Some(Priority::Unset)
    } else {
        None
    }
}

/// Position of a status in `TASK_STATUSES`.
pub open spec fn status_rank(s: Status) -> int {
    match s {
        Status::Zero => 0,
        Status::Quarter => 1,
        Status::Half => 2,
        Status::ThreeQuarters => 3,
        Status::Done => 4,
    }
}

/// Position of a priority in `TASK_PRIORITIES`.
pub open spec fn priority_rank(p: Priority) -> int {
    match p {
        Priority::High => 0,
        Priority::Medium => 1,
        Priority::Low => 2,
        Priority::Unset => 3,
    }
}

/// Tasks are listed by priority, highest first, then by status.
pub open spec fn display_key(t: TaskView) -> i64 {
    (priority_rank(t.priority) * 5 + status_rank(t.status)) as i64
}

pub open spec fn fresh_task(title: Seq<char>) -> TaskView {
    TaskView { title, status: Status::Zero, priority: Priority::Unset }
}

/// The tasks that every new project starts with.
pub open spec fn template_tasks() -> Seq<TaskView> {
    seq![fresh_task("pushups"@), fresh_task("squats"@), fresh_task("dumbbell"@)]
}

pub open spec fn tasks_view(s: Seq<Task>) -> Seq<TaskView> {
    s.map_values(|t: Task| t@)
}

impl Status {
    /// The on-disk text of the status.
    pub fn as_text(&self) -> (r: String)
        ensures
            r@ == status_text(*self),
    {
        match self {
            Status::Zero => String::from_str("0"),
            Status::Quarter => String::from_str("25"),
            Status::Half => String::from_str("50"),
            Status::ThreeQuarters => String::from_str("75"),
            Status::Done => String::from_str("100"),
        }
    }

    /// Reads the on-disk text of a status.
    pub fn from_text(t: &String) -> (r: Option<Status>)
        ensures
            r == status_of_text(t@),
    {
        if *t == String::from_str("0") {
            Some(Status::Zero)
        } else if *t == String::from_str("25") {
            Some(Status::Quarter)
        } else if *t == String::from_str("50") {
            Some(Status::Half)
        } else if *t == String::from_str("75") {
            Some(Status::ThreeQuarters)
        } else if *t == String::from_str("100") {
            Some(Status::Done)
        } else {
            None
        }
    }

    pub fn rank(&self) -> (r: u8)
        ensures
            r == status_rank(*self),
    {
        match self {
            Status::Zero => 0,
            Status::Quarter => 1,
            Status::Half => 2,
            Status::ThreeQuarters => 3,
            Status::Done => 4,
        }
    }
}

impl Priority {
    /// The on-disk number of the priority.
    pub fn as_number(&self) -> (r: u8)
        ensures
            r == priority_number(*self),
    {
        match self {
            Priority::High => 1,
            Priority::Medium => 2,
            Priority::Low => 3,
            Priority::Unset => 0,
        }
    }

    /// Reads the on-disk number of a priority.
    pub fn from_number(n: i64) -> (r: Option<Priority>)
        ensures
            r == priority_of_number(n as int),
    {
        if n == 1 {
            Some(Priority::High)
        } else if n == 2 {
            Some(Priority::Medium)
        } else if n == 3 {
            Some(Priority::Low)
        } else if n == 0 {
            Some(Priority::Unset)
        } else {
            None
        }
    }

    pub fn rank(&self) -> (r: u8)
        ensures
            r == priority_rank(*self),
    {
        match self {
            Priority::High => 0,
            Priority::Medium => 1,
            Priority::Low => 2,
            Priority::Unset => 3,
        }
    }

    /// The marker shown in front of a task of this priority.
    pub fn indicator(&self) -> (r: String)
        ensures
            r@ == priority_indicator(*self),
    {
        match self {
            Priority::High => String::from_str("!!!"),
            Priority::Medium => String::from_str("!!"),
            Priority::Low => String::from_str("!"),
            Priority::Unset => String::new(),
        }
    }
}

pub open spec fn priority_indicator(p: Priority) -> Seq<char> {
    match p {
        Priority::High => "!!!"@,
        Priority::Medium => "!!"@,
        Priority::Low => "!"@,
        Priority::Unset => Seq::empty(),
    }
}

impl Task {
    /// A task with the given title, not started and without priority.
    pub fn fresh(title: String) -> (r: Task)
        ensures
            r@ == fresh_task(title@),
    {
        Task { title, status: Status::Zero, priority: Priority::Unset }
    }

    /// A copy of the task.
    pub fn duplicate(&self) -> (r: Task)
        ensures
            r@ == self@,
    {
        Task { title: self.title.clone(), status: self.status, priority: self.priority }
    }

    /// The key by which tasks are listed.
    pub fn display_key(&self) -> (r: i64)
        ensures
            r == display_key(self@),
    {
        (self.priority.rank() as i64) * 5 + (self.status.rank() as i64)
    }
}

/// A copy of a list of tasks.
pub fn copy_tasks(tasks: &Vec<Task>) -> (r: Vec<Task>)
    ensures
        r@.len() == tasks@.len(),
        tasks_view(r@) == tasks_view(tasks@),
{
    let mut r: Vec<Task> = Vec::new();
    let mut i: usize = 0;
    while i < tasks.len()
        invariant
            i <= tasks.len(),
            r@.len() == i,
            forall|k: int| 0 <= k < i ==> #[trigger] r@[k]@ == tasks@[k]@,
        decreases tasks.len() - i,
    {
        r.push(tasks[i].duplicate());
        i = i + 1;
    }
    assert(tasks_view(r@) =~= tasks_view(tasks@));
    r
}

/// The tasks that every new project starts with.
pub fn template() -> (r: Vec<Task>)
    ensures
        tasks_view(r@) == template_tasks(),
{
    let mut r: Vec<Task> = Vec::new();
    r.push(Task::fresh(String::from_str("pushups")));
    r.push(Task::fresh(String::from_str("squats")));
    r.push(Task::fresh(String::from_str("dumbbell")));
    assert(tasks_view(r@) =~= template_tasks());
    r
}

/// Tasks in display order: by priority, highest first, then by status; ties
/// keep their order.
pub open spec fn task_order(ts: Seq<TaskView>) -> Seq<TaskView> {
    stable_sorted(ts, ts.map_values(|t: TaskView| display_key(t)))
}

/// `ps` with the tasks of project `i` replaced by `ts`.
pub open spec fn with_tasks(ps: Seq<ProjectView>, i: int, ts: Seq<TaskView>) -> Seq<ProjectView> {
    ps.update(i, ProjectView { title: ps[i].title, tasks: ts })
}

/// The selected task's position; meaningful where one is selected.
pub open spec fn selected_task(app: &App) -> int {
    app.selected_task_index.selected.unwrap() as int
}

/// The tasks of the selected project.
pub open spec fn current_tasks(app: &App) -> Seq<TaskView> {
    app.projects_v()[selected_project(app)].tasks
}

/// The title under cursor `c`, the first row standing for no cursor.
pub open spec fn remembered(ts: Seq<TaskView>, c: Option<usize>) -> Option<Seq<char>> {
    let i = match c {
        Some(i) => i as int,
        None => 0,
    };
    if i < ts.len() {
        Some(ts[i].title)
    } else {
        None
    }
}

/// `j` is the first row of `ts` titled `t`.
pub open spec fn first_titled(ts: Seq<TaskView>, t: Seq<char>, j: int) -> bool {
    0 <= j < ts.len() && ts[j].title == t && forall|k: int| 0 <= k < j ==> ts[k].title != t
}

/// The row of the first task of `ts` titled `t`, or the first row if none is.
pub open spec fn position_of(ts: Seq<TaskView>, t: Option<Seq<char>>) -> int {
    match t {
        Some(x) => first_position(ts, x),
        None => 0,
    }
}

pub open spec fn first_position(ts: Seq<TaskView>, t: Seq<char>) -> int {
    if exists|j: int| first_titled(ts, t, j) {
        choose|j: int| first_titled(ts, t, j)
    } else {
        0
    }
}

/// Where the task cursor lands after the tasks `ts` under cursor `c` are put
/// in display order: on the task it was on, found by title.
pub open spec fn reselected(ts: Seq<TaskView>, c: Option<usize>) -> Option<usize> {
    clamped(Some(position_of(task_order(ts), remembered(ts, c)) as usize), ts.len() as int)
}

proof fn lemma_first_titled_unique(ts: Seq<TaskView>, t: Seq<char>, a: int, b: int)
    requires
        first_titled(ts, t, a),
        first_titled(ts, t, b),
    ensures
        a == b,
{
    if a < b {
        assert(ts[a].title != t);
    } else if b < a {
        assert(ts[b].title != t);
    }
}

/// `ts` in display order.
pub fn sort_tasks(ts: Vec<Task>) -> (r: Vec<Task>)
    ensures
        tasks_view(r@) == task_order(tasks_view(ts@)),
{
    let mut keys: Vec<i64> = Vec::new();
    let mut i: usize = 0;
    while i < ts.len()
        invariant
            i <= ts.len(),
            keys@ == tasks_view(ts@.subrange(0, i as int)).map_values(|t: TaskView| display_key(t)),
        decreases ts.len() - i,
    {
        keys.push(ts[i].display_key());
        assert(keys@ =~= tasks_view(ts@.subrange(0, i + 1)).map_values(
            |t: TaskView| display_key(t),
        ));
        i = i + 1;
    }
    assert(ts@.subrange(0, ts.len() as int) =~= ts@);
    let ghost items = ts@;
    let r = stable_sort_by_keys(ts, keys);
    proof {
        lemma_stable_sorted_map(items, keys@, |t: Task| t@);
    }
    r
}

/// The row of the first task titled `t`, or 0 if none is or `t` is `None`.
pub fn position_of_title(ts: &Vec<Task>, t: &Option<String>) -> (r: usize)
    ensures
        r == position_of(tasks_view(ts@), option_title(*t)),
{
    let ghost v = tasks_view(ts@);
    match t {
        None => 0,
        Some(title) => {
            assert(option_title(*t) == Some(title@));
            let mut i: usize = 0;
            while i < ts.len()
                invariant
                    i <= ts.len(),
                    v == tasks_view(ts@),
                    option_title(*t) == Some(title@),
                    forall|k: int| 0 <= k < i ==> v[k].title != title@,
                decreases ts.len() - i,
            {
                if ts[i].title == *title {
                    proof {
                        assert(v[i as int].title == title@);
                        assert(first_titled(v, title@, i as int));
                        let j = choose|j: int| first_titled(v, title@, j);
                        lemma_first_titled_unique(v, title@, i as int, j);
                        assert(first_position(v, title@) == i);
                    }
                    return i;
                }
                i = i + 1;
            }
            0
        },
    }
}

pub open spec fn option_title(t: Option<String>) -> Option<Seq<char>> {
    match t {
        Some(s) => Some(s@),
        None => None,
    }
}

/// The collection with the selected project's tasks replaced by `tasks`.
fn with_selected_tasks(app: &App, tasks: Vec<Task>) -> (r: Vec<Project>)
    requires
        app.wf(),
        app.selected_project_index.selected is Some,
    ensures
        projects_view(r@) == with_tasks(app.projects_v(), selected_project(app), tasks_view(tasks@)),
{
    let i = app.selected_project_index.selected.unwrap();
    let mut next = copy_projects(&app.projects);
    let title = app.projects[i].title.clone();
    next.set(i, Project { title, tasks });
    assert(projects_view(next@) =~= with_tasks(app.projects_v(), i as int, tasks_view(tasks@)));
    next
}

impl Task {
    /// The collection to persist after adding a task titled `value` to the selected
    /// project; `None` where `value` is empty.
    pub fn create(app: &App, value: String) -> (r: Option<Vec<Project>>)
        requires
            value@.len() > 0 ==> app.wf() && app.selected_project_index.selected is Some,
        ensures
            value@.len() == 0 ==> r is None,
            value@.len() > 0 ==> (r matches Some(v) && projects_view(v@) == with_tasks(
                app.projects_v(),
                selected_project(app),
                current_tasks(app).push(fresh_task(value@)),
            )),
    {
        if value.as_str().is_empty() {
            return None;
        }
        let i = app.selected_project_index.selected.unwrap();
        let mut ts = copy_tasks(&app.projects[i].tasks);
        ts.push(Task::fresh(value));
        assert(tasks_view(ts@) =~= current_tasks(app).push(fresh_task(value@)));
        Some(with_selected_tasks(app, ts))
    }

    /// The collection to persist after renaming the selected task.
    pub fn rename(app: &App, value: String) -> (r: Vec<Project>)
        requires
            app.wf(),
            app.task_cursor_fits(),
            app.selected_project_index.selected is Some,
            app.selected_task_index.selected is Some,
        ensures
            projects_view(r@) == with_tasks(
                app.projects_v(),
                selected_project(app),
                current_tasks(app).update(
                    selected_task(app),
                    TaskView { title: value@, ..current_tasks(app)[selected_task(app)] },
                ),
            ),
    {
        let i = app.selected_project_index.selected.unwrap();
        let j = app.selected_task_index.selected.unwrap();
        let mut ts = copy_tasks(&app.projects[i].tasks);
        let t = Task { title: value, status: ts[j].status, priority: ts[j].priority };
        ts.set(j, t);
        assert(tasks_view(ts@) =~= current_tasks(app).update(
            j as int,
            TaskView { title: value@, ..current_tasks(app)[j as int] },
        ));
        with_selected_tasks(app, ts)
    }

    /// The collection to persist after setting the selected task's status.
    pub fn change_status(app: &App, value: Status) -> (r: Vec<Project>)
        requires
            app.wf(),
            app.task_cursor_fits(),
            app.selected_project_index.selected is Some,
            app.selected_task_index.selected is Some,
        ensures
            projects_view(r@) == with_tasks(
                app.projects_v(),
                selected_project(app),
                current_tasks(app).update(
                    selected_task(app),
                    TaskView { status: value, ..current_tasks(app)[selected_task(app)] },
                ),
            ),
    {
        let i = app.selected_project_index.selected.unwrap();
        let j = app.selected_task_index.selected.unwrap();
        let mut ts = copy_tasks(&app.projects[i].tasks);
        let t = Task { title: ts[j].title.clone(), status: value, priority: ts[j].priority };
        ts.set(j, t);
        assert(tasks_view(ts@) =~= current_tasks(app).update(
            j as int,
            TaskView { status: value, ..current_tasks(app)[j as int] },
        ));
        with_selected_tasks(app, ts)
    }

    /// The collection to persist after setting the selected task's priority.
    pub fn change_priority(app: &App, value: Priority) -> (r: Vec<Project>)
        requires
            app.wf(),
            app.task_cursor_fits(),
            app.selected_project_index.selected is Some,
            app.selected_task_index.selected is Some,
        ensures
            projects_view(r@) == with_tasks(
                app.projects_v(),
                selected_project(app),
                current_tasks(app).update(
                    selected_task(app),
                    TaskView { priority: value, ..current_tasks(app)[selected_task(app)] },
                ),
            ),
    {
        let i = app.selected_project_index.selected.unwrap();
        let j = app.selected_task_index.selected.unwrap();
        let mut ts = copy_tasks(&app.projects[i].tasks);
        let t = Task { title: ts[j].title.clone(), status: ts[j].status, priority: value };
        ts.set(j, t);
        assert(tasks_view(ts@) =~= current_tasks(app).update(
            j as int,
            TaskView { priority: value, ..current_tasks(app)[j as int] },
        ));
        with_selected_tasks(app, ts)
    }

    /// The collection to persist after deleting the selected task.
    pub fn delete(app: &App) -> (r: Vec<Project>)
        requires
            app.wf(),
            app.task_cursor_fits(),
            app.selected_project_index.selected is Some,
            app.selected_task_index.selected is Some,
        ensures
            projects_view(r@) == with_tasks(
                app.projects_v(),
                selected_project(app),
                current_tasks(app).remove(selected_task(app)),
            ),
    {
        let i = app.selected_project_index.selected.unwrap();
        let j = app.selected_task_index.selected.unwrap();
        let mut ts = copy_tasks(&app.projects[i].tasks);
        ts.remove(j);
        assert(tasks_view(ts@) =~= current_tasks(app).remove(j as int));
        with_selected_tasks(app, ts)
    }

    /// Puts the selected project's tasks in display order, keeping the cursor on
    /// the task it was on.
    pub fn load_items(app: &mut App)
        requires
            old(app).wf(),
            old(app).selected_project_index.selected is Some,
        ensures
            final(app).wf(),
            final(app).task_cursor_fits(),
            final(app).projects_v() == with_tasks(
                old(app).projects_v(),
                selected_project(old(app)),
                task_order(current_tasks(old(app))),
            ),
            final(app).selected_task_index.selected == reselected(
                current_tasks(old(app)),
                old(app).selected_task_index.selected,
            ),
            final(app).view_mode == old(app).view_mode,
            final(app).selected_project_index == old(app).selected_project_index,
            final(app).selected_status_task_index == old(app).selected_status_task_index,
            final(app).selected_priority_task_index == old(app).selected_priority_task_index,
    {
        let i = app.selected_project_index.selected.unwrap();
        let ghost before = current_tasks(app);
        let at = match app.selected_task_index.selected {
            Some(j) => j,
            None => 0,
        };
        let remembered_title = if at < app.projects[i].tasks.len() {
            Some(app.projects[i].tasks[at].title.clone())
        } else {
            None
        };
        assert(option_title(remembered_title) == remembered(before, app.selected_task_index.selected));
        let sorted = sort_tasks(copy_tasks(&app.projects[i].tasks));
        let j = position_of_title(&sorted, &remembered_title);
        let n = sorted.len();
        let title = app.projects[i].title.clone();
        let ghost old_ps = app.projects_v();
        app.projects.set(i, Project { title, tasks: sorted });
        assert(app.projects_v() =~= with_tasks(old_ps, i as int, task_order(before)));
        proof {
            lemma_stable_sorted_len(before, before.map_values(|t: TaskView| display_key(t)));
        }
        app.selected_task_index.select(Some(j));
        app.selected_task_index.clamp(n);
    }

    /// Installs the collection read back after a task edit and puts the selected
    /// project's tasks in display order.
    pub fn reload(app: &mut App, loaded: Vec<Project>)
        requires
            old(app).wf(),
        ensures
            tasks_reloaded(final(app), old(app), loaded@, old(app).selected_task_index.selected, true),
    {
        Project::reload(app, loaded);
        if app.selected_project_index.selected.is_some() {
            Task::load_items(app);
        }
    }

    /// Installs the collection read back after deleting the selected task; the task
    /// cursor moves one row up, without wrapping, and is brought into the tasks.
    pub fn reload_after_delete(app: &mut App, loaded: Vec<Project>)
        requires
            old(app).wf(),
        ensures
            tasks_reloaded(
                final(app),
                old(app),
                loaded@,
                back_one(old(app).selected_task_index.selected),
                false,
            ),
    {
        app.selected_task_index.select_previous();
        Project::reload(app, loaded);
        if app.selected_project_index.selected.is_some() {
            let c = app.selected_task_index.selected;
            let ghost before = current_tasks(app);
            Task::load_items(app);
            proof {
                lemma_stable_sorted_len(before, before.map_values(|t: TaskView| display_key(t)));
            }
            app.selected_task_index.select(c);
        }
    }

    /// The selected task.
    pub fn get_current(app: &App) -> (r: &Task)
        requires
            app.wf(),
            app.task_cursor_fits(),
            app.selected_project_index.selected is Some,
            app.selected_task_index.selected is Some,
        ensures
            *r == app.projects@[selected_project(app)].tasks@[selected_task(app)],
    {
        &app.projects[app.selected_project_index.selected.unwrap()].tasks[app.selected_task_index.selected.unwrap()]
    }
}

/// The state after tasks are reloaded: the loaded collection with the selected
/// project's tasks in display order, the project cursor brought into the
/// collection, and the task cursor, from `task_cursor`, brought into the tasks
/// and then, where `by_title`, kept on the task it was on.
pub open spec fn tasks_reloaded(
    app: &App,
    old_app: &App,
    loaded: Seq<Project>,
    task_cursor: Option<usize>,
    by_title: bool,
) -> bool {
    let lv = projects_view(loaded);
    let pc = clamped(old_app.selected_project_index.selected, loaded.len() as int);
    &&& app.wf()
    &&& app.view_mode == old_app.view_mode
    &&& app.selected_project_index.selected == pc
    &&& app.selected_status_task_index == old_app.selected_status_task_index
    &&& app.selected_priority_task_index == old_app.selected_priority_task_index
    &&& match pc {
        Some(p) => {
            &&& app.projects_v() == with_tasks(lv, p as int, task_order(lv[p as int].tasks))
            &&& app.selected_task_index.selected == if by_title {
                reselected(lv[p as int].tasks, clamped(task_cursor, lv[p as int].tasks.len() as int))
            } else {
                clamped(task_cursor, lv[p as int].tasks.len() as int)
            }
        },
        None => app.projects_v() == lv && app.selected_task_index.selected is None,
    }
}

} // verus!
