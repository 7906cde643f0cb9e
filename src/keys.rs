//! What a key press does: the next view mode, the cursor moves, and the
//! effect that the front end carries out (persisting a collection, editing
//! the text input, quitting).

use crate::date::{date_title, valid_date, Date};
use crate::project::{created, projects_view, renamed, selected_project, Project, ProjectView};
use crate::state::{advanced, clamped, list_of_mode, retreated, App, ListKind, ViewMode};
use crate::task::{
    current_tasks, fresh_task, priority_rank, selected_task, status_rank, task_order, with_tasks,
    Task, TaskView, TASK_PRIORITIES, TASK_STATUSES,
};
use vstd::prelude::*;

verus! {

/// A key, as far as the front end tells keys apart.
#[derive(Clone, Copy, Debug, PartialEq, Eq, Structural)]
pub enum Key {
    Enter,
    Esc,
    Up,
    Down,
    Left,
    Right,
    Char(char),
    Other,
}

/// How the state is installed after a collection is persisted and read back.
#[derive(Clone, Copy, Debug, PartialEq, Eq, Structural)]
pub enum Reload {
    Projects,
    ProjectsAfterDelete,
    Tasks,
    TasksAfterDelete,
}

/// What happens to the text input.
#[derive(Debug)]
pub enum InputChange {
    Keep,
    /// The key edits the text.
    Edit,
    /// The text is cleared.
    Reset,
    /// The text is replaced.
    Fill(String),
}

/// What the front end carries out after a key press.
pub struct Effect {
    /// A collection to persist, and how to install what reads back.
    pub persist: Option<(Vec<Project>, Reload)>,
    pub input: InputChange,
    pub quit: bool,
}

pub open spec fn is_char(k: Key, c: char) -> bool {
    k == Key::Char(c)
}

/// The view mode after key `k` in mode `m`; `has_project` and `has_task` tell
/// whether a project, and a task of it, is selected.
pub open spec fn next_mode(m: ViewMode, k: Key, has_project: bool, has_task: bool) -> ViewMode {
    match m {
        ViewMode::ViewProjects => if (k == Key::Enter || k == Key::Right || is_char(k, 'l'))
            && has_project {
            ViewMode::ViewTasks
        } else if is_char(k, 'r') && has_project {
            ViewMode::RenameProject
        } else if is_char(k, 'a') || is_char(k, 'n') {
            ViewMode::AddProject
        } else if is_char(k, 'd') && has_project {
            ViewMode::DeleteProject
        } else {
            m
        },
        ViewMode::RenameProject | ViewMode::AddProject => if k == Key::Enter || k == Key::Esc {
            ViewMode::ViewProjects
        } else {
            m
        },
        ViewMode::DeleteProject => if is_char(k, 'y') || is_char(k, 'n') {
            ViewMode::ViewProjects
        } else {
            m
        },
        ViewMode::ViewTasks => if k == Key::Esc || k == Key::Left || is_char(k, 'h') {
            ViewMode::ViewProjects
        } else if k == Key::Enter && has_task {
            ViewMode::ChangeStatusTask
        } else if is_char(k, 'p') && has_task {
            ViewMode::ChangePriorityTask
        } else if is_char(k, 'r') && has_task {
            ViewMode::RenameTask
        } else if is_char(k, 'a') || is_char(k, 'n') {
            ViewMode::AddTask
        } else if is_char(k, 'd') && has_task {
            ViewMode::DeleteTask
        } else {
            m
        },
        ViewMode::RenameTask | ViewMode::AddTask | ViewMode::ChangeStatusTask
        | ViewMode::ChangePriorityTask => if k == Key::Enter || k == Key::Esc {
            ViewMode::ViewTasks
        } else {
            m
        },
        ViewMode::DeleteTask => if is_char(k, 'y') || is_char(k, 'n') {
            ViewMode::ViewTasks
        } else {
            m
        },
        ViewMode::InfoMigration => ViewMode::ViewProjects,
    }
}

/// The key quits.
pub open spec fn quits(m: ViewMode, k: Key) -> bool {
    (m == ViewMode::ViewProjects || m == ViewMode::ViewTasks) && is_char(k, 'q')
}

/// The key moves the cursor of the current list down or up.
pub open spec fn moves(m: ViewMode, k: Key) -> Option<bool> {
    if m == ViewMode::ViewProjects || m == ViewMode::ViewTasks || m == ViewMode::ChangeStatusTask
        || m == ViewMode::ChangePriorityTask {
        if k == Key::Down || is_char(k, 'j') {
            Some(true)
        } else if k == Key::Up || is_char(k, 'k') {
            Some(false)
        } else {
            None
        }
    } else {
        None
    }
}

/// The key goes to the text input.
pub open spec fn edits(m: ViewMode, k: Key) -> bool {
    (m == ViewMode::RenameProject || m == ViewMode::AddProject || m == ViewMode::RenameTask
        || m == ViewMode::AddTask) && k != Key::Enter && k != Key::Esc
}

/// The key clears the text input.
pub open spec fn resets(m: ViewMode, k: Key) -> bool {
    ||| (m == ViewMode::RenameProject || m == ViewMode::RenameTask) && (k == Key::Enter || k
        == Key::Esc)
    ||| (m == ViewMode::ViewProjects || m == ViewMode::ViewTasks) && (is_char(k, 'a') || is_char(
        k,
        'n',
    ))
}

/// The key starts a rename, filling the text input with the current title.
pub open spec fn fills(m: ViewMode, k: Key, has_project: bool, has_task: bool) -> bool {
    is_char(k, 'r') && ((m == ViewMode::ViewProjects && has_project) || (m == ViewMode::ViewTasks
        && has_task))
}

pub open spec fn persisted(e: &Effect) -> Option<(Seq<ProjectView>, Reload)> {
    match e.persist {
        Some((ps, how)) => Some((projects_view(ps@), how)),
        None => None,
    }
}

/// The collection to persist after key `k`, given the text `text`, and how to
/// install it; `None` where the key persists nothing.
pub open spec fn persist_of(app: &App, k: Key, text: Seq<char>) -> Option<
    (Seq<ProjectView>, Reload),
> {
    let ps = app.projects_v();
    let has_project = app.selected_project_index.selected is Some;
    let has_task = has_project && app.selected_task_index.selected is Some;
    let p = selected_project(app);
    let t = selected_task(app);
    match app.view_mode {
        ViewMode::RenameProject => if k == Key::Enter && has_project {
            Some((renamed(ps, p, text), Reload::Projects))
        } else {
            None
        },
        ViewMode::AddProject => if k == Key::Enter && text.len() > 0 {
            match created(ps, text) {
                Some(next) => Some((next, Reload::Projects)),
                None => None,
            }
        } else {
            None
        },
        ViewMode::DeleteProject => if is_char(k, 'y') && has_project {
            Some((ps.remove(p), Reload::ProjectsAfterDelete))
        } else {
            None
        },
        ViewMode::RenameTask => if k == Key::Enter && has_task {
            Some(
                (
                    with_tasks(
                        ps,
                        p,
                        current_tasks(app).update(t, TaskView { title: text, ..current_tasks(app)[t] }),
                    ),
                    Reload::Tasks,
                ),
            )
        } else {
            None
        },
        ViewMode::ChangeStatusTask => match app.selected_status_task_index.selected {
            Some(i) => if k == Key::Enter && has_task && i < 5 {
                Some(
                    (
                        with_tasks(
                            ps,
                            p,
                            current_tasks(app).update(
                                t,
                                TaskView { status: TASK_STATUSES[i as int], ..current_tasks(app)[t] },
                            ),
                        ),
                        Reload::Tasks,
                    ),
                )
            } else {
                None
            },
            None => None,
        },
        ViewMode::ChangePriorityTask => match app.selected_priority_task_index.selected {
            Some(i) => if k == Key::Enter && has_task && i < 4 {
                Some(
                    (
                        with_tasks(
                            ps,
                            p,
                            current_tasks(app).update(
                                t,
                                TaskView { priority: TASK_PRIORITIES[i as int], ..current_tasks(app)[t] },
                            ),
                        ),
                        Reload::Tasks,
                    ),
                )
            } else {
                None
            },
            None => None,
        },
        ViewMode::AddTask => if k == Key::Enter && has_project && text.len() > 0 {
            Some((with_tasks(ps, p, current_tasks(app).push(fresh_task(text))), Reload::Tasks))
        } else {
            None
        },
        ViewMode::DeleteTask => if is_char(k, 'y') && has_task {
            Some((with_tasks(ps, p, current_tasks(app).remove(t)), Reload::TasksAfterDelete))
        } else {
            None
        },
        _ => None,
    }
}

pub open spec fn has_project(app: &App) -> bool {
    app.selected_project_index.selected is Some
}

pub open spec fn has_task(app: &App) -> bool {
    has_project(app) && app.selected_task_index.selected is Some
}

/// The key opens the selected project's tasks.
pub open spec fn opens_tasks(app: &App, k: Key) -> bool {
    app.view_mode == ViewMode::ViewProjects && (k == Key::Enter || k == Key::Right || is_char(k, 'l'))
        && has_project(app)
}

pub open spec fn as_created(r: Option<Seq<ProjectView>>) -> Option<(Seq<ProjectView>, Reload)> {
    match r {
        Some(ps) => Some((ps, Reload::Projects)),
        None => None,
    }
}

fn wrap_persist(r: Option<Vec<Project>>, how: Reload) -> (e: Option<(Vec<Project>, Reload)>)
    ensures
        match r {
            Some(ps) => e matches Some(p) && p.1 == how && projects_view(p.0@) == projects_view(ps@),
            None => e is None,
        },
{
    match r {
        Some(ps) => Some((ps, how)),
        None => None,
    }
}

impl App {
    /// Handles one key press given the text of the input field: moves the
    /// cursors, switches the view mode, and says what the front end does next.
    #[verifier::rlimit(60)]
    pub fn handle_key(&mut self, key: Key, text: &String) -> (r: Effect)
        requires
            old(self).wf(),
        ensures
            final(self).wf(),
            final(self).view_mode == next_mode(
                old(self).view_mode,
                key,
                has_project(old(self)),
                has_task(old(self)),
            ),
            r.quit == quits(old(self).view_mode, key),
            (r.input is Edit) == edits(old(self).view_mode, key),
            (r.input is Reset) == resets(old(self).view_mode, key),
            (r.input is Fill) == fills(
                old(self).view_mode,
                key,
                has_project(old(self)),
                has_task(old(self)),
            ),
            r.input matches InputChange::Fill(t) ==> t@ == if old(self).view_mode
                == ViewMode::ViewProjects {
                old(self).projects_v()[selected_project(old(self))].title
            } else {
                current_tasks(old(self))[selected_task(old(self))].title
            },
            !(old(self).view_mode == ViewMode::AddProject && key == Key::Enter && text@.len() == 0)
                ==> persisted(&r) == persist_of(old(self), key, text@),
            old(self).view_mode == ViewMode::AddProject && key == Key::Enter && text@.len() == 0
                ==> exists|d: Date|
                valid_date(d) && persisted(&r) == as_created(
                    created(old(self).projects_v(), #[trigger] date_title(d)),
                ),
            moves(old(self).view_mode, key) == Some(true) ==> final(self).cursor_of(
                list_of_mode(old(self).view_mode),
            ) == advanced(
                old(self).cursor_of(list_of_mode(old(self).view_mode)),
                old(self).list_len(list_of_mode(old(self).view_mode)),
            ),
            moves(old(self).view_mode, key) == Some(false) ==> final(self).cursor_of(
                list_of_mode(old(self).view_mode),
            ) == retreated(
                old(self).cursor_of(list_of_mode(old(self).view_mode)),
                old(self).list_len(list_of_mode(old(self).view_mode)),
            ),
            opens_tasks(old(self), key) ==> final(self).projects_v() == with_tasks(
                old(self).projects_v(),
                selected_project(old(self)),
                task_order(current_tasks(old(self))),
            ) && final(self).selected_task_index.selected == clamped(
                Some(0),
                current_tasks(old(self)).len() as int,
            ),
            !opens_tasks(old(self), key) ==> final(self).projects == old(self).projects,
            old(self).view_mode == ViewMode::ViewTasks && key == Key::Enter && has_task(old(self))
                ==> final(self).selected_status_task_index.selected == Some(
                status_rank(current_tasks(old(self))[selected_task(old(self))].status) as usize,
            ),
            old(self).view_mode == ViewMode::ViewTasks && is_char(key, 'p') && has_task(old(self))
                ==> final(self).selected_priority_task_index.selected == Some(
                priority_rank(current_tasks(old(self))[selected_task(old(self))].priority) as usize,
            ),
            old(self).view_mode == ViewMode::ChangeStatusTask && key == Key::Enter
                ==> final(self).selected_status_task_index.selected == Some(0usize),
            old(self).view_mode == ViewMode::ChangePriorityTask && key == Key::Enter
                ==> final(self).selected_priority_task_index.selected == Some(0usize),
    {
        let project = self.selected_project_index.selected.is_some();
        let task = project && self.selected_task_index.selected.is_some();
        let mut effect = Effect { persist: None, input: InputChange::Keep, quit: false };
        let down = key == Key::Down || key == Key::Char('j');
        let up = key == Key::Up || key == Key::Char('k');
        match self.view_mode {
            ViewMode::ViewProjects => {
                if (key == Key::Enter || key == Key::Right || key == Key::Char('l')) && project {
                    Task::load_items(self);
                    self.selected_task_index.select(Some(0));
                    let n = self.task_len_exec();
                    self.selected_task_index.clamp(n);
                    self.view_mode = ViewMode::ViewTasks;
                } else if key == Key::Char('r') && project {
                    effect.input = InputChange::Fill(Project::get_current(self).title.clone());
                    self.view_mode = ViewMode::RenameProject;
                } else if key == Key::Char('a') || key == Key::Char('n') {
                    effect.input = InputChange::Reset;
                    self.view_mode = ViewMode::AddProject;
                } else if key == Key::Char('d') && project {
                    self.view_mode = ViewMode::DeleteProject;
                } else if down {
                    self.next();
                } else if up {
                    self.previous();
                } else if key == Key::Char('q') {
                    effect.quit = true;
                }
            },
            ViewMode::RenameProject => {
                if key == Key::Enter {
                    if project {
                        effect.persist = Some((Project::rename(self, text.clone()), Reload::Projects));
                    }
                    effect.input = InputChange::Reset;
                    self.view_mode = ViewMode::ViewProjects;
                } else if key == Key::Esc {
                    effect.input = InputChange::Reset;
                    self.view_mode = ViewMode::ViewProjects;
                } else {
                    effect.input = InputChange::Edit;
                }
            },
            ViewMode::AddProject => {
                if key == Key::Enter {
                    effect.persist = wrap_persist(Project::create(self, text.clone()), Reload::Projects);
                    self.view_mode = ViewMode::ViewProjects;
                } else if key == Key::Esc {
                    self.view_mode = ViewMode::ViewProjects;
                } else {
                    effect.input = InputChange::Edit;
                }
            },
            ViewMode::DeleteProject => {
                if key == Key::Char('y') {
                    if project {
                        effect.persist = Some((Project::delete(self), Reload::ProjectsAfterDelete));
                    }
                    self.view_mode = ViewMode::ViewProjects;
                } else if key == Key::Char('n') {
                    self.view_mode = ViewMode::ViewProjects;
                }
            },
            ViewMode::ViewTasks => {
                if key == Key::Esc || key == Key::Left || key == Key::Char('h') {
                    self.view_mode = ViewMode::ViewProjects;
                } else if key == Key::Enter && task {
                    let rank = Task::get_current(self).status.rank();
                    self.selected_status_task_index.select(Some(rank as usize));
                    self.view_mode = ViewMode::ChangeStatusTask;
                } else if key == Key::Char('p') && task {
                    let rank = Task::get_current(self).priority.rank();
                    self.selected_priority_task_index.select(Some(rank as usize));
                    self.view_mode = ViewMode::ChangePriorityTask;
                } else if key == Key::Char('r') && task {
                    effect.input = InputChange::Fill(Task::get_current(self).title.clone());
                    self.view_mode = ViewMode::RenameTask;
                } else if key == Key::Char('a') || key == Key::Char('n') {
                    effect.input = InputChange::Reset;
                    self.view_mode = ViewMode::AddTask;
                } else if key == Key::Char('d') && task {
                    self.view_mode = ViewMode::DeleteTask;
                } else if down {
                    self.next();
                } else if up {
                    self.previous();
                } else if key == Key::Char('q') {
                    effect.quit = true;
                }
            },
            ViewMode::RenameTask => {
                if key == Key::Enter {
                    if task {
                        effect.persist = Some((Task::rename(self, text.clone()), Reload::Tasks));
                    }
                    effect.input = InputChange::Reset;
                    self.view_mode = ViewMode::ViewTasks;
                } else if key == Key::Esc {
                    effect.input = InputChange::Reset;
                    self.view_mode = ViewMode::ViewTasks;
                } else {
                    effect.input = InputChange::Edit;
                }
            },
            ViewMode::ChangeStatusTask => {
                if key == Key::Enter {
                    if task {
                        if let Some(status) = self.selected_status() {
                            effect.persist = Some((Task::change_status(self, status), Reload::Tasks));
                        }
                    }
                    self.selected_status_task_index.select(Some(0));
                    self.view_mode = ViewMode::ViewTasks;
                } else if down {
                    self.next();
                } else if up {
                    self.previous();
                } else if key == Key::Esc {
                    self.view_mode = ViewMode::ViewTasks;
                }
            },
            ViewMode::ChangePriorityTask => {
                if key == Key::Enter {
                    if task {
                        if let Some(priority) = self.selected_priority() {
                            effect.persist = Some((Task::change_priority(self, priority), Reload::Tasks));
                        }
                    }
                    self.selected_priority_task_index.select(Some(0));
                    self.view_mode = ViewMode::ViewTasks;
                } else if down {
                    self.next();
                } else if up {
                    self.previous();
                } else if key == Key::Esc {
                    self.view_mode = ViewMode::ViewTasks;
                }
            },
            ViewMode::AddTask => {
                if key == Key::Enter {
                    if project {
                        effect.persist = wrap_persist(Task::create(self, text.clone()), Reload::Tasks);
                    }
                    self.view_mode = ViewMode::ViewTasks;
                } else if key == Key::Esc {
                    self.view_mode = ViewMode::ViewTasks;
                } else {
                    effect.input = InputChange::Edit;
                }
            },
            ViewMode::DeleteTask => {
                if key == Key::Char('y') {
                    if task {
                        effect.persist = Some((Task::delete(self), Reload::TasksAfterDelete));
                    }
                    self.view_mode = ViewMode::ViewTasks;
                } else if key == Key::Char('n') {
                    self.view_mode = ViewMode::ViewTasks;
                }
            },
            ViewMode::InfoMigration => {
                self.view_mode = ViewMode::ViewProjects;
            },
        }
        effect
    }
}

} // verus!
