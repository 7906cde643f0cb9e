//! The application state that the front end drives: the collection in memory,
//! the view mode, and one selection cursor for each of the four lists.

use crate::project::{projects_view, Project, ProjectView};
use crate::task::{Priority, Status, TASK_PRIORITIES, TASK_STATUSES};
use vstd::prelude::*;

verus! {

/// The highlighted row of a list, if any.
#[derive(Clone, Copy, Debug, PartialEq, Eq, Structural)]
pub struct Cursor {
    pub selected: Option<usize>,
}

/// A cursor is valid for a list of `len` rows when it names one of them, or
/// names none when the list is empty.
pub open spec fn cursor_valid(c: Option<usize>, len: int) -> bool {
    if len == 0 {
        c is None
    } else {
        c matches Some(i) && (i as int) < len
    }
}

/// `c` brought into a list of `len` rows: past the end it falls on the last row.
pub open spec fn clamped(c: Option<usize>, len: int) -> Option<usize> {
    if len <= 0 {
        None
    } else {
        match c {
            None => Some(0),
            Some(i) => if (i as int) < len {
                Some(i)
            } else {
                Some((len - 1) as usize)
            },
        }
    }
}

/// The row after `c`, wrapping from the last row to the first.
pub open spec fn advanced(c: Option<usize>, len: int) -> Option<usize> {
    if len <= 0 {
        None
    } else {
        match c {
            Some(i) => if (i as int) + 1 < len {
                Some((i + 1) as usize)
            } else {
                Some(0)
            },
            None => Some(0),
        }
    }
}

/// The row before `c`, wrapping from the first row to the last.
pub open spec fn retreated(c: Option<usize>, len: int) -> Option<usize> {
    if len <= 0 {
        None
    } else {
        match c {
            Some(i) => if i == 0 || (i as int) >= len {
                Some((len - 1) as usize)
            } else {
                Some((i - 1) as usize)
            },
            None => Some(0),
        }
    }
}

/// `c` one row up, stopping at the first row.
pub open spec fn back_one(c: Option<usize>) -> Option<usize> {
    match c {
        Some(i) => Some(if i == 0 { 0 } else { (i - 1) as usize }),
        None => None,
    }
}

impl Cursor {
    pub fn select(&mut self, i: Option<usize>)
        ensures
            final(self).selected == i,
    {
        self.selected = i;
    }

    pub fn selected(&self) -> (r: Option<usize>)
        ensures
            r == self.selected,
    {
        self.selected
    }

    /// Brings the cursor into a list of `len` rows.
    pub fn clamp(&mut self, len: usize)
        ensures
            final(self).selected == clamped(old(self).selected, len as int),
            cursor_valid(final(self).selected, len as int),
    {
        if len == 0 {
            self.selected = None;
        } else {
            match self.selected {
                None => self.selected = Some(0),
                Some(i) => if i >= len {
                    self.selected = Some(len - 1);
                },
            }
        }
    }

    /// Moves to the next row of a list of `len` rows.
    pub fn advance(&mut self, len: usize)
        ensures
            final(self).selected == advanced(old(self).selected, len as int),
            cursor_valid(final(self).selected, len as int),
    {
        if len == 0 {
            self.selected = None;
        } else {
            match self.selected {
                Some(i) => if i < len - 1 {
                    self.selected = Some(i + 1);
                } else {
                    self.selected = Some(0);
                },
                None => self.selected = Some(0),
            }
        }
    }

    /// Moves to the previous row of a list of `len` rows.
    pub fn retreat(&mut self, len: usize)
        ensures
            final(self).selected == retreated(old(self).selected, len as int),
            cursor_valid(final(self).selected, len as int),
    {
        if len == 0 {
            self.selected = None;
        } else {
            match self.selected {
                Some(i) => if i == 0 || i >= len {
                    self.selected = Some(len - 1);
                } else {
                    self.selected = Some(i - 1);
                },
                None => self.selected = Some(0),
            }
        }
    }

    /// Moves one row up without wrapping, as after the row under it was removed.
    pub fn select_previous(&mut self)
        ensures
            final(self).selected == back_one(old(self).selected),
    {
        match self.selected {
            Some(i) => if i > 0 {
                self.selected = Some(i - 1);
            },
            None => {},
        }
    }
}

/// What the front end shows, and which list its keys move in.
#[derive(Clone, Copy, Debug, PartialEq, Eq, Structural)]
pub enum ViewMode {
    ViewProjects,
    RenameProject,
    AddProject,
    DeleteProject,
    ViewTasks,
    RenameTask,
    ChangeStatusTask,
    ChangePriorityTask,
    AddTask,
    DeleteTask,
    InfoMigration,
}

/// The four navigable lists.
#[derive(Clone, Copy, Debug, PartialEq, Eq, Structural)]
pub enum ListKind {
    Projects,
    Tasks,
    Statuses,
    Priorities,
}

pub open spec fn list_of_mode(m: ViewMode) -> ListKind {
    match m {
        ViewMode::ViewProjects | ViewMode::RenameProject | ViewMode::AddProject
        | ViewMode::DeleteProject | ViewMode::InfoMigration => ListKind::Projects,
        ViewMode::ChangeStatusTask => ListKind::Statuses,
        ViewMode::ChangePriorityTask => ListKind::Priorities,
        _ => ListKind::Tasks,
    }
}

/// The modes in which the selected project's tasks are shown.
pub open spec fn is_task_mode(m: ViewMode) -> bool {
    m == ViewMode::ViewTasks || m == ViewMode::RenameTask || m == ViewMode::ChangeStatusTask
        || m == ViewMode::ChangePriorityTask || m == ViewMode::AddTask || m == ViewMode::DeleteTask
}

pub struct App {
    pub selected_project_index: Cursor,
    pub selected_task_index: Cursor,
    pub selected_status_task_index: Cursor,
    pub selected_priority_task_index: Cursor,
    pub view_mode: ViewMode,
    pub projects: Vec<Project>,
}

/// The number of tasks of the project that `c` selects in `ps`, 0 if none.
pub open spec fn task_count(ps: Seq<ProjectView>, c: Option<usize>) -> int {
    match c {
        Some(i) => if (i as int) < ps.len() {
            ps[i as int].tasks.len() as int
        } else {
            0
        },
        None => 0,
    }
}

impl App {
    pub open spec fn projects_v(&self) -> Seq<ProjectView> {
        projects_view(self.projects@)
    }

    pub open spec fn task_len(&self) -> int {
        task_count(self.projects_v(), self.selected_project_index.selected)
    }

    pub open spec fn list_len(&self, k: ListKind) -> int {
        match k {
            ListKind::Projects => self.projects@.len() as int,
            ListKind::Tasks => self.task_len(),
            ListKind::Statuses => 5,
            ListKind::Priorities => 4,
        }
    }

    pub open spec fn cursor_of(&self, k: ListKind) -> Option<usize> {
        match k {
            ListKind::Projects => self.selected_project_index.selected,
            ListKind::Tasks => self.selected_task_index.selected,
            ListKind::Statuses => self.selected_status_task_index.selected,
            ListKind::Priorities => self.selected_priority_task_index.selected,
        }
    }

    /// The task cursor names a task of the selected project, or none when it has none.
    pub open spec fn task_cursor_fits(&self) -> bool {
        cursor_valid(self.selected_task_index.selected, self.task_len())
    }

    /// Every cursor names a row of its list, or none when that list is empty;
    /// the task cursor is held to the selected project's tasks while they are
    /// shown, and is brought into them when they are entered.
    pub open spec fn wf(&self) -> bool {
        &&& cursor_valid(self.selected_project_index.selected, self.projects@.len() as int)
        &&& (is_task_mode(self.view_mode) ==> self.task_cursor_fits())
        &&& cursor_valid(self.selected_status_task_index.selected, 5)
        &&& cursor_valid(self.selected_priority_task_index.selected, 4)
    }

    /// The state at start-up over the collection read from the store.
    pub fn setup(projects: Vec<Project>) -> (r: App)
        ensures
            r.wf(),
            r.task_cursor_fits(),
            r.projects@ == projects@,
            r.view_mode == ViewMode::ViewProjects,
            r.selected_project_index.selected == clamped(Some(0), projects@.len() as int),
            r.selected_task_index.selected == clamped(Some(0), r.task_len()),
            r.selected_status_task_index.selected == Some(0usize),
            r.selected_priority_task_index.selected == Some(0usize),
    {
        let mut app = App {
            selected_project_index: Cursor { selected: Some(0) },
            selected_task_index: Cursor { selected: Some(0) },
            selected_status_task_index: Cursor { selected: Some(0) },
            selected_priority_task_index: Cursor { selected: Some(0) },
            view_mode: ViewMode::ViewProjects,
            projects,
        };
        app.clamp_cursors();
        app
    }

    /// The number of tasks of the selected project, 0 if none is selected.
    pub fn task_len_exec(&self) -> (r: usize)
        ensures
            r == self.task_len(),
    {
        match self.selected_project_index.selected {
            Some(i) => if i < self.projects.len() {
                self.projects[i].tasks.len()
            } else {
                0
            },
            None => 0,
        }
    }

    /// Brings the project cursor, then the task cursor, into their lists.
    pub fn clamp_cursors(&mut self)
        requires
            cursor_valid(old(self).selected_status_task_index.selected, 5),
            cursor_valid(old(self).selected_priority_task_index.selected, 4),
        ensures
            final(self).wf(),
            final(self).task_cursor_fits(),
            final(self).projects == old(self).projects,
            final(self).view_mode == old(self).view_mode,
            final(self).selected_project_index.selected == clamped(
                old(self).selected_project_index.selected,
                old(self).projects@.len() as int,
            ),
            final(self).selected_task_index.selected == clamped(
                old(self).selected_task_index.selected,
                final(self).task_len(),
            ),
            final(self).selected_status_task_index == old(self).selected_status_task_index,
            final(self).selected_priority_task_index == old(self).selected_priority_task_index,
    {
        let n = self.projects.len();
        self.selected_project_index.clamp(n);
        let t = self.task_len_exec();
        self.selected_task_index.clamp(t);
    }

    /// The list that the keys move in, in the current view mode.
    pub fn use_state(&self) -> (r: ListKind)
        ensures
            r == list_of_mode(self.view_mode),
    {
        match self.view_mode {
            ViewMode::ViewProjects | ViewMode::RenameProject | ViewMode::AddProject
            | ViewMode::DeleteProject | ViewMode::InfoMigration => ListKind::Projects,
            ViewMode::ChangeStatusTask => ListKind::Statuses,
            ViewMode::ChangePriorityTask => ListKind::Priorities,
            _ => ListKind::Tasks,
        }
    }

    pub fn change_view(&mut self, mode: ViewMode)
        ensures
            final(self).view_mode == mode,
            final(self).projects == old(self).projects,
            final(self).selected_project_index == old(self).selected_project_index,
            final(self).selected_task_index == old(self).selected_task_index,
            final(self).selected_status_task_index == old(self).selected_status_task_index,
            final(self).selected_priority_task_index == old(self).selected_priority_task_index,
    {
        self.view_mode = mode;
    }

    /// Moves the cursor of the current list one row down, wrapping at the end.
    pub fn next(&mut self)
        requires
            old(self).wf(),
        ensures
            final(self).wf(),
            final(self).projects == old(self).projects,
            final(self).view_mode == old(self).view_mode,
            final(self).cursor_of(list_of_mode(old(self).view_mode)) == advanced(
                old(self).cursor_of(list_of_mode(old(self).view_mode)),
                old(self).list_len(list_of_mode(old(self).view_mode)),
            ),
            forall|k: ListKind|
                k != list_of_mode(old(self).view_mode) ==> (#[trigger] final(self).cursor_of(k))
                    == old(self).cursor_of(k),
    {
        match self.use_state() {
            ListKind::Projects => {
                let n = self.projects.len();
                self.selected_project_index.advance(n);
            },
            ListKind::Tasks => {
                let t = self.task_len_exec();
                self.selected_task_index.advance(t);
            },
            ListKind::Statuses => self.selected_status_task_index.advance(5),
            ListKind::Priorities => self.selected_priority_task_index.advance(4),
        }
    }

    /// Moves the cursor of the current list one row up, wrapping at the start.
    pub fn previous(&mut self)
        requires
            old(self).wf(),
        ensures
            final(self).wf(),
            final(self).projects == old(self).projects,
            final(self).view_mode == old(self).view_mode,
            final(self).cursor_of(list_of_mode(old(self).view_mode)) == retreated(
                old(self).cursor_of(list_of_mode(old(self).view_mode)),
                old(self).list_len(list_of_mode(old(self).view_mode)),
            ),
            forall|k: ListKind|
                k != list_of_mode(old(self).view_mode) ==> (#[trigger] final(self).cursor_of(k))
                    == old(self).cursor_of(k),
    {
        match self.use_state() {
            ListKind::Projects => {
                let n = self.projects.len();
                self.selected_project_index.retreat(n);
            },
            ListKind::Tasks => {
                let t = self.task_len_exec();
                self.selected_task_index.retreat(t);
            },
            ListKind::Statuses => self.selected_status_task_index.retreat(5),
            ListKind::Priorities => self.selected_priority_task_index.retreat(4),
        }
    }

    /// The status that the status list's cursor names.
    pub fn selected_status(&self) -> (r: Option<Status>)
        ensures
            r == (match self.selected_status_task_index.selected {
                Some(i) => if i < 5 {
                    Some(TASK_STATUSES[i as int])
                } else {
                    None
                },
                None => None,
            }),
    {
        match self.selected_status_task_index.selected {
            Some(i) => if i < 5 {
                Some(TASK_STATUSES[i])
            } else {
                None
            },
            None => None,
        }
    }

    /// The priority that the priority list's cursor names.
    pub fn selected_priority(&self) -> (r: Option<Priority>)
        ensures
            r == (match self.selected_priority_task_index.selected {
                Some(i) => if i < 4 {
                    Some(TASK_PRIORITIES[i as int])
                } else {
                    None
                },
                None => None,
            }),
    {
        match self.selected_priority_task_index.selected {
            Some(i) => if i < 4 {
                Some(TASK_PRIORITIES[i])
            } else {
                None
            },
            None => None,
        }
    }
}

/// Deleting the last of `n` rows while the cursor is on it leaves the cursor on
/// the row before, or on none when no row is left.
pub proof fn lemma_delete_last_selection(n: usize)
    requires
        n >= 1,
    ensures
        clamped(back_one(Some((n - 1) as usize)), n - 1) == if n == 1 {
            None
        } else {
            Some((n - 2) as usize)
        },
{
}

} // verus!
