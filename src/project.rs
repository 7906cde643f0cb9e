//! Projects: title-keyed edits of the collection, its display order, and the
//! daily backfill.

use crate::date::{
    date_le, date_rank, lemma_next_date, date_title, format_date, is_last_date, next_date, next_day,
    parse_title_date, parsed_date, valid_date, Date,
};
use crate::date::today;
use crate::state::{back_one, clamped, App};
use crate::sort::{lemma_stable_sorted_by, lemma_stable_sorted_identity, lemma_stable_sorted_map, stable_sort_by_keys, stable_sorted};
use crate::task::{Status, copy_tasks, tasks_view, template, template_tasks, Task, TaskView};
use vstd::prelude::*;

verus! {

pub struct Project {
    pub title: String,
    pub tasks: Vec<Task>,
}

pub struct ProjectView {
    pub title: Seq<char>,
    pub tasks: Seq<TaskView>,
}

impl View for Project {
    type V = ProjectView;

    open spec fn view(&self) -> ProjectView {
        ProjectView { title: self.title@, tasks: tasks_view(self.tasks@) }
    }
}

pub open spec fn projects_view(s: Seq<Project>) -> Seq<ProjectView> {
    s.map_values(|p: Project| p@)
}

/// Some project of `ps` has the title `t`; projects are equal when their titles are.
pub open spec fn has_title(ps: Seq<ProjectView>, t: Seq<char>) -> bool {
    exists|i: int| 0 <= i < ps.len() && #[trigger] ps[i].title == t
}

pub open spec fn new_project(t: Seq<char>) -> ProjectView {
    ProjectView { title: t, tasks: template_tasks() }
}

/// `ps` with a new project titled `t` at its end, unless one has that title.
pub open spec fn with_project(ps: Seq<ProjectView>, t: Seq<char>) -> Seq<ProjectView> {
    if has_title(ps, t) {
        ps
    } else {
        ps.push(new_project(t))
    }
}

/// `ps` after a project has been created for each title of `ts` in turn.
pub open spec fn with_titles(ps: Seq<ProjectView>, ts: Seq<Seq<char>>) -> Seq<ProjectView>
    decreases ts.len(),
{
    if ts.len() == 0 {
        ps
    } else {
        with_titles(with_project(ps, ts[0]), ts.drop_first())
    }
}

pub open spec fn days_left(d: Date, last: Date) -> nat {
    if date_rank(d) <= date_rank(last) {
        (date_rank(last) - date_rank(d)) as nat
    } else {
        0
    }
}

/// The days from `d` to `last`, both included.
pub open spec fn days_from(d: Date, last: Date) -> Seq<Date>
    decreases days_left(d, last),
    via days_from_decreases
{
    if !valid_date(d) || date_rank(last) < date_rank(d) {
        Seq::empty()
    } else if date_rank(d) == date_rank(last) || is_last_date(d) {
        seq![d]
    } else {
        seq![d] + days_from(next_date(d), last)
    }
}

#[via_fn]
proof fn days_from_decreases(d: Date, last: Date) {
    if valid_date(d) && !is_last_date(d) {
        lemma_next_date(d);
    }
}

pub open spec fn titles_of(days: Seq<Date>) -> Seq<Seq<char>> {
    days.map_values(|d: Date| date_title(d))
}

/// `ps` after a project has been created for each day from `first` to `today`.
pub open spec fn backfilled(ps: Seq<ProjectView>, first: Date, today: Date) -> Seq<ProjectView> {
    with_titles(ps, titles_of(days_from(first, today)))
}

/// The key by which a project is listed: projects without a date first.
pub open spec fn date_key(d: Option<Date>) -> i64 {
    match d {
        None => i64::MIN,
        Some(d) => date_rank(d) as i64,
    }
}

/// `ps` listed by the dates given for them: undated ones first in their own
/// order, then the dated ones by date, equal dates in their own order.
pub open spec fn order_by(ps: Seq<ProjectView>, dates: Seq<Option<Date>>) -> Seq<ProjectView> {
    stable_sorted(ps, dates.map_values(|d: Option<Date>| date_key(d)))
}

pub open spec fn title_dates(ps: Seq<ProjectView>) -> Seq<Option<Date>> {
    ps.map_values(|p: ProjectView| parsed_date(p.title))
}

/// `ps` in display order, by the dates that their titles spell.
pub open spec fn display_order(ps: Seq<ProjectView>) -> Seq<ProjectView> {
    order_by(ps, title_dates(ps))
}

pub fn date_key_of(d: Option<Date>) -> (r: i64)
    ensures
        r == date_key(d),
{
    match d {
        None => i64::MIN,
        Some(d) => (d.year as i64) * 372 + (d.month as i64) * 31 + (d.day as i64),
    }
}

impl Project {
    /// A new project titled `title`, holding the template tasks.
    pub fn fresh(title: String) -> (r: Project)
        ensures
            r@ == new_project(title@),
    {
        Project { title, tasks: template() }
    }

    /// A copy of the project.
    pub fn duplicate(&self) -> (r: Project)
        ensures
            r@ == self@,
    {
        Project { title: self.title.clone(), tasks: copy_tasks(&self.tasks) }
    }
}

/// A copy of a collection of projects.
pub fn copy_projects(ps: &Vec<Project>) -> (r: Vec<Project>)
    ensures
        r@.len() == ps@.len(),
        projects_view(r@) == projects_view(ps@),
{
    let mut r: Vec<Project> = Vec::new();
    let mut i: usize = 0;
    while i < ps.len()
        invariant
            i <= ps.len(),
            r@.len() == i,
            forall|k: int| 0 <= k < i ==> #[trigger] r@[k]@ == ps@[k]@,
        decreases ps.len() - i,
    {
        r.push(ps[i].duplicate());
        i = i + 1;
    }
    assert(projects_view(r@) =~= projects_view(ps@));
    r
}

/// Whether a project of `ps` is titled `title`.
pub fn contains_title(ps: &Vec<Project>, title: &String) -> (r: bool)
    ensures
        r == has_title(projects_view(ps@), title@),
{
    let ghost v = projects_view(ps@);
    let mut i: usize = 0;
    while i < ps.len()
        invariant
            i <= ps.len(),
            v == projects_view(ps@),
            forall|k: int| 0 <= k < i ==> v[k].title != title@,
        decreases ps.len() - i,
    {
        if ps[i].title == *title {
            assert(v[i as int].title == title@);
            return true;
        }
        i = i + 1;
    }
    false
}

/// Creates a project titled `title` at the end of `ps`, unless one has that title.
pub fn add_project(ps: &mut Vec<Project>, title: String)
    ensures
        projects_view(final(ps)@) == with_project(projects_view(old(ps)@), title@),
{
    if !contains_title(ps, &title) {
        let p = Project::fresh(title);
        ps.push(p);
        assert(projects_view(ps@) =~= projects_view(old(ps)@).push(new_project(title@)));
    }
}

/// `ps` listed by the given dates, `dates[i]` being the date of `ps[i]`.
pub fn order_by_dates(ps: Vec<Project>, dates: Vec<Option<Date>>) -> (r: Vec<Project>)
    requires
        ps.len() == dates.len(),
    ensures
        projects_view(r@) == order_by(projects_view(ps@), dates@),
{
    let mut keys: Vec<i64> = Vec::new();
    let mut i: usize = 0;
    while i < dates.len()
        invariant
            i <= dates.len(),
            keys@ == dates@.subrange(0, i as int).map_values(|d: Option<Date>| date_key(d)),
        decreases dates.len() - i,
    {
        keys.push(date_key_of(dates[i]));
        assert(keys@ =~= dates@.subrange(0, i + 1).map_values(|d: Option<Date>| date_key(d)));
        i = i + 1;
    }
    assert(dates@.subrange(0, dates.len() as int) =~= dates@);
    let ghost items = ps@;
    let r = stable_sort_by_keys(ps, keys);
    proof {
        lemma_stable_sorted_map(items, keys@, |p: Project| p@);
    }
    r
}

/// `ps` in display order: projects whose title is not a `DD.MM.YYYY` date first,
/// in their own order, then the others by date.
pub fn sort_projects(ps: Vec<Project>) -> (r: Vec<Project>)
    ensures
        projects_view(r@) == display_order(projects_view(ps@)),
{
    let dates = title_dates_of(&ps);
    order_by_dates(ps, dates)
}

/// Why the daily backfill did not run.
#[derive(Clone, Copy, Debug, PartialEq, Eq, Structural)]
pub enum BackfillError {
    /// No project's title is a `DD.MM.YYYY` date.
    NoDatedProject,
}

/// The earlier of two dates, either of which may be missing.
pub open spec fn earlier(a: Option<Date>, b: Option<Date>) -> Option<Date> {
    match (a, b) {
        (Some(x), Some(y)) => if date_rank(y) < date_rank(x) {
            Some(y)
        } else {
            Some(x)
        },
        (None, _) => b,
        (_, None) => a,
    }
}

/// The earliest of the dates present in `ds`, the first one among equals.
pub open spec fn earliest_of(ds: Seq<Option<Date>>) -> Option<Date>
    decreases ds.len(),
{
    if ds.len() == 0 {
        None
    } else {
        earlier(earliest_of(ds.drop_last()), ds.last())
    }
}

/// The earliest date that a title of `ps` spells.
pub open spec fn earliest_date(ps: Seq<ProjectView>) -> Option<Date> {
    earliest_of(title_dates(ps))
}

/// What the daily backfill makes of `ps` on the day `today`: it runs from the
/// earliest date that a title spells.
pub open spec fn backfill_result(ps: Seq<ProjectView>, today: Date) -> Result<
    Seq<ProjectView>,
    BackfillError,
> {
    match earliest_date(ps) {
        None => Err(BackfillError::NoDatedProject),
        Some(first) => Ok(backfilled(ps, first, today)),
    }
}

/// `earliest_of` is one of the dates present, and none present is earlier; it
/// is missing only where no date is present.
pub proof fn lemma_earliest(ds: Seq<Option<Date>>)
    ensures
        earliest_of(ds) is None <==> forall|k: int| 0 <= k < ds.len() ==> (#[trigger] ds[k]) is None,
        earliest_of(ds) matches Some(e) ==> exists|k: int|
            0 <= k < ds.len() && #[trigger] ds[k] == Some(e),
        forall|k: int|
            0 <= k < ds.len() && (#[trigger] ds[k]) is Some ==> date_rank(earliest_of(ds).unwrap())
                <= date_rank(ds[k].unwrap()),
    decreases ds.len(),
{
    if ds.len() > 0 {
        let rest = ds.drop_last();
        lemma_earliest(rest);
        assert(forall|k: int| 0 <= k < rest.len() ==> rest[k] == ds[k]);
        assert(ds.last() == ds[ds.len() - 1]);
        if let Some(e) = earliest_of(ds) {
            if earliest_of(ds) == ds.last() {
                assert(ds[ds.len() - 1] == Some(e));
            } else {
                let k = choose|k: int| 0 <= k < rest.len() && rest[k] == Some(e);
                assert(ds[k] == Some(e));
            }
        }
    }
}

pub open spec fn result_view(r: Result<Vec<Project>, BackfillError>) -> Result<
    Seq<ProjectView>,
    BackfillError,
> {
    match r {
        Ok(ps) => Ok(projects_view(ps@)),
        Err(e) => Err(e),
    }
}

proof fn lemma_next_date_bounded(d: Date, last: Date)
    requires
        valid_date(d),
        valid_date(last),
        date_rank(d) < date_rank(last),
    ensures
        !is_last_date(d),
        valid_date(next_date(d)),
        date_rank(next_date(d)) <= date_rank(last),
{
    lemma_next_date(d);
}

proof fn lemma_days_from_step(d: Date, last: Date, ps: Seq<ProjectView>)
    requires
        valid_date(d),
        valid_date(last),
        date_rank(d) <= date_rank(last),
    ensures
        date_rank(d) < date_rank(last) ==> with_titles(ps, titles_of(days_from(d, last)))
            == with_titles(with_project(ps, date_title(d)), titles_of(days_from(next_date(d), last))),
        date_rank(d) == date_rank(last) ==> with_titles(ps, titles_of(days_from(d, last)))
            == with_project(ps, date_title(d)),
{
    if date_rank(d) < date_rank(last) {
        lemma_next_date_bounded(d, last);
        let rest = days_from(next_date(d), last);
        assert(days_from(d, last) == seq![d] + rest);
        let ts = titles_of(days_from(d, last));
        assert(ts[0] == date_title(d));
        assert(ts.drop_first() =~= titles_of(rest));
    } else {
        assert(days_from(d, last) == seq![d]);
        let ts = titles_of(days_from(d, last));
        assert(ts[0] == date_title(d));
        assert(ts.drop_first() =~= Seq::<Seq<char>>::empty());
        let once = with_project(ps, date_title(d));
        assert(with_titles(once, Seq::<Seq<char>>::empty()) == once);
    }
}

impl Project {
    /// Creates, at the end of `ps`, a project for each day from `first` to `today`
    /// whose `DD.MM.YYYY` title no project has yet.
    pub fn backfill_from(ps: Vec<Project>, first: Date, today: Date) -> (r: Vec<Project>)
        requires
            valid_date(first),
            valid_date(today),
        ensures
            projects_view(r@) == backfilled(projects_view(ps@), first, today),
    {
        let ghost goal = backfilled(projects_view(ps@), first, today);
        let mut acc = ps;
        if !date_le(first, today) {
            assert(days_from(first, today) == Seq::<Date>::empty());
            assert(titles_of(days_from(first, today)) =~= Seq::<Seq<char>>::empty());
            return acc;
        }
        let mut cur = first;
        while !date_le(today, cur)
            invariant
                valid_date(cur),
                valid_date(today),
                date_rank(cur) <= date_rank(today),
                with_titles(projects_view(acc@), titles_of(days_from(cur, today))) == goal,
            decreases date_rank(today) - date_rank(cur),
        {
            proof {
                lemma_days_from_step(cur, today, projects_view(acc@));
                lemma_next_date_bounded(cur, today);
            }
            let title = format_date(cur);
            add_project(&mut acc, title);
            cur = next_day(cur);
        }
        proof {
            lemma_days_from_step(cur, today, projects_view(acc@));
        }
        let title = format_date(cur);
        add_project(&mut acc, title);
        acc
    }

    /// The daily backfill of `ps` on the day `today`, from the earliest date
    /// that a title spells.
    pub fn backfill(ps: Vec<Project>, today: Date) -> (r: Result<Vec<Project>, BackfillError>)
        requires
            valid_date(today),
        ensures
            result_view(r) == backfill_result(projects_view(ps@), today),
    {
        let dates = title_dates_of(&ps);
        match earliest(&dates) {
            None => Err(BackfillError::NoDatedProject),
            Some(first) => Ok(Project::backfill_from(ps, first, today)),
        }
    }
}

/// The dates that the titles of `ps` spell.
pub fn title_dates_of(ps: &Vec<Project>) -> (r: Vec<Option<Date>>)
    ensures
        r@ == title_dates(projects_view(ps@)),
        forall|k: int| 0 <= k < r@.len() && (#[trigger] r@[k]) is Some ==> valid_date(r@[k].unwrap()),
{
    let mut dates: Vec<Option<Date>> = Vec::new();
    let mut i: usize = 0;
    while i < ps.len()
        invariant
            i <= ps.len(),
            dates@ == title_dates(projects_view(ps@.subrange(0, i as int))),
            forall|k: int|
                0 <= k < dates@.len() && (#[trigger] dates@[k]) is Some ==> valid_date(dates@[k].unwrap()),
        decreases ps.len() - i,
    {
        dates.push(parse_title_date(ps[i].title.as_str()));
        assert(dates@ =~= title_dates(projects_view(ps@.subrange(0, i + 1))));
        i = i + 1;
    }
    assert(ps@.subrange(0, ps.len() as int) =~= ps@);
    dates
}

/// The earliest of the dates present in `dates`.
pub fn earliest(dates: &Vec<Option<Date>>) -> (r: Option<Date>)
    ensures
        r == earliest_of(dates@),
        (forall|k: int| 0 <= k < dates@.len() && (#[trigger] dates@[k]) is Some ==> valid_date(
            dates@[k].unwrap(),
        )) ==> (r matches Some(d) ==> valid_date(d)),
{
    let mut acc: Option<Date> = None;
    let mut i: usize = 0;
    while i < dates.len()
        invariant
            i <= dates.len(),
            acc == earliest_of(dates@.subrange(0, i as int)),
        decreases dates.len() - i,
    {
        assert(dates@.subrange(0, i + 1).drop_last() =~= dates@.subrange(0, i as int));
        acc = match (acc, dates[i]) {
            (Some(x), Some(y)) => if date_le(x, y) {
                Some(x)
            } else {
                Some(y)
            },
            (None, d) => d,
            (a, None) => a,
        };
        i = i + 1;
    }
    assert(dates@.subrange(0, dates.len() as int) =~= dates@);
    proof {
        lemma_earliest(dates@);
    }
    acc
}

/// The collection after creating a project titled `t`, or `None` where a
/// project already has that title and creating is a no-op.
pub open spec fn created(ps: Seq<ProjectView>, t: Seq<char>) -> Option<Seq<ProjectView>> {
    if has_title(ps, t) {
        None
    } else {
        Some(ps.push(new_project(t)))
    }
}

pub open spec fn option_view(r: Option<Vec<Project>>) -> Option<Seq<ProjectView>> {
    match r {
        Some(v) => Some(projects_view(v@)),
        None => None,
    }
}

pub open spec fn renamed(ps: Seq<ProjectView>, i: int, t: Seq<char>) -> Seq<ProjectView> {
    ps.update(i, ProjectView { title: t, tasks: ps[i].tasks })
}

/// The selected project's position; meaningful where one is selected.
pub open spec fn selected_project(app: &App) -> int {
    app.selected_project_index.selected.unwrap() as int
}

/// The state after a reload: the loaded collection, with the cursors brought into it.
pub open spec fn reloaded(app: &App, old_app: &App, loaded: Seq<Project>, project_cursor: Option<usize>) -> bool {
    &&& app.wf()
    &&& app.projects@ == loaded
    &&& app.view_mode == old_app.view_mode
    &&& app.selected_project_index.selected == clamped(project_cursor, loaded.len() as int)
    &&& app.selected_task_index.selected == clamped(
        old_app.selected_task_index.selected,
        app.task_len(),
    )
    &&& app.selected_status_task_index == old_app.selected_status_task_index
    &&& app.selected_priority_task_index == old_app.selected_priority_task_index
}

impl Project {
    /// The collection `ps` with a new project titled `title`, or `None` where a
    /// project already has that title.
    pub fn create_titled(ps: &Vec<Project>, title: String) -> (r: Option<Vec<Project>>)
        ensures
            option_view(r) == created(projects_view(ps@), title@),
    {
        if contains_title(ps, &title) {
            None
        } else {
            let mut next = copy_projects(ps);
            next.push(Project::fresh(title));
            assert(projects_view(next@) =~= projects_view(ps@).push(new_project(title@)));
            Some(next)
        }
    }

    /// The collection to persist after creating a project titled `value`, or
    /// titled with today's `DD.MM.YYYY` date where `value` is empty; `None` where
    /// a project already has that title.
    pub fn create(app: &App, value: String) -> (r: Option<Vec<Project>>)
        ensures
            value@.len() > 0 ==> option_view(r) == created(app.projects_v(), value@),
            value@.len() == 0 ==> exists|d: Date|
                valid_date(d) && option_view(r) == created(app.projects_v(), #[trigger] date_title(d)),
    {
        if value.as_str().is_empty() {
            let d = today();
            let title = format_date(d);
            let r = Project::create_titled(&app.projects, title);
            assert(valid_date(d) && option_view(r) == created(app.projects_v(), date_title(d)));
            r
        } else {
            Project::create_titled(&app.projects, value)
        }
    }

    /// The collection to persist after renaming the selected project.
    pub fn rename(app: &App, value: String) -> (r: Vec<Project>)
        requires
            app.wf(),
            app.selected_project_index.selected is Some,
        ensures
            projects_view(r@) == renamed(app.projects_v(), selected_project(app), value@),
    {
        let i = app.selected_project_index.selected.unwrap();
        let mut next = copy_projects(&app.projects);
        let tasks = copy_tasks(&app.projects[i].tasks);
        next.set(i, Project { title: value, tasks });
        assert(projects_view(next@) =~= renamed(app.projects_v(), i as int, value@));
        next
    }

    /// The collection to persist after deleting the selected project.
    pub fn delete(app: &App) -> (r: Vec<Project>)
        requires
            app.wf(),
            app.selected_project_index.selected is Some,
        ensures
            projects_view(r@) == app.projects_v().remove(selected_project(app)),
    {
        let i = app.selected_project_index.selected.unwrap();
        let mut next = copy_projects(&app.projects);
        next.remove(i);
        assert(projects_view(next@) =~= app.projects_v().remove(i as int));
        next
    }

    /// Installs the collection read back from the store and brings the cursors into it.
    pub fn reload(app: &mut App, loaded: Vec<Project>)
        requires
            old(app).wf(),
        ensures
            reloaded(final(app), old(app), loaded@, old(app).selected_project_index.selected),
    {
        app.projects = loaded;
        app.clamp_cursors();
    }

    /// Installs the collection read back after deleting the selected project; the
    /// project cursor moves one row up first.
    pub fn reload_after_delete(app: &mut App, loaded: Vec<Project>)
        requires
            old(app).wf(),
        ensures
            reloaded(
                final(app),
                old(app),
                loaded@,
                back_one(old(app).selected_project_index.selected),
            ),
    {
        app.selected_project_index.select_previous();
        app.projects = loaded;
        app.clamp_cursors();
    }

    /// The selected project.
    pub fn get_current(app: &App) -> (r: &Project)
        requires
            app.wf(),
            app.selected_project_index.selected is Some,
        ensures
            *r == app.projects@[selected_project(app)],
    {
        &app.projects[app.selected_project_index.selected.unwrap()]
    }

    /// The first project.
    pub fn get_first(app: &App) -> (r: &Project)
        requires
            app.projects@.len() > 0,
        ensures
            *r == app.projects@[0],
    {
        &app.projects[0]
    }

    /// The collection to persist after the daily backfill up to today's date.
    pub fn create_all_projects(app: &App) -> (r: Result<Vec<Project>, BackfillError>)
        ensures
            exists|d: Date|
                valid_date(d) && result_view(r) == #[trigger] backfill_result(app.projects_v(), d),
    {
        let d = today();
        let r = Project::backfill(copy_projects(&app.projects), d);
        assert(valid_date(d) && result_view(r) == backfill_result(app.projects_v(), d));
        r
    }
}

/// What the project list shows of a project with tasks `ts`: the finished
/// tasks, all tasks, and the shade of the finished share.
pub open spec fn row_of(ts: Seq<TaskView>) -> (usize, usize, ProgressShade) {
    let done = done_count(ts);
    let share: int = if ts.len() == 0 {
        0
    } else {
        (done as int) * 100 / (ts.len() as int)
    };
    (done as usize, ts.len() as usize, progress_shade_of(share))
}

impl Project {
    /// The row that the project list shows for each project, in order.
    pub fn load_items(projects: &Vec<Project>) -> (r: Vec<(usize, usize, ProgressShade)>)
        ensures
            r@.len() == projects@.len(),
            forall|i: int| 0 <= i < r@.len() ==> #[trigger] r@[i] == row_of(projects@[i]@.tasks),
    {
        let mut rows: Vec<(usize, usize, ProgressShade)> = Vec::new();
        let mut i: usize = 0;
        while i < projects.len()
            invariant
                i <= projects.len(),
                rows@.len() == i,
                forall|k: int| 0 <= k < i ==> #[trigger] rows@[k] == row_of(projects@[k]@.tasks),
            decreases projects.len() - i,
        {
            let (done, total, share) = projects[i].progress();
            rows.push((done, total, ProgressShade::of_percentage(share)));
            i = i + 1;
        }
        rows
    }
}

/// At most one project of `ps` is titled `t`.
pub open spec fn at_most_one_titled(ps: Seq<ProjectView>, t: Seq<char>) -> bool {
    forall|i: int, j: int|
        0 <= i < ps.len() && 0 <= j < ps.len() && #[trigger] ps[i].title == t && #[trigger] ps[j].title
            == t ==> i == j
}

/// Creating a project twice under one title creates it once: the second
/// creation is a no-op, and exactly one project has that title.
pub proof fn lemma_create_twice(ps: Seq<ProjectView>, t: Seq<char>)
    requires
        at_most_one_titled(ps, t),
    ensures
        created(with_project(ps, t), t) is None,
        with_project(with_project(ps, t), t) == with_project(ps, t),
        has_title(with_project(ps, t), t),
        at_most_one_titled(with_project(ps, t), t),
{
    let once = with_project(ps, t);
    if !has_title(ps, t) {
        assert(once[ps.len() as int].title == t);
        assert forall|i: int, j: int|
            0 <= i < once.len() && 0 <= j < once.len() && #[trigger] once[i].title == t
                && #[trigger] once[j].title == t implies i == j by {
            if i < ps.len() {
                assert(ps[i].title == t);
            }
            if j < ps.len() {
                assert(ps[j].title == t);
            }
        }
    }
}

/// The number of finished tasks of `ts`.
pub open spec fn done_count(ts: Seq<TaskView>) -> nat
    decreases ts.len(),
{
    if ts.len() == 0 {
        0
    } else {
        done_count(ts.drop_last()) + if ts.last().status == Status::Done {
            1nat
        } else {
            0nat
        }
    }
}

/// How a project's progress is shown in the project list.
#[derive(Clone, Copy, Debug, PartialEq, Eq, Structural)]
pub enum ProgressShade {
    /// Nothing finished.
    Idle,
    /// From a quarter to just under a half finished.
    Started,
    /// From a half to just under all finished.
    Advanced,
    /// All finished.
    Complete,
    /// Any other share.
    Other,
}

pub open spec fn progress_shade_of(percentage: int) -> ProgressShade {
    if percentage == 0 {
        ProgressShade::Idle
    } else if 25 <= percentage <= 49 {
        ProgressShade::Started
    } else if 50 <= percentage < 99 {
        ProgressShade::Advanced
    } else if percentage == 100 {
        ProgressShade::Complete
    } else {
        ProgressShade::Other
    }
}

impl Project {
    /// The number of finished tasks, the number of tasks, and the finished share
    /// in whole percent, rounded down (0 without tasks).
    pub fn progress(&self) -> (r: (usize, usize, usize))
        ensures
            r.0 == done_count(self@.tasks),
            r.1 == self.tasks@.len(),
            r.2 == if r.1 == 0 {
                0int
            } else {
                (r.0 as int) * 100 / (r.1 as int)
            },
    {
        let ghost ts = self@.tasks;
        let mut done: usize = 0;
        let mut i: usize = 0;
        while i < self.tasks.len()
            invariant
                i <= self.tasks.len(),
                ts == self@.tasks,
                done == done_count(ts.subrange(0, i as int)),
                done <= i,
            decreases self.tasks.len() - i,
        {
            assert(ts.subrange(0, i + 1).drop_last() =~= ts.subrange(0, i as int));
            match self.tasks[i].status {
                Status::Done => done = done + 1,
                _ => {},
            }
            i = i + 1;
        }
        assert(ts.subrange(0, i as int) =~= ts);
        let total = self.tasks.len();
        if total == 0 {
            (done, total, 0)
        } else {
            let share = (done as u128) * 100 / (total as u128);
            assert(share <= 100) by (nonlinear_arith)
                requires
                    done <= total,
                    total > 0,
                    share == (done as int) * 100 / (total as int),
            ;
            (done, total, share as usize)
        }
    }
}

impl ProgressShade {
    /// The shade of a project whose finished share is `percentage`.
    pub fn of_percentage(percentage: usize) -> (r: ProgressShade)
        ensures
            r == progress_shade_of(percentage as int),
    {
        if percentage == 0 {
            ProgressShade::Idle
        } else if 25 <= percentage && percentage <= 49 {
            ProgressShade::Started
        } else if 50 <= percentage && percentage < 99 {
            ProgressShade::Advanced
        } else if percentage == 100 {
            ProgressShade::Complete
        } else {
            ProgressShade::Other
        }
    }
}

/// `a` may be listed before `b`: an undated project before anything, a dated
/// one only before a dated one of the same or a later date.
pub open spec fn listed_in_order(a: ProjectView, b: ProjectView) -> bool {
    &&& parsed_date(a.title) is Some ==> parsed_date(b.title) is Some
    &&& parsed_date(a.title) is Some && parsed_date(b.title) is Some ==> date_rank(
        parsed_date(a.title).unwrap(),
    ) <= date_rank(parsed_date(b.title).unwrap())
}

/// The display order puts projects whose title is not a date first, and the
/// dated ones after them in date order.
pub proof fn lemma_display_order(ps: Seq<ProjectView>)
    ensures
        forall|i: int, j: int|
            0 <= i < j < ps.len() ==> #[trigger] listed_in_order(
                display_order(ps)[i],
                display_order(ps)[j],
            ),
{
    let f = |p: ProjectView| date_key(parsed_date(p.title));
    assert(title_dates(ps).map_values(|d: Option<Date>| date_key(d)) =~= ps.map_values(f));
    lemma_stable_sorted_by(ps, f);
    let r = display_order(ps);
    assert forall|i: int, j: int| 0 <= i < j < ps.len() implies #[trigger] listed_in_order(
        r[i],
        r[j],
    ) by {
        assert(f(r[i]) <= f(r[j]));
    }
}

/// No two projects of `ps` share a title.
pub open spec fn titles_distinct(ps: Seq<ProjectView>) -> bool {
    forall|i: int, j: int|
        0 <= i < ps.len() && 0 <= j < ps.len() && i != j ==> #[trigger] ps[i].title != #[trigger] ps[j].title
}

proof fn lemma_with_titles_distinct(ps: Seq<ProjectView>, ts: Seq<Seq<char>>)
    requires
        titles_distinct(ps),
    ensures
        titles_distinct(with_titles(ps, ts)),
    decreases ts.len(),
{
    if ts.len() > 0 {
        let q = with_project(ps, ts[0]);
        if !has_title(ps, ts[0]) {
            assert forall|i: int, j: int|
                0 <= i < q.len() && 0 <= j < q.len() && i != j implies #[trigger] q[i].title
                != #[trigger] q[j].title by {
                if i == ps.len() {
                    assert(q[j] == ps[j]);
                } else if j == ps.len() {
                    assert(q[i] == ps[i]);
                } else {
                    assert(q[i] == ps[i] && q[j] == ps[j]);
                }
            }
        }
        lemma_with_titles_distinct(q, ts.drop_first());
    }
}

proof fn lemma_with_titles(ps: Seq<ProjectView>, ts: Seq<Seq<char>>)
    ensures
        with_titles(ps, ts).len() >= ps.len(),
        with_titles(ps, ts).subrange(0, ps.len() as int) == ps,
        forall|k: int|
            ps.len() <= k < with_titles(ps, ts).len() ==> exists|m: int|
                0 <= m < ts.len() && #[trigger] with_titles(ps, ts)[k] == new_project(ts[m]),
        forall|m: int| 0 <= m < ts.len() ==> has_title(with_titles(ps, ts), #[trigger] ts[m]),
    decreases ts.len(),
{
    if ts.len() > 0 {
        let q = with_project(ps, ts[0]);
        let rest = ts.drop_first();
        lemma_with_titles(q, rest);
        let r = with_titles(ps, ts);
        assert(r == with_titles(q, rest));
        assert(q.subrange(0, ps.len() as int) =~= ps);
        assert(r.subrange(0, ps.len() as int) =~= ps) by {
            assert(r.subrange(0, q.len() as int) == q);
            assert forall|k: int| 0 <= k < ps.len() implies r[k] == ps[k] by {
                assert(r.subrange(0, q.len() as int)[k] == r[k]);
                assert(q[k] == ps[k]);
            }
        }
        assert forall|k: int| ps.len() <= k < r.len() implies exists|m: int|
            0 <= m < ts.len() && #[trigger] r[k] == new_project(ts[m]) by {
            if k < q.len() {
                assert(r.subrange(0, q.len() as int)[k] == r[k]);
                assert(r[k] == new_project(ts[0]));
            } else {
                let m = choose|m: int| 0 <= m < rest.len() && r[k] == new_project(rest[m]);
                assert(rest[m] == ts[m + 1]);
                assert(r[k] == new_project(ts[m + 1]));
            }
        }
        assert forall|m: int| 0 <= m < ts.len() implies has_title(r, #[trigger] ts[m]) by {
            if m == 0 {
                if !has_title(ps, ts[0]) {
                    assert(q[ps.len() as int].title == ts[0]);
                }
                assert(has_title(q, ts[0]));
                let i = choose|i: int| 0 <= i < q.len() && q[i].title == ts[0];
                assert(r.subrange(0, q.len() as int)[i] == r[i]);
                assert(r[i].title == ts[0]);
            } else {
                assert(rest[m - 1] == ts[m]);
            }
        }
    }
}

/// The daily backfill keeps the projects it was given, in order, and adds
/// only new projects, each titled with a day from `first` to `today`; after it,
/// each such day has a project of its title, and where no two titles were
/// equal before, none are after, so each such day has exactly one.
pub proof fn lemma_backfill_coverage(ps: Seq<ProjectView>, first: Date, today: Date)
    ensures
        backfilled(ps, first, today).subrange(0, ps.len() as int) == ps,
        forall|k: int|
            ps.len() <= k < backfilled(ps, first, today).len() ==> exists|m: int|
                0 <= m < days_from(first, today).len() && #[trigger] backfilled(ps, first, today)[k]
                    == new_project(date_title(days_from(first, today)[m])),
        forall|m: int|
            0 <= m < days_from(first, today).len() ==> has_title(
                backfilled(ps, first, today),
                date_title(#[trigger] days_from(first, today)[m]),
            ),
        titles_distinct(ps) ==> titles_distinct(backfilled(ps, first, today)),
{
    let days = days_from(first, today);
    let ts = titles_of(days);
    lemma_with_titles(ps, ts);
    if titles_distinct(ps) {
        lemma_with_titles_distinct(ps, ts);
    }
    let r = backfilled(ps, first, today);
    assert forall|k: int| ps.len() <= k < r.len() implies exists|m: int|
        0 <= m < days.len() && #[trigger] r[k] == new_project(date_title(days[m])) by {
        let m = choose|m: int| 0 <= m < ts.len() && r[k] == new_project(ts[m]);
        assert(ts[m] == date_title(days[m]));
    }
    assert forall|m: int| 0 <= m < days.len() implies has_title(r, date_title(#[trigger] days[m])) by {
        assert(ts[m] == date_title(days[m]));
    }
}

/// A collection in display order stays as it is when put in display order
/// again, and so does any collection with the same titles in the same places.
pub proof fn lemma_display_order_stable(ps: Seq<ProjectView>, qs: Seq<ProjectView>)
    requires
        ps == display_order(ps),
        qs.len() == ps.len(),
        forall|i: int| 0 <= i < ps.len() ==> (#[trigger] qs[i]).title == ps[i].title,
    ensures
        display_order(qs) == qs,
{
    let f = |p: ProjectView| date_key(parsed_date(p.title));
    assert(title_dates(ps).map_values(|d: Option<Date>| date_key(d)) =~= ps.map_values(f));
    assert(title_dates(qs).map_values(|d: Option<Date>| date_key(d)) =~= qs.map_values(f));
    lemma_stable_sorted_by(ps, f);
    assert forall|i: int, j: int| 0 <= i < j < qs.len() implies qs.map_values(f)[i] <= qs.map_values(
        f,
    )[j] by {
        assert(qs[i].title == ps[i].title && qs[j].title == ps[j].title);
        assert(f(ps[i]) <= f(ps[j]));
    }
    lemma_stable_sorted_identity(qs, qs.map_values(f));
}

} // verus!
