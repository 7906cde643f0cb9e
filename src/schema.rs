//! The schema registry: the on-disk shapes of the store document, oldest first,
//! and how a document of each shape is read and written.
//!
//! In every version the document is an array of projects, each an object with a
//! `title` string and a `tasks` array. A task has a `title` string and, by
//! version: `done` (a boolean) in the first; `status` (a percentage string) in
//! the second; `status` and `priority` (an integer) in the third, the current one.

use crate::json::{field_of, get_field, JsonValue};
use crate::project::{projects_view, Project, ProjectView};
use crate::task::{
    priority_number, priority_of_number, status_of_text, status_text, tasks_view, Priority, Status,
    Task, TaskView,
};
use vstd::prelude::*;

verus! {

/// The number of schema versions.
pub const VERSION_COUNT: usize = 3;

/// The position of the newest schema version.
pub const NEWEST: usize = 2;

/// The tag of each version, which names its file.
pub open spec fn tag_of(v: nat) -> Seq<char> {
    if v == 0 {
        "1"@
    } else if v == 1 {
        "2"@
    } else {
        "3"@
    }
}

/// The tag of version `v`.
pub fn version_tag(v: usize) -> (r: String)
    requires
        v < VERSION_COUNT,
    ensures
        r@ == tag_of(v as nat),
{
    if v == 0 {
        String::from_str("1")
    } else if v == 1 {
        String::from_str("2")
    } else {
        String::from_str("3")
    }
}

/// A task as version `ver` reads it, if the value has that version's shape.
pub open spec fn task_of(ver: nat, j: JsonValue) -> Option<TaskView> {
    match j {
        JsonValue::Object(fs) => match field_of(fs@, "title"@) {
            Some(JsonValue::Str(t)) => if ver == 0 {
                match field_of(fs@, "done"@) {
                    Some(JsonValue::Bool(b)) => Some(
                        TaskView {
                            title: t@,
                            status: if b {
                                Status::Done
                            } else {
                                Status::Zero
                            },
                            priority: Priority::Unset,
                        },
                    ),
                    _ => None,
                }
            } else {
                match field_of(fs@, "status"@) {
                    Some(JsonValue::Str(s)) => match status_of_text(s@) {
                        Some(st) => if ver == 1 {
                            Some(TaskView { title: t@, status: st, priority: Priority::Unset })
                        } else {
                            match field_of(fs@, "priority"@) {
                                Some(JsonValue::Int(n)) => match priority_of_number(n as int) {
                                    Some(p) => Some(TaskView { title: t@, status: st, priority: p }),
                                    None => None,
                                },
                                _ => None,
                            }
                        },
                        None => None,
                    },
                    _ => None,
                }
            },
            _ => None,
        },
        _ => None,
    }
}

/// The tasks as version `ver` reads them, if each has that version's shape.
pub open spec fn tasks_of(ver: nat, ts: Seq<JsonValue>) -> Option<Seq<TaskView>> {
    if forall|i: int| 0 <= i < ts.len() ==> (#[trigger] task_of(ver, ts[i])) is Some {
        Some(Seq::new(ts.len(), |i: int| task_of(ver, ts[i]).unwrap()))
    } else {
        None
    }
}

/// A project as version `ver` reads it, if the value has that version's shape.
pub open spec fn project_of(ver: nat, j: JsonValue) -> Option<ProjectView> {
    match j {
        JsonValue::Object(fs) => match (field_of(fs@, "title"@), field_of(fs@, "tasks"@)) {
            (Some(JsonValue::Str(t)), Some(JsonValue::Array(ts))) => match tasks_of(ver, ts@) {
                Some(tasks) => Some(ProjectView { title: t@, tasks }),
                None => None,
            },
            _ => None,
        },
        _ => None,
    }
}

/// The collection that a document of version `ver` holds, if it has that shape.
pub open spec fn doc_of(ver: nat, j: JsonValue) -> Option<Seq<ProjectView>> {
    match j {
        JsonValue::Array(items) => if forall|i: int|
            0 <= i < items@.len() ==> (#[trigger] project_of(ver, items@[i])) is Some {
            Some(Seq::new(items@.len(), |i: int| project_of(ver, items@[i]).unwrap()))
        } else {
            None
        },
        _ => None,
    }
}

/// Version `ver` can hold the task: the first knows only done or not started,
/// and only the third has priorities.
pub open spec fn task_fits(ver: nat, t: TaskView) -> bool {
    &&& ver == 0 ==> (t.status == Status::Zero || t.status == Status::Done)
    &&& ver <= 1 ==> t.priority == Priority::Unset
}

pub open spec fn doc_fits(ver: nat, ps: Seq<ProjectView>) -> bool {
    forall|i: int, k: int|
        0 <= i < ps.len() && 0 <= k < ps[i].tasks.len() ==> task_fits(ver, #[trigger] ps[i].tasks[k])
}

/// `j` is the task `t` written in the shape of version `ver`.
pub open spec fn encodes_task(ver: nat, j: JsonValue, t: TaskView) -> bool {
    match j {
        JsonValue::Object(fs) => {
            &&& fs@.len() == if ver == 2 {
                3int
            } else {
                2int
            }
            &&& fs@[0].0@ == "title"@
            &&& fs@[0].1 matches JsonValue::Str(s) && s@ == t.title
            &&& ver == 0 ==> fs@[1].0@ == "done"@ && fs@[1].1 == JsonValue::Bool(
                t.status == Status::Done,
            )
            &&& ver >= 1 ==> (fs@[1].0@ == "status"@ && (fs@[1].1 matches JsonValue::Str(s) && s@
                == status_text(t.status)))
            &&& ver == 2 ==> fs@[2].0@ == "priority"@ && fs@[2].1 == JsonValue::Int(
                priority_number(t.priority) as i64,
            )
        },
        _ => false,
    }
}

/// `j` is the project `p` written in the shape of version `ver`.
pub open spec fn encodes_project(ver: nat, j: JsonValue, p: ProjectView) -> bool {
    match j {
        JsonValue::Object(fs) => {
            &&& fs@.len() == 2
            &&& fs@[0].0@ == "title"@
            &&& fs@[0].1 matches JsonValue::Str(s) && s@ == p.title
            &&& fs@[1].0@ == "tasks"@
            &&& fs@[1].1 matches JsonValue::Array(ts) && ts@.len() == p.tasks.len() && (forall|k: int|
                0 <= k < ts@.len() ==> encodes_task(ver, #[trigger] ts@[k], p.tasks[k]))
        },
        _ => false,
    }
}

/// `j` is the collection `ps` written in the shape of version `ver`.
pub open spec fn encodes_doc(ver: nat, j: JsonValue, ps: Seq<ProjectView>) -> bool {
    match j {
        JsonValue::Array(items) => items@.len() == ps.len() && forall|i: int|
            0 <= i < items@.len() ==> encodes_project(ver, #[trigger] items@[i], ps[i]),
        _ => false,
    }
}

proof fn lemma_status_text(st: Status)
    ensures
        status_of_text(status_text(st)) == Some(st),
{
    reveal_strlit("0");
    reveal_strlit("25");
    reveal_strlit("50");
    reveal_strlit("75");
    reveal_strlit("100");
    assert("0"@.len() == 1 && "25"@.len() == 2 && "50"@.len() == 2 && "75"@.len() == 2);
    assert("100"@.len() == 3);
    assert("50"@[0] != "25"@[0] && "75"@[0] != "25"@[0] && "75"@[0] != "50"@[0]);
}

proof fn lemma_field_keys()
    ensures
        "title"@ != "done"@,
        "title"@ != "status"@,
        "title"@ != "priority"@,
        "title"@ != "tasks"@,
        "status"@ != "priority"@,
{
    reveal_strlit("title");
    reveal_strlit("done");
    reveal_strlit("status");
    reveal_strlit("priority");
    reveal_strlit("tasks");
    assert("title"@[0] != "done"@[0]);
    assert("title"@[0] != "status"@[0]);
    assert("title"@[0] != "priority"@[0]);
    assert("title"@[1] != "tasks"@[1]);
    assert("status"@[0] != "priority"@[0]);
}

pub proof fn lemma_task_round_trip(ver: nat, j: JsonValue, t: TaskView)
    requires
        ver < 3,
        encodes_task(ver, j, t),
        task_fits(ver, t),
    ensures
        task_of(ver, j) == Some(t),
{
    lemma_field_keys();
    lemma_status_text(t.status);
    if let JsonValue::Object(fs) = j {
        let s = fs@;
        assert(field_of(s, "title"@) == Some(s[0].1));
        assert(s.drop_first()[0] == s[1]);
        if ver == 0 {
            assert(field_of(s.drop_first(), "done"@) == Some(s[1].1));
            assert(field_of(s, "done"@) == Some(s[1].1));
        } else {
            assert(field_of(s.drop_first(), "status"@) == Some(s[1].1));
            assert(field_of(s, "status"@) == Some(s[1].1));
            if ver == 2 {
                assert(s.drop_first().drop_first()[0] == s[2]);
                assert(field_of(s.drop_first(), "priority"@) == field_of(
                    s.drop_first().drop_first(),
                    "priority"@,
                ));
                assert(field_of(s, "priority"@) == Some(s[2].1));
            }
        }
    }
}

pub proof fn lemma_doc_round_trip(ver: nat, j: JsonValue, ps: Seq<ProjectView>)
    requires
        ver < 3,
        encodes_doc(ver, j, ps),
        doc_fits(ver, ps),
    ensures
        doc_of(ver, j) == Some(ps),
{
    lemma_field_keys();
    if let JsonValue::Array(items) = j {
        assert forall|i: int| 0 <= i < items@.len() implies project_of(ver, items@[i]) == Some(
            ps[i],
        ) by {
            let p = ps[i];
            assert(encodes_project(ver, items@[i], p));
            if let JsonValue::Object(fs) = items@[i] {
                assert(field_of(fs@, "title"@) == Some(fs@[0].1));
                assert(fs@.drop_first()[0] == fs@[1]);
                assert(field_of(fs@.drop_first(), "tasks"@) == Some(fs@[1].1));
                assert(field_of(fs@, "tasks"@) == Some(fs@[1].1));
                if let JsonValue::Array(ts) = fs@[1].1 {
                    assert forall|k: int| 0 <= k < ts@.len() implies task_of(ver, ts@[k]) == Some(
                        p.tasks[k],
                    ) by {
                        assert(task_fits(ver, ps[i].tasks[k]));
                        lemma_task_round_trip(ver, ts@[k], p.tasks[k]);
                    }
                    assert(Seq::new(ts@.len(), |k: int| task_of(ver, ts@[k]).unwrap()) =~= p.tasks);
                }
            }
        }
        assert(Seq::new(items@.len(), |i: int| project_of(ver, items@[i]).unwrap()) =~= ps);
    }
}

/// A collection read in one version fits the next one.
pub proof fn lemma_decoded_doc_fits(ver: nat, j: JsonValue)
    requires
        doc_of(ver, j) is Some,
    ensures
        doc_fits(ver, doc_of(ver, j).unwrap()),
        doc_fits(ver + 1, doc_of(ver, j).unwrap()),
{
    let ps = doc_of(ver, j).unwrap();
    if let JsonValue::Array(items) = j {
        assert forall|i: int, k: int|
            0 <= i < ps.len() && 0 <= k < ps[i].tasks.len() implies task_fits(
            ver,
            #[trigger] ps[i].tasks[k],
        ) && task_fits(ver + 1, ps[i].tasks[k]) by {
            assert(project_of(ver, items@[i]) is Some);
            if let JsonValue::Object(fs) = items@[i] {
                if let Some(JsonValue::Array(ts)) = field_of(fs@, "tasks"@) {
                    assert(task_of(ver, ts@[k]) is Some);
                }
            }
        }
    }
}

pub open spec fn decoded_task(r: Option<Task>) -> Option<TaskView> {
    match r {
        Some(t) => Some(t@),
        None => None,
    }
}

pub open spec fn decoded_project(r: Option<Project>) -> Option<ProjectView> {
    match r {
        Some(p) => Some(p@),
        None => None,
    }
}

pub open spec fn decoded_doc(r: Option<Vec<Project>>) -> Option<Seq<ProjectView>> {
    match r {
        Some(ps) => Some(projects_view(ps@)),
        None => None,
    }
}

/// Reads a task written in the shape of version `ver`.
pub fn decode_task(ver: usize, j: &JsonValue) -> (r: Option<Task>)
    requires
        ver < VERSION_COUNT,
    ensures
        decoded_task(r) == task_of(ver as nat, *j),
{
    match j {
        JsonValue::Object(fs) => {
            let title = match get_field(fs, "title") {
                Some(JsonValue::Str(t)) => t.clone(),
                _ => return None,
            };
            if ver == 0 {
                return match get_field(fs, "done") {
                    Some(JsonValue::Bool(b)) => {
                        let status = if *b {
                            Status::Done
                        } else {
                            Status::Zero
                        };
                        Some(Task { title, status, priority: Priority::Unset })
                    },
                    _ => None,
                };
            }
            let status = match get_field(fs, "status") {
                Some(JsonValue::Str(s)) => match Status::from_text(s) {
                    Some(st) => st,
                    None => return None,
                },
                _ => return None,
            };
            if ver == 1 {
                return Some(Task { title, status, priority: Priority::Unset });
            }
            match get_field(fs, "priority") {
                Some(JsonValue::Int(n)) => match Priority::from_number(*n) {
                    Some(priority) => Some(Task { title, status, priority }),
                    None => None,
                },
                _ => None,
            }
        },
        _ => None,
    }
}

/// Reads a project written in the shape of version `ver`.
pub fn decode_project(ver: usize, j: &JsonValue) -> (r: Option<Project>)
    requires
        ver < VERSION_COUNT,
    ensures
        decoded_project(r) == project_of(ver as nat, *j),
{
    match j {
        JsonValue::Object(fs) => {
            let title = match get_field(fs, "title") {
                Some(JsonValue::Str(t)) => t.clone(),
                _ => return None,
            };
            let ts = match get_field(fs, "tasks") {
                Some(JsonValue::Array(ts)) => ts,
                _ => return None,
            };
            let mut tasks: Vec<Task> = Vec::new();
            let mut i: usize = 0;
            while i < ts.len()
                invariant
                    ver < VERSION_COUNT,
                    *j == JsonValue::Object(*fs),
                    field_of(fs@, "title"@) matches Some(JsonValue::Str(_)),
                    field_of(fs@, "tasks"@) == Some(JsonValue::Array(*ts)),
                    i <= ts.len(),
                    tasks@.len() == i,
                    forall|k: int| 0 <= k < i ==> (#[trigger] task_of(ver as nat, ts@[k])) == Some(
                        tasks@[k]@,
                    ),
                decreases ts.len() - i,
            {
                match decode_task(ver, &ts[i]) {
                    Some(t) => tasks.push(t),
                    None => {
                        assert(task_of(ver as nat, ts@[i as int]) is None);
                        return None;
                    },
                }
                i = i + 1;
            }
            assert(tasks_view(tasks@) =~= Seq::new(
                ts@.len(),
                |k: int| task_of(ver as nat, ts@[k]).unwrap(),
            ));
            Some(Project { title, tasks })
        },
        _ => None,
    }
}

/// Reads a document written in the shape of version `ver`.
pub fn decode_doc(ver: usize, j: &JsonValue) -> (r: Option<Vec<Project>>)
    requires
        ver < VERSION_COUNT,
    ensures
        decoded_doc(r) == doc_of(ver as nat, *j),
{
    match j {
        JsonValue::Array(items) => {
            let mut ps: Vec<Project> = Vec::new();
            let mut i: usize = 0;
            while i < items.len()
                invariant
                    ver < VERSION_COUNT,
                    *j == JsonValue::Array(*items),
                    i <= items.len(),
                    ps@.len() == i,
                    forall|k: int|
                        0 <= k < i ==> (#[trigger] project_of(ver as nat, items@[k])) == Some(
                            ps@[k]@,
                        ),
                decreases items.len() - i,
            {
                match decode_project(ver, &items[i]) {
                    Some(p) => ps.push(p),
                    None => {
                        assert(project_of(ver as nat, items@[i as int]) is None);
                        return None;
                    },
                }
                i = i + 1;
            }
            assert(projects_view(ps@) =~= Seq::new(
                items@.len(),
                |k: int| project_of(ver as nat, items@[k]).unwrap(),
            ));
            Some(ps)
        },
        _ => None,
    }
}

/// Writes a task in the shape of version `ver`.
pub fn encode_task(ver: usize, t: &Task) -> (r: JsonValue)
    requires
        ver < VERSION_COUNT,
    ensures
        encodes_task(ver as nat, r, t@),
{
    let mut fs: Vec<(String, JsonValue)> = Vec::new();
    fs.push((String::from_str("title"), JsonValue::Str(t.title.clone())));
    if ver == 0 {
        let done = match t.status {
            Status::Done => true,
            _ => false,
        };
        fs.push((String::from_str("done"), JsonValue::Bool(done)));
    } else {
        fs.push((String::from_str("status"), JsonValue::Str(t.status.as_text())));
        if ver == 2 {
            fs.push((String::from_str("priority"), JsonValue::Int(t.priority.as_number() as i64)));
        }
    }
    JsonValue::Object(fs)
}

/// Writes a project in the shape of version `ver`.
pub fn encode_project(ver: usize, p: &Project) -> (r: JsonValue)
    requires
        ver < VERSION_COUNT,
    ensures
        encodes_project(ver as nat, r, p@),
{
    let mut ts: Vec<JsonValue> = Vec::new();
    let mut i: usize = 0;
    while i < p.tasks.len()
        invariant
            ver < VERSION_COUNT,
            i <= p.tasks.len(),
            ts@.len() == i,
            forall|k: int| 0 <= k < i ==> encodes_task(ver as nat, #[trigger] ts@[k], p.tasks@[k]@),
        decreases p.tasks.len() - i,
    {
        ts.push(encode_task(ver, &p.tasks[i]));
        i = i + 1;
    }
    let mut fs: Vec<(String, JsonValue)> = Vec::new();
    fs.push((String::from_str("title"), JsonValue::Str(p.title.clone())));
    fs.push((String::from_str("tasks"), JsonValue::Array(ts)));
    JsonValue::Object(fs)
}

/// Writes a collection in the shape of version `ver`.
pub fn encode_doc(ver: usize, ps: &Vec<Project>) -> (r: JsonValue)
    requires
        ver < VERSION_COUNT,
    ensures
        encodes_doc(ver as nat, r, projects_view(ps@)),
{
    let mut items: Vec<JsonValue> = Vec::new();
    let mut i: usize = 0;
    while i < ps.len()
        invariant
            ver < VERSION_COUNT,
            i <= ps.len(),
            items@.len() == i,
            forall|k: int| 0 <= k < i ==> encodes_project(ver as nat, #[trigger] items@[k], ps@[k]@),
        decreases ps.len() - i,
    {
        items.push(encode_project(ver, &ps[i]));
        i = i + 1;
    }
    JsonValue::Array(items)
}

/// Rewrites a document of version `from` in the shape of the next version;
/// `None` where it does not have the shape of version `from`.
pub fn migrate_step(from: usize, doc: &JsonValue) -> (r: Option<JsonValue>)
    requires
        from < NEWEST,
    ensures
        r is None <==> doc_of(from as nat, *doc) is None,
        r matches Some(j) ==> encodes_doc((from + 1) as nat, j, doc_of(from as nat, *doc).unwrap()),
{
    match decode_doc(from, doc) {
        None => None,
        Some(ps) => Some(encode_doc(from + 1, &ps)),
    }
}

/// Every step of the registry is total: a document valid in one version,
/// rewritten in the next version's shape, is valid there and holds the same
/// collection.
pub proof fn lemma_migration_total(from: nat, doc: JsonValue, out: JsonValue)
    requires
        from < NEWEST,
        doc_of(from, doc) is Some,
        encodes_doc(from + 1, out, doc_of(from, doc).unwrap()),
    ensures
        doc_of(from + 1, out) == doc_of(from, doc),
{
    lemma_decoded_doc_fits(from, doc);
    lemma_doc_round_trip(from + 1, out, doc_of(from, doc).unwrap());
}

} // verus!
