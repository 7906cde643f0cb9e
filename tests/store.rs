use std::collections::HashMap;
use taskstore::json::{get_field, JsonValue};
use taskstore::project::Project;
use taskstore::schema::{decode_doc, encode_doc, migrate_step, version_tag, NEWEST};
use taskstore::store::{Bootstrap, FileAction, FileName, Json, Resolution, StoreError};
use taskstore::task::{Priority, Status, Task};

fn s(t: &str) -> JsonValue {
    JsonValue::Str(t.to_string())
}

fn obj(fields: Vec<(&str, JsonValue)>) -> JsonValue {
    JsonValue::Object(fields.into_iter().map(|(k, v)| (k.to_string(), v)).collect())
}

fn v1_task(title: &str, done: bool) -> JsonValue {
    obj(vec![("title", s(title)), ("done", JsonValue::Bool(done))])
}

fn v1_doc() -> JsonValue {
    JsonValue::Array(vec![
        obj(vec![
            ("title", s("02.01.2024")),
            ("tasks", JsonValue::Array(vec![v1_task("pushups", true), v1_task("squats", false)])),
            ("colour", s("blue")),
        ]),
        obj(vec![("title", s("work")), ("tasks", JsonValue::Array(vec![]))]),
    ])
}

fn task(title: &str, status: Status, priority: Priority) -> Task {
    Task { title: title.to_string(), status, priority }
}

fn sample() -> Vec<Project> {
    vec![
        Project {
            title: "03.01.2024".to_string(),
            tasks: vec![task("run", Status::Half, Priority::Low)],
        },
        Project { title: "inbox".to_string(), tasks: vec![task("mail", Status::Done, Priority::High)] },
        Project { title: "01.01.2024".to_string(), tasks: vec![] },
    ]
}

fn shape(p: &Project) -> (String, Vec<(String, Status, Priority)>) {
    (p.title.clone(), p.tasks.iter().map(|t| (t.title.clone(), t.status, t.priority)).collect())
}

fn shapes(ps: &[Project]) -> Vec<(String, Vec<(String, Status, Priority)>)> {
    ps.iter().map(shape).collect()
}

#[test]
fn resolution_creates_the_newest_when_nothing_exists() {
    assert_eq!(Json::check(&vec![false, false, false]), Resolution::Create);
}

#[test]
fn resolution_prefers_the_oldest_file() {
    assert_eq!(Json::check(&vec![false, true, true]), Resolution::Existing(1));
    assert_eq!(Json::check(&vec![true, false, true]), Resolution::Existing(0));
}

#[test]
fn resolving_twice_gives_the_same_version() {
    let mut present = vec![false, false, false];
    let first = Json::check(&present);
    assert_eq!(first, Resolution::Create);
    present[NEWEST] = true;
    let second = Json::check(&present);
    assert_eq!(second, Resolution::Existing(NEWEST));
    assert_eq!(Json::check(&present), second);
    assert_eq!(present, vec![false, false, true]);
}

#[test]
fn version_files_are_named_by_tag() {
    assert_eq!(version_tag(0), "1");
    assert_eq!(Json::get_json_path("/data", FileName::Version(2)), "/data/3.json");
    assert_eq!(Json::get_json_path("/data", FileName::Temp), "/data/migration.tmp");
}

#[test]
fn each_step_yields_a_valid_document_of_the_next_version() {
    let doc = v1_doc();
    let before = decode_doc(0, &doc).unwrap();
    let v2 = migrate_step(0, &doc).unwrap();
    let mid = decode_doc(1, &v2).unwrap();
    assert_eq!(shapes(&mid), shapes(&before));
    assert!(decode_doc(0, &v2).is_none());
    let v3 = migrate_step(1, &v2).unwrap();
    let after = decode_doc(2, &v3).unwrap();
    assert_eq!(shapes(&after), shapes(&before));
    assert_eq!(after[0].tasks[0].status, Status::Done);
    assert_eq!(after[0].tasks[1].status, Status::Zero);
    assert_eq!(after[0].tasks[0].priority, Priority::Unset);
}

#[test]
fn a_document_of_another_shape_is_a_serialization_error() {
    let bad = JsonValue::Array(vec![obj(vec![("title", s("x"))])]);
    assert!(migrate_step(0, &bad).is_none());
    assert_eq!(Json::plan(1, &JsonValue::Null).err(), Some(StoreError::Serialization));
    match Json::run(0, &bad) {
        Err(e) => assert_eq!(e, StoreError::Serialization),
        Ok(_) => panic!("a malformed document migrated"),
    }
}

#[test]
fn runner_gives_one_document_per_step() {
    let steps = Json::run(0, &v1_doc()).unwrap();
    let versions: Vec<usize> = steps.iter().map(|(v, _)| *v).collect();
    assert_eq!(versions, vec![1, 2]);
    assert!(Json::run(NEWEST, &v1_doc()).unwrap().is_empty());
}

#[test]
fn empty_store_jumps_to_the_newest_version() {
    let empty = JsonValue::Array(vec![]);
    assert!(Json::run(0, &empty).unwrap().is_empty());
    let b: Bootstrap = Json::plan(0, &empty).unwrap();
    assert!(!b.migrated);
    assert_eq!(b.actions.len(), 1);
    match &b.actions[0] {
        FileAction::Rename(from, to) => {
            assert_eq!(*from, FileName::Version(0));
            assert_eq!(*to, FileName::Version(NEWEST));
        }
        _ => panic!("expected a rename"),
    }
    assert!(Json::plan(NEWEST, &empty).unwrap().actions.is_empty());
}

#[test]
fn written_collection_reads_back_sorted() {
    let store = Json::at(NEWEST);
    let doc = store.write(&sample());
    let back = store.read(&doc).unwrap();
    let titles: Vec<String> = back.iter().map(|p| p.title.clone()).collect();
    assert_eq!(titles, vec!["inbox", "01.01.2024", "03.01.2024"]);
    assert_eq!(back[0].tasks[0].priority, Priority::High);
    assert_eq!(back[2].tasks[0].status, Status::Half);
}

#[test]
fn written_document_uses_the_legacy_encodings() {
    let doc = encode_doc(NEWEST, &sample());
    let JsonValue::Array(items) = doc else { panic!("not an array") };
    let JsonValue::Object(fields) = &items[0] else { panic!("not an object") };
    let Some(JsonValue::Array(tasks)) = get_field(fields, "tasks") else { panic!("no tasks") };
    let JsonValue::Object(t) = &tasks[0] else { panic!("not an object") };
    assert!(matches!(get_field(t, "status"), Some(JsonValue::Str(x)) if x == "50"));
    assert!(matches!(get_field(t, "priority"), Some(JsonValue::Int(3))));
}

#[test]
fn reading_a_malformed_document_fails() {
    let store = Json::at(NEWEST);
    let bad_status = JsonValue::Array(vec![obj(vec![
        ("title", s("x")),
        (
            "tasks",
            JsonValue::Array(vec![obj(vec![
                ("title", s("t")),
                ("status", s("30")),
                ("priority", JsonValue::Int(0)),
            ])]),
        ),
    ])]);
    assert_eq!(store.read(&bad_status).err(), Some(StoreError::Serialization));
    assert_eq!(store.read(&JsonValue::Null).err(), Some(StoreError::Serialization));
    let bad_priority = JsonValue::Array(vec![obj(vec![
        ("title", s("x")),
        (
            "tasks",
            JsonValue::Array(vec![obj(vec![
                ("title", s("t")),
                ("status", s("0")),
                ("priority", JsonValue::Int(7)),
            ])]),
        ),
    ])]);
    assert_eq!(store.read(&bad_priority).err(), Some(StoreError::Serialization));
}

fn perform(dir: &mut HashMap<FileName, JsonValue>, a: &FileAction) {
    match a {
        FileAction::Write(f, j) => {
            dir.insert(*f, rebuild(j).expect("a document of no version"));
        }
        FileAction::Rename(f, g) => {
            if let Some(j) = dir.remove(f) {
                dir.insert(*g, j);
            }
        }
        FileAction::Remove(f) => {
            dir.remove(f);
        }
    }
}

fn rebuild(j: &JsonValue) -> Option<JsonValue> {
    (0..3).rev().find_map(|v| decode_doc(v, j).map(|ps| encode_doc(v, &ps)))
}

#[test]
fn interrupted_migration_leaves_whole_versions() {
    let doc = v1_doc();
    let start = shapes(&decode_doc(0, &doc).unwrap());
    let plan = Json::plan(0, &doc).unwrap();
    assert!(plan.migrated);
    assert_eq!(plan.actions.len(), 6);
    for stop in 0..=plan.actions.len() {
        let mut dir: HashMap<FileName, JsonValue> = HashMap::new();
        dir.insert(FileName::Version(0), v1_doc());
        for a in plan.actions.iter().take(stop) {
            perform(&mut dir, a);
        }
        let mut versions = 0;
        for (f, j) in dir.iter() {
            if let FileName::Version(v) = f {
                versions += 1;
                let ps = decode_doc(*v, j).expect("a version file of another shape");
                assert_eq!(shapes(&ps), start);
            }
        }
        assert!(versions >= 1);
        if stop == plan.actions.len() {
            assert_eq!(dir.len(), 1);
            assert!(dir.contains_key(&FileName::Version(NEWEST)));
        }
    }
}

#[test]
fn a_task_edit_reads_back_in_place() {
    let store = Json::at(NEWEST);
    let sorted = store.read(&store.write(&sample())).unwrap();
    let mut edited = store.read(&store.write(&sample())).unwrap();
    edited[2].tasks.remove(0);
    let back = store.read(&store.write(&edited)).unwrap();
    assert_eq!(shapes(&back), shapes(&edited));
    assert_eq!(back.len(), sorted.len());
}
