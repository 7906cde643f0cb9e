//! The versioned store: which version file is the source of truth, the
//! migration of its document to the newest version as a sequence of file
//! actions, and the reading and writing of the collection.
//!
//! The file system itself is the caller's: this module decides what is read,
//! written, renamed and removed, and the caller performs it in order.

use crate::json::JsonValue;
use crate::project::{
    display_order, lemma_display_order_stable, projects_view, sort_projects, Project, ProjectView,
};
use crate::task::{with_tasks, TaskView};
use crate::schema::{
    decode_doc, doc_fits, doc_of, encode_doc, encodes_doc, lemma_decoded_doc_fits,
    lemma_doc_round_trip, migrate_step, tag_of, version_tag, NEWEST, VERSION_COUNT,
};
use vstd::prelude::*;

verus! {

/// Why the store could not be opened, read or migrated.
#[derive(Clone, Copy, Debug, PartialEq, Eq, Structural)]
pub enum StoreError {
    /// The document does not have the shape of its version.
    Serialization,
    /// A step from version `from` gave no valid document of version `to`.
    Migration { from: usize, to: usize },
}

/// What the resolver found among the version files.
#[derive(Clone, Copy, Debug, PartialEq, Eq, Structural)]
pub enum Resolution {
    /// No version file exists: an empty store is created at the newest version.
    Create,
    /// The oldest version whose file exists.
    Existing(usize),
}

/// A file of the data directory: one per version, and one for a document
/// being written.
#[derive(Clone, Copy, Debug, PartialEq, Eq, Hash, Structural)]
pub enum FileName {
    Version(usize),
    Temp,
}

/// One step that the caller performs on the data directory.
pub enum FileAction {
    Write(FileName, JsonValue),
    Rename(FileName, FileName),
    Remove(FileName),
}

/// The oldest version whose file is present, if any.
pub open spec fn resolution_of(present: Seq<bool>) -> Resolution {
    if exists|v: int| 0 <= v < present.len() && present[v] {
        Resolution::Existing(
            (choose|v: int| 0 <= v < present.len() && present[v] && forall|w: int| 0 <= w < v ==> !present[w]) as usize,
        )
    } else {
        Resolution::Create
    }
}

/// The version that resolution settles on.
pub open spec fn resolved_version(present: Seq<bool>) -> nat {
    match resolution_of(present) {
        Resolution::Create => NEWEST as nat,
        Resolution::Existing(v) => v as nat,
    }
}

/// The version files present after resolution: creating adds the newest one.
pub open spec fn after_resolution(present: Seq<bool>) -> Seq<bool> {
    match resolution_of(present) {
        Resolution::Create => present.update(NEWEST as int, true),
        Resolution::Existing(_) => present,
    }
}

pub open spec fn is_empty_doc(j: JsonValue) -> bool {
    j matches JsonValue::Array(items) && items@.len() == 0
}

/// The collection that a document of version `from` holds.
pub open spec fn source(from: nat, doc: JsonValue) -> Seq<ProjectView> {
    doc_of(from, doc).unwrap()
}

/// `steps` migrate a document of version `from` holding `ps` to the newest
/// version, one version per step.
pub open spec fn migration_steps(from: nat, ps: Seq<ProjectView>, steps: Seq<(usize, JsonValue)>) -> bool {
    &&& steps.len() == NEWEST - from
    &&& forall|i: int|
        0 <= i < steps.len() ==> (#[trigger] steps[i]).0 == from + i + 1 && encodes_doc(
            (from + i + 1) as nat,
            steps[i].1,
            ps,
        )
}

/// `acts` perform `migration_steps`: each step writes the next document to the
/// temporary file, renames it to its version's file, and removes the file of
/// the version before.
pub open spec fn migration_actions(from: nat, ps: Seq<ProjectView>, acts: Seq<FileAction>) -> bool {
    &&& acts.len() == 3 * (NEWEST - from)
    &&& forall|i: int|
        0 <= i < NEWEST - from ==> {
            &&& (#[trigger] acts[3 * i]) matches FileAction::Write(FileName::Temp, j) && encodes_doc(
                (from + i + 1) as nat,
                j,
                ps,
            )
            &&& acts[3 * i + 1] == FileAction::Rename(
                FileName::Temp,
                FileName::Version((from + i + 1) as usize),
            )
            &&& acts[3 * i + 2] == FileAction::Remove(FileName::Version((from + i) as usize))
        }
}

/// The plan for an empty document of an old version: its file takes the newest
/// version's name, since an empty array is valid in every version.
pub open spec fn empty_jump(from: nat) -> Seq<FileAction> {
    if from < NEWEST {
        seq![FileAction::Rename(FileName::Version(from as usize), FileName::Version(NEWEST))]
    } else {
        Seq::empty()
    }
}

/// What reading a document of the newest version gives.
pub open spec fn read_spec(doc: JsonValue) -> Result<Seq<ProjectView>, StoreError> {
    match doc_of(NEWEST as nat, doc) {
        Some(ps) => Ok(display_order(ps)),
        None => Err(StoreError::Serialization),
    }
}

pub open spec fn read_view(r: Result<Vec<Project>, StoreError>) -> Result<Seq<ProjectView>, StoreError> {
    match r {
        Ok(ps) => Ok(projects_view(ps@)),
        Err(e) => Err(e),
    }
}

/// The migration plan for a store opened at an old version.
pub struct Bootstrap {
    /// The file actions, to be performed in order.
    pub actions: Vec<FileAction>,
    /// Whether a document was rewritten, which the front end reports once.
    pub migrated: bool,
}

/// A handle on the store at its active version.
pub struct Json {
    pub version: usize,
}

pub proof fn lemma_fits_later(v: nat, w: nat, ps: Seq<ProjectView>)
    requires
        v <= w,
        doc_fits(v, ps),
    ensures
        doc_fits(w, ps),
{
}

impl Json {
    /// The handle on the store at `version`.
    pub fn at(version: usize) -> (r: Json)
        requires
            version < VERSION_COUNT,
        ensures
            r.version == version,
    {
        Json { version }
    }

    /// The path of a file of the data directory `dir`.
    pub fn get_json_path(dir: &str, name: FileName) -> (r: String)
        requires
            name matches FileName::Version(v) ==> v < VERSION_COUNT,
        ensures
            r@ == dir@ + "/"@ + match name {
                FileName::Version(v) => tag_of(v as nat) + ".json"@,
                FileName::Temp => "migration.tmp"@,
            },
    {
        let mut path = String::from_str(dir);
        path.append("/");
        match name {
            FileName::Version(v) => {
                let tag = version_tag(v);
                path.append(tag.as_str());
                path.append(".json");
            },
            FileName::Temp => path.append("migration.tmp"),
        }
        path
    }

    /// Decides which version file is the source of truth, given which of the
    /// registry's version files exist: the oldest one present, so that no
    /// migration is ever skipped; where none is, an empty store is created at
    /// the newest version.
    pub fn check(present: &Vec<bool>) -> (r: Resolution)
        requires
            present.len() == VERSION_COUNT,
        ensures
            r == resolution_of(present@),
    {
        let mut v: usize = 0;
        while v < present.len()
            invariant
                v <= present.len(),
                forall|w: int| 0 <= w < v ==> !present@[w],
            decreases present.len() - v,
        {
            if present[v] {
                proof {
                    let c = choose|c: int|
                        0 <= c < present@.len() && present@[c] && forall|w: int| 0 <= w < c ==> !present@[w];
                    if c < v {
                    } else if c > v {
                        assert(!present@[v as int]);
                    }
                }
                return Resolution::Existing(v);
            }
            v = v + 1;
        }
        Resolution::Create
    }

    /// The migration runner: the documents that bring `doc`, of version `from`,
    /// to the newest version, one per step. An empty document needs none.
    pub fn run(from: usize, doc: &JsonValue) -> (r: Result<Vec<(usize, JsonValue)>, StoreError>)
        requires
            from < VERSION_COUNT,
        ensures
            is_empty_doc(*doc) ==> (r matches Ok(steps) && steps@.len() == 0),
            !is_empty_doc(*doc) && from < NEWEST && doc_of(from as nat, *doc) is None ==> r == Err::<
                Vec<(usize, JsonValue)>,
                StoreError,
            >(StoreError::Serialization),
            !is_empty_doc(*doc) && doc_of(from as nat, *doc) is Some ==> (r matches Ok(steps)
                && migration_steps(from as nat, source(from as nat, *doc), steps@)),
            !is_empty_doc(*doc) && from == NEWEST ==> (r matches Ok(steps) && steps@.len() == 0),
    {
        let mut steps: Vec<(usize, JsonValue)> = Vec::new();
        if let JsonValue::Array(items) = doc {
            if items.len() == 0 {
                return Ok(steps);
            }
        }
        if from == NEWEST {
            return Ok(steps);
        }
        let first = match migrate_step(from, doc) {
            Some(j) => j,
            None => return Err(StoreError::Serialization),
        };
        let ghost ps = source(from as nat, *doc);
        proof {
            lemma_decoded_doc_fits(from as nat, *doc);
        }
        steps.push((from + 1, first));
        let mut k: usize = from + 1;
        while k < NEWEST
            invariant
                from < k <= NEWEST,
                doc_fits(from as nat, ps),
                steps@.len() == k - from,
                forall|i: int|
                    0 <= i < steps@.len() ==> (#[trigger] steps@[i]).0 == from + i + 1
                        && encodes_doc((from + i + 1) as nat, steps@[i].1, ps),
            decreases NEWEST - k,
        {
            let last = steps.len() - 1;
            proof {
                lemma_fits_later(from as nat, k as nat, ps);
                lemma_doc_round_trip(k as nat, steps@[last as int].1, ps);
            }
            let next = match migrate_step(k, &steps[last].1) {
                Some(j) => j,
                None => return Err(StoreError::Migration { from: k, to: k + 1 }),
            };
            steps.push((k + 1, next));
            k = k + 1;
        }
        Ok(steps)
    }

    /// The plan that brings the store from version `from`, whose file holds
    /// `doc`, to the newest version.
    pub fn plan(from: usize, doc: &JsonValue) -> (r: Result<Bootstrap, StoreError>)
        requires
            from < VERSION_COUNT,
        ensures
            is_empty_doc(*doc) ==> (r matches Ok(b) && b.actions@ == empty_jump(from as nat)
                && !b.migrated),
            !is_empty_doc(*doc) && from < NEWEST && doc_of(from as nat, *doc) is None ==> r == Err::<
                Bootstrap,
                StoreError,
            >(StoreError::Serialization),
            !is_empty_doc(*doc) && doc_of(from as nat, *doc) is Some ==> (r matches Ok(b)
                && migration_actions(from as nat, source(from as nat, *doc), b.actions@) && b.migrated
                == (from < NEWEST)),
            !is_empty_doc(*doc) && from == NEWEST ==> (r matches Ok(b) && b.actions@.len() == 0
                && !b.migrated),
    {
        let mut actions: Vec<FileAction> = Vec::new();
        if let JsonValue::Array(items) = doc {
            if items.len() == 0 {
                if from < NEWEST {
                    actions.push(FileAction::Rename(FileName::Version(from), FileName::Version(NEWEST)));
                }
                assert(actions@ =~= empty_jump(from as nat));
                return Ok(Bootstrap { actions, migrated: false });
            }
        }
        let mut steps = match Json::run(from, doc) {
            Ok(steps) => steps,
            Err(e) => return Err(e),
        };
        let ghost all = steps@;
        let n = steps.len();
        let mut i: usize = 0;
        while i < n
            invariant
                n == all.len(),
                i <= n,
                steps@ == all.subrange(i as int, n as int),
                actions@.len() == 3 * i,
                forall|k: int|
                    0 <= k < i ==> {
                        &&& (#[trigger] actions@[3 * k]) matches FileAction::Write(FileName::Temp, j)
                            && j == all[k].1
                        &&& actions@[3 * k + 1] == FileAction::Rename(
                            FileName::Temp,
                            FileName::Version(all[k].0),
                        )
                        &&& actions@[3 * k + 2] == FileAction::Remove(
                            FileName::Version((all[k].0 - 1) as usize),
                        )
                    },
                forall|k: int| 0 <= k < n ==> (#[trigger] all[k]).0 >= 1,
            decreases n - i,
        {
            let (v, j) = steps.remove(0);
            assert(steps@ =~= all.subrange(i + 1, n as int));
            actions.push(FileAction::Write(FileName::Temp, j));
            actions.push(FileAction::Rename(FileName::Temp, FileName::Version(v)));
            actions.push(FileAction::Remove(FileName::Version(v - 1)));
            i = i + 1;
        }
        Ok(Bootstrap { actions, migrated: n > 0 })
    }

    /// Reads the collection from a document of the active version, in display order.
    pub fn read(&self, doc: &JsonValue) -> (r: Result<Vec<Project>, StoreError>)
        requires
            self.version == NEWEST,
        ensures
            read_view(r) == read_spec(*doc),
    {
        match decode_doc(self.version, doc) {
            None => Err(StoreError::Serialization),
            Some(ps) => Ok(sort_projects(ps)),
        }
    }

    /// The document that holds `projects` at the active version.
    pub fn write(&self, projects: &Vec<Project>) -> (r: JsonValue)
        requires
            self.version == NEWEST,
        ensures
            encodes_doc(NEWEST as nat, r, projects_view(projects@)),
    {
        encode_doc(self.version, projects)
    }
}

/// The data directory: the document each present file holds.
pub open spec fn apply_action(dir: Map<FileName, JsonValue>, a: FileAction) -> Map<FileName, JsonValue> {
    match a {
        FileAction::Write(f, j) => dir.insert(f, j),
        FileAction::Rename(f, g) => if dir.contains_key(f) {
            dir.remove(f).insert(g, dir[f])
        } else {
            dir
        },
        FileAction::Remove(f) => dir.remove(f),
    }
}

/// The data directory after the actions `acts`, in order.
pub open spec fn after_actions(dir: Map<FileName, JsonValue>, acts: Seq<FileAction>) -> Map<
    FileName,
    JsonValue,
>
    decreases acts.len(),
{
    if acts.len() == 0 {
        dir
    } else {
        apply_action(after_actions(dir, acts.drop_last()), acts.last())
    }
}

/// Each version file present holds a document of its own version, and that
/// document holds `ps`.
pub open spec fn consistent(dir: Map<FileName, JsonValue>, ps: Seq<ProjectView>) -> bool {
    forall|v: usize|
        #[trigger] dir.contains_key(FileName::Version(v)) ==> v < VERSION_COUNT && doc_of(
            v as nat,
            dir[FileName::Version(v)],
        ) == Some(ps)
}

/// Resolving is idempotent: a second resolution right after the first settles
/// on the same version and leaves the set of version files as it is.
pub proof fn lemma_resolution_idempotent(present: Seq<bool>)
    requires
        present.len() == VERSION_COUNT,
    ensures
        resolved_version(after_resolution(present)) == resolved_version(present),
        after_resolution(after_resolution(present)) == after_resolution(present),
{
    let after = after_resolution(present);
    if !(exists|v: int| 0 <= v < present.len() && present[v]) {
        assert(after[NEWEST as int]);
        let c = choose|c: int|
            0 <= c < after.len() && after[c] && forall|w: int| 0 <= w < c ==> !after[w];
        assert(forall|w: int| 0 <= w < NEWEST ==> !after[w]);
        assert(c == NEWEST as int) by {
            if c < NEWEST {
                assert(!after[c]);
            } else if c > NEWEST {
                assert(!after[NEWEST as int]);
            }
        }
    }
}

/// An empty store at an old version goes straight to the newest version's
/// file, still an empty array, which is valid there.
pub proof fn lemma_empty_store_jump(from: nat, doc: JsonValue)
    requires
        from < NEWEST,
        is_empty_doc(doc),
    ensures
        after_actions(map![FileName::Version(from as usize) => doc], empty_jump(from))
            == map![FileName::Version(NEWEST) => doc],
        doc_of(NEWEST as nat, doc) == Some(Seq::<ProjectView>::empty()),
{
    let acts = empty_jump(from);
    let dir = map![FileName::Version(from as usize) => doc];
    assert(acts.drop_last() =~= Seq::<FileAction>::empty());
    assert(after_actions(dir, acts.drop_last()) == dir);
    assert(after_actions(dir, acts) =~= map![FileName::Version(NEWEST) => doc]);
    if let JsonValue::Array(items) = doc {
        assert(Seq::new(items@.len(), |i: int| crate::schema::project_of(NEWEST as nat, items@[i]).unwrap())
            =~= Seq::<ProjectView>::empty());
    }
}

/// Writing a collection and reading it back gives it in display order.
pub proof fn lemma_round_trip(ps: Seq<ProjectView>, doc: JsonValue)
    requires
        encodes_doc(NEWEST as nat, doc, ps),
    ensures
        read_spec(doc) == Ok::<Seq<ProjectView>, StoreError>(display_order(ps)),
{
    lemma_doc_round_trip(NEWEST as nat, doc, ps);
}

/// The document written by step `i` of a migration plan.
pub open spec fn written(acts: Seq<FileAction>, i: int) -> JsonValue {
    match acts[3 * i] {
        FileAction::Write(_, j) => j,
        _ => JsonValue::Null,
    }
}

/// The document in the current version file after `i` steps.
pub open spec fn current_doc(doc: JsonValue, acts: Seq<FileAction>, i: int) -> JsonValue {
    if i == 0 {
        doc
    } else {
        written(acts, i - 1)
    }
}

proof fn lemma_plan_states(from: nat, doc: JsonValue, acts: Seq<FileAction>, i: int)
    requires
        from < NEWEST,
        migration_actions(from, source(from, doc), acts),
        0 <= i <= NEWEST - from,
    ensures
        after_actions(map![FileName::Version(from as usize) => doc], acts.take(3 * i))
            == map![FileName::Version((from + i) as usize) => current_doc(doc, acts, i)],
        i < NEWEST - from ==> after_actions(
            map![FileName::Version(from as usize) => doc],
            acts.take(3 * i + 1),
        ) == map![FileName::Version((from + i) as usize) => current_doc(doc, acts, i)].insert(
            FileName::Temp,
            written(acts, i),
        ),
        i < NEWEST - from ==> after_actions(
            map![FileName::Version(from as usize) => doc],
            acts.take(3 * i + 2),
        ) == map![FileName::Version((from + i) as usize) => current_doc(doc, acts, i)].insert(
            FileName::Version((from + i + 1) as usize),
            written(acts, i),
        ),
    decreases i,
{
    if i == 0 {
        assert(acts.take(0) =~= Seq::<FileAction>::empty());
        assert(map![FileName::Version(from as usize) => doc] =~= map![FileName::Version((from + i) as usize) => current_doc(doc, acts, i)]);
    } else {
        let k = i - 1;
        lemma_plan_states(from, doc, acts, k);
        let d = map![FileName::Version((from + k) as usize) => current_doc(doc, acts, k)];
        assert(acts.take(3 * i).drop_last() =~= acts.take(3 * k + 2));
        assert(acts.take(3 * i).last() == acts[3 * k + 2]);
        let s2 = d.insert(FileName::Version((from + i) as usize), written(acts, k));
        assert(apply_action(s2, acts[3 * k + 2]) =~= map![
            FileName::Version((from + i) as usize) => current_doc(doc, acts, i),
        ]);
    }
    if i < NEWEST - from {
        let dir0 = map![FileName::Version(from as usize) => doc];
        let d = map![FileName::Version((from + i) as usize) => current_doc(doc, acts, i)];
        assert(after_actions(dir0, acts.take(3 * i)) == d);
        let t1 = acts.take(3 * i + 1);
        let t2 = acts.take(3 * i + 2);
        assert(after_actions(dir0, t1) == apply_action(after_actions(dir0, t1.drop_last()), t1.last()));
        assert(after_actions(dir0, t2) == apply_action(after_actions(dir0, t2.drop_last()), t2.last()));
        assert(acts.take(3 * i + 1).drop_last() =~= acts.take(3 * i));
        assert(acts.take(3 * i + 1).last() == acts[3 * i]);
        assert(acts[3 * i] matches FileAction::Write(FileName::Temp, _));
        assert(apply_action(d, acts[3 * i]) =~= d.insert(FileName::Temp, written(acts, i)));
        assert(acts.take(3 * i + 2).drop_last() =~= acts.take(3 * i + 1));
        assert(acts.take(3 * i + 2).last() == acts[3 * i + 1]);
        assert(apply_action(d.insert(FileName::Temp, written(acts, i)), acts[3 * i + 1])
            =~= d.insert(FileName::Version((from + i + 1) as usize), written(acts, i)));
    }
}

/// Migration is crash safe: stopped after any number of its file actions, the
/// data directory holds, in each version file present, a complete document of
/// that version with the collection it started from, and some version file is
/// present. Stopped anywhere but between a step's rename and its removal of the
/// old file, which is after `n / 3` steps, exactly one version file is present,
/// that of the version `n / 3` steps on, holding the document of that step.
/// When all actions are done only the newest version's file is left.
pub proof fn lemma_crash_safety(from: nat, doc: JsonValue, acts: Seq<FileAction>, n: nat)
    requires
        from < NEWEST,
        doc_of(from, doc) is Some,
        migration_actions(from, source(from, doc), acts),
        n <= acts.len(),
    ensures
        consistent(
            after_actions(map![FileName::Version(from as usize) => doc], acts.take(n as int)),
            source(from, doc),
        ),
        exists|v: usize|
            #[trigger] after_actions(
                map![FileName::Version(from as usize) => doc],
                acts.take(n as int),
            ).contains_key(FileName::Version(v)),
        n % 3 != 2 ==> forall|v: usize|
            #[trigger] after_actions(
                map![FileName::Version(from as usize) => doc],
                acts.take(n as int),
            ).contains_key(FileName::Version(v)) <==> v == from + n / 3,
        n % 3 != 2 ==> after_actions(map![FileName::Version(from as usize) => doc], acts.take(n as int))[
            FileName::Version((from + n / 3) as usize)] == current_doc(doc, acts, (n / 3) as int),
        n == acts.len() ==> after_actions(map![FileName::Version(from as usize) => doc], acts)
            =~= map![FileName::Version(NEWEST) => written(acts, NEWEST - from - 1)],
{
    let ps = source(from, doc);
    let i: int = n as int / 3;
    let r: int = n as int % 3;
    assert(n == 3 * i + r);
    lemma_decoded_doc_fits(from, doc);
    lemma_plan_states(from, doc, acts, i);
    let cur = current_doc(doc, acts, i);
    let w = written(acts, i);
    assert(doc_of((from + i) as nat, cur) == Some(ps)) by {
        if i > 0 {
            assert(acts[3 * (i - 1)] matches FileAction::Write(FileName::Temp, _));
            lemma_fits_later(from, (from + i) as nat, ps);
            lemma_doc_round_trip((from + i) as nat, cur, ps);
        }
    }
    if r > 0 {
        assert(acts[3 * i] matches FileAction::Write(FileName::Temp, _));
        lemma_fits_later(from, (from + i + 1) as nat, ps);
        lemma_doc_round_trip((from + i + 1) as nat, w, ps);
    }
    let dir = after_actions(map![FileName::Version(from as usize) => doc], acts.take(n as int));
    assert(dir.contains_key(FileName::Version((from + i) as usize)));
    if n == acts.len() {
        assert(acts.take(n as int) =~= acts);
        assert(current_doc(doc, acts, i) == written(acts, NEWEST - from - 1));
    }
}

/// A task edit of a collection in display order, persisted and read back,
/// comes back as it was persisted: every project keeps its place, so the
/// cursors keep naming the same project and the same task rows.
pub proof fn lemma_task_edit_reads_back(
    ps: Seq<ProjectView>,
    p: int,
    ts: Seq<TaskView>,
    doc: JsonValue,
)
    requires
        ps == display_order(ps),
        0 <= p < ps.len(),
        encodes_doc(NEWEST as nat, doc, with_tasks(ps, p, ts)),
    ensures
        read_spec(doc) == Ok::<Seq<ProjectView>, StoreError>(with_tasks(ps, p, ts)),
{
    let edited = with_tasks(ps, p, ts);
    lemma_round_trip(edited, doc);
    lemma_display_order_stable(ps, edited);
}

} // verus!
