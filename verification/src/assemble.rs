use vstd::prelude::*;
use crate::filter::{filter_annotation_sets, filter_sets};
use crate::json::str_eq;
use crate::model::{
    PredictionSet, PredictionSetView, ProjectRecord, ProjectRecordView, RawTask, RawTaskView,
    TaskRecord, TaskRecordView, prediction_set_views, task_record_views,
};

verus! {

/// How one assembled task relates to its export entry and to the
/// predictions fetched for it: same task fields, annotation sets filtered
/// to manual results, prediction sets attached as fetched, and the opaque
/// payload carried through unchanged.
pub open spec fn merged_task(
    t: TaskRecordView,
    raw: RawTaskView,
    preds: Seq<PredictionSetView>,
) -> bool {
    &&& t.id == raw.id
    &&& t.file_upload == raw.file_upload
    &&& t.annotation_sets == filter_sets(raw.annotation_sets)
    &&& t.prediction_sets == preds
    &&& t.data == raw.data
}

/// Assembles one project's record from its task export and the prediction
/// sets fetched per task, `predictions[i]` having been fetched with the
/// project's ID and the ID of `tasks[i]`.
pub fn get_project_data(
    project_id: u32,
    tasks: Vec<RawTask>,
    predictions: Vec<Vec<PredictionSet>>,
) -> (r: ProjectRecord)
    requires
        predictions@.len() == tasks@.len(),
    ensures
        r@.id == project_id as int,
        r@.tasks.len() == tasks@.len(),
        forall|i: int| 0 <= i < tasks@.len() ==> merged_task(
            #[trigger] r@.tasks[i],
            tasks@[i]@,
            prediction_set_views(predictions@[i]@),
        ),
{
    let ghost orig_t = tasks@;
    let ghost orig_p = predictions@;
    let mut trest = tasks;
    let mut prest = predictions;
    let mut out: Vec<TaskRecord> = Vec::new();
    let ghost mut tdone = Seq::<RawTask>::empty();
    let ghost mut pdone = Seq::<Vec<PredictionSet>>::empty();
    #[verifier::loop_isolation(false)]
    while trest.len() > 0
        invariant
            orig_t == tdone + trest@,
            orig_p == pdone + prest@,
            tdone.len() == pdone.len(),
            out@.len() == tdone.len(),
            forall|j: int| 0 <= j < out@.len() ==> merged_task(
                #[trigger] out@[j]@,
                tdone[j]@,
                prediction_set_views(pdone[j]@),
            ),
        decreases trest.len(),
    {
        let ghost trest_before = trest@;
        let ghost prest_before = prest@;
        let t = trest.remove(0);
        let p = prest.remove(0);
        proof {
            assert(trest_before.drop_first() =~= trest@);
            assert(prest_before.drop_first() =~= prest@);
        }
        let ghost raw = trest_before[0]@;
        let ghost pv = prediction_set_views(prest_before[0]@);
        let RawTask { id, file_upload, annotation_sets, data } = t;
        let filtered = filter_annotation_sets(annotation_sets);
        let rec = TaskRecord {
            id,
            file_upload,
            annotation_sets: filtered,
            prediction_sets: p,
            data,
        };
        proof {
            assert(merged_task(rec@, raw, pv));
        }
        out.push(rec);
        proof {
            tdone = tdone.push(trest_before[0]);
            pdone = pdone.push(prest_before[0]);
            assert(orig_t =~= tdone + trest@);
            assert(orig_p =~= pdone + prest@);
        }
    }
    proof {
        assert(tdone =~= orig_t);
        assert(pdone =~= orig_p);
    }
    ProjectRecord { id: project_id, tasks: out }
}

/// Law: assembly keeps each task's identity, so a project whose export
/// lists every task ID once yields a record whose task IDs are unique
/// within it.
pub proof fn lemma_unique_task_ids(ts: Seq<TaskRecordView>, raws: Seq<RawTaskView>)
    requires
        ts.len() == raws.len(),
        forall|i: int| 0 <= i < ts.len() ==> #[trigger] ts[i].id == raws[i].id,
        forall|i: int, j: int| 0 <= i < j < raws.len() ==> raws[i].id != raws[j].id,
    ensures
        forall|i: int, j: int| 0 <= i < j < ts.len() ==> ts[i].id != ts[j].id,
{
}

/// One project of the final artifact: the configured name and the record
/// assembled for it.
#[derive(Debug)]
pub struct ProjectExport {
    pub name: String,
    pub record: ProjectRecord,
}

pub open spec fn distinct_export_names(es: Seq<ProjectExport>) -> bool {
    forall|i: int, j: int| 0 <= i < j < es.len() ==> es[i].name@ != es[j].name@
}

/// The mapping that a list of project exports denotes.
pub open spec fn export_map_of(es: Seq<ProjectExport>) -> Map<Seq<char>, ProjectRecordView>
    decreases es.len(),
{
    if es.len() == 0 {
        Map::empty()
    } else {
        export_map_of(es.drop_last()).insert(es.last().name@, es.last().record@)
    }
}

pub open spec fn exists_export_name(es: Seq<ProjectExport>, k: Seq<char>) -> bool {
    exists|i: int| 0 <= i < es.len() && es[i].name@ == k
}

proof fn lemma_export_map_dom(es: Seq<ProjectExport>)
    ensures
        forall|k: Seq<char>| #[trigger] export_map_of(es).contains_key(k) <==> exists_export_name(
            es,
            k,
        ),
    decreases es.len(),
{
    if es.len() > 0 {
        lemma_export_map_dom(es.drop_last());
        assert(export_map_of(es) == export_map_of(es.drop_last()).insert(
            es.last().name@,
            es.last().record@,
        ));
        assert forall|k: Seq<char>| #[trigger] export_map_of(es).contains_key(k)
            <==> exists_export_name(es, k) by {
            if k == es.last().name@ {
                assert(export_map_of(es).contains_key(k));
                assert(es[es.len() - 1].name@ == k);
            } else {
                if exists_export_name(es, k) {
                    let i = choose|i: int| 0 <= i < es.len() && es[i].name@ == k;
                    assert(es.drop_last()[i] == es[i]);
                }
                if exists_export_name(es.drop_last(), k) {
                    let i = choose|i: int|
                        0 <= i < es.drop_last().len() && es.drop_last()[i].name@ == k;
                    assert(es[i].name@ == k);
                }
            }
        }
    }
}

proof fn lemma_export_map_get(es: Seq<ProjectExport>, j: int)
    requires
        distinct_export_names(es),
        0 <= j < es.len(),
    ensures
        export_map_of(es).contains_key(es[j].name@),
        export_map_of(es)[es[j].name@] == es[j].record@,
    decreases es.len(),
{
    if j < es.len() - 1 {
        assert(es.drop_last()[j] == es[j]);
        lemma_export_map_get(es.drop_last(), j);
    }
}

/// The final artifact of a run: a mapping from each resolved project name
/// to the record assembled for it.
#[derive(Debug)]
pub struct ExportResult {
    pub entries: Vec<ProjectExport>,
}

impl View for ExportResult {
    type V = Map<Seq<char>, ProjectRecordView>;

    open spec fn view(&self) -> Map<Seq<char>, ProjectRecordView> {
        export_map_of(self.entries@)
    }
}

impl ExportResult {
    pub open spec fn wf(&self) -> bool {
        distinct_export_names(self.entries@)
    }

    pub fn new() -> (r: ExportResult)
        ensures
            r.wf(),
            r@ == Map::<Seq<char>, ProjectRecordView>::empty(),
    {
        ExportResult { entries: Vec::new() }
    }

    /// Whether a record was already collected under this name.
    pub fn contains(&self, name: &str) -> (r: bool)
        ensures
            r == self@.contains_key(name@),
    {
        proof {
            lemma_export_map_dom(self.entries@);
        }
        let mut i: usize = 0;
        #[verifier::loop_isolation(false)]
        while i < self.entries.len()
            invariant
                0 <= i <= self.entries@.len(),
                forall|j: int| 0 <= j < i ==> self.entries@[j].name@ != name@,
            decreases self.entries@.len() - i,
        {
            let en: &String = &self.entries[i].name;
            if str_eq(en.as_str(), name) {
                return true;
            }
            i += 1;
        }
        false
    }

    /// Collects one assembled project under its configured name; each
    /// name is collected at most once per run.
    pub fn insert(&mut self, name: String, record: ProjectRecord)
        requires
            old(self).wf(),
            !old(self)@.contains_key(name@),
        ensures
            final(self).wf(),
            final(self)@ == old(self)@.insert(name@, record@),
    {
        proof {
            lemma_export_map_dom(self.entries@);
        }
        let ghost es0 = self.entries@;
        self.entries.push(ProjectExport { name, record });
        proof {
            assert(self.entries@.drop_last() =~= es0);
            assert forall|a: int, b: int|
                0 <= a < b < self.entries@.len() implies self.entries@[a].name@
                != self.entries@[b].name@ by {
                assert(self.entries@[a] == es0[a]);
                if b < self.entries@.len() - 1 {
                    assert(self.entries@[b] == es0[b]);
                } else {
                    assert(es0[a].name@ != name@);
                }
            }
        }
    }

    /// The record collected for a name, if the run resolved and exported
    /// that project.
    pub fn get(&self, name: &str) -> (r: Option<&ProjectRecord>)
        requires
            self.wf(),
        ensures
            match r {
                Some(p) => self@.contains_key(name@) && p@ == self@[name@],
                None => !self@.contains_key(name@),
            },
    {
        let mut i: usize = 0;
        #[verifier::loop_isolation(false)]
        while i < self.entries.len()
            invariant
                0 <= i <= self.entries@.len(),
                forall|j: int| 0 <= j < i ==> self.entries@[j].name@ != name@,
            decreases self.entries@.len() - i,
        {
            let en: &String = &self.entries[i].name;
            if str_eq(en.as_str(), name) {
                proof {
                    lemma_export_map_get(self.entries@, i as int);
                }
                return Some(&self.entries[i].record);
            }
            i += 1;
        }
        proof {
            lemma_export_map_dom(self.entries@);
        }
        None
    }

    /// How many projects were exported.
    pub fn len(&self) -> (r: usize)
        ensures
            r == self.entries@.len(),
    {
        self.entries.len()
    }
}

} // verus!
