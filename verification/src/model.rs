use vstd::prelude::*;
use crate::json::JsonValue;

verus! {

/// Provenance of one annotation result: created by a person (`Manual`) or
/// by anything else (a model prediction, an import, ...).
#[derive(Debug, Clone, Copy, PartialEq, Eq, Structural)]
pub enum Origin {
    Manual,
    Other,
}

/// A normalized time-series label region. The remote system encodes
/// `start`/`end` sometimes as JSON numbers and sometimes as digit strings;
/// both arrive here as one numeric offset.
#[derive(Debug)]
pub struct TimeSpan {
    pub start: u32,
    pub end: u32,
    pub instant: bool,
    pub labels: Vec<String>,
}

pub ghost struct TimeSpanView {
    pub start: int,
    pub end: int,
    pub instant: bool,
    pub labels: Seq<Seq<char>>,
}

impl View for TimeSpan {
    type V = TimeSpanView;

    open spec fn view(&self) -> TimeSpanView {
        TimeSpanView {
            start: self.start as int,
            end: self.end as int,
            instant: self.instant,
            labels: self.labels@.map_values(|l: String| l@),
        }
    }
}

/// One human- or machine-made label inside an annotation set.
#[derive(Debug)]
pub struct AnnotationResult {
    pub id: String,
    pub from_field: String,
    pub to_field: String,
    pub origin: Origin,
    pub value: TimeSpan,
}

pub ghost struct AnnotationResultView {
    pub id: Seq<char>,
    pub from_field: Seq<char>,
    pub to_field: Seq<char>,
    pub origin: Origin,
    pub value: TimeSpanView,
}

impl View for AnnotationResult {
    type V = AnnotationResultView;

    open spec fn view(&self) -> AnnotationResultView {
        AnnotationResultView {
            id: self.id@,
            from_field: self.from_field@,
            to_field: self.to_field@,
            origin: self.origin,
            value: self.value@,
        }
    }
}

pub open spec fn result_views(rs: Seq<AnnotationResult>) -> Seq<AnnotationResultView> {
    rs.map_values(|r: AnnotationResult| r@)
}

/// One annotation pass over one task, with its results.
#[derive(Debug)]
pub struct AnnotationSet {
    pub id: u32,
    pub created_at: String,
    pub task_id: u32,
    pub project_id: u32,
    pub results: Vec<AnnotationResult>,
}

pub ghost struct AnnotationSetView {
    pub id: int,
    pub created_at: Seq<char>,
    pub task_id: int,
    pub project_id: int,
    pub results: Seq<AnnotationResultView>,
}

impl View for AnnotationSet {
    type V = AnnotationSetView;

    open spec fn view(&self) -> AnnotationSetView {
        AnnotationSetView {
            id: self.id as int,
            created_at: self.created_at@,
            task_id: self.task_id as int,
            project_id: self.project_id as int,
            results: result_views(self.results@),
        }
    }
}

pub open spec fn set_views(ss: Seq<AnnotationSet>) -> Seq<AnnotationSetView> {
    ss.map_values(|s: AnnotationSet| s@)
}

/// One model-made label inside a prediction set; predictions carry no
/// provenance tag and are never filtered.
#[derive(Debug)]
pub struct PredictionResult {
    pub id: String,
    pub from_field: String,
    pub to_field: String,
    pub value: TimeSpan,
}

pub ghost struct PredictionResultView {
    pub id: Seq<char>,
    pub from_field: Seq<char>,
    pub to_field: Seq<char>,
    pub value: TimeSpanView,
}

impl View for PredictionResult {
    type V = PredictionResultView;

    open spec fn view(&self) -> PredictionResultView {
        PredictionResultView {
            id: self.id@,
            from_field: self.from_field@,
            to_field: self.to_field@,
            value: self.value@,
        }
    }
}

pub open spec fn prediction_result_views(rs: Seq<PredictionResult>) -> Seq<PredictionResultView> {
    rs.map_values(|r: PredictionResult| r@)
}

/// One prediction pass over one task.
#[derive(Debug)]
pub struct PredictionSet {
    pub id: u32,
    pub created_ago: String,
    pub results: Vec<PredictionResult>,
}

pub ghost struct PredictionSetView {
    pub id: int,
    pub created_ago: Seq<char>,
    pub results: Seq<PredictionResultView>,
}

impl View for PredictionSet {
    type V = PredictionSetView;

    open spec fn view(&self) -> PredictionSetView {
        PredictionSetView {
            id: self.id as int,
            created_ago: self.created_ago@,
            results: prediction_result_views(self.results@),
        }
    }
}

pub open spec fn prediction_set_views(ss: Seq<PredictionSet>) -> Seq<PredictionSetView> {
    ss.map_values(|s: PredictionSet| s@)
}

/// One entry of the task export as it comes from the remote system: the
/// task's own fields and its raw, still unfiltered annotation sets. The
/// `data` payload is carried through unexamined.
#[derive(Debug)]
pub struct RawTask {
    pub id: u32,
    pub file_upload: String,
    pub annotation_sets: Vec<AnnotationSet>,
    pub data: JsonValue,
}

pub ghost struct RawTaskView {
    pub id: int,
    pub file_upload: Seq<char>,
    pub annotation_sets: Seq<AnnotationSetView>,
    pub data: JsonValue,
}

impl View for RawTask {
    type V = RawTaskView;

    open spec fn view(&self) -> RawTaskView {
        RawTaskView {
            id: self.id as int,
            file_upload: self.file_upload@,
            annotation_sets: set_views(self.annotation_sets@),
            data: self.data,
        }
    }
}

pub open spec fn raw_task_views(ts: Seq<RawTask>) -> Seq<RawTaskView> {
    ts.map_values(|t: RawTask| t@)
}

/// One task of the assembled output: the export entry merged with the
/// predictions fetched for it, its annotation results already filtered.
#[derive(Debug)]
pub struct TaskRecord {
    pub id: u32,
    pub file_upload: String,
    pub annotation_sets: Vec<AnnotationSet>,
    pub prediction_sets: Vec<PredictionSet>,
    pub data: JsonValue,
}

pub ghost struct TaskRecordView {
    pub id: int,
    pub file_upload: Seq<char>,
    pub annotation_sets: Seq<AnnotationSetView>,
    pub prediction_sets: Seq<PredictionSetView>,
    pub data: JsonValue,
}

impl View for TaskRecord {
    type V = TaskRecordView;

    open spec fn view(&self) -> TaskRecordView {
        TaskRecordView {
            id: self.id as int,
            file_upload: self.file_upload@,
            annotation_sets: set_views(self.annotation_sets@),
            prediction_sets: prediction_set_views(self.prediction_sets@),
            data: self.data,
        }
    }
}

pub open spec fn task_record_views(ts: Seq<TaskRecord>) -> Seq<TaskRecordView> {
    ts.map_values(|t: TaskRecord| t@)
}

/// The assembled output for one project.
#[derive(Debug)]
pub struct ProjectRecord {
    pub id: u32,
    pub tasks: Vec<TaskRecord>,
}

pub ghost struct ProjectRecordView {
    pub id: int,
    pub tasks: Seq<TaskRecordView>,
}

impl View for ProjectRecord {
    type V = ProjectRecordView;

    open spec fn view(&self) -> ProjectRecordView {
        ProjectRecordView { id: self.id as int, tasks: task_record_views(self.tasks@) }
    }
}

} // verus!
