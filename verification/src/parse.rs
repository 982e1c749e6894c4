use vstd::prelude::*;
use crate::json::{JsonValue, dec_val, is_dec_digits, lookup, parse_u32_digits, str_eq, take_field};
use crate::error::SchemaError;
use crate::model::{
    AnnotationResult, AnnotationResultView, AnnotationSet, AnnotationSetView, Origin,
    PredictionResult, PredictionResultView, PredictionSet, PredictionSetView, RawTask,
    RawTaskView, TimeSpan, TimeSpanView, prediction_result_views, prediction_set_views,
    raw_task_views, result_views, set_views,
};

verus! {

/// The numeric value of a digit string, if it is one and fits in `u32`.
pub open spec fn num_from_digits(s: Seq<char>) -> Option<int> {
    if is_dec_digits(s) && dec_val(s) <= u32::MAX {
        Some(dec_val(s))
    } else {
        None
    }
}

/// A time offset under either remote encoding: a JSON number or a JSON
/// string, both holding decimal digits. Everything else is rejected.
pub open spec fn offset_of(v: JsonValue) -> Option<int> {
    match v {
        JsonValue::Text(s) => num_from_digits(s@),
        JsonValue::Number(s) => num_from_digits(s@),
        _ => None,
    }
}

/// A numeric identifier: strictly a JSON number holding decimal digits.
pub open spec fn id_of(v: JsonValue) -> Option<int> {
    match v {
        JsonValue::Number(s) => num_from_digits(s@),
        _ => None,
    }
}

pub open spec fn text_of(v: JsonValue) -> Option<Seq<char>> {
    match v {
        JsonValue::Text(s) => Some(s@),
        _ => None,
    }
}

pub open spec fn bool_of(v: JsonValue) -> Option<bool> {
    match v {
        JsonValue::Boolean(b) => Some(b),
        _ => None,
    }
}

/// The provenance tag of an annotation result: the string `"manual"` means
/// a person made it, any other string means something else did.
pub open spec fn origin_of(v: JsonValue) -> Option<Origin> {
    match v {
        JsonValue::Text(s) => Some(
            if s@ == "manual"@ {
                Origin::Manual
            } else {
                Origin::Other
            },
        ),
        _ => None,
    }
}

/// A label list: every element must be a JSON string.
pub open spec fn labels_of(vs: Seq<JsonValue>) -> Option<Seq<Seq<char>>>
    decreases vs.len(),
{
    if vs.len() == 0 {
        Some(Seq::empty())
    } else {
        match vs[0] {
            JsonValue::Text(s) => match labels_of(vs.drop_first()) {
                Some(rest) => Some(seq![s@] + rest),
                None => None,
            },
            _ => None,
        }
    }
}

pub open spec fn offset_opt(o: Option<JsonValue>) -> Option<int> {
    match o {
        Some(v) => offset_of(v),
        None => None,
    }
}

pub open spec fn id_opt(o: Option<JsonValue>) -> Option<int> {
    match o {
        Some(v) => id_of(v),
        None => None,
    }
}

pub open spec fn text_opt(o: Option<JsonValue>) -> Option<Seq<char>> {
    match o {
        Some(v) => text_of(v),
        None => None,
    }
}

pub open spec fn bool_opt(o: Option<JsonValue>) -> Option<bool> {
    match o {
        Some(v) => bool_of(v),
        None => None,
    }
}

pub open spec fn origin_opt(o: Option<JsonValue>) -> Option<Origin> {
    match o {
        Some(v) => origin_of(v),
        None => None,
    }
}

pub open spec fn labels_opt(o: Option<JsonValue>) -> Option<Seq<Seq<char>>> {
    match o {
        Some(JsonValue::Array(vs)) => labels_of(vs@),
        _ => None,
    }
}

/// A normalized label region, read from the `value` object of an
/// annotation or prediction result. `start` and `end` may each come as a
/// number or as a digit string; both encodings give the same span.
pub open spec fn span_of(v: JsonValue) -> Option<TimeSpanView> {
    match v {
        JsonValue::Object(ms) => {
            let s = offset_opt(lookup(ms@, "start"@));
            let e = offset_opt(lookup(ms@, "end"@));
            let i = bool_opt(lookup(ms@, "instant"@));
            let l = labels_opt(lookup(ms@, "timeserieslabels"@));
            if s is Some && e is Some && i is Some && l is Some {
                Some(TimeSpanView { start: s->0, end: e->0, instant: i->0, labels: l->0 })
            } else {
                None
            }
        },
        _ => None,
    }
}

pub open spec fn span_opt(o: Option<JsonValue>) -> Option<TimeSpanView> {
    match o {
        Some(v) => span_of(v),
        None => None,
    }
}

/// Law: a span offset encoded as a digit string and one encoded as a JSON
/// number with the same digits normalize to the same numeric value.
pub proof fn lemma_offset_encodings_agree(sv: JsonValue, nv: JsonValue)
    requires
        sv is Text,
        nv is Number,
        sv->Text_0@ == nv->Number_0@,
    ensures
        offset_of(sv) == offset_of(nv),
{
}

pub fn parse_offset(o: Option<JsonValue>) -> (r: Option<u32>)
    ensures
        match r {
            Some(n) => offset_opt(o) == Some(n as int),
            None => offset_opt(o) is None,
        },
{
    match o {
        Some(JsonValue::Text(s)) => parse_u32_digits(s.as_str()),
        Some(JsonValue::Number(s)) => parse_u32_digits(s.as_str()),
        _ => None,
    }
}

pub fn parse_id(o: Option<JsonValue>) -> (r: Option<u32>)
    ensures
        match r {
            Some(n) => id_opt(o) == Some(n as int),
            None => id_opt(o) is None,
        },
{
    match o {
        Some(JsonValue::Number(s)) => parse_u32_digits(s.as_str()),
        _ => None,
    }
}

pub fn parse_text(o: Option<JsonValue>) -> (r: Option<String>)
    ensures
        match r {
            Some(s) => text_opt(o) == Some(s@),
            None => text_opt(o) is None,
        },
{
    match o {
        Some(JsonValue::Text(s)) => Some(s),
        _ => None,
    }
}

pub fn parse_bool(o: Option<JsonValue>) -> (r: Option<bool>)
    ensures
        match r {
            Some(b) => bool_opt(o) == Some(b),
            None => bool_opt(o) is None,
        },
{
    match o {
        Some(JsonValue::Boolean(b)) => Some(b),
        _ => None,
    }
}

pub fn parse_origin(o: Option<JsonValue>) -> (r: Option<Origin>)
    ensures
        match r {
            Some(og) => origin_opt(o) == Some(og),
            None => origin_opt(o) is None,
        },
{
    match o {
        Some(JsonValue::Text(s)) => {
            if str_eq(s.as_str(), "manual") {
                Some(Origin::Manual)
            } else {
                Some(Origin::Other)
            }
        },
        _ => None,
    }
}

pub open spec fn string_views(ss: Seq<String>) -> Seq<Seq<char>> {
    ss.map_values(|s: String| s@)
}

pub fn parse_labels(vs: Vec<JsonValue>) -> (r: Option<Vec<String>>)
    ensures
        match r {
            Some(ls) => labels_of(vs@) == Some(string_views(ls@)),
            None => labels_of(vs@) is None,
        },
{
    let ghost orig = vs@;
    let mut rest = vs;
    let mut out: Vec<String> = Vec::new();
    #[verifier::loop_isolation(false)]
    while rest.len() > 0
        invariant
            match labels_of(rest@) {
                Some(tail) => labels_of(orig) == Some(string_views(out@) + tail),
                None => labels_of(orig) is None,
            },
        decreases rest.len(),
    {
        let ghost rest_before = rest@;
        let x = rest.remove(0);
        proof {
            assert(rest_before.drop_first() =~= rest@);
        }
        match x {
            JsonValue::Text(s) => {
                let ghost out_before = out@;
                out.push(s);
                proof {
                    assert(string_views(out@) =~= string_views(out_before).push(rest_before[0]->Text_0@));
                    if labels_of(rest@) is Some {
                        assert(string_views(out_before) + (seq![rest_before[0]->Text_0@]
                            + labels_of(rest@)->0) =~= string_views(out@) + labels_of(rest@)->0);
                    }
                }
            },
            _ => {
                return None;
            },
        }
    }
    proof {
        assert(rest@ =~= Seq::<JsonValue>::empty());
        assert(string_views(out@) + Seq::<Seq<char>>::empty() =~= string_views(out@));
    }
    Some(out)
}

pub fn parse_span_value(v: JsonValue) -> (r: Option<TimeSpan>)
    ensures
        match r {
            Some(ts) => span_of(v) == Some(ts@),
            None => span_of(v) is None,
        },
{
    match v {
        JsonValue::Object(ms) => {
            let ghost all = ms@;
            let (sv, ms) = take_field(ms, "start");
            let (ev, ms) = take_field(ms, "end");
            let (iv, ms) = take_field(ms, "instant");
            let (lv, ms) = take_field(ms, "timeserieslabels");
            proof {
                reveal_strlit("start");
                reveal_strlit("end");
                reveal_strlit("instant");
                reveal_strlit("timeserieslabels");
                assert("start"@.len() == 5);
                assert("end"@.len() == 3);
                assert("instant"@.len() == 7);
                assert("timeserieslabels"@.len() == 16);
                assert(sv == lookup(all, "start"@));
                assert(ev == lookup(all, "end"@));
                assert(iv == lookup(all, "instant"@));
                assert(lv == lookup(all, "timeserieslabels"@));
            }
            let start = match parse_offset(sv) {
                Some(n) => n,
                None => {
                    return None;
                },
            };
            let end = match parse_offset(ev) {
                Some(n) => n,
                None => {
                    return None;
                },
            };
            let instant = match parse_bool(iv) {
                Some(b) => b,
                None => {
                    return None;
                },
            };
            let labels = match lv {
                Some(JsonValue::Array(vs)) => match parse_labels(vs) {
                    Some(ls) => ls,
                    None => {
                        return None;
                    },
                },
                _ => {
                    return None;
                },
            };
            Some(TimeSpan { start, end, instant, labels })
        },
        _ => None,
    }
}

/// Law: a span value whose `start`/`end` are digit strings and one whose
/// `start`/`end` are JSON numbers with the same digits normalize to the
/// same span, when the remaining fields look up equal.
pub proof fn lemma_span_encodings_agree(pv: JsonValue, av: JsonValue)
    requires
        pv is Object,
        av is Object,
        lookup(pv->Object_0@, "start"@) is Some,
        lookup(av->Object_0@, "start"@) is Some,
        lookup(pv->Object_0@, "start"@)->0 is Text,
        lookup(av->Object_0@, "start"@)->0 is Number,
        lookup(pv->Object_0@, "start"@)->0->Text_0@ == lookup(av->Object_0@, "start"@)->0->Number_0@,
        lookup(pv->Object_0@, "end"@) is Some,
        lookup(av->Object_0@, "end"@) is Some,
        lookup(pv->Object_0@, "end"@)->0 is Text,
        lookup(av->Object_0@, "end"@)->0 is Number,
        lookup(pv->Object_0@, "end"@)->0->Text_0@ == lookup(av->Object_0@, "end"@)->0->Number_0@,
        bool_opt(lookup(pv->Object_0@, "instant"@)) == bool_opt(lookup(av->Object_0@, "instant"@)),
        labels_opt(lookup(pv->Object_0@, "timeserieslabels"@)) == labels_opt(
            lookup(av->Object_0@, "timeserieslabels"@),
        ),
    ensures
        span_of(pv) == span_of(av),
{
    lemma_offset_encodings_agree(
        lookup(pv->Object_0@, "start"@)->0,
        lookup(av->Object_0@, "start"@)->0,
    );
    lemma_offset_encodings_agree(
        lookup(pv->Object_0@, "end"@)->0,
        lookup(av->Object_0@, "end"@)->0,
    );
}

/// One annotation result, as the task export embeds it.
pub open spec fn annotation_result_of(v: JsonValue) -> Option<AnnotationResultView> {
    match v {
        JsonValue::Object(ms) => {
            let id = text_opt(lookup(ms@, "id"@));
            let ff = text_opt(lookup(ms@, "from_name"@));
            let tf = text_opt(lookup(ms@, "to_name"@));
            let og = origin_opt(lookup(ms@, "origin"@));
            let vl = span_opt(lookup(ms@, "value"@));
            if id is Some && ff is Some && tf is Some && og is Some && vl is Some {
                Some(
                    AnnotationResultView {
                        id: id->0,
                        from_field: ff->0,
                        to_field: tf->0,
                        origin: og->0,
                        value: vl->0,
                    },
                )
            } else {
                None
            }
        },
        _ => None,
    }
}

pub fn parse_annotation_result(v: JsonValue) -> (r: Option<AnnotationResult>)
    ensures
        match r {
            Some(a) => annotation_result_of(v) == Some(a@),
            None => annotation_result_of(v) is None,
        },
{
    match v {
        JsonValue::Object(ms) => {
            let ghost all = ms@;
            let (idv, ms) = take_field(ms, "id");
            let (ffv, ms) = take_field(ms, "from_name");
            let (tfv, ms) = take_field(ms, "to_name");
            let (ogv, ms) = take_field(ms, "origin");
            let (vlv, _) = take_field(ms, "value");
            proof {
                reveal_strlit("id");
                reveal_strlit("from_name");
                reveal_strlit("to_name");
                reveal_strlit("origin");
                reveal_strlit("value");
                assert("id"@.len() == 2);
                assert("from_name"@.len() == 9);
                assert("to_name"@.len() == 7);
                assert("origin"@.len() == 6);
                assert("value"@.len() == 5);
                assert(idv == lookup(all, "id"@));
                assert(ffv == lookup(all, "from_name"@));
                assert(tfv == lookup(all, "to_name"@));
                assert(ogv == lookup(all, "origin"@));
                assert(vlv == lookup(all, "value"@));
            }
            let id = match parse_text(idv) {
                Some(s) => s,
                None => {
                    return None;
                },
            };
            let from_field = match parse_text(ffv) {
                Some(s) => s,
                None => {
                    return None;
                },
            };
            let to_field = match parse_text(tfv) {
                Some(s) => s,
                None => {
                    return None;
                },
            };
            let origin = match parse_origin(ogv) {
                Some(og) => og,
                None => {
                    return None;
                },
            };
            let value = match vlv {
                Some(vv) => match parse_span_value(vv) {
                    Some(ts) => ts,
                    None => {
                        return None;
                    },
                },
                None => {
                    return None;
                },
            };
            Some(AnnotationResult { id, from_field, to_field, origin, value })
        },
        _ => None,
    }
}

/// A whole `result` list of an annotation set: every element must be a
/// well-formed annotation result, or the list is rejected.
pub open spec fn annotation_results_of(vs: Seq<JsonValue>) -> Option<Seq<AnnotationResultView>>
    decreases vs.len(),
{
    if vs.len() == 0 {
        Some(Seq::empty())
    } else {
        match annotation_result_of(vs[0]) {
            Some(a) => match annotation_results_of(vs.drop_first()) {
                Some(rest) => Some(seq![a] + rest),
                None => None,
            },
            None => None,
        }
    }
}

pub fn parse_annotation_results(vs: Vec<JsonValue>) -> (r: Option<Vec<AnnotationResult>>)
    ensures
        match r {
            Some(xs) => annotation_results_of(vs@) == Some(result_views(xs@)),
            None => annotation_results_of(vs@) is None,
        },
{
    let ghost orig = vs@;
    let mut rest = vs;
    let mut out: Vec<AnnotationResult> = Vec::new();
    #[verifier::loop_isolation(false)]
    while rest.len() > 0
        invariant
            match annotation_results_of(rest@) {
                Some(tail) => annotation_results_of(orig) == Some(result_views(out@) + tail),
                None => annotation_results_of(orig) is None,
            },
        decreases rest.len(),
    {
        let ghost rest_before = rest@;
        let x = rest.remove(0);
        proof {
            assert(rest_before.drop_first() =~= rest@);
        }
        match parse_annotation_result(x) {
            Some(a) => {
                let ghost out_before = out@;
                let ghost av = a@;
                out.push(a);
                proof {
                    assert(result_views(out@) =~= result_views(out_before).push(av));
                    if annotation_results_of(rest@) is Some {
                        assert(result_views(out_before) + (seq![av] + annotation_results_of(
                            rest@,
                        )->0) =~= result_views(out@) + annotation_results_of(rest@)->0);
                    }
                }
            },
            None => {
                return None;
            },
        }
    }
    proof {
        assert(rest@ =~= Seq::<JsonValue>::empty());
        assert(result_views(out@) + Seq::<AnnotationResultView>::empty() =~= result_views(out@));
    }
    Some(out)
}

pub open spec fn annotation_results_opt(o: Option<JsonValue>) -> Option<Seq<AnnotationResultView>> {
    match o {
        Some(JsonValue::Array(vs)) => annotation_results_of(vs@),
        _ => None,
    }
}

/// One annotation set of a task-export entry.
pub open spec fn annotation_set_of(v: JsonValue) -> Option<AnnotationSetView> {
    match v {
        JsonValue::Object(ms) => {
            let id = id_opt(lookup(ms@, "id"@));
            let ca = text_opt(lookup(ms@, "created_at"@));
            let tk = id_opt(lookup(ms@, "task"@));
            let pj = id_opt(lookup(ms@, "project"@));
            let rs = annotation_results_opt(lookup(ms@, "result"@));
            if id is Some && ca is Some && tk is Some && pj is Some && rs is Some {
                Some(
                    AnnotationSetView {
                        id: id->0,
                        created_at: ca->0,
                        task_id: tk->0,
                        project_id: pj->0,
                        results: rs->0,
                    },
                )
            } else {
                None
            }
        },
        _ => None,
    }
}

pub fn parse_annotation_set(v: JsonValue) -> (r: Option<AnnotationSet>)
    ensures
        match r {
            Some(s) => annotation_set_of(v) == Some(s@),
            None => annotation_set_of(v) is None,
        },
{
    match v {
        JsonValue::Object(ms) => {
            let ghost all = ms@;
            let (idv, ms) = take_field(ms, "id");
            let (cav, ms) = take_field(ms, "created_at");
            let (tkv, ms) = take_field(ms, "task");
            let (pjv, ms) = take_field(ms, "project");
            let (rsv, _) = take_field(ms, "result");
            proof {
                reveal_strlit("id");
                reveal_strlit("created_at");
                reveal_strlit("task");
                reveal_strlit("project");
                reveal_strlit("result");
                assert("id"@.len() == 2);
                assert("created_at"@.len() == 10);
                assert("task"@.len() == 4);
                assert("project"@.len() == 7);
                assert("result"@.len() == 6);
                assert(idv == lookup(all, "id"@));
                assert(cav == lookup(all, "created_at"@));
                assert(tkv == lookup(all, "task"@));
                assert(pjv == lookup(all, "project"@));
                assert(rsv == lookup(all, "result"@));
            }
            let id = match parse_id(idv) {
                Some(n) => n,
                None => {
                    return None;
                },
            };
            let created_at = match parse_text(cav) {
                Some(s) => s,
                None => {
                    return None;
                },
            };
            let task_id = match parse_id(tkv) {
                Some(n) => n,
                None => {
                    return None;
                },
            };
            let project_id = match parse_id(pjv) {
                Some(n) => n,
                None => {
                    return None;
                },
            };
            let results = match rsv {
                Some(JsonValue::Array(vs)) => match parse_annotation_results(vs) {
                    Some(xs) => xs,
                    None => {
                        return None;
                    },
                },
                _ => {
                    return None;
                },
            };
            Some(AnnotationSet { id, created_at, task_id, project_id, results })
        },
        _ => None,
    }
}

/// A task's `annotations` list: every annotation set must be well formed.
pub open spec fn annotation_sets_of(vs: Seq<JsonValue>) -> Option<Seq<AnnotationSetView>>
    decreases vs.len(),
{
    if vs.len() == 0 {
        Some(Seq::empty())
    } else {
        match annotation_set_of(vs[0]) {
            Some(s) => match annotation_sets_of(vs.drop_first()) {
                Some(rest) => Some(seq![s] + rest),
                None => None,
            },
            None => None,
        }
    }
}

pub fn parse_annotation_sets(vs: Vec<JsonValue>) -> (r: Option<Vec<AnnotationSet>>)
    ensures
        match r {
            Some(xs) => annotation_sets_of(vs@) == Some(set_views(xs@)),
            None => annotation_sets_of(vs@) is None,
        },
{
    let ghost orig = vs@;
    let mut rest = vs;
    let mut out: Vec<AnnotationSet> = Vec::new();
    #[verifier::loop_isolation(false)]
    while rest.len() > 0
        invariant
            match annotation_sets_of(rest@) {
                Some(tail) => annotation_sets_of(orig) == Some(set_views(out@) + tail),
                None => annotation_sets_of(orig) is None,
            },
        decreases rest.len(),
    {
        let ghost rest_before = rest@;
        let x = rest.remove(0);
        proof {
            assert(rest_before.drop_first() =~= rest@);
        }
        match parse_annotation_set(x) {
            Some(s) => {
                let ghost out_before = out@;
                let ghost sv = s@;
                out.push(s);
                proof {
                    assert(set_views(out@) =~= set_views(out_before).push(sv));
                    if annotation_sets_of(rest@) is Some {
                        assert(set_views(out_before) + (seq![sv] + annotation_sets_of(rest@)->0)
                            =~= set_views(out@) + annotation_sets_of(rest@)->0);
                    }
                }
            },
            None => {
                return None;
            },
        }
    }
    proof {
        assert(rest@ =~= Seq::<JsonValue>::empty());
        assert(set_views(out@) + Seq::<AnnotationSetView>::empty() =~= set_views(out@));
    }
    Some(out)
}

/// One prediction result, as the predictions endpoint returns it.
pub open spec fn prediction_result_of(v: JsonValue) -> Option<PredictionResultView> {
    match v {
        JsonValue::Object(ms) => {
            let id = text_opt(lookup(ms@, "id"@));
            let ff = text_opt(lookup(ms@, "from_name"@));
            let tf = text_opt(lookup(ms@, "to_name"@));
            let vl = span_opt(lookup(ms@, "value"@));
            if id is Some && ff is Some && tf is Some && vl is Some {
                Some(
                    PredictionResultView {
                        id: id->0,
                        from_field: ff->0,
                        to_field: tf->0,
                        value: vl->0,
                    },
                )
            } else {
                None
            }
        },
        _ => None,
    }
}

pub fn parse_prediction_result(v: JsonValue) -> (r: Option<PredictionResult>)
    ensures
        match r {
            Some(p) => prediction_result_of(v) == Some(p@),
            None => prediction_result_of(v) is None,
        },
{
    match v {
        JsonValue::Object(ms) => {
            let ghost all = ms@;
            let (idv, ms) = take_field(ms, "id");
            let (ffv, ms) = take_field(ms, "from_name");
            let (tfv, ms) = take_field(ms, "to_name");
            let (vlv, _) = take_field(ms, "value");
            proof {
                reveal_strlit("id");
                reveal_strlit("from_name");
                reveal_strlit("to_name");
                reveal_strlit("value");
                assert("id"@.len() == 2);
                assert("from_name"@.len() == 9);
                assert("to_name"@.len() == 7);
                assert("value"@.len() == 5);
                assert(idv == lookup(all, "id"@));
                assert(ffv == lookup(all, "from_name"@));
                assert(tfv == lookup(all, "to_name"@));
                assert(vlv == lookup(all, "value"@));
            }
            let id = match parse_text(idv) {
                Some(s) => s,
                None => {
                    return None;
                },
            };
            let from_field = match parse_text(ffv) {
                Some(s) => s,
                None => {
                    return None;
                },
            };
            let to_field = match parse_text(tfv) {
                Some(s) => s,
                None => {
                    return None;
                },
            };
            let value = match vlv {
                Some(vv) => match parse_span_value(vv) {
                    Some(ts) => ts,
                    None => {
                        return None;
                    },
                },
                None => {
                    return None;
                },
            };
            Some(PredictionResult { id, from_field, to_field, value })
        },
        _ => None,
    }
}

pub open spec fn prediction_results_of(vs: Seq<JsonValue>) -> Option<Seq<PredictionResultView>>
    decreases vs.len(),
{
    if vs.len() == 0 {
        Some(Seq::empty())
    } else {
        match prediction_result_of(vs[0]) {
            Some(p) => match prediction_results_of(vs.drop_first()) {
                Some(rest) => Some(seq![p] + rest),
                None => None,
            },
            None => None,
        }
    }
}

pub fn parse_prediction_results(vs: Vec<JsonValue>) -> (r: Option<Vec<PredictionResult>>)
    ensures
        match r {
            Some(xs) => prediction_results_of(vs@) == Some(prediction_result_views(xs@)),
            None => prediction_results_of(vs@) is None,
        },
{
    let ghost orig = vs@;
    let mut rest = vs;
    let mut out: Vec<PredictionResult> = Vec::new();
    #[verifier::loop_isolation(false)]
    while rest.len() > 0
        invariant
            match prediction_results_of(rest@) {
                Some(tail) => prediction_results_of(orig) == Some(
                    prediction_result_views(out@) + tail,
                ),
                None => prediction_results_of(orig) is None,
            },
        decreases rest.len(),
    {
        let ghost rest_before = rest@;
        let x = rest.remove(0);
        proof {
            assert(rest_before.drop_first() =~= rest@);
        }
        match parse_prediction_result(x) {
            Some(p) => {
                let ghost out_before = out@;
                let ghost pv = p@;
                out.push(p);
                proof {
                    assert(prediction_result_views(out@) =~= prediction_result_views(
                        out_before,
                    ).push(pv));
                    if prediction_results_of(rest@) is Some {
                        assert(prediction_result_views(out_before) + (seq![pv]
                            + prediction_results_of(rest@)->0) =~= prediction_result_views(out@)
                            + prediction_results_of(rest@)->0);
                    }
                }
            },
            None => {
                return None;
            },
        }
    }
    proof {
        assert(rest@ =~= Seq::<JsonValue>::empty());
        assert(prediction_result_views(out@) + Seq::<PredictionResultView>::empty()
            =~= prediction_result_views(out@));
    }
    Some(out)
}

pub open spec fn prediction_results_opt(o: Option<JsonValue>) -> Option<Seq<PredictionResultView>> {
    match o {
        Some(JsonValue::Array(vs)) => prediction_results_of(vs@),
        _ => None,
    }
}

/// One prediction set of the predictions endpoint's response.
pub open spec fn prediction_set_of(v: JsonValue) -> Option<PredictionSetView> {
    match v {
        JsonValue::Object(ms) => {
            let id = id_opt(lookup(ms@, "id"@));
            let ca = text_opt(lookup(ms@, "created_ago"@));
            let rs = prediction_results_opt(lookup(ms@, "result"@));
            if id is Some && ca is Some && rs is Some {
                Some(PredictionSetView { id: id->0, created_ago: ca->0, results: rs->0 })
            } else {
                None
            }
        },
        _ => None,
    }
}

pub fn parse_prediction_set(v: JsonValue) -> (r: Option<PredictionSet>)
    ensures
        match r {
            Some(s) => prediction_set_of(v) == Some(s@),
            None => prediction_set_of(v) is None,
        },
{
    match v {
        JsonValue::Object(ms) => {
            let ghost all = ms@;
            let (idv, ms) = take_field(ms, "id");
            let (cav, ms) = take_field(ms, "created_ago");
            let (rsv, _) = take_field(ms, "result");
            proof {
                reveal_strlit("id");
                reveal_strlit("created_ago");
                reveal_strlit("result");
                assert("id"@.len() == 2);
                assert("created_ago"@.len() == 11);
                assert("result"@.len() == 6);
                assert(idv == lookup(all, "id"@));
                assert(cav == lookup(all, "created_ago"@));
                assert(rsv == lookup(all, "result"@));
            }
            let id = match parse_id(idv) {
                Some(n) => n,
                None => {
                    return None;
                },
            };
            let created_ago = match parse_text(cav) {
                Some(s) => s,
                None => {
                    return None;
                },
            };
            let results = match rsv {
                Some(JsonValue::Array(vs)) => match parse_prediction_results(vs) {
                    Some(xs) => xs,
                    None => {
                        return None;
                    },
                },
                _ => {
                    return None;
                },
            };
            Some(PredictionSet { id, created_ago, results })
        },
        _ => None,
    }
}

pub open spec fn prediction_sets_of(vs: Seq<JsonValue>) -> Option<Seq<PredictionSetView>>
    decreases vs.len(),
{
    if vs.len() == 0 {
        Some(Seq::empty())
    } else {
        match prediction_set_of(vs[0]) {
            Some(s) => match prediction_sets_of(vs.drop_first()) {
                Some(rest) => Some(seq![s] + rest),
                None => None,
            },
            None => None,
        }
    }
}

pub fn parse_prediction_sets(vs: Vec<JsonValue>) -> (r: Option<Vec<PredictionSet>>)
    ensures
        match r {
            Some(xs) => prediction_sets_of(vs@) == Some(prediction_set_views(xs@)),
            None => prediction_sets_of(vs@) is None,
        },
{
    let ghost orig = vs@;
    let mut rest = vs;
    let mut out: Vec<PredictionSet> = Vec::new();
    #[verifier::loop_isolation(false)]
    while rest.len() > 0
        invariant
            match prediction_sets_of(rest@) {
                Some(tail) => prediction_sets_of(orig) == Some(prediction_set_views(out@) + tail),
                None => prediction_sets_of(orig) is None,
            },
        decreases rest.len(),
    {
        let ghost rest_before = rest@;
        let x = rest.remove(0);
        proof {
            assert(rest_before.drop_first() =~= rest@);
        }
        match parse_prediction_set(x) {
            Some(s) => {
                let ghost out_before = out@;
                let ghost sv = s@;
                out.push(s);
                proof {
                    assert(prediction_set_views(out@) =~= prediction_set_views(out_before).push(
                        sv,
                    ));
                    if prediction_sets_of(rest@) is Some {
                        assert(prediction_set_views(out_before) + (seq![sv] + prediction_sets_of(
                            rest@,
                        )->0) =~= prediction_set_views(out@) + prediction_sets_of(rest@)->0);
                    }
                }
            },
            None => {
                return None;
            },
        }
    }
    proof {
        assert(rest@ =~= Seq::<JsonValue>::empty());
        assert(prediction_set_views(out@) + Seq::<PredictionSetView>::empty()
            =~= prediction_set_views(out@));
    }
    Some(out)
}

/// The whole predictions response for one task: an array of well-formed
/// prediction sets, or nothing.
pub open spec fn predictions_of(v: JsonValue) -> Option<Seq<PredictionSetView>> {
    match v {
        JsonValue::Array(vs) => prediction_sets_of(vs@),
        _ => None,
    }
}

/// Parses the predictions response for one task. Any shape problem is
/// fatal for the run: there are no partially parsed predictions.
pub fn parse_task_predictions(v: JsonValue) -> (r: Result<Vec<PredictionSet>, SchemaError>)
    ensures
        r is Ok <==> predictions_of(v) is Some,
        r matches Ok(xs) ==> predictions_of(v) == Some(prediction_set_views(xs@)),
        r matches Err(e) ==> e == SchemaError::Predictions,
{
    match v {
        JsonValue::Array(vs) => match parse_prediction_sets(vs) {
            Some(xs) => Ok(xs),
            None => Err(SchemaError::Predictions),
        },
        _ => Err(SchemaError::Predictions),
    }
}

/// The list of bare prediction IDs that a task-export entry carries. The
/// IDs are not used, but a malformed list still rejects the entry, as a
/// strict reading of the export requires.
pub open spec fn ids_of(vs: Seq<JsonValue>) -> bool
    decreases vs.len(),
{
    if vs.len() == 0 {
        true
    } else {
        id_of(vs[0]) is Some && ids_of(vs.drop_first())
    }
}

pub fn check_id_list(vs: Vec<JsonValue>) -> (r: bool)
    ensures
        r == ids_of(vs@),
{
    let ghost orig = vs@;
    let mut rest = vs;
    #[verifier::loop_isolation(false)]
    while rest.len() > 0
        invariant
            ids_of(orig) == ids_of(rest@),
        decreases rest.len(),
    {
        let ghost rest_before = rest@;
        let x = rest.remove(0);
        proof {
            assert(rest_before.drop_first() =~= rest@);
        }
        match parse_id(Some(x)) {
            Some(_n) => {
            },
            None => {
                return false;
            },
        }
    }
    true
}

pub open spec fn ids_opt(o: Option<JsonValue>) -> bool {
    match o {
        Some(JsonValue::Array(vs)) => ids_of(vs@),
        _ => false,
    }
}

pub open spec fn annotation_sets_opt(o: Option<JsonValue>) -> Option<Seq<AnnotationSetView>> {
    match o {
        Some(JsonValue::Array(vs)) => annotation_sets_of(vs@),
        _ => None,
    }
}

/// One task-export entry: the task's fields, its raw annotation sets, a
/// well-shaped (though unused) prediction ID list, and the `data` payload
/// carried through unexamined.
pub open spec fn raw_task_of(v: JsonValue) -> Option<RawTaskView> {
    match v {
        JsonValue::Object(ms) => {
            let id = id_opt(lookup(ms@, "id"@));
            let fu = text_opt(lookup(ms@, "file_upload"@));
            let ann = annotation_sets_opt(lookup(ms@, "annotations"@));
            let pr = ids_opt(lookup(ms@, "predictions"@));
            let data = lookup(ms@, "data"@);
            if id is Some && fu is Some && ann is Some && pr && data is Some {
                Some(
                    RawTaskView {
                        id: id->0,
                        file_upload: fu->0,
                        annotation_sets: ann->0,
                        data: data->0,
                    },
                )
            } else {
                None
            }
        },
        _ => None,
    }
}

pub fn parse_raw_task(v: JsonValue) -> (r: Option<RawTask>)
    ensures
        match r {
            Some(t) => raw_task_of(v) == Some(t@),
            None => raw_task_of(v) is None,
        },
{
    match v {
        JsonValue::Object(ms) => {
            let ghost all = ms@;
            let (idv, ms) = take_field(ms, "id");
            let (fuv, ms) = take_field(ms, "file_upload");
            let (anv, ms) = take_field(ms, "annotations");
            let (prv, ms) = take_field(ms, "predictions");
            let (dtv, _) = take_field(ms, "data");
            proof {
                reveal_strlit("id");
                reveal_strlit("file_upload");
                reveal_strlit("annotations");
                reveal_strlit("predictions");
                reveal_strlit("data");
                assert("id"@.len() == 2);
                assert("file_upload"@.len() == 11);
                assert("annotations"@.len() == 11);
                assert("predictions"@.len() == 11);
                assert("data"@.len() == 4);
                assert(("file_upload"@)[0] == 'f');
                assert(("annotations"@)[0] == 'a');
                assert(("predictions"@)[0] == 'p');
                assert(idv == lookup(all, "id"@));
                assert(fuv == lookup(all, "file_upload"@));
                assert(anv == lookup(all, "annotations"@));
                assert(prv == lookup(all, "predictions"@));
                assert(dtv == lookup(all, "data"@));
            }
            let id = match parse_id(idv) {
                Some(n) => n,
                None => {
                    return None;
                },
            };
            let file_upload = match parse_text(fuv) {
                Some(s) => s,
                None => {
                    return None;
                },
            };
            let annotation_sets = match anv {
                Some(JsonValue::Array(vs)) => match parse_annotation_sets(vs) {
                    Some(xs) => xs,
                    None => {
                        return None;
                    },
                },
                _ => {
                    return None;
                },
            };
            match prv {
                Some(JsonValue::Array(vs)) => {
                    if !check_id_list(vs) {
                        return None;
                    }
                },
                _ => {
                    return None;
                },
            }
            let data = match dtv {
                Some(d) => d,
                None => {
                    return None;
                },
            };
            Some(RawTask { id, file_upload, annotation_sets, data })
        },
        _ => None,
    }
}

/// The whole task export for one project: every entry must be a
/// well-formed task object.
pub open spec fn raw_tasks_of(vs: Seq<JsonValue>) -> Option<Seq<RawTaskView>>
    decreases vs.len(),
{
    if vs.len() == 0 {
        Some(Seq::empty())
    } else {
        match raw_task_of(vs[0]) {
            Some(t) => match raw_tasks_of(vs.drop_first()) {
                Some(rest) => Some(seq![t] + rest),
                None => None,
            },
            None => None,
        }
    }
}

pub open spec fn export_of(v: JsonValue) -> Option<Seq<RawTaskView>> {
    match v {
        JsonValue::Array(vs) => raw_tasks_of(vs@),
        _ => None,
    }
}

/// Parses the task export for one project. Any shape problem, in any
/// entry, is fatal for the run: there is no partially parsed export.
pub fn parse_task_export(v: JsonValue) -> (r: Result<Vec<RawTask>, SchemaError>)
    ensures
        r is Ok <==> export_of(v) is Some,
        r matches Ok(ts) ==> export_of(v) == Some(raw_task_views(ts@)),
        r matches Err(e) ==> e == SchemaError::TaskExport,
{
    match v {
        JsonValue::Array(vs) => {
            let ghost orig = vs@;
            let mut rest = vs;
            let mut out: Vec<RawTask> = Vec::new();
            #[verifier::loop_isolation(false)]
            while rest.len() > 0
                invariant
                    match raw_tasks_of(rest@) {
                        Some(tail) => raw_tasks_of(orig) == Some(raw_task_views(out@) + tail),
                        None => raw_tasks_of(orig) is None,
                    },
                decreases rest.len(),
            {
                let ghost rest_before = rest@;
                let x = rest.remove(0);
                proof {
                    assert(rest_before.drop_first() =~= rest@);
                }
                match parse_raw_task(x) {
                    Some(t) => {
                        let ghost out_before = out@;
                        let ghost tv = t@;
                        out.push(t);
                        proof {
                            assert(raw_task_views(out@) =~= raw_task_views(out_before).push(tv));
                            if raw_tasks_of(rest@) is Some {
                                assert(raw_task_views(out_before) + (seq![tv] + raw_tasks_of(
                                    rest@,
                                )->0) =~= raw_task_views(out@) + raw_tasks_of(rest@)->0);
                            }
                        }
                    },
                    None => {
                        return Err(SchemaError::TaskExport);
                    },
                }
            }
            proof {
                assert(rest@ =~= Seq::<JsonValue>::empty());
                assert(raw_task_views(out@) + Seq::<RawTaskView>::empty() =~= raw_task_views(
                    out@,
                ));
            }
            Ok(out)
        },
        _ => Err(SchemaError::TaskExport),
    }
}

} // verus!
