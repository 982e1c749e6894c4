use vstd::prelude::*;
use crate::model::{
    AnnotationResult, AnnotationResultView, AnnotationSet, AnnotationSetView, Origin,
    result_views, set_views,
};

verus! {

/// Whether one annotation result was made by a person.
pub open spec fn is_manual(r: AnnotationResultView) -> bool {
    r.origin is Manual
}

/// The subsequence of results made by a person, in their original order.
pub open spec fn manual_results(rs: Seq<AnnotationResultView>) -> Seq<AnnotationResultView>
    decreases rs.len(),
{
    if rs.len() == 0 {
        Seq::empty()
    } else {
        let rest = manual_results(rs.drop_first());
        if is_manual(rs[0]) {
            seq![rs[0]] + rest
        } else {
            rest
        }
    }
}

/// One annotation set after filtering: the same set, with only its
/// manual results surviving.
pub open spec fn filter_set(s: AnnotationSetView) -> AnnotationSetView {
    AnnotationSetView { results: manual_results(s.results), ..s }
}

/// A task's annotation sets after filtering: every set is retained, even
/// one left with no surviving result.
pub open spec fn filter_sets(ss: Seq<AnnotationSetView>) -> Seq<AnnotationSetView> {
    ss.map_values(|s: AnnotationSetView| filter_set(s))
}

/// Retains only the manual results of one set's result list.
pub fn filter_annotation_results(rs: Vec<AnnotationResult>) -> (out: Vec<AnnotationResult>)
    ensures
        result_views(out@) == manual_results(result_views(rs@)),
{
    let ghost orig = result_views(rs@);
    let mut rest = rs;
    let mut out: Vec<AnnotationResult> = Vec::new();
    while rest.len() > 0
        invariant
            manual_results(orig) == result_views(out@) + manual_results(result_views(rest@)),
        decreases rest.len(),
    {
        let ghost rest_before = result_views(rest@);
        let r = rest.remove(0);
        proof {
            assert(rest_before =~= seq![r@] + result_views(rest@));
            assert(rest_before.drop_first() =~= result_views(rest@));
        }
        if matches!(r.origin, Origin::Manual) {
            let ghost out_before = result_views(out@);
            out.push(r);
            proof {
                assert(result_views(out@) =~= out_before + seq![rest_before[0]]);
                assert(manual_results(orig) =~= result_views(out@) + manual_results(
                    result_views(rest@),
                ));
            }
        }
    }
    proof {
        assert(result_views(rest@) =~= Seq::<AnnotationResultView>::empty());
        assert(manual_results(orig) =~= result_views(out@));
    }
    out
}

/// Filters a task's annotation sets: each set keeps its identity and only
/// its manual results; no set is dropped.
pub fn filter_annotation_sets(ss: Vec<AnnotationSet>) -> (out: Vec<AnnotationSet>)
    ensures
        set_views(out@) == filter_sets(set_views(ss@)),
{
    let ghost orig = set_views(ss@);
    let mut rest = ss;
    let mut out: Vec<AnnotationSet> = Vec::new();
    while rest.len() > 0
        invariant
            filter_sets(orig) == set_views(out@) + filter_sets(set_views(rest@)),
        decreases rest.len(),
    {
        let ghost rest_before = set_views(rest@);
        let s = rest.remove(0);
        proof {
            assert(rest_before =~= seq![s@] + set_views(rest@));
            assert(filter_sets(rest_before) =~= seq![filter_set(s@)] + filter_sets(
                set_views(rest@),
            ));
        }
        let filtered = filter_annotation_results(s.results);
        let kept = AnnotationSet {
            id: s.id,
            created_at: s.created_at,
            task_id: s.task_id,
            project_id: s.project_id,
            results: filtered,
        };
        let ghost out_before = set_views(out@);
        proof {
            assert(kept@ == filter_set(s@));
        }
        out.push(kept);
        proof {
            assert(set_views(out@) =~= out_before + seq![filter_set(s@)]);
            assert(filter_sets(orig) =~= set_views(out@) + filter_sets(set_views(rest@)));
        }
    }
    proof {
        assert(set_views(rest@) =~= Seq::<AnnotationSetView>::empty());
        assert(filter_sets(set_views(rest@)) =~= Seq::<AnnotationSetView>::empty());
        assert(filter_sets(orig) =~= set_views(out@));
    }
    out
}

/// Law: filtering keeps only manual results, never grows a result list,
/// keeps every set with its identifying fields, and surviving results keep
/// their original relative order (each filtered list is exactly the
/// subsequence of manual entries of the original list).
pub proof fn lemma_filter_only_manual(rs: Seq<AnnotationResultView>)
    ensures
        manual_results(rs).len() <= rs.len(),
        forall|j: int| 0 <= j < manual_results(rs).len() ==> is_manual(
            #[trigger] manual_results(rs)[j],
        ),
    decreases rs.len(),
{
    if rs.len() > 0 {
        lemma_filter_only_manual(rs.drop_first());
    }
}

/// Law: the filtered sets are the original sets, one for one, each with
/// only its manual results and with every other field unchanged.
pub proof fn lemma_filter_sets_shape(ss: Seq<AnnotationSetView>)
    ensures
        filter_sets(ss).len() == ss.len(),
        forall|i: int| 0 <= i < ss.len() ==> {
            let f = #[trigger] filter_sets(ss)[i];
            &&& f.id == ss[i].id
            &&& f.created_at == ss[i].created_at
            &&& f.task_id == ss[i].task_id
            &&& f.project_id == ss[i].project_id
            &&& f.results == manual_results(ss[i].results)
            &&& f.results.len() <= ss[i].results.len()
            &&& forall|j: int| 0 <= j < f.results.len() ==> is_manual(#[trigger] f.results[j])
        },
{
    assert forall|i: int| 0 <= i < ss.len() implies {
        let f = #[trigger] filter_sets(ss)[i];
        &&& f.id == ss[i].id
        &&& f.created_at == ss[i].created_at
        &&& f.task_id == ss[i].task_id
        &&& f.project_id == ss[i].project_id
        &&& f.results == manual_results(ss[i].results)
        &&& f.results.len() <= ss[i].results.len()
        &&& forall|j: int| 0 <= j < f.results.len() ==> is_manual(#[trigger] f.results[j])
    } by {
        lemma_filter_only_manual(ss[i].results);
    }
}

/// Law: filtering is idempotent on result lists; running the filter on an
/// already filtered list changes nothing.
pub proof fn lemma_filter_idempotent(rs: Seq<AnnotationResultView>)
    ensures
        manual_results(manual_results(rs)) == manual_results(rs),
    decreases rs.len(),
{
    if rs.len() > 0 {
        lemma_filter_idempotent(rs.drop_first());
        if is_manual(rs[0]) {
            let kept = seq![rs[0]] + manual_results(rs.drop_first());
            assert(kept.drop_first() =~= manual_results(rs.drop_first()));
            assert(manual_results(kept) =~= seq![rs[0]] + manual_results(
                manual_results(rs.drop_first()),
            ));
        }
    }
}

/// Law: filtering a task's annotation sets twice gives the same sets as
/// filtering them once.
pub proof fn lemma_filter_sets_idempotent(ss: Seq<AnnotationSetView>)
    ensures
        filter_sets(filter_sets(ss)) == filter_sets(ss),
{
    assert forall|i: int| 0 <= i < ss.len() implies #[trigger] filter_sets(filter_sets(ss))[i]
        == filter_sets(ss)[i] by {
        lemma_filter_idempotent(ss[i].results);
    }
    assert(filter_sets(filter_sets(ss)) =~= filter_sets(ss));
}

} // verus!
