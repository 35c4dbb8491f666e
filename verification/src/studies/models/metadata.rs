//! The metadata store: relational rows for the three entity levels, keyed
//! by their UIDs, with the derived aggregates recomputed from child rows on
//! every read.
//!
//! This is the reference model of the archive's persistence layer: the
//! search and ingest logic is verified against it, and the SQL emitted by
//! the filter DTOs is the same logic compiled for a relational backend.

use crate::studies::models::instance::{SearchInstanceDto, StoreInstanceDto};
use crate::studies::models::series::{SearchSeriesDto, StoreSeriesDto};
use crate::studies::models::study::{SearchStudyDto, StoreStudyDto, StudyDto};
use vstd::prelude::*;

verus! {

/// The index of the first row satisfying `p`, if any.
pub open spec fn first_match_idx<T>(rows: Seq<T>, p: spec_fn(T) -> bool) -> Option<int>
    decreases rows.len(),
{
    if rows.len() == 0 {
        None
    } else if p(rows[0]) {
        Some(0)
    } else {
        match first_match_idx(rows.drop_first(), p) {
            Some(i) => Some(i + 1),
            None => None,
        }
    }
}

pub proof fn lemma_first_match_idx<T>(rows: Seq<T>, p: spec_fn(T) -> bool)
    ensures
        match first_match_idx(rows, p) {
            Some(i) => 0 <= i < rows.len() && p(rows[i]) && forall|k: int|
                0 <= k < i ==> !p(#[trigger] rows[k]),
            None => forall|k: int| 0 <= k < rows.len() ==> !p(#[trigger] rows[k]),
        },
    decreases rows.len(),
{
    if rows.len() > 0 && !p(rows[0]) {
        let sub = rows.drop_first();
        lemma_first_match_idx(sub, p);
        assert(forall|k: int| 0 <= k < sub.len() ==> sub[k] == #[trigger] rows[k + 1]);
        match first_match_idx(sub, p) {
            Some(i) => {
                assert(sub[i] == rows[i + 1]);
                assert forall|k: int| 0 <= k < i + 1 implies !p(#[trigger] rows[k]) by {
                    if k > 0 {
                        assert(!p(sub[k - 1]));
                        assert(sub[k - 1] == rows[k]);
                    }
                }
            },
            None => {
                assert forall|k: int| 0 <= k < rows.len() implies !p(#[trigger] rows[k]) by {
                    if k > 0 {
                        assert(!p(sub[k - 1]));
                        assert(sub[k - 1] == rows[k]);
                    }
                }
            },
        }
    }
}

pub proof fn lemma_first_match_found<T>(rows: Seq<T>, p: spec_fn(T) -> bool, i: int)
    requires
        0 <= i < rows.len(),
        p(rows[i]),
        forall|k: int| 0 <= k < i ==> !p(#[trigger] rows[k]),
    ensures
        first_match_idx(rows, p) == Some(i),
    decreases rows.len(),
{
    if i > 0 {
        lemma_first_match_found(rows.drop_first(), p, i - 1);
    }
}

pub proof fn lemma_first_match_none<T>(rows: Seq<T>, p: spec_fn(T) -> bool)
    requires
        forall|k: int| 0 <= k < rows.len() ==> !p(#[trigger] rows[k]),
    ensures
        first_match_idx(rows, p) == None::<int>,
    decreases rows.len(),
{
    if rows.len() > 0 {
        lemma_first_match_none(rows.drop_first(), p);
    }
}

/// Replace the first row satisfying `p` with `v`, or append `v` when no row
/// does: the upsert every save performs.
pub open spec fn upsert<T>(rows: Seq<T>, p: spec_fn(T) -> bool, v: T) -> Seq<T> {
    match first_match_idx(rows, p) {
        Some(i) => rows.update(i, v),
        None => rows.push(v),
    }
}

/// The predicate "this study row bears the UID".
pub open spec fn study_uid_pred(uid: Seq<char>) -> spec_fn(StoreStudyDto) -> bool {
    |r: StoreStudyDto| r.study_instance_uid@ == uid
}

/// The predicate "this series row bears the UID".
pub open spec fn series_uid_pred(uid: Seq<char>) -> spec_fn(StoreSeriesDto) -> bool {
    |r: StoreSeriesDto| r.series_instance_uid@ == uid
}

/// The predicate "this instance row bears the UID".
pub open spec fn instance_uid_pred(uid: Seq<char>) -> spec_fn(StoreInstanceDto) -> bool {
    |r: StoreInstanceDto| r.sop_instance_uid@ == uid
}

/// The predicate "this series row belongs to the study".
pub open spec fn series_of_study_pred(study_uid: Seq<char>) -> spec_fn(StoreSeriesDto) -> bool {
    |r: StoreSeriesDto| r.study_instance_uid@ == study_uid
}

/// The predicate "this instance row belongs to the study".
pub open spec fn instance_of_study_pred(study_uid: Seq<char>) -> spec_fn(
    StoreInstanceDto,
) -> bool {
    |r: StoreInstanceDto| r.study_instance_uid@ == study_uid
}

/// The predicate "this instance row belongs to the series".
pub open spec fn instance_of_series_pred(series_uid: Seq<char>) -> spec_fn(
    StoreInstanceDto,
) -> bool {
    |r: StoreInstanceDto| r.series_instance_uid@ == series_uid
}

/// Whether a study row with this UID exists.
pub open spec fn has_study(rows: Seq<StoreStudyDto>, uid: Seq<char>) -> bool {
    first_match_idx(rows, study_uid_pred(uid)) is Some
}

/// Whether a series row with this UID exists.
pub open spec fn has_series(rows: Seq<StoreSeriesDto>, uid: Seq<char>) -> bool {
    first_match_idx(rows, series_uid_pred(uid)) is Some
}

/// Whether an instance row with this UID exists.
pub open spec fn has_instance(rows: Seq<StoreInstanceDto>, uid: Seq<char>) -> bool {
    first_match_idx(rows, instance_uid_pred(uid)) is Some
}

/// The storage path recorded for the instance with this UID, if any.
pub open spec fn path_of_instance(
    rows: Seq<StoreInstanceDto>,
    uid: Seq<char>,
) -> Option<Seq<char>> {
    match first_match_idx(rows, instance_uid_pred(uid)) {
        Some(i) => Some(rows[i].path@),
        None => None,
    }
}

/// How many rows satisfy `p`.
pub open spec fn count_matching<T>(rows: Seq<T>, p: spec_fn(T) -> bool) -> nat
    decreases rows.len(),
{
    if rows.len() == 0 {
        0
    } else {
        count_matching(rows.drop_last(), p) + if p(rows.last()) {
            1nat
        } else {
            0nat
        }
    }
}

/// How many series rows belong to this study.
pub open spec fn series_count_of_study(rows: Seq<StoreSeriesDto>, study_uid: Seq<char>) -> nat {
    count_matching(rows, series_of_study_pred(study_uid))
}

/// How many instance rows belong to this study.
pub open spec fn instance_count_of_study(
    rows: Seq<StoreInstanceDto>,
    study_uid: Seq<char>,
) -> nat {
    count_matching(rows, instance_of_study_pred(study_uid))
}

/// How many instance rows belong to this series.
pub open spec fn instance_count_of_series(
    rows: Seq<StoreInstanceDto>,
    series_uid: Seq<char>,
) -> nat {
    count_matching(rows, instance_of_series_pred(series_uid))
}

/// The distinct modalities of a study's series, in order of first
/// appearance.
pub open spec fn modalities_of_study(
    rows: Seq<StoreSeriesDto>,
    study_uid: Seq<char>,
) -> Seq<Seq<char>>
    decreases rows.len(),
{
    if rows.len() == 0 {
        Seq::empty()
    } else {
        let rest = modalities_of_study(rows.drop_last(), study_uid);
        let r = rows.last();
        if r.study_instance_uid@ == study_uid && !rest.contains(r.modality@) {
            rest.push(r.modality@)
        } else {
            rest
        }
    }
}

/// The storage path of the first instance belonging to this study, or the
/// empty string when the study has none.
pub open spec fn study_path(rows: Seq<StoreInstanceDto>, study_uid: Seq<char>) -> Seq<char> {
    match first_match_idx(rows, instance_of_study_pred(study_uid)) {
        Some(i) => rows[i].path@,
        None => Seq::empty(),
    }
}

/// The storage path of the first instance belonging to this series, or the
/// empty string when the series has none.
pub open spec fn series_path(rows: Seq<StoreInstanceDto>, series_uid: Seq<char>) -> Seq<char> {
    match first_match_idx(rows, instance_of_series_pred(series_uid)) {
        Some(i) => rows[i].path@,
        None => Seq::empty(),
    }
}

/// Replace the study row bearing this UID, or append one.
pub open spec fn upsert_study(rows: Seq<StoreStudyDto>, dto: StoreStudyDto) -> Seq<StoreStudyDto> {
    upsert(rows, study_uid_pred(dto.study_instance_uid@), dto)
}

/// Replace the series row bearing this UID, or append one.
pub open spec fn upsert_series(
    rows: Seq<StoreSeriesDto>,
    dto: StoreSeriesDto,
) -> Seq<StoreSeriesDto> {
    upsert(rows, series_uid_pred(dto.series_instance_uid@), dto)
}

pub proof fn lemma_has_study_iff(rows: Seq<StoreStudyDto>, uid: Seq<char>)
    ensures
        has_study(rows, uid) <==> exists|j: int|
            0 <= j < rows.len() && #[trigger] rows[j].study_instance_uid@ == uid,
{
    lemma_first_match_idx(rows, study_uid_pred(uid));
    match first_match_idx(rows, study_uid_pred(uid)) {
        Some(i) => {
            assert(rows[i].study_instance_uid@ == uid);
        },
        None => {},
    }
}

pub proof fn lemma_has_series_iff(rows: Seq<StoreSeriesDto>, uid: Seq<char>)
    ensures
        has_series(rows, uid) <==> exists|j: int|
            0 <= j < rows.len() && #[trigger] rows[j].series_instance_uid@ == uid,
{
    lemma_first_match_idx(rows, series_uid_pred(uid));
    match first_match_idx(rows, series_uid_pred(uid)) {
        Some(i) => {
            assert(rows[i].series_instance_uid@ == uid);
        },
        None => {},
    }
}

pub proof fn lemma_has_instance_iff(rows: Seq<StoreInstanceDto>, uid: Seq<char>)
    ensures
        has_instance(rows, uid) <==> exists|j: int|
            0 <= j < rows.len() && #[trigger] rows[j].sop_instance_uid@ == uid,
{
    lemma_first_match_idx(rows, instance_uid_pred(uid));
    match first_match_idx(rows, instance_uid_pred(uid)) {
        Some(i) => {
            assert(rows[i].sop_instance_uid@ == uid);
        },
        None => {},
    }
}

/// Replace the instance row bearing this UID, or append one.
pub open spec fn upsert_instance(
    rows: Seq<StoreInstanceDto>,
    dto: StoreInstanceDto,
) -> Seq<StoreInstanceDto> {
    upsert(rows, instance_uid_pred(dto.sop_instance_uid@), dto)
}

/// The study filter behind an optional reference.
pub open spec fn opt_study_filter(sf: Option<&SearchStudyDto>) -> Option<SearchStudyDto> {
    match sf {
        Some(f) => Some(*f),
        None => None,
    }
}

/// The series filter behind an optional reference.
pub open spec fn opt_series_filter(ef: Option<&SearchSeriesDto>) -> Option<SearchSeriesDto> {
    match ef {
        Some(f) => Some(*f),
        None => None,
    }
}

/// The relational store: one row collection per entity level, each keyed by
/// its UID.
pub struct MetadataStore {
    pub studies: Vec<StoreStudyDto>,
    pub series: Vec<StoreSeriesDto>,
    pub instances: Vec<StoreInstanceDto>,
}

impl MetadataStore {
    /// UID uniqueness at every level: the store never holds two rows with
    /// the same key, so a repeated ingest is an update, not a duplicate.
    pub open spec fn wf(&self) -> bool {
        &&& forall|i: int, j: int|
            #![trigger self.studies@[i], self.studies@[j]]
            0 <= i < j < self.studies@.len() ==> self.studies@[i].study_instance_uid@
                != self.studies@[j].study_instance_uid@
        &&& forall|i: int, j: int|
            #![trigger self.series@[i], self.series@[j]]
            0 <= i < j < self.series@.len() ==> self.series@[i].series_instance_uid@
                != self.series@[j].series_instance_uid@
        &&& forall|i: int, j: int|
            #![trigger self.instances@[i], self.instances@[j]]
            0 <= i < j < self.instances@.len() ==> self.instances@[i].sop_instance_uid@
                != self.instances@[j].sop_instance_uid@
    }

    /// An empty store.
    pub fn new() -> (r: MetadataStore)
        ensures
            r.studies@.len() == 0,
            r.series@.len() == 0,
            r.instances@.len() == 0,
            r.wf(),
    {
        MetadataStore { studies: Vec::new(), series: Vec::new(), instances: Vec::new() }
    }
}

/// Whether a stored string satisfies an optional exact-match filter: an
/// absent filter imposes no constraint.
pub open spec fn opt_match(f: Option<String>, v: Seq<char>) -> bool {
    match f {
        None => true,
        Some(x) => x@ == v,
    }
}

/// Whether a study row satisfies a study filter: every present field must
/// match exactly, and a present (non-empty) modality list must share at
/// least one member with the study's modality set.
pub open spec fn study_matches(
    d: SearchStudyDto,
    s: StoreStudyDto,
    series_rows: Seq<StoreSeriesDto>,
) -> bool {
    &&& opt_match(d.study_date, s.study_date@)
    &&& opt_match(d.study_time, s.study_time@)
    &&& opt_match(d.accession_number, s.accession_number@)
    &&& opt_match(d.referring_physician_name, s.referring_physician_name@)
    &&& opt_match(d.patient_name, s.patient_name@)
    &&& opt_match(d.patient_id, s.patient_id@)
    &&& opt_match(d.study_instance_uid, s.study_instance_uid@)
    &&& opt_match(d.study_id, s.study_id@)
    &&& match d.modalities_in_study {
        None => true,
        Some(ms) => ms@.len() == 0 || exists|k: int|
            0 <= k < ms@.len() && modalities_of_study(series_rows, s.study_instance_uid@).contains(
                #[trigger] ms@[k]@,
            ),
    }
}

/// `study_matches` as a predicate over rows.
pub open spec fn study_match_pred(d: SearchStudyDto, series_rows: Seq<StoreSeriesDto>) -> spec_fn(
    StoreStudyDto,
) -> bool {
    |s: StoreStudyDto| study_matches(d, s, series_rows)
}

/// Whether a series row satisfies a series filter.
pub open spec fn series_matches(d: SearchSeriesDto, s: StoreSeriesDto) -> bool {
    &&& opt_match(d.modality, s.modality@)
    &&& opt_match(d.study_instance_uid, s.study_instance_uid@)
    &&& opt_match(d.series_instance_uid, s.series_instance_uid@)
    &&& opt_match(d.series_number, s.series_number@)
    &&& opt_match(d.performed_procedure_step_start_date, s.performed_procedure_step_start_date@)
    &&& opt_match(d.performed_procedure_step_start_time, s.performed_procedure_step_start_time@)
}

/// Whether an instance row satisfies an instance filter.
pub open spec fn instance_matches(d: SearchInstanceDto, s: StoreInstanceDto) -> bool {
    &&& opt_match(d.sop_instance_uid, s.sop_instance_uid@)
    &&& opt_match(d.study_instance_uid, s.study_instance_uid@)
    &&& opt_match(d.series_instance_uid, s.series_instance_uid@)
    &&& opt_match(d.sop_class_uid, s.sop_class_uid@)
    &&& opt_match(d.instance_number, s.instance_number@)
}

/// Hierarchical containment for a series row: when a study filter is given,
/// the series' parent study row must exist and satisfy it.
pub open spec fn series_included(
    d: SearchSeriesDto,
    sf: Option<SearchStudyDto>,
    s: StoreSeriesDto,
    studies: Seq<StoreStudyDto>,
    series_rows: Seq<StoreSeriesDto>,
) -> bool {
    &&& series_matches(d, s)
    &&& match sf {
        None => true,
        Some(f) => match first_match_idx(studies, study_uid_pred(s.study_instance_uid@)) {
            Some(i) => study_matches(f, studies[i], series_rows),
            None => false,
        },
    }
}

/// `series_included` as a predicate over rows.
pub open spec fn series_included_pred(
    d: SearchSeriesDto,
    sf: Option<SearchStudyDto>,
    studies: Seq<StoreStudyDto>,
    series_rows: Seq<StoreSeriesDto>,
) -> spec_fn(StoreSeriesDto) -> bool {
    |s: StoreSeriesDto| series_included(d, sf, s, studies, series_rows)
}

/// Hierarchical containment for an instance row: when a study (or series)
/// filter is given, the instance's parent study (or series) row must exist
/// and satisfy it.
pub open spec fn instance_included(
    d: SearchInstanceDto,
    sf: Option<SearchStudyDto>,
    ef: Option<SearchSeriesDto>,
    s: StoreInstanceDto,
    studies: Seq<StoreStudyDto>,
    series_rows: Seq<StoreSeriesDto>,
) -> bool {
    &&& instance_matches(d, s)
    &&& match sf {
        None => true,
        Some(f) => match first_match_idx(studies, study_uid_pred(s.study_instance_uid@)) {
            Some(i) => study_matches(f, studies[i], series_rows),
            None => false,
        },
    }
    &&& match ef {
        None => true,
        Some(f) => match first_match_idx(series_rows, series_uid_pred(s.series_instance_uid@)) {
            Some(i) => series_matches(f, series_rows[i]),
            None => false,
        },
    }
}

/// `instance_included` as a predicate over rows.
pub open spec fn instance_included_pred(
    d: SearchInstanceDto,
    sf: Option<SearchStudyDto>,
    ef: Option<SearchSeriesDto>,
    studies: Seq<StoreStudyDto>,
    series_rows: Seq<StoreSeriesDto>,
) -> spec_fn(StoreInstanceDto) -> bool {
    |s: StoreInstanceDto| instance_included(d, sf, ef, s, studies, series_rows)
}

/// Whether a `StudyDto` carries exactly the derived aggregates of this
/// study row, recomputed from the current child rows.
pub open spec fn study_dto_corresponds(
    dto: StudyDto,
    s: StoreStudyDto,
    series_rows: Seq<StoreSeriesDto>,
    instance_rows: Seq<StoreInstanceDto>,
) -> bool {
    &&& dto.modalities_in_study.deep_view() == modalities_of_study(
        series_rows,
        s.study_instance_uid@,
    )
    &&& dto.number_of_study_related_series == series_count_of_study(
        series_rows,
        s.study_instance_uid@,
    )
    &&& dto.number_of_study_related_instances == instance_count_of_study(
        instance_rows,
        s.study_instance_uid@,
    )
    &&& dto.path@ == study_path(instance_rows, s.study_instance_uid@)
}

/// Whether a `SeriesDto` carries exactly the derived fields of this series
/// row, with its parent study attached when the query joined it.
pub open spec fn series_dto_corresponds(
    dto: crate::studies::models::series::SeriesDto,
    s: StoreSeriesDto,
    include_study: bool,
    studies: Seq<StoreStudyDto>,
    series_rows: Seq<StoreSeriesDto>,
    instance_rows: Seq<StoreInstanceDto>,
) -> bool {
    &&& dto.number_of_series_related_instances == instance_count_of_series(
        instance_rows,
        s.series_instance_uid@,
    )
    &&& dto.path@ == series_path(instance_rows, s.series_instance_uid@)
    &&& match dto.study {
        None => !include_study,
        Some(st) => include_study && match first_match_idx(
            studies,
            study_uid_pred(s.study_instance_uid@),
        ) {
            Some(i) => study_dto_corresponds(st, studies[i], series_rows, instance_rows),
            None => false,
        },
    }
}

/// Whether an `InstanceDto` carries exactly this instance row's storage
/// path, with its parent study and series attached when the query joined
/// them.
pub open spec fn instance_dto_corresponds(
    dto: crate::studies::models::instance::InstanceDto,
    s: StoreInstanceDto,
    include_study: bool,
    include_series: bool,
    studies: Seq<StoreStudyDto>,
    series_rows: Seq<StoreSeriesDto>,
    instance_rows: Seq<StoreInstanceDto>,
) -> bool {
    &&& dto.path@ == s.path@
    &&& match dto.study {
        None => !include_study,
        Some(st) => include_study && match first_match_idx(
            studies,
            study_uid_pred(s.study_instance_uid@),
        ) {
            Some(i) => study_dto_corresponds(st, studies[i], series_rows, instance_rows),
            None => false,
        },
    }
    &&& match dto.series {
        None => !include_series,
        Some(se) => include_series && match first_match_idx(
            series_rows,
            series_uid_pred(s.series_instance_uid@),
        ) {
            Some(i) => series_dto_corresponds(
                se,
                series_rows[i],
                false,
                studies,
                series_rows,
                instance_rows,
            ),
            None => false,
        },
    }
}

/// Search containment: when a series-level filter restricts an instance
/// search, every instance the search admits belongs to a series that
/// satisfies the filter, whatever the instance-level filter holds.
pub proof fn lemma_search_containment(
    instances: Seq<StoreInstanceDto>,
    d: SearchInstanceDto,
    sf: Option<SearchStudyDto>,
    ef: SearchSeriesDto,
    studies: Seq<StoreStudyDto>,
    series_rows: Seq<StoreSeriesDto>,
)
    ensures
        ({
            let ms = instances.filter(instance_included_pred(d, sf, Some(ef), studies, series_rows));
            forall|k: int|
                0 <= k < ms.len() ==> exists|j: int|
                    0 <= j < series_rows.len() && (#[trigger] series_rows[j]).series_instance_uid@
                        == (#[trigger] ms[k]).series_instance_uid@ && series_matches(
                        ef,
                        series_rows[j],
                    )
        }),
{
    let p = instance_included_pred(d, sf, Some(ef), studies, series_rows);
    let ms = instances.filter(p);
    assert forall|k: int| 0 <= k < ms.len() implies exists|j: int|
        0 <= j < series_rows.len() && (#[trigger] series_rows[j]).series_instance_uid@
            == (#[trigger] ms[k]).series_instance_uid@ && series_matches(ef, series_rows[j]) by {
        instances.lemma_filter_pred(p, k);
        assert(p(ms[k]));
        let uid = ms[k].series_instance_uid@;
        lemma_first_match_idx(series_rows, series_uid_pred(uid));
        match first_match_idx(series_rows, series_uid_pred(uid)) {
            Some(j) => {
                assert(series_rows[j].series_instance_uid@ == uid && series_matches(
                    ef,
                    series_rows[j],
                ));
            },
            None => {
                assert(false);
            },
        }
    }
}

pub proof fn lemma_filter_one<T>(x: T, p: spec_fn(T) -> bool)
    ensures
        seq![x].filter(p) == if p(x) {
            seq![x]
        } else {
            Seq::<T>::empty()
        },
{
    reveal(Seq::filter);
    assert(seq![x].drop_last() =~= Seq::<T>::empty());
    assert(Seq::<T>::empty().filter(p) =~= Seq::<T>::empty());
    if p(x) {
        assert(seq![x].filter(p) =~= seq![x]);
    } else {
        assert(seq![x].filter(p) =~= Seq::<T>::empty());
    }
}

/// Whether a string list holds this value.
pub fn contains_string(v: &Vec<String>, s: &str) -> (r: bool)
    ensures
        r == v.deep_view().contains(s@),
{
    let mut i: usize = 0;
    while i < v.len()
        invariant
            i <= v@.len(),
            forall|k: int| 0 <= k < i ==> v@[k]@ != s@,
        decreases v@.len() - i,
    {
        if crate::sql::str_eq_str(v[i].as_str(), s) {
            proof {
                assert(v.deep_view()[i as int] == s@);
            }
            return true;
        }
        i += 1;
    }
    proof {
        assert(forall|k: int| 0 <= k < v.deep_view().len() ==> v.deep_view()[k] != s@);
    }
    false
}

/// Count the series rows of a study.
pub fn count_series_of_study(series: &Vec<StoreSeriesDto>, study_uid: &str) -> (r: u64)
    ensures
        r == series_count_of_study(series@, study_uid@),
{
    let ghost p = series_of_study_pred(study_uid@);
    let mut count: u64 = 0;
    let mut i: usize = 0;
    while i < series.len()
        invariant
            i <= series@.len(),
            p == series_of_study_pred(study_uid@),
            count == count_matching(series@.take(i as int), p),
            count <= i,
        decreases series@.len() - i,
    {
        proof {
            assert(series@.take(i + 1 as int).drop_last() =~= series@.take(i as int));
            assert(series@.take(i + 1 as int).last() == series@[i as int]);
        }
        if crate::sql::str_eq_str(series[i].study_instance_uid.as_str(), study_uid) {
            count = count + 1;
        }
        i += 1;
    }
    proof {
        assert(series@.take(series@.len() as int) == series@);
    }
    count
}

/// Count the instance rows of a study.
pub fn count_instances_of_study(instances: &Vec<StoreInstanceDto>, study_uid: &str) -> (r: u64)
    ensures
        r == instance_count_of_study(instances@, study_uid@),
{
    let ghost p = instance_of_study_pred(study_uid@);
    let mut count: u64 = 0;
    let mut i: usize = 0;
    while i < instances.len()
        invariant
            i <= instances@.len(),
            p == instance_of_study_pred(study_uid@),
            count == count_matching(instances@.take(i as int), p),
            count <= i,
        decreases instances@.len() - i,
    {
        proof {
            assert(instances@.take(i + 1 as int).drop_last() =~= instances@.take(i as int));
            assert(instances@.take(i + 1 as int).last() == instances@[i as int]);
        }
        if crate::sql::str_eq_str(instances[i].study_instance_uid.as_str(), study_uid) {
            count = count + 1;
        }
        i += 1;
    }
    proof {
        assert(instances@.take(instances@.len() as int) == instances@);
    }
    count
}

/// Count the instance rows of a series.
pub fn count_instances_of_series(instances: &Vec<StoreInstanceDto>, series_uid: &str) -> (r: u64)
    ensures
        r == instance_count_of_series(instances@, series_uid@),
{
    let ghost p = instance_of_series_pred(series_uid@);
    let mut count: u64 = 0;
    let mut i: usize = 0;
    while i < instances.len()
        invariant
            i <= instances@.len(),
            p == instance_of_series_pred(series_uid@),
            count == count_matching(instances@.take(i as int), p),
            count <= i,
        decreases instances@.len() - i,
    {
        proof {
            assert(instances@.take(i + 1 as int).drop_last() =~= instances@.take(i as int));
            assert(instances@.take(i + 1 as int).last() == instances@[i as int]);
        }
        if crate::sql::str_eq_str(instances[i].series_instance_uid.as_str(), series_uid) {
            count = count + 1;
        }
        i += 1;
    }
    proof {
        assert(instances@.take(instances@.len() as int) == instances@);
    }
    count
}

/// Collect a study's distinct modalities, in order of first appearance.
pub fn collect_modalities(series: &Vec<StoreSeriesDto>, study_uid: &str) -> (r: Vec<String>)
    ensures
        r.deep_view() == modalities_of_study(series@, study_uid@),
{
    let mut out: Vec<String> = Vec::new();
    let mut i: usize = 0;
    proof {
        assert(out.deep_view() =~= modalities_of_study(series@.take(0), study_uid@));
    }
    while i < series.len()
        invariant
            i <= series@.len(),
            out.deep_view() == modalities_of_study(series@.take(i as int), study_uid@),
        decreases series@.len() - i,
    {
        proof {
            assert(series@.take(i + 1 as int).drop_last() =~= series@.take(i as int));
            assert(series@.take(i + 1 as int).last() == series@[i as int]);
        }
        let row = &series[i];
        if crate::sql::str_eq_str(row.study_instance_uid.as_str(), study_uid) {
            if !contains_string(&out, row.modality.as_str()) {
                let ghost prev = out.deep_view();
                out.push(String::from_str(row.modality.as_str()));
                proof {
                    assert(out.deep_view() =~= prev.push(row.modality@));
                }
            }
        }
        i += 1;
    }
    proof {
        assert(series@.take(series@.len() as int) == series@);
    }
    out
}

/// The storage path of the first instance of a study, or the empty string.
pub fn study_path_of(instances: &Vec<StoreInstanceDto>, study_uid: &str) -> (r: String)
    ensures
        r@ == study_path(instances@, study_uid@),
{
    let ghost p = instance_of_study_pred(study_uid@);
    let mut i: usize = 0;
    while i < instances.len()
        invariant
            i <= instances@.len(),
            p == instance_of_study_pred(study_uid@),
            forall|k: int| 0 <= k < i ==> !p(#[trigger] instances@[k]),
        decreases instances@.len() - i,
    {
        if crate::sql::str_eq_str(instances[i].study_instance_uid.as_str(), study_uid) {
            proof {
                lemma_first_match_found(instances@, p, i as int);
            }
            return String::from_str(instances[i].path.as_str());
        }
        i += 1;
    }
    proof {
        lemma_first_match_none(instances@, p);
    }
    String::new()
}

/// The storage path of the first instance of a series, or the empty string.
pub fn series_path_of(instances: &Vec<StoreInstanceDto>, series_uid: &str) -> (r: String)
    ensures
        r@ == series_path(instances@, series_uid@),
{
    let ghost p = instance_of_series_pred(series_uid@);
    let mut i: usize = 0;
    while i < instances.len()
        invariant
            i <= instances@.len(),
            p == instance_of_series_pred(series_uid@),
            forall|k: int| 0 <= k < i ==> !p(#[trigger] instances@[k]),
        decreases instances@.len() - i,
    {
        if crate::sql::str_eq_str(instances[i].series_instance_uid.as_str(), series_uid) {
            proof {
                lemma_first_match_found(instances@, p, i as int);
            }
            return String::from_str(instances[i].path.as_str());
        }
        i += 1;
    }
    proof {
        lemma_first_match_none(instances@, p);
    }
    String::new()
}

/// Whether an optional exact-match filter accepts this value.
pub fn opt_match_exec(f: &Option<String>, v: &str) -> (r: bool)
    ensures
        r == opt_match(*f, v@),
{
    match f {
        None => true,
        Some(x) => crate::sql::str_eq_str(x.as_str(), v),
    }
}

/// Whether a study row satisfies a study filter.
#[verifier::loop_isolation(false)]
pub fn study_matches_exec(
    d: &SearchStudyDto,
    s: &StoreStudyDto,
    series: &Vec<StoreSeriesDto>,
) -> (r: bool)
    ensures
        r == study_matches(*d, *s, series@),
{
    if !opt_match_exec(&d.study_date, s.study_date.as_str()) {
        return false;
    }
    if !opt_match_exec(&d.study_time, s.study_time.as_str()) {
        return false;
    }
    if !opt_match_exec(&d.accession_number, s.accession_number.as_str()) {
        return false;
    }
    if !opt_match_exec(&d.referring_physician_name, s.referring_physician_name.as_str()) {
        return false;
    }
    if !opt_match_exec(&d.patient_name, s.patient_name.as_str()) {
        return false;
    }
    if !opt_match_exec(&d.patient_id, s.patient_id.as_str()) {
        return false;
    }
    if !opt_match_exec(&d.study_instance_uid, s.study_instance_uid.as_str()) {
        return false;
    }
    if !opt_match_exec(&d.study_id, s.study_id.as_str()) {
        return false;
    }
    match &d.modalities_in_study {
        None => true,
        Some(ms) => {
            if ms.len() == 0 {
                return true;
            }
            let mods = collect_modalities(series, s.study_instance_uid.as_str());
            let mut k: usize = 0;
            while k < ms.len()
                invariant
                    k <= ms@.len(),
                    mods.deep_view() == modalities_of_study(series@, s.study_instance_uid@),
                    forall|j: int|
                        0 <= j < k ==> !modalities_of_study(
                            series@,
                            s.study_instance_uid@,
                        ).contains(#[trigger] ms@[j]@),
                decreases ms@.len() - k,
            {
                if contains_string(&mods, ms[k].as_str()) {
                    return true;
                }
                k += 1;
            }
            false
        },
    }
}

/// Whether a series row satisfies a series filter.
pub fn series_matches_exec(d: &SearchSeriesDto, s: &StoreSeriesDto) -> (r: bool)
    ensures
        r == series_matches(*d, *s),
{
    opt_match_exec(&d.modality, s.modality.as_str()) && opt_match_exec(
        &d.study_instance_uid,
        s.study_instance_uid.as_str(),
    ) && opt_match_exec(&d.series_instance_uid, s.series_instance_uid.as_str())
        && opt_match_exec(&d.series_number, s.series_number.as_str()) && opt_match_exec(
        &d.performed_procedure_step_start_date,
        s.performed_procedure_step_start_date.as_str(),
    ) && opt_match_exec(
        &d.performed_procedure_step_start_time,
        s.performed_procedure_step_start_time.as_str(),
    )
}

/// Whether an instance row satisfies an instance filter.
pub fn instance_matches_exec(d: &SearchInstanceDto, s: &StoreInstanceDto) -> (r: bool)
    ensures
        r == instance_matches(*d, *s),
{
    opt_match_exec(&d.sop_instance_uid, s.sop_instance_uid.as_str()) && opt_match_exec(
        &d.study_instance_uid,
        s.study_instance_uid.as_str(),
    ) && opt_match_exec(&d.series_instance_uid, s.series_instance_uid.as_str())
        && opt_match_exec(&d.sop_class_uid, s.sop_class_uid.as_str()) && opt_match_exec(
        &d.instance_number,
        s.instance_number.as_str(),
    )
}

/// Find the index of the study row bearing this UID, if any.
pub fn find_study_row(studies: &Vec<StoreStudyDto>, uid: &str) -> (r: Option<usize>)
    ensures
        match r {
            Some(i) => i < studies@.len() && first_match_idx(studies@, study_uid_pred(uid@)) == Some(
                i as int,
            ),
            None => first_match_idx(studies@, study_uid_pred(uid@)) is None,
        },
{
    let ghost p = study_uid_pred(uid@);
    let mut i: usize = 0;
    while i < studies.len()
        invariant
            i <= studies@.len(),
            p == study_uid_pred(uid@),
            forall|k: int| 0 <= k < i ==> !p(#[trigger] studies@[k]),
        decreases studies@.len() - i,
    {
        if crate::sql::str_eq_str(studies[i].study_instance_uid.as_str(), uid) {
            proof {
                lemma_first_match_found(studies@, p, i as int);
            }
            return Some(i);
        }
        i += 1;
    }
    proof {
        lemma_first_match_none(studies@, p);
    }
    None
}

/// Find the index of the series row bearing this UID, if any.
pub fn find_series_row(series: &Vec<StoreSeriesDto>, uid: &str) -> (r: Option<usize>)
    ensures
        match r {
            Some(i) => i < series@.len() && first_match_idx(series@, series_uid_pred(uid@)) == Some(
                i as int,
            ),
            None => first_match_idx(series@, series_uid_pred(uid@)) is None,
        },
{
    let ghost p = series_uid_pred(uid@);
    let mut i: usize = 0;
    while i < series.len()
        invariant
            i <= series@.len(),
            p == series_uid_pred(uid@),
            forall|k: int| 0 <= k < i ==> !p(#[trigger] series@[k]),
        decreases series@.len() - i,
    {
        if crate::sql::str_eq_str(series[i].series_instance_uid.as_str(), uid) {
            proof {
                lemma_first_match_found(series@, p, i as int);
            }
            return Some(i);
        }
        i += 1;
    }
    proof {
        lemma_first_match_none(series@, p);
    }
    None
}

/// Find the index of the instance row bearing this UID, if any.
pub fn find_instance_row(instances: &Vec<StoreInstanceDto>, uid: &str) -> (r: Option<usize>)
    ensures
        match r {
            Some(i) => i < instances@.len() && first_match_idx(instances@, instance_uid_pred(uid@)) == Some(
                i as int,
            ),
            None => first_match_idx(instances@, instance_uid_pred(uid@)) is None,
        },
{
    let ghost p = instance_uid_pred(uid@);
    let mut i: usize = 0;
    while i < instances.len()
        invariant
            i <= instances@.len(),
            p == instance_uid_pred(uid@),
            forall|k: int| 0 <= k < i ==> !p(#[trigger] instances@[k]),
        decreases instances@.len() - i,
    {
        if crate::sql::str_eq_str(instances[i].sop_instance_uid.as_str(), uid) {
            proof {
                lemma_first_match_found(instances@, p, i as int);
            }
            return Some(i);
        }
        i += 1;
    }
    proof {
        lemma_first_match_none(instances@, p);
    }
    None
}

/// Build the `SeriesDto` of a series row, without its parent study: the
/// derived instance count and the representative storage path.
pub fn build_series_dto(
    s: &StoreSeriesDto,
    instances: &Vec<StoreInstanceDto>,
) -> (r: crate::studies::models::series::SeriesDto)
    ensures
        r.number_of_series_related_instances == instance_count_of_series(
            instances@,
            s.series_instance_uid@,
        ),
        r.path@ == series_path(instances@, s.series_instance_uid@),
        r.study is None,
{
    let uid = s.series_instance_uid.as_str();
    crate::studies::models::series::SeriesDto {
        number_of_series_related_instances: count_instances_of_series(instances, uid),
        path: series_path_of(instances, uid),
        study: None,
    }
}

/// Build the `StudyDto` of a study row: its derived aggregates recomputed
/// from the current child rows.
pub fn build_study_dto(
    s: &StoreStudyDto,
    series: &Vec<StoreSeriesDto>,
    instances: &Vec<StoreInstanceDto>,
) -> (r: StudyDto)
    ensures
        study_dto_corresponds(r, *s, series@, instances@),
{
    let uid = s.study_instance_uid.as_str();
    StudyDto {
        modalities_in_study: collect_modalities(series, uid),
        number_of_study_related_series: count_series_of_study(series, uid),
        number_of_study_related_instances: count_instances_of_study(instances, uid),
        path: study_path_of(instances, uid),
    }
}

} // verus!
