//! The ingest pipeline: per-object validation, the transactional metadata
//! write against the store, and batch response assembly with exact
//! partial-failure semantics.

use crate::studies::models::instance::StoreInstanceDto;
use crate::studies::models::metadata::{
    first_match_idx, has_instance, has_series, has_study, instance_uid_pred, lemma_filter_one,
    lemma_first_match_idx, lemma_has_instance_iff, lemma_has_series_iff, lemma_has_study_iff,
    series_uid_pred, study_uid_pred, upsert, upsert_series, upsert_study, MetadataStore,
};
use crate::studies::models::series::StoreSeriesDto;
use crate::studies::models::study::StoreStudyDto;
use crate::utils::uuid_like;
use vstd::prelude::*;

verus! {

/// An item referencing a SOP instance that was successfully stored.
#[derive(Debug)]
pub struct ReferencedSopInstance {
    /// Used to check whether stored instances share a study; not part of
    /// the response body.
    pub study_instance_uid: String,
    /// Used to check whether stored instances share a series; not part of
    /// the response body.
    pub series_instance_uid: String,
    pub sop_class_uid: String,
    pub sop_instance_uid: String,
    /// The URL from which the stored instance can be retrieved.
    pub retrieve_url: String,
    pub warning_reason: Option<String>,
}

/// An item referencing a SOP instance that could not be stored.
#[derive(Debug)]
pub struct FailedSopInstance {
    pub sop_class_uid: String,
    pub sop_instance_uid: String,
    pub failure_reason: String,
}

/// A failure not tied to a specific SOP instance.
#[derive(Debug)]
pub struct OtherFailure {
    pub failure_reason: String,
}

/// The outcome of storing a single SOP instance.
#[derive(Debug)]
pub enum StoreOutcome {
    /// Successfully stored.
    Stored(ReferencedSopInstance),
    /// Rejected, with the reason.
    Rejected(FailedSopInstance),
}

/// One object pulled from an incoming batch: either its three extracted
/// metadata levels, or the reason its bytes could not be read.
pub enum IngestObject {
    Object(StoreStudyDto, StoreSeriesDto, StoreInstanceDto),
    Unreadable(String),
}

/// The response to a batch store request: the three independent lists and
/// the deepest retrieval URL common to every stored instance.
#[derive(Debug)]
pub struct StoreInstancesResponse {
    pub retrieve_url: String,
    pub failed_sop_sequence: Vec<FailedSopInstance>,
    pub referenced_sop_sequence: Vec<ReferencedSopInstance>,
    pub other_failure_sequence: Vec<OtherFailure>,
}

/// The reason recorded when an object's study UID contradicts the study
/// the request addressed.
pub open spec fn mismatch_reason(expected: Seq<char>, got: Seq<char>) -> Seq<char> {
    "Study UID mismatch: expected "@ + expected + ", got "@ + got
}

/// The canonical retrieval URL of one stored instance.
pub open spec fn instance_retrieve_url(
    origin: Seq<char>,
    study: Seq<char>,
    series: Seq<char>,
    instance: Seq<char>,
) -> Seq<char> {
    origin + "/studies/"@ + study + "/series/"@ + series + "/instances/"@ + instance
}

/// Whether an instance row carries this DTO's fields, its storage path
/// aside.
pub open spec fn instance_fields_match(r: StoreInstanceDto, dto: StoreInstanceDto) -> bool {
    &&& r.sop_class_uid@ == dto.sop_class_uid@
    &&& r.sop_instance_uid@ == dto.sop_instance_uid@
    &&& r.study_instance_uid@ == dto.study_instance_uid@
    &&& r.series_instance_uid@ == dto.series_instance_uid@
    &&& r.instance_number@ == dto.instance_number@
}

/// How one successful ingest changes the instance rows: the row keyed by
/// the instance UID takes the new metadata; its storage path is preserved
/// when the instance existed, and is a freshly minted token otherwise;
/// every other row is untouched.
pub open spec fn ingest_instances_step(
    pre: Seq<StoreInstanceDto>,
    post: Seq<StoreInstanceDto>,
    instance: StoreInstanceDto,
) -> bool {
    match first_match_idx(pre, instance_uid_pred(instance.sop_instance_uid@)) {
        Some(i) => {
            &&& post.len() == pre.len()
            &&& forall|k: int| 0 <= k < pre.len() && k != i ==> post[k] == pre[k]
            &&& instance_fields_match(post[i], instance)
            &&& post[i].path@ == pre[i].path@
        },
        None => {
            &&& post.len() == pre.len() + 1
            &&& forall|k: int| 0 <= k < pre.len() ==> post[k] == pre[k]
            &&& instance_fields_match(post[pre.len() as int], instance)
            &&& uuid_like(post[pre.len() as int].path@)
        },
    }
}

/// How one successful ingest changes the whole store: the study and series
/// rows are upserted, and the instance rows change per
/// `ingest_instances_step`.
pub open spec fn ingest_step(
    pre: MetadataStore,
    post: MetadataStore,
    study: StoreStudyDto,
    series: StoreSeriesDto,
    instance: StoreInstanceDto,
) -> bool {
    &&& post.studies@ == upsert_study(pre.studies@, study)
    &&& post.series@ == upsert_series(pre.series@, series)
    &&& ingest_instances_step(pre.instances@, post.instances@, instance)
}

/// A rejection entry for a SOP instance that could not be stored.
pub fn failed_sop_instance(instance: &StoreInstanceDto, reason: String) -> (r: StoreOutcome)
    ensures
        r matches StoreOutcome::Rejected(f) && f.sop_class_uid@ == instance.sop_class_uid@
            && f.sop_instance_uid@ == instance.sop_instance_uid@ && f.failure_reason@ == reason@,
{
    StoreOutcome::Rejected(
        FailedSopInstance {
            sop_class_uid: String::from_str(instance.sop_class_uid.as_str()),
            sop_instance_uid: String::from_str(instance.sop_instance_uid.as_str()),
            failure_reason: reason,
        },
    )
}

/// A failure entry not tied to a specific SOP instance.
pub fn other_failure(reason: &str) -> (r: OtherFailure)
    ensures
        r.failure_reason@ == reason@,
{
    OtherFailure { failure_reason: String::from_str(reason) }
}

/// The recorded reason for a study-UID mismatch.
fn build_mismatch_reason(expected: &str, got: &str) -> (r: String)
    ensures
        r@ == mismatch_reason(expected@, got@),
{
    let mut s = String::from_str("Study UID mismatch: expected ");
    s.append(expected);
    s.append(", got ");
    s.append(got);
    proof {
        assert(s@ =~= mismatch_reason(expected@, got@));
    }
    s
}

/// The retrieval URL of one stored instance.
fn build_retrieve_url(origin: &str, study: &str, series: &str, instance: &str) -> (r: String)
    ensures
        r@ == instance_retrieve_url(origin@, study@, series@, instance@),
{
    let mut s = String::from_str(origin);
    s.append("/studies/");
    s.append(study);
    s.append("/series/");
    s.append(series);
    s.append("/instances/");
    s.append(instance);
    proof {
        assert(s@ =~= instance_retrieve_url(origin@, study@, series@, instance@));
    }
    s
}

/// Whether every stored item names the same non-empty study.
pub open spec fn all_common_study(rs: Seq<ReferencedSopInstance>) -> bool {
    forall|i: int|
        0 <= i < rs.len() ==> #[trigger] rs[i].study_instance_uid@ == rs[0].study_instance_uid@
            && rs[i].study_instance_uid@.len() > 0
}

/// Whether every stored item names the same non-empty series.
pub open spec fn all_common_series(rs: Seq<ReferencedSopInstance>) -> bool {
    forall|i: int|
        0 <= i < rs.len() ==> #[trigger] rs[i].series_instance_uid@ == rs[0].series_instance_uid@
            && rs[i].series_instance_uid@.len() > 0
}

/// Whether every stored item names the same non-empty SOP instance.
pub open spec fn all_common_sop(rs: Seq<ReferencedSopInstance>) -> bool {
    forall|i: int|
        0 <= i < rs.len() ==> #[trigger] rs[i].sop_instance_uid@ == rs[0].sop_instance_uid@
            && rs[i].sop_instance_uid@.len() > 0
}

/// The deepest retrieval URL on which all stored items agree: the origin,
/// extended level by level while every item shares that level's UID; the
/// origin alone when nothing was stored.
pub open spec fn common_url(origin: Seq<char>, rs: Seq<ReferencedSopInstance>) -> Seq<char> {
    if rs.len() == 0 || !all_common_study(rs) {
        origin
    } else {
        let u1 = origin + "/studies/"@ + rs[0].study_instance_uid@;
        if !all_common_series(rs) {
            u1
        } else {
            let u2 = u1 + "/series/"@ + rs[0].series_instance_uid@;
            if !all_common_sop(rs) {
                u2
            } else {
                u2 + "/instances/"@ + rs[0].sop_instance_uid@
            }
        }
    }
}

fn check_common_study(rs: &Vec<ReferencedSopInstance>) -> (r: bool)
    requires
        rs@.len() > 0,
    ensures
        r == all_common_study(rs@),
{
    let mut i: usize = 0;
    while i < rs.len()
        invariant
            i <= rs@.len(),
            rs@.len() > 0,
            forall|k: int|
                0 <= k < i ==> #[trigger] rs@[k].study_instance_uid@
                    == rs@[0].study_instance_uid@ && rs@[k].study_instance_uid@.len() > 0,
        decreases rs@.len() - i,
    {
        if rs[i].study_instance_uid.as_str().is_empty() || !crate::sql::str_eq_str(
            rs[i].study_instance_uid.as_str(),
            rs[0].study_instance_uid.as_str(),
        ) {
            return false;
        }
        i += 1;
    }
    true
}

fn check_common_series(rs: &Vec<ReferencedSopInstance>) -> (r: bool)
    requires
        rs@.len() > 0,
    ensures
        r == all_common_series(rs@),
{
    let mut i: usize = 0;
    while i < rs.len()
        invariant
            i <= rs@.len(),
            rs@.len() > 0,
            forall|k: int|
                0 <= k < i ==> #[trigger] rs@[k].series_instance_uid@
                    == rs@[0].series_instance_uid@ && rs@[k].series_instance_uid@.len() > 0,
        decreases rs@.len() - i,
    {
        if rs[i].series_instance_uid.as_str().is_empty() || !crate::sql::str_eq_str(
            rs[i].series_instance_uid.as_str(),
            rs[0].series_instance_uid.as_str(),
        ) {
            return false;
        }
        i += 1;
    }
    true
}

fn check_common_sop(rs: &Vec<ReferencedSopInstance>) -> (r: bool)
    requires
        rs@.len() > 0,
    ensures
        r == all_common_sop(rs@),
{
    let mut i: usize = 0;
    while i < rs.len()
        invariant
            i <= rs@.len(),
            rs@.len() > 0,
            forall|k: int|
                0 <= k < i ==> #[trigger] rs@[k].sop_instance_uid@ == rs@[0].sop_instance_uid@
                    && rs@[k].sop_instance_uid@.len() > 0,
        decreases rs@.len() - i,
    {
        if rs[i].sop_instance_uid.as_str().is_empty() || !crate::sql::str_eq_str(
            rs[i].sop_instance_uid.as_str(),
            rs[0].sop_instance_uid.as_str(),
        ) {
            return false;
        }
        i += 1;
    }
    true
}

/// The URL from which all the stored instances can be retrieved: the
/// deepest hierarchy level every stored item agrees on, or the service
/// origin alone when nothing was stored.
pub fn common_retrieve_url(
    origin: &str,
    referenced_sop_instances: &Vec<ReferencedSopInstance>,
) -> (r: String)
    ensures
        r@ == common_url(origin@, referenced_sop_instances@),
{
    if referenced_sop_instances.len() == 0 {
        return String::from_str(origin);
    }
    let mut url = String::from_str(origin);
    if check_common_study(referenced_sop_instances) {
        url.append("/studies/");
        url.append(referenced_sop_instances[0].study_instance_uid.as_str());
        if check_common_series(referenced_sop_instances) {
            url.append("/series/");
            url.append(referenced_sop_instances[0].series_instance_uid.as_str());
            if check_common_sop(referenced_sop_instances) {
                url.append("/instances/");
                url.append(referenced_sop_instances[0].sop_instance_uid.as_str());
            }
        }
    }
    proof {
        assert(url@ =~= common_url(origin@, referenced_sop_instances@));
    }
    url
}

/// The rejection reason when the request addressed a study whose UID the
/// object contradicts, and nothing otherwise. The ingest path and its
/// callers decide rejection through this one check.
pub fn validate_target_study(study_uid: Option<&String>, study: &StoreStudyDto) -> (r: Option<
    String,
>)
    ensures
        match r {
            Some(reason) => study_uid matches Some(e) && e@ != study.study_instance_uid@
                && reason@ == mismatch_reason(e@, study.study_instance_uid@),
            None => match study_uid {
                Some(e) => e@ == study.study_instance_uid@,
                None => true,
            },
        },
{
    if let Some(expected) = study_uid {
        if !crate::sql::str_eq_str(expected.as_str(), study.study_instance_uid.as_str()) {
            return Some(
                build_mismatch_reason(expected.as_str(), study.study_instance_uid.as_str()),
            );
        }
    }
    None
}

/// Store one SOP instance: reject it when the request addressed a study
/// whose UID the object contradicts; otherwise upsert the study, series
/// and instance rows, minting a storage path only when the instance is
/// new, and answer with its retrieval URL.
pub fn store_sop_instance(
    store: &mut MetadataStore,
    origin: &str,
    study_uid: Option<&String>,
    study: StoreStudyDto,
    series: StoreSeriesDto,
    instance: StoreInstanceDto,
) -> (r: StoreOutcome)
    requires
        old(store).wf(),
    ensures
        final(store).wf(),
        ({
            let rejected = match study_uid {
                Some(e) => e@ != study.study_instance_uid@,
                None => false,
            };
            if rejected {
                &&& final(store).studies@ == old(store).studies@
                &&& final(store).series@ == old(store).series@
                &&& final(store).instances@ == old(store).instances@
                &&& r matches StoreOutcome::Rejected(f) && f.sop_class_uid@
                    == instance.sop_class_uid@ && f.sop_instance_uid@
                    == instance.sop_instance_uid@ && (study_uid matches Some(e)
                    && f.failure_reason@ == mismatch_reason(e@, study.study_instance_uid@))
            } else {
                &&& ingest_step(*old(store), *final(store), study, series, instance)
                &&& r matches StoreOutcome::Stored(item) && item.study_instance_uid@
                    == study.study_instance_uid@ && item.series_instance_uid@
                    == series.series_instance_uid@ && item.sop_class_uid@
                    == instance.sop_class_uid@ && item.sop_instance_uid@
                    == instance.sop_instance_uid@ && item.retrieve_url@ == instance_retrieve_url(
                    origin@,
                    study.study_instance_uid@,
                    series.series_instance_uid@,
                    instance.sop_instance_uid@,
                ) && item.warning_reason is None
            }
        }),
{
    if let Some(reason) = validate_target_study(study_uid, &study) {
        return failed_sop_instance(&instance, reason);
    }
    let study_uid_s = String::from_str(study.study_instance_uid.as_str());
    let series_uid_s = String::from_str(series.series_instance_uid.as_str());
    let sop_class_s = String::from_str(instance.sop_class_uid.as_str());
    let sop_uid_s = String::from_str(instance.sop_instance_uid.as_str());
    let url = build_retrieve_url(
        origin,
        study_uid_s.as_str(),
        series_uid_s.as_str(),
        sop_uid_s.as_str(),
    );
    let old_path = crate::studies::models::instance::get_path_by_uid(
        store,
        instance.sop_instance_uid.as_str(),
    );
    let ghost pre_instances = store.instances@;
    let ghost had_path = old_path is Some;
    let path = match old_path {
        Some(p) => p,
        None => crate::utils::fresh_token(),
    };
    let stored_instance = instance.with_path(path);
    crate::studies::models::study::save(store, study);
    crate::studies::models::series::save(store, series);
    crate::studies::models::instance::save(store, stored_instance);
    proof {
        let p = instance_uid_pred(instance.sop_instance_uid@);
        crate::studies::models::metadata::lemma_first_match_idx(pre_instances, p);
        assert(stored_instance.sop_instance_uid@ == instance.sop_instance_uid@);
        assert(store.instances@ == upsert(pre_instances, p, stored_instance));
        match first_match_idx(pre_instances, p) {
            Some(i) => {
                assert(had_path);
                assert(store.instances@ == pre_instances.update(i, stored_instance));
                assert(store.instances@[i] == stored_instance);
                assert(stored_instance.path@ == pre_instances[i].path@);
            },
            None => {
                assert(!had_path);
                assert(store.instances@ == pre_instances.push(stored_instance));
                assert(store.instances@[pre_instances.len() as int] == stored_instance);
                assert(uuid_like(stored_instance.path@));
            },
        }
        assert(ingest_instances_step(pre_instances, store.instances@, instance));
    }
    StoreOutcome::Stored(
        ReferencedSopInstance {
            study_instance_uid: study_uid_s,
            series_instance_uid: series_uid_s,
            sop_class_uid: sop_class_s,
            sop_instance_uid: sop_uid_s,
            retrieve_url: url,
            warning_reason: None,
        },
    )
}

/// The study UID a batch request addresses, if any.
pub open spec fn target_view(study_uid: Option<&String>) -> Option<Seq<char>> {
    match study_uid {
        Some(s) => Some(s@),
        None => None,
    }
}

/// Whether a batch object will be stored: it was readable and does not
/// contradict the addressed study.
pub open spec fn obj_success(o: IngestObject, t: Option<Seq<char>>) -> bool {
    match o {
        IngestObject::Object(st, _, _) => match t {
            Some(e) => st.study_instance_uid@ == e,
            None => true,
        },
        IngestObject::Unreadable(_) => false,
    }
}

/// Whether a batch object will be rejected for a study-UID mismatch.
pub open spec fn obj_rejected(o: IngestObject, t: Option<Seq<char>>) -> bool {
    match o {
        IngestObject::Object(st, _, _) => match t {
            Some(e) => st.study_instance_uid@ != e,
            None => false,
        },
        IngestObject::Unreadable(_) => false,
    }
}

/// Whether a batch object could not be read at all.
pub open spec fn obj_unreadable(o: IngestObject) -> bool {
    o is Unreadable
}

/// `obj_success` as a predicate over objects.
pub open spec fn success_pred(t: Option<Seq<char>>) -> spec_fn(IngestObject) -> bool {
    |o: IngestObject| obj_success(o, t)
}

/// `obj_rejected` as a predicate over objects.
pub open spec fn rejected_pred(t: Option<Seq<char>>) -> spec_fn(IngestObject) -> bool {
    |o: IngestObject| obj_rejected(o, t)
}

/// `obj_unreadable` as a predicate over objects.
pub open spec fn unreadable_pred() -> spec_fn(IngestObject) -> bool {
    |o: IngestObject| obj_unreadable(o)
}

/// Whether a success entry records exactly this stored object.
pub open spec fn referenced_corresponds(
    item: ReferencedSopInstance,
    o: IngestObject,
    origin: Seq<char>,
) -> bool {
    match o {
        IngestObject::Object(st, se, inst) => {
            &&& item.study_instance_uid@ == st.study_instance_uid@
            &&& item.series_instance_uid@ == se.series_instance_uid@
            &&& item.sop_class_uid@ == inst.sop_class_uid@
            &&& item.sop_instance_uid@ == inst.sop_instance_uid@
            &&& item.retrieve_url@ == instance_retrieve_url(
                origin,
                st.study_instance_uid@,
                se.series_instance_uid@,
                inst.sop_instance_uid@,
            )
            &&& item.warning_reason is None
        },
        IngestObject::Unreadable(_) => false,
    }
}

/// Whether a rejection entry records exactly this mismatching object.
pub open spec fn failed_corresponds(
    f: FailedSopInstance,
    o: IngestObject,
    t: Option<Seq<char>>,
) -> bool {
    match o {
        IngestObject::Object(st, _, inst) => {
            &&& f.sop_class_uid@ == inst.sop_class_uid@
            &&& f.sop_instance_uid@ == inst.sop_instance_uid@
            &&& (t matches Some(e) && f.failure_reason@ == mismatch_reason(
                e,
                st.study_instance_uid@,
            ))
        },
        IngestObject::Unreadable(_) => false,
    }
}

/// Whether an other-failure entry records exactly this unreadable object.
pub open spec fn other_corresponds(f: OtherFailure, o: IngestObject) -> bool {
    match o {
        IngestObject::Unreadable(reason) => f.failure_reason@ == reason@,
        IngestObject::Object(_, _, _) => false,
    }
}

/// Whether this object's rows stand in the store.
pub open spec fn committed(o: IngestObject, store: MetadataStore) -> bool {
    match o {
        IngestObject::Object(st, se, inst) => {
            &&& crate::studies::models::metadata::has_study(
                store.studies@,
                st.study_instance_uid@,
            )
            &&& crate::studies::models::metadata::has_series(
                store.series@,
                se.series_instance_uid@,
            )
            &&& crate::studies::models::metadata::has_instance(
                store.instances@,
                inst.sop_instance_uid@,
            )
        },
        IngestObject::Unreadable(_) => true,
    }
}

/// One successful ingest never removes a row: what was committed stays
/// committed, and the ingested object's own rows are committed.
pub proof fn lemma_ingest_step_preserves(
    pre: MetadataStore,
    post: MetadataStore,
    study: StoreStudyDto,
    series: StoreSeriesDto,
    instance: StoreInstanceDto,
)
    requires
        ingest_step(pre, post, study, series, instance),
    ensures
        forall|u: Seq<char>|
            crate::studies::models::metadata::has_study(pre.studies@, u)
                ==> crate::studies::models::metadata::has_study(#[trigger] post.studies@, u),
        forall|u: Seq<char>|
            crate::studies::models::metadata::has_series(pre.series@, u)
                ==> crate::studies::models::metadata::has_series(#[trigger] post.series@, u),
        forall|u: Seq<char>|
            crate::studies::models::metadata::has_instance(pre.instances@, u)
                ==> crate::studies::models::metadata::has_instance(#[trigger] post.instances@, u),
        crate::studies::models::metadata::has_study(post.studies@, study.study_instance_uid@),
        crate::studies::models::metadata::has_series(post.series@, series.series_instance_uid@),
        crate::studies::models::metadata::has_instance(
            post.instances@,
            instance.sop_instance_uid@,
        ),
{
    assert forall|u: Seq<char>|
        has_study(pre.studies@, u) implies has_study(#[trigger] post.studies@, u) by {
        lemma_has_study_iff(pre.studies@, u);
        lemma_has_study_iff(post.studies@, u);
        lemma_first_match_idx(pre.studies@, study_uid_pred(study.study_instance_uid@));
        let j = choose|j: int|
            0 <= j < pre.studies@.len() && #[trigger] pre.studies@[j].study_instance_uid@ == u;
        assert(post.studies@[j].study_instance_uid@ == u);
    }
    assert forall|u: Seq<char>|
        has_series(pre.series@, u) implies has_series(#[trigger] post.series@, u) by {
        lemma_has_series_iff(pre.series@, u);
        lemma_has_series_iff(post.series@, u);
        lemma_first_match_idx(pre.series@, series_uid_pred(series.series_instance_uid@));
        let j = choose|j: int|
            0 <= j < pre.series@.len() && #[trigger] pre.series@[j].series_instance_uid@ == u;
        assert(post.series@[j].series_instance_uid@ == u);
    }
    assert forall|u: Seq<char>|
        has_instance(pre.instances@, u) implies has_instance(#[trigger] post.instances@, u) by {
        lemma_has_instance_iff(pre.instances@, u);
        lemma_has_instance_iff(post.instances@, u);
        lemma_first_match_idx(
            pre.instances@,
            crate::studies::models::metadata::instance_uid_pred(instance.sop_instance_uid@),
        );
        let j = choose|j: int|
            0 <= j < pre.instances@.len() && #[trigger] pre.instances@[j].sop_instance_uid@ == u;
        assert(post.instances@[j].sop_instance_uid@ == u);
    }
    lemma_has_study_iff(post.studies@, study.study_instance_uid@);
    lemma_first_match_idx(pre.studies@, study_uid_pred(study.study_instance_uid@));
    match crate::studies::models::metadata::first_match_idx(
        pre.studies@,
        study_uid_pred(study.study_instance_uid@),
    ) {
        Some(i) => {
            assert(post.studies@[i].study_instance_uid@ == study.study_instance_uid@);
        },
        None => {
            assert(post.studies@[pre.studies@.len() as int].study_instance_uid@
                == study.study_instance_uid@);
        },
    }
    lemma_has_series_iff(post.series@, series.series_instance_uid@);
    lemma_first_match_idx(pre.series@, series_uid_pred(series.series_instance_uid@));
    match crate::studies::models::metadata::first_match_idx(
        pre.series@,
        series_uid_pred(series.series_instance_uid@),
    ) {
        Some(i) => {
            assert(post.series@[i].series_instance_uid@ == series.series_instance_uid@);
        },
        None => {
            assert(post.series@[pre.series@.len() as int].series_instance_uid@
                == series.series_instance_uid@);
        },
    }
    lemma_has_instance_iff(post.instances@, instance.sop_instance_uid@);
    lemma_first_match_idx(
        pre.instances@,
        instance_uid_pred(instance.sop_instance_uid@),
    );
    match first_match_idx(pre.instances@, instance_uid_pred(instance.sop_instance_uid@)) {
        Some(i) => {
            assert(post.instances@[i].sop_instance_uid@ == instance.sop_instance_uid@);
        },
        None => {
            assert(post.instances@[pre.instances@.len() as int].sop_instance_uid@
                == instance.sop_instance_uid@);
        },
    }
}

/// Store a batch of SOP instances, each in its own transaction: per-object
/// failures go to their list and never stop the remaining objects; stored
/// objects stay stored whatever happens later in the batch.
#[verifier::rlimit(100)]
#[verifier::spinoff_prover]
pub fn store_sop_instances(
    store: &mut MetadataStore,
    origin: &str,
    study_uid: Option<&String>,
    objects: Vec<IngestObject>,
) -> (r: StoreInstancesResponse)
    requires
        old(store).wf(),
    ensures
        final(store).wf(),
        ({
            let t = target_view(study_uid);
            let succ = objects@.filter(success_pred(t));
            let rej = objects@.filter(rejected_pred(t));
            let unr = objects@.filter(unreadable_pred());
            &&& r.referenced_sop_sequence@.len() == succ.len()
            &&& forall|k: int|
                0 <= k < succ.len() ==> referenced_corresponds(
                    #[trigger] r.referenced_sop_sequence@[k],
                    succ[k],
                    origin@,
                )
            &&& r.failed_sop_sequence@.len() == rej.len()
            &&& forall|k: int|
                0 <= k < rej.len() ==> failed_corresponds(
                    #[trigger] r.failed_sop_sequence@[k],
                    rej[k],
                    t,
                )
            &&& r.other_failure_sequence@.len() == unr.len()
            &&& forall|k: int|
                0 <= k < unr.len() ==> other_corresponds(
                    #[trigger] r.other_failure_sequence@[k],
                    unr[k],
                )
            &&& forall|k: int|
                0 <= k < succ.len() ==> committed(#[trigger] succ[k], *final(store))
            &&& r.retrieve_url@ == common_url(origin@, r.referenced_sop_sequence@)
        }),
{
    let ghost t = target_view(study_uid);
    let ghost orig = objects@;
    let mut objects = objects;
    let total = objects.len();
    proof {
        assert(orig.len() == total);
    }
    let mut referenced: Vec<ReferencedSopInstance> = Vec::new();
    let mut failed: Vec<FailedSopInstance> = Vec::new();
    let mut other: Vec<OtherFailure> = Vec::new();
    let mut i: usize = 0;
    proof {
        assert(orig.take(0).filter(success_pred(t)) =~= Seq::<IngestObject>::empty());
        assert(orig.take(0).filter(rejected_pred(t)) =~= Seq::<IngestObject>::empty());
        assert(orig.take(0).filter(unreadable_pred()) =~= Seq::<IngestObject>::empty());
    }
    while objects.len() > 0
        invariant
            store.wf(),
            t == target_view(study_uid),
            orig.len() <= usize::MAX,
            i + objects@.len() == orig.len(),
            objects@ == orig.skip(i as int),
            referenced@.len() == orig.take(i as int).filter(success_pred(t)).len(),
            forall|k: int|
                0 <= k < referenced@.len() ==> referenced_corresponds(
                    #[trigger] referenced@[k],
                    orig.take(i as int).filter(success_pred(t))[k],
                    origin@,
                ),
            failed@.len() == orig.take(i as int).filter(rejected_pred(t)).len(),
            forall|k: int|
                0 <= k < failed@.len() ==> failed_corresponds(
                    #[trigger] failed@[k],
                    orig.take(i as int).filter(rejected_pred(t))[k],
                    t,
                ),
            other@.len() == orig.take(i as int).filter(unreadable_pred()).len(),
            forall|k: int|
                0 <= k < other@.len() ==> other_corresponds(
                    #[trigger] other@[k],
                    orig.take(i as int).filter(unreadable_pred())[k],
                ),
            forall|k: int|
                0 <= k < orig.take(i as int).filter(success_pred(t)).len() ==> committed(
                    #[trigger] orig.take(i as int).filter(success_pred(t))[k],
                    *store,
                ),
        decreases objects@.len(),
    {
        let obj = objects.remove(0);
        let ghost gobj = obj;
        proof {
            assert(gobj == orig[i as int]);
            assert(objects@ =~= orig.skip(i + 1 as int));
            assert(orig.take(i + 1 as int) =~= orig.take(i as int) + seq![orig[i as int]]);
            Seq::filter_distributes_over_add(
                orig.take(i as int),
                seq![orig[i as int]],
                success_pred(t),
            );
            Seq::filter_distributes_over_add(
                orig.take(i as int),
                seq![orig[i as int]],
                rejected_pred(t),
            );
            Seq::filter_distributes_over_add(
                orig.take(i as int),
                seq![orig[i as int]],
                unreadable_pred(),
            );
            lemma_filter_one(orig[i as int], success_pred(t));
            lemma_filter_one(orig[i as int], rejected_pred(t));
            lemma_filter_one(orig[i as int], unreadable_pred());
        }
        match obj {
            IngestObject::Unreadable(reason) => {
                other.push(OtherFailure { failure_reason: reason });
                proof {
                    assert(orig.take(i as int).filter(success_pred(t))
                        + Seq::<IngestObject>::empty() =~= orig.take(i as int).filter(
                        success_pred(t),
                    ));
                    assert(orig.take(i as int).filter(rejected_pred(t))
                        + Seq::<IngestObject>::empty() =~= orig.take(i as int).filter(
                        rejected_pred(t),
                    ));
                }
            },
            IngestObject::Object(st, se, inst) => {
                let ghost pre = *store;
                match store_sop_instance(store, origin, study_uid, st, se, inst) {
                    StoreOutcome::Stored(item) => {
                        referenced.push(item);
                        proof {
                            lemma_ingest_step_preserves(pre, *store, st, se, inst);
                            assert(orig.take(i as int).filter(rejected_pred(t))
                                + Seq::<IngestObject>::empty() =~= orig.take(i as int).filter(
                                rejected_pred(t),
                            ));
                            assert(orig.take(i as int).filter(unreadable_pred())
                                + Seq::<IngestObject>::empty() =~= orig.take(i as int).filter(
                                unreadable_pred(),
                            ));
                        }
                    },
                    StoreOutcome::Rejected(f) => {
                        failed.push(f);
                        proof {
                            assert(orig.take(i as int).filter(success_pred(t))
                                + Seq::<IngestObject>::empty() =~= orig.take(i as int).filter(
                                success_pred(t),
                            ));
                            assert(orig.take(i as int).filter(unreadable_pred())
                                + Seq::<IngestObject>::empty() =~= orig.take(i as int).filter(
                                unreadable_pred(),
                            ));
                        }
                    },
                }
            },
        }
        i += 1;
    }
    proof {
        assert(orig.take(orig.len() as int) == orig);
    }
    let retrieve_url = common_retrieve_url(origin, &referenced);
    StoreInstancesResponse {
        retrieve_url,
        failed_sop_sequence: failed,
        referenced_sop_sequence: referenced,
        other_failure_sequence: other,
    }
}

/// Idempotent re-ingest: storing the same instance UID twice leaves
/// exactly one row for that UID, the row's metadata reflects the second
/// ingest, and the storage path token assigned by the first ingest is kept.
pub proof fn lemma_idempotent_reingest(
    s0: MetadataStore,
    s1: MetadataStore,
    s2: MetadataStore,
    study1: StoreStudyDto,
    series1: StoreSeriesDto,
    inst1: StoreInstanceDto,
    study2: StoreStudyDto,
    series2: StoreSeriesDto,
    inst2: StoreInstanceDto,
)
    requires
        s2.wf(),
        ingest_step(s0, s1, study1, series1, inst1),
        ingest_step(s1, s2, study2, series2, inst2),
        inst1.sop_instance_uid@ == inst2.sop_instance_uid@,
    ensures
        has_instance(s2.instances@, inst2.sop_instance_uid@),
        forall|a: int, b: int|
            #![trigger s2.instances@[a], s2.instances@[b]]
            0 <= a < b < s2.instances@.len() ==> !(s2.instances@[a].sop_instance_uid@
                == inst2.sop_instance_uid@ && s2.instances@[b].sop_instance_uid@
                == inst2.sop_instance_uid@),
        match first_match_idx(s2.instances@, instance_uid_pred(inst2.sop_instance_uid@)) {
            Some(j) => instance_fields_match(s2.instances@[j], inst2),
            None => false,
        },
        crate::studies::models::metadata::path_of_instance(
            s2.instances@,
            inst2.sop_instance_uid@,
        ) == crate::studies::models::metadata::path_of_instance(
            s1.instances@,
            inst2.sop_instance_uid@,
        ),
{
    let uid = inst2.sop_instance_uid@;
    let p = instance_uid_pred(uid);
    lemma_first_match_idx(s0.instances@, p);
    lemma_first_match_idx(s1.instances@, p);
    let j: int = match first_match_idx(s1.instances@, p) {
        Some(j) => j,
        None => {
            match first_match_idx(s0.instances@, instance_uid_pred(inst1.sop_instance_uid@)) {
                Some(i0) => {
                    assert(s1.instances@[i0].sop_instance_uid@ == uid);
                    assert(!p(s1.instances@[i0]));
                    assert(false);
                    0
                },
                None => {
                    assert(s1.instances@[s0.instances@.len() as int].sop_instance_uid@ == uid);
                    assert(!p(s1.instances@[s0.instances@.len() as int]));
                    assert(false);
                    0
                },
            }
        },
    };
    assert(first_match_idx(s1.instances@, p) == Some(j));
    assert(instance_fields_match(s2.instances@[j], inst2));
    assert(s2.instances@[j].path@ == s1.instances@[j].path@);
    assert forall|k: int| 0 <= k < j implies !p(#[trigger] s2.instances@[k]) by {
        assert(s2.instances@[k] == s1.instances@[k]);
    }
    assert(p(s2.instances@[j]));
    crate::studies::models::metadata::lemma_first_match_found(s2.instances@, p, j);
}

/// The instance UIDs of a batch of parsed objects.
pub open spec fn instance_uids_of(
    objs: Seq<(StoreStudyDto, StoreSeriesDto, StoreInstanceDto)>,
) -> Seq<Seq<char>> {
    Seq::new(objs.len(), |i: int| objs[i].2.sop_instance_uid@)
}

/// The series UIDs of a batch of parsed objects.
pub open spec fn series_uids_of(
    objs: Seq<(StoreStudyDto, StoreSeriesDto, StoreInstanceDto)>,
) -> Seq<Seq<char>> {
    Seq::new(objs.len(), |i: int| objs[i].1.series_instance_uid@)
}

/// How many distinct values a sequence holds.
pub open spec fn distinct_count(s: Seq<Seq<char>>) -> nat
    decreases s.len(),
{
    if s.len() == 0 {
        0
    } else {
        distinct_count(s.drop_last()) + if s.drop_last().contains(s.last()) {
            0nat
        } else {
            1nat
        }
    }
}

proof fn lemma_count_all_series(rows: Seq<StoreSeriesDto>, u: Seq<char>)
    requires
        forall|k: int| 0 <= k < rows.len() ==> #[trigger] rows[k].study_instance_uid@ == u,
    ensures
        crate::studies::models::metadata::series_count_of_study(rows, u) == rows.len(),
    decreases rows.len(),
{
    if rows.len() > 0 {
        lemma_count_all_series(rows.drop_last(), u);
    }
}

proof fn lemma_count_all_instances(rows: Seq<StoreInstanceDto>, u: Seq<char>)
    requires
        forall|k: int| 0 <= k < rows.len() ==> #[trigger] rows[k].study_instance_uid@ == u,
    ensures
        crate::studies::models::metadata::instance_count_of_study(rows, u) == rows.len(),
    decreases rows.len(),
{
    if rows.len() > 0 {
        lemma_count_all_instances(rows.drop_last(), u);
    }
}

#[verifier::rlimit(100)]
#[verifier::spinoff_prover]
proof fn lemma_ingest_chain(
    stores: Seq<MetadataStore>,
    objs: Seq<(StoreStudyDto, StoreSeriesDto, StoreInstanceDto)>,
    u: Seq<char>,
)
    requires
        stores.len() == objs.len() + 1,
        stores[0].series@.len() == 0,
        stores[0].instances@.len() == 0,
        forall|i: int|
            0 <= i < objs.len() ==> ingest_step(
                #[trigger] stores[i],
                stores[i + 1],
                objs[i].0,
                objs[i].1,
                objs[i].2,
            ),
        forall|i: int|
            0 <= i < objs.len() ==> (#[trigger] objs[i].1).study_instance_uid@ == u
                && objs[i].2.study_instance_uid@ == u,
        forall|i: int, j: int|
            #![trigger objs[i].2, objs[j].2]
            0 <= i < j < objs.len() ==> objs[i].2.sop_instance_uid@
                != objs[j].2.sop_instance_uid@,
    ensures
        stores.last().instances@.len() == objs.len(),
        forall|k: int|
            0 <= k < stores.last().instances@.len()
                ==> (#[trigger] stores.last().instances@[k]).study_instance_uid@ == u,
        forall|w: Seq<char>|
            #[trigger] has_instance(stores.last().instances@, w) <==> exists|i: int|
                0 <= i < objs.len() && (#[trigger] objs[i].2).sop_instance_uid@ == w,
        stores.last().series@.len() == distinct_count(series_uids_of(objs)),
        forall|k: int|
            0 <= k < stores.last().series@.len()
                ==> (#[trigger] stores.last().series@[k]).study_instance_uid@ == u,
        forall|w: Seq<char>|
            #[trigger] has_series(stores.last().series@, w) <==> exists|i: int|
                0 <= i < objs.len() && (#[trigger] objs[i].1).series_instance_uid@ == w,
    decreases objs.len(),
{
    if objs.len() == 0 {
        let fin = stores.last();
        assert(fin == stores[0]);
        assert forall|w: Seq<char>| !(#[trigger] has_instance(fin.instances@, w)) by {
            lemma_has_instance_iff(fin.instances@, w);
        }
        assert forall|w: Seq<char>| !(#[trigger] has_series(fin.series@, w)) by {
            lemma_has_series_iff(fin.series@, w);
        }
    } else {
        let n = objs.len() as int;
        let prev_stores = stores.take(n);
        let prev_objs = objs.drop_last();
        assert(prev_stores[0] == stores[0]);
        assert forall|i: int|
            0 <= i < prev_objs.len() implies ingest_step(
            #[trigger] prev_stores[i],
            prev_stores[i + 1],
            prev_objs[i].0,
            prev_objs[i].1,
            prev_objs[i].2,
        ) by {
            assert(prev_stores[i] == stores[i]);
            assert(prev_stores[i + 1] == stores[i + 1]);
            assert(prev_objs[i] == objs[i]);
        }
        lemma_ingest_chain(prev_stores, prev_objs, u);
        let pre = prev_stores.last();
        let post = stores.last();
        let o = objs.last();
        assert(pre == stores[n - 1]);
        assert(ingest_step(stores[n - 1], stores[n], objs[n - 1].0, objs[n - 1].1, objs[n - 1].2));
        assert(o == objs[n - 1]);
        // The last instance UID is new: the batch's UIDs are distinct.
        let ip = instance_uid_pred(o.2.sop_instance_uid@);
        lemma_first_match_idx(pre.instances@, ip);
        match first_match_idx(pre.instances@, ip) {
            Some(i0) => {
                assert(has_instance(pre.instances@, o.2.sop_instance_uid@));
                let w = choose|i: int|
                    0 <= i < prev_objs.len() && (#[trigger] prev_objs[i].2).sop_instance_uid@
                        == o.2.sop_instance_uid@;
                assert(objs[w].2 == prev_objs[w].2);
                assert(false);
            },
            None => {},
        }
        assert(post.instances@.len() == pre.instances@.len() + 1);
        assert(post.instances@[pre.instances@.len() as int].study_instance_uid@ == u);
        assert forall|k: int|
            0 <= k < post.instances@.len()
                implies (#[trigger] post.instances@[k]).study_instance_uid@ == u by {
            if k < pre.instances@.len() {
                assert(post.instances@[k] == pre.instances@[k]);
            }
        }
        assert forall|w: Seq<char>|
            #[trigger] has_instance(post.instances@, w) <==> exists|i: int|
                0 <= i < objs.len() && (#[trigger] objs[i].2).sop_instance_uid@ == w by {
            lemma_has_instance_iff(post.instances@, w);
            lemma_has_instance_iff(pre.instances@, w);
            if has_instance(post.instances@, w) {
                let k = choose|k: int|
                    0 <= k < post.instances@.len() && (#[trigger] post.instances@[k]).sop_instance_uid@
                        == w;
                if k < pre.instances@.len() {
                    assert(pre.instances@[k].sop_instance_uid@ == w);
                    let i = choose|i: int|
                        0 <= i < prev_objs.len() && (#[trigger] prev_objs[i].2).sop_instance_uid@
                            == w;
                    assert(objs[i].2.sop_instance_uid@ == w);
                } else {
                    assert(objs[n - 1].2.sop_instance_uid@ == w);
                }
            }
            if exists|i: int| 0 <= i < objs.len() && (#[trigger] objs[i].2).sop_instance_uid@ == w {
                let i = choose|i: int|
                    0 <= i < objs.len() && (#[trigger] objs[i].2).sop_instance_uid@ == w;
                if i < n - 1 {
                    assert(prev_objs[i].2.sop_instance_uid@ == w);
                    assert(has_instance(pre.instances@, w));
                    let k = choose|k: int|
                        0 <= k < pre.instances@.len() && (#[trigger] pre.instances@[k]).sop_instance_uid@
                            == w;
                    assert(post.instances@[k].sop_instance_uid@ == w);
                } else {
                    assert(post.instances@[pre.instances@.len() as int].sop_instance_uid@ == w);
                }
            }
        }
        // Series: an upsert keeps the count in step with the distinct UIDs.
        let sp = series_uid_pred(o.1.series_instance_uid@);
        lemma_first_match_idx(pre.series@, sp);
        assert(series_uids_of(prev_objs) =~= series_uids_of(objs).drop_last());
        let seen = series_uids_of(objs).drop_last().contains(o.1.series_instance_uid@);
        assert(seen <==> exists|i: int|
            0 <= i < prev_objs.len() && (#[trigger] prev_objs[i].1).series_instance_uid@
                == o.1.series_instance_uid@) by {
            if seen {
                let i = choose|i: int|
                    0 <= i < series_uids_of(objs).drop_last().len() && series_uids_of(
                        objs,
                    ).drop_last()[i] == o.1.series_instance_uid@;
                assert(prev_objs[i].1.series_instance_uid@ == o.1.series_instance_uid@);
            }
            if exists|i: int|
                0 <= i < prev_objs.len() && (#[trigger] prev_objs[i].1).series_instance_uid@
                    == o.1.series_instance_uid@ {
                let i = choose|i: int|
                    0 <= i < prev_objs.len() && (#[trigger] prev_objs[i].1).series_instance_uid@
                        == o.1.series_instance_uid@;
                assert(series_uids_of(objs).drop_last()[i] == o.1.series_instance_uid@);
            }
        }
        assert(has_series(pre.series@, o.1.series_instance_uid@) <==> seen);
        match first_match_idx(pre.series@, sp) {
            Some(i0) => {
                assert(seen);
                assert(post.series@ == pre.series@.update(i0, o.1));
                assert(post.series@.len() == pre.series@.len());
                assert(distinct_count(series_uids_of(objs)) == distinct_count(
                    series_uids_of(prev_objs),
                ));
            },
            None => {
                assert(!has_series(pre.series@, o.1.series_instance_uid@));
                assert(!seen);
                assert(post.series@ == pre.series@.push(o.1));
                assert(distinct_count(series_uids_of(objs)) == distinct_count(
                    series_uids_of(prev_objs),
                ) + 1);
            },
        }
        assert forall|k: int|
            0 <= k < post.series@.len()
                implies (#[trigger] post.series@[k]).study_instance_uid@ == u by {
            match first_match_idx(pre.series@, sp) {
                Some(i0) => {
                    if k != i0 {
                        assert(post.series@[k] == pre.series@[k]);
                    }
                },
                None => {
                    if k < pre.series@.len() {
                        assert(post.series@[k] == pre.series@[k]);
                    }
                },
            }
        }
        assert forall|w: Seq<char>|
            #[trigger] has_series(post.series@, w) <==> exists|i: int|
                0 <= i < objs.len() && (#[trigger] objs[i].1).series_instance_uid@ == w by {
            lemma_has_series_iff(post.series@, w);
            lemma_has_series_iff(pre.series@, w);
            if has_series(post.series@, w) {
                let k = choose|k: int|
                    0 <= k < post.series@.len() && (#[trigger] post.series@[k]).series_instance_uid@
                        == w;
                match first_match_idx(pre.series@, sp) {
                    Some(i0) => {
                        if k == i0 {
                            assert(objs[n - 1].1.series_instance_uid@ == w);
                        } else {
                            assert(pre.series@[k].series_instance_uid@ == w);
                            let i = choose|i: int|
                                0 <= i < prev_objs.len() && (
                                #[trigger] prev_objs[i].1).series_instance_uid@ == w;
                            assert(objs[i].1.series_instance_uid@ == w);
                        }
                    },
                    None => {
                        if k < pre.series@.len() {
                            assert(pre.series@[k].series_instance_uid@ == w);
                            let i = choose|i: int|
                                0 <= i < prev_objs.len() && (
                                #[trigger] prev_objs[i].1).series_instance_uid@ == w;
                            assert(objs[i].1.series_instance_uid@ == w);
                        } else {
                            assert(objs[n - 1].1.series_instance_uid@ == w);
                        }
                    },
                }
            }
            if exists|i: int| 0 <= i < objs.len() && (#[trigger] objs[i].1).series_instance_uid@
                == w {
                let i = choose|i: int|
                    0 <= i < objs.len() && (#[trigger] objs[i].1).series_instance_uid@ == w;
                if i < n - 1 {
                    assert(prev_objs[i].1.series_instance_uid@ == w);
                    assert(has_series(pre.series@, w));
                    let k = choose|k: int|
                        0 <= k < pre.series@.len() && (#[trigger] pre.series@[k]).series_instance_uid@
                            == w;
                    match first_match_idx(pre.series@, sp) {
                        Some(i0) => {
                            if k == i0 {
                                assert(post.series@[i0].series_instance_uid@
                                    == o.1.series_instance_uid@);
                                assert(pre.series@[i0].series_instance_uid@
                                    == o.1.series_instance_uid@);
                                assert(post.series@[i0].series_instance_uid@ == w);
                            } else {
                                assert(post.series@[k].series_instance_uid@ == w);
                            }
                        },
                        None => {
                            assert(post.series@[k].series_instance_uid@ == w);
                        },
                    }
                } else {
                    match first_match_idx(pre.series@, sp) {
                        Some(i0) => {
                            assert(post.series@[i0].series_instance_uid@ == w);
                        },
                        None => {
                            assert(post.series@[pre.series@.len() as int].series_instance_uid@
                                == w);
                        },
                    }
                }
            }
        }
    }
}

/// Aggregate consistency: after ingesting a batch of instances with
/// pairwise distinct instance UIDs, all under one study, the study's
/// derived instance count equals the number of instances ingested and its
/// series count equals the number of distinct series UIDs among them. The
/// statement covers every chain of ingests from an empty store, so it also
/// holds again after a further ingest extends the chain.
pub proof fn lemma_aggregate_consistency(
    stores: Seq<MetadataStore>,
    objs: Seq<(StoreStudyDto, StoreSeriesDto, StoreInstanceDto)>,
    u: Seq<char>,
)
    requires
        stores.len() == objs.len() + 1,
        stores[0].series@.len() == 0,
        stores[0].instances@.len() == 0,
        forall|i: int|
            0 <= i < objs.len() ==> ingest_step(
                #[trigger] stores[i],
                stores[i + 1],
                objs[i].0,
                objs[i].1,
                objs[i].2,
            ),
        forall|i: int|
            0 <= i < objs.len() ==> (#[trigger] objs[i].1).study_instance_uid@ == u
                && objs[i].2.study_instance_uid@ == u,
        forall|i: int, j: int|
            #![trigger objs[i].2, objs[j].2]
            0 <= i < j < objs.len() ==> objs[i].2.sop_instance_uid@
                != objs[j].2.sop_instance_uid@,
    ensures
        crate::studies::models::metadata::instance_count_of_study(
            stores.last().instances@,
            u,
        ) == objs.len(),
        crate::studies::models::metadata::series_count_of_study(stores.last().series@, u)
            == distinct_count(series_uids_of(objs)),
{
    lemma_ingest_chain(stores, objs, u);
    lemma_count_all_instances(stores.last().instances@, u);
    lemma_count_all_series(stores.last().series@, u);
}

} // verus!
