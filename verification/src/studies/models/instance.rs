//! Instance-level data-transfer objects, their SQL compilation, and the
//! instance-level operations on the metadata store.

use crate::sql::{and_eq, join_sep, view_opt, SqlQuery};
use crate::studies::models::metadata::{
    build_series_dto, build_study_dto, find_series_row, find_study_row, has_instance,
    instance_dto_corresponds, instance_included_pred, instance_matches_exec, instance_uid_pred,
    lemma_filter_one, lemma_first_match_found, lemma_first_match_none, opt_series_filter,
    opt_study_filter, path_of_instance, series_matches_exec, study_matches_exec, upsert_instance,
    MetadataStore,
};
use crate::studies::models::series::{SearchSeriesDto, SeriesDto};
use crate::studies::models::study::{SearchStudyDto, StudyDto};
use vstd::prelude::*;

verus! {

/// A data-transfer object for storing a DICOM SOP instance.
#[derive(Clone)]
pub struct StoreInstanceDto {
    pub sop_class_uid: String,
    pub sop_instance_uid: String,
    pub study_instance_uid: String,
    pub series_instance_uid: String,
    pub instance_number: String,
    pub path: String,
}

impl StoreInstanceDto {
    /// Set the storage path of the SOP instance.
    pub fn with_path(self, path: String) -> (r: StoreInstanceDto)
        ensures
            r.path@ == path@,
            r.sop_class_uid == self.sop_class_uid,
            r.sop_instance_uid == self.sop_instance_uid,
            r.study_instance_uid == self.study_instance_uid,
            r.series_instance_uid == self.series_instance_uid,
            r.instance_number == self.instance_number,
    {
        StoreInstanceDto { path, ..self }
    }

    /// Extract the instance-level fields from a parsed object; an absent
    /// or non-textual attribute becomes the empty string, never a failure.
    /// The storage path starts empty; ingest assigns it.
    pub fn from_object(obj: &crate::utils::dicom::DicomObject) -> (r: StoreInstanceDto)
        ensures
            r.sop_class_uid@ == crate::utils::dicom::element_str_or_empty(
                obj.elements@,
                crate::utils::dicom::tags::SOP_CLASS_UID,
            ),
            r.sop_instance_uid@ == crate::utils::dicom::element_str_or_empty(
                obj.elements@,
                crate::utils::dicom::tags::SOP_INSTANCE_UID,
            ),
            r.study_instance_uid@ == crate::utils::dicom::element_str_or_empty(
                obj.elements@,
                crate::utils::dicom::tags::STUDY_INSTANCE_UID,
            ),
            r.series_instance_uid@ == crate::utils::dicom::element_str_or_empty(
                obj.elements@,
                crate::utils::dicom::tags::SERIES_INSTANCE_UID,
            ),
            r.instance_number@ == crate::utils::dicom::element_str_or_empty(
                obj.elements@,
                crate::utils::dicom::tags::INSTANCE_NUMBER,
            ),
            r.path@ == Seq::<char>::empty(),
    {
        StoreInstanceDto {
            sop_class_uid: crate::utils::dicom::empty_if_unknown(
                obj,
                crate::utils::dicom::tags::SOP_CLASS_UID,
            ),
            sop_instance_uid: crate::utils::dicom::empty_if_unknown(
                obj,
                crate::utils::dicom::tags::SOP_INSTANCE_UID,
            ),
            study_instance_uid: crate::utils::dicom::empty_if_unknown(
                obj,
                crate::utils::dicom::tags::STUDY_INSTANCE_UID,
            ),
            series_instance_uid: crate::utils::dicom::empty_if_unknown(
                obj,
                crate::utils::dicom::tags::SERIES_INSTANCE_UID,
            ),
            instance_number: crate::utils::dicom::empty_if_unknown(
                obj,
                crate::utils::dicom::tags::INSTANCE_NUMBER,
            ),
            path: String::new(),
        }
    }

    /// The insert statement for a new instance, with every value bound as a
    /// parameter.
    pub fn sql(&self) -> (r: SqlQuery)
        ensures
            r.text@ == (
            "INSERT INTO sop_instances (sop_class_uid, sop_instance_uid, study_instance_uid, series_instance_uid, instance_number, path) VALUES ($1, $2, $3, $4, $5, $6);"
            )@,
            r.params.deep_view() == seq![
                self.sop_class_uid@,
                self.sop_instance_uid@,
                self.study_instance_uid@,
                self.series_instance_uid@,
                self.instance_number@,
                self.path@,
            ],
    {
        let mut q = SqlQuery::new(
            "INSERT INTO sop_instances (sop_class_uid, sop_instance_uid, study_instance_uid, series_instance_uid, instance_number, path) VALUES ($1, $2, $3, $4, $5, $6);",
        );
        q.bind(self.sop_class_uid.as_str());
        q.bind(self.sop_instance_uid.as_str());
        q.bind(self.study_instance_uid.as_str());
        q.bind(self.series_instance_uid.as_str());
        q.bind(self.instance_number.as_str());
        q.bind(self.path.as_str());
        proof {
            assert(q.params.deep_view() =~= seq![
                self.sop_class_uid@,
                self.sop_instance_uid@,
                self.study_instance_uid@,
                self.series_instance_uid@,
                self.instance_number@,
                self.path@,
            ]);
        }
        q
    }

    /// The update statement for an existing instance, keyed by its UID.
    pub fn update_sql(&self) -> (r: SqlQuery)
        ensures
            r.text@ == (
            "UPDATE sop_instances SET sop_class_uid = $2, study_instance_uid = $3, series_instance_uid = $4, instance_number = $5, path = $6 WHERE sop_instance_uid = $1;"
            )@,
            r.params.deep_view() == seq![
                self.sop_instance_uid@,
                self.sop_class_uid@,
                self.study_instance_uid@,
                self.series_instance_uid@,
                self.instance_number@,
                self.path@,
            ],
    {
        let mut q = SqlQuery::new(
            "UPDATE sop_instances SET sop_class_uid = $2, study_instance_uid = $3, series_instance_uid = $4, instance_number = $5, path = $6 WHERE sop_instance_uid = $1;",
        );
        q.bind(self.sop_instance_uid.as_str());
        q.bind(self.sop_class_uid.as_str());
        q.bind(self.study_instance_uid.as_str());
        q.bind(self.series_instance_uid.as_str());
        q.bind(self.instance_number.as_str());
        q.bind(self.path.as_str());
        proof {
            assert(q.params.deep_view() =~= seq![
                self.sop_instance_uid@,
                self.sop_class_uid@,
                self.study_instance_uid@,
                self.series_instance_uid@,
                self.instance_number@,
                self.path@,
            ]);
        }
        q
    }
}

/// A data-transfer object holding instance search criteria.
///
/// Every field is optional; a present field becomes an exact-match condition
/// in the compiled query.
#[derive(Clone)]
pub struct SearchInstanceDto {
    pub sop_instance_uid: Option<String>,
    pub study_instance_uid: Option<String>,
    pub series_instance_uid: Option<String>,
    pub sop_class_uid: Option<String>,
    pub instance_number: Option<String>,
    /// Whether the compiled select joins the study view.
    pub include_study: bool,
    /// Whether the compiled select joins the series view.
    pub include_series: bool,
}

/// The first condition group: the three UIDs.
pub open spec fn instance_front_conditions(
    d: &SearchInstanceDto,
    start: nat,
) -> (Seq<char>, Seq<Seq<char>>) {
    let acc = (Seq::<char>::empty(), Seq::<Seq<char>>::empty());
    let acc = and_eq(
        acc,
        start,
        " AND sop_instances.sop_instance_uid = "@,
        view_opt(d.sop_instance_uid),
    );
    let acc = and_eq(
        acc,
        start,
        " AND sop_instances.study_instance_uid = "@,
        view_opt(d.study_instance_uid),
    );
    let acc = and_eq(
        acc,
        start,
        " AND sop_instances.series_instance_uid = "@,
        view_opt(d.series_instance_uid),
    );
    acc
}

/// The second condition group: the SOP class and the instance number.
pub open spec fn instance_back_conditions(
    d: &SearchInstanceDto,
    start: nat,
) -> (Seq<char>, Seq<Seq<char>>) {
    let acc = (Seq::<char>::empty(), Seq::<Seq<char>>::empty());
    let acc = and_eq(acc, start, " AND sop_instances.sop_class_uid = "@, view_opt(d.sop_class_uid));
    let acc = and_eq(
        acc,
        start,
        " AND sop_instances.instance_number = "@,
        view_opt(d.instance_number),
    );
    acc
}

/// The conditions an instance filter compiles to, and the values they bind,
/// when the query already holds `start` parameters.
pub open spec fn instance_conditions(
    d: &SearchInstanceDto,
    start: nat,
) -> (Seq<char>, Seq<Seq<char>>) {
    let a = instance_front_conditions(d, start);
    let b = instance_back_conditions(d, start + a.1.len());
    (a.0 + b.0, a.1 + b.1)
}

impl SearchInstanceDto {
    /// An empty instance filter: no conditions, no joins.
    pub fn new() -> (r: SearchInstanceDto)
        ensures
            r.sop_instance_uid is None,
            r.study_instance_uid is None,
            r.series_instance_uid is None,
            r.sop_class_uid is None,
            r.instance_number is None,
            !r.include_study,
            !r.include_series,
    {
        SearchInstanceDto {
            sop_instance_uid: None,
            study_instance_uid: None,
            series_instance_uid: None,
            sop_class_uid: None,
            instance_number: None,
            include_study: false,
            include_series: false,
        }
    }

    /// Parse an instance filter from loosely-keyed search parameters: each
    /// recognized key, by keyword or by hexadecimal tag form, fills its
    /// field; unrecognized keys are ignored.
    pub fn from_query(params: &crate::studies::models::query::QueryParams) -> (r:
        SearchInstanceDto)
        ensures
            view_opt(r.sop_class_uid) == crate::studies::models::query::field_lookup(
                params.pairs@,
                "SOPClassUID"@,
                crate::utils::dicom::tags::SOP_CLASS_UID,
            ),
            view_opt(r.sop_instance_uid) == crate::studies::models::query::field_lookup(
                params.pairs@,
                "SOPInstanceUID"@,
                crate::utils::dicom::tags::SOP_INSTANCE_UID,
            ),
            view_opt(r.instance_number) == crate::studies::models::query::field_lookup(
                params.pairs@,
                "InstanceNumber"@,
                crate::utils::dicom::tags::INSTANCE_NUMBER,
            ),
            r.study_instance_uid is None,
            r.series_instance_uid is None,
            !r.include_study,
            !r.include_series,
    {
        SearchInstanceDto {
            sop_instance_uid: crate::studies::models::query::get_field(
                params,
                "SOPInstanceUID",
                crate::utils::dicom::tags::SOP_INSTANCE_UID,
            ),
            study_instance_uid: None,
            series_instance_uid: None,
            sop_class_uid: crate::studies::models::query::get_field(
                params,
                "SOPClassUID",
                crate::utils::dicom::tags::SOP_CLASS_UID,
            ),
            instance_number: crate::studies::models::query::get_field(
                params,
                "InstanceNumber",
                crate::utils::dicom::tags::INSTANCE_NUMBER,
            ),
            include_study: false,
            include_series: false,
        }
    }

    /// A filter that pins the instance's place in the hierarchy: whichever
    /// of the three UIDs are given become exact-match conditions.
    pub fn from_uids(
        study_instance_uid: Option<String>,
        series_instance_uid: Option<String>,
        sop_instance_uid: Option<String>,
    ) -> (r: SearchInstanceDto)
        ensures
            r.study_instance_uid == study_instance_uid,
            r.series_instance_uid == series_instance_uid,
            r.sop_instance_uid == sop_instance_uid,
            r.sop_class_uid is None,
            r.instance_number is None,
            !r.include_study,
            !r.include_series,
    {
        SearchInstanceDto {
            sop_instance_uid,
            study_instance_uid,
            series_instance_uid,
            sop_class_uid: None,
            instance_number: None,
            include_study: false,
            include_series: false,
        }
    }

    /// Make the compiled select join the study view.
    pub fn with_studies(&mut self)
        ensures
            final(self).include_study,
            final(self).include_series == old(self).include_series,
            final(self).sop_instance_uid == old(self).sop_instance_uid,
            final(self).study_instance_uid == old(self).study_instance_uid,
            final(self).series_instance_uid == old(self).series_instance_uid,
            final(self).sop_class_uid == old(self).sop_class_uid,
            final(self).instance_number == old(self).instance_number,
    {
        self.include_study = true;
    }

    /// Make the compiled select join the series view.
    pub fn with_series(&mut self)
        ensures
            final(self).include_series,
            final(self).include_study == old(self).include_study,
            final(self).sop_instance_uid == old(self).sop_instance_uid,
            final(self).study_instance_uid == old(self).study_instance_uid,
            final(self).series_instance_uid == old(self).series_instance_uid,
            final(self).sop_class_uid == old(self).sop_class_uid,
            final(self).instance_number == old(self).instance_number,
    {
        self.include_series = true;
    }

    /// Append the first group of exact-match conditions.
    #[verifier::rlimit(100)]
    #[verifier::spinoff_prover]
    fn push_front_conditions(&self, q: &mut SqlQuery)
        ensures
            final(q).text@ == old(q).text@ + instance_front_conditions(
                self,
                old(q).params.deep_view().len(),
            ).0,
            final(q).params.deep_view() == old(q).params.deep_view() + instance_front_conditions(
                self,
                old(q).params.deep_view().len(),
            ).1,
    {
        let ghost start = q.params.deep_view().len();
        let ghost base_text = q.text@;
        let ghost base_params = q.params.deep_view();
        if let Some(v) = &self.sop_instance_uid {
            q.push_sql(" AND sop_instances.sop_instance_uid = ");
            q.push_param(v.as_str());
        }
        if let Some(v) = &self.study_instance_uid {
            q.push_sql(" AND sop_instances.study_instance_uid = ");
            q.push_param(v.as_str());
        }
        if let Some(v) = &self.series_instance_uid {
            q.push_sql(" AND sop_instances.series_instance_uid = ");
            q.push_param(v.as_str());
        }
        proof {
            assert(q.text@ =~= base_text + instance_front_conditions(self, start).0);
            assert(q.params.deep_view() =~= base_params + instance_front_conditions(
                self,
                start,
            ).1);
        }
    }

    /// Append the second group of exact-match conditions.
    #[verifier::rlimit(100)]
    #[verifier::spinoff_prover]
    fn push_back_conditions(&self, q: &mut SqlQuery)
        ensures
            final(q).text@ == old(q).text@ + instance_back_conditions(
                self,
                old(q).params.deep_view().len(),
            ).0,
            final(q).params.deep_view() == old(q).params.deep_view() + instance_back_conditions(
                self,
                old(q).params.deep_view().len(),
            ).1,
    {
        let ghost start = q.params.deep_view().len();
        let ghost base_text = q.text@;
        let ghost base_params = q.params.deep_view();
        if let Some(v) = &self.sop_class_uid {
            q.push_sql(" AND sop_instances.sop_class_uid = ");
            q.push_param(v.as_str());
        }
        if let Some(v) = &self.instance_number {
            q.push_sql(" AND sop_instances.instance_number = ");
            q.push_param(v.as_str());
        }
        proof {
            assert(q.text@ =~= base_text + instance_back_conditions(self, start).0);
            assert(q.params.deep_view() =~= base_params + instance_back_conditions(self, start).1);
        }
    }

    /// Append every present filter as a condition on the query, binding the
    /// filter values as parameters.
    pub fn add_search_conditions(&self, q: &mut SqlQuery)
        ensures
            final(q).text@ == old(q).text@ + instance_conditions(
                self,
                old(q).params.deep_view().len(),
            ).0,
            final(q).params.deep_view() == old(q).params.deep_view() + instance_conditions(
                self,
                old(q).params.deep_view().len(),
            ).1,
    {
        let ghost start = q.params.deep_view().len();
        let ghost base_text = q.text@;
        let ghost base_params = q.params.deep_view();
        self.push_front_conditions(q);
        self.push_back_conditions(q);
        proof {
            assert(q.text@ =~= base_text + instance_conditions(self, start).0);
            assert(q.params.deep_view() =~= base_params + instance_conditions(self, start).1);
        }
    }

    /// Restrict a query to instances whose UID appears among the instances
    /// the filter matches, via a correlated sub-select.
    pub fn filter_instances_by_uid(&self, q: &mut SqlQuery)
        ensures
            final(q).text@ == old(q).text@ + (
            " AND sop_instances.sop_instance_uid IN (SELECT sop_instance_uid FROM sop_instances WHERE 1 = 1"
            )@ + instance_conditions(self, old(q).params.deep_view().len()).0 + ")"@,
            final(q).params.deep_view() == old(q).params.deep_view() + instance_conditions(
                self,
                old(q).params.deep_view().len(),
            ).1,
    {
        q.push_sql(
            " AND sop_instances.sop_instance_uid IN (SELECT sop_instance_uid FROM sop_instances WHERE 1 = 1",
        );
        self.add_search_conditions(q);
        q.push_sql(")");
        proof {
            assert(q.text@ =~= old(q).text@ + (
            " AND sop_instances.sop_instance_uid IN (SELECT sop_instance_uid FROM sop_instances WHERE 1 = 1"
            )@ + instance_conditions(self, old(q).params.deep_view().len()).0 + ")"@);
        }
    }

    /// Compile the select over the instance table: the requested columns,
    /// the study and series joins when requested, then the filter as a
    /// correlated UID sub-select.
    pub fn select(&self, fields: &Vec<String>) -> (r: SqlQuery)
        ensures
            r.text@ == "SELECT "@ + join_sep(fields.deep_view(), ", "@) + " FROM sop_instances"@
                + (if self.include_study {
                (
                " JOIN studies_view ON sop_instances.study_instance_uid = studies_view.study_instance_uid"
                )@
            } else {
                Seq::<char>::empty()
            }) + (if self.include_series {
                (
                " JOIN study_series_view ON sop_instances.series_instance_uid = study_series_view.series_instance_uid"
                )@
            } else {
                Seq::<char>::empty()
            }) + " WHERE 1 = 1"@ + (
            " AND sop_instances.sop_instance_uid IN (SELECT sop_instance_uid FROM sop_instances WHERE 1 = 1"
            )@ + instance_conditions(self, 0).0 + ")"@,
            r.params.deep_view() == instance_conditions(self, 0).1,
    {
        let mut q = SqlQuery::new("SELECT ");
        let cols = crate::sql::join_comma(fields);
        q.push_sql(cols.as_str());
        q.push_sql(" FROM sop_instances");
        if self.include_study {
            q.push_sql(
                " JOIN studies_view ON sop_instances.study_instance_uid = studies_view.study_instance_uid",
            );
        }
        if self.include_series {
            q.push_sql(
                " JOIN study_series_view ON sop_instances.series_instance_uid = study_series_view.series_instance_uid",
            );
        }
        q.push_sql(" WHERE 1 = 1");
        self.filter_instances_by_uid(&mut q);
        proof {
            assert(q.text@ =~= "SELECT "@ + join_sep(fields.deep_view(), ", "@) + (
            " FROM sop_instances"
            )@ + (if self.include_study {
                (
                " JOIN studies_view ON sop_instances.study_instance_uid = studies_view.study_instance_uid"
                )@
            } else {
                Seq::<char>::empty()
            }) + (if self.include_series {
                (
                " JOIN study_series_view ON sop_instances.series_instance_uid = study_series_view.series_instance_uid"
                )@
            } else {
                Seq::<char>::empty()
            }) + " WHERE 1 = 1"@ + (
            " AND sop_instances.sop_instance_uid IN (SELECT sop_instance_uid FROM sop_instances WHERE 1 = 1"
            )@ + instance_conditions(self, 0).0 + ")"@);
            assert(q.params.deep_view() =~= instance_conditions(self, 0).1);
        }
        q
    }
}

/// An instance row as the retrieval path reads it back: the storage path,
/// and the study and series rows when the query joined them.
#[derive(Debug)]
pub struct InstanceDto {
    pub path: String,
    pub study: Option<StudyDto>,
    pub series: Option<SeriesDto>,
}

impl InstanceDto {
    /// The columns selected to build an `InstanceDto`; marker columns record
    /// which joins were included.
    pub fn fields(include_study: bool, include_series: bool) -> (r: Vec<String>)
        ensures
            r.deep_view() == seq!["sop_instances.path"@] + (if include_study {
                seq!["1 AS include_study"@]
            } else {
                Seq::<Seq<char>>::empty()
            }) + (if include_series {
                seq!["1 AS include_series"@]
            } else {
                Seq::<Seq<char>>::empty()
            }),
    {
        let mut fields: Vec<String> = Vec::new();
        fields.push(String::from_str("sop_instances.path"));
        if include_study {
            fields.push(String::from_str("1 AS include_study"));
        }
        if include_series {
            fields.push(String::from_str("1 AS include_series"));
        }
        proof {
            assert(fields.deep_view() =~~= seq!["sop_instances.path"@] + (if include_study {
                seq!["1 AS include_study"@]
            } else {
                Seq::<Seq<char>>::empty()
            }) + (if include_series {
                seq!["1 AS include_series"@]
            } else {
                Seq::<Seq<char>>::empty()
            }));
        }
        fields
    }
}

/// Search the store for instances matching the filter; when a study or
/// series filter is given, only instances whose parent row matches it are
/// returned, with the parent rows' derived fields attached.
pub fn find(
    store: &MetadataStore,
    search_study_dto: Option<&SearchStudyDto>,
    search_series_dto: Option<&SearchSeriesDto>,
    search_instance_dto: SearchInstanceDto,
) -> (r: Vec<InstanceDto>)
    ensures
        ({
            let sf = opt_study_filter(search_study_dto);
            let ef = opt_series_filter(search_series_dto);
            let ms = store.instances@.filter(
                instance_included_pred(
                    search_instance_dto,
                    sf,
                    ef,
                    store.studies@,
                    store.series@,
                ),
            );
            &&& r@.len() == ms.len()
            &&& forall|k: int|
                0 <= k < ms.len() ==> instance_dto_corresponds(
                    #[trigger] r@[k],
                    ms[k],
                    sf is Some,
                    ef is Some,
                    store.studies@,
                    store.series@,
                    store.instances@,
                )
        }),
{
    let ghost sf = opt_study_filter(search_study_dto);
    let ghost ef = opt_series_filter(search_series_dto);
    let ghost p = instance_included_pred(
        search_instance_dto,
        sf,
        ef,
        store.studies@,
        store.series@,
    );
    let mut out: Vec<InstanceDto> = Vec::new();
    let mut i: usize = 0;
    proof {
        assert(store.instances@.take(0).filter(p) =~= Seq::<StoreInstanceDto>::empty());
    }
    while i < store.instances.len()
        invariant
            i <= store.instances@.len(),
            sf == opt_study_filter(search_study_dto),
            ef == opt_series_filter(search_series_dto),
            p == instance_included_pred(
                search_instance_dto,
                sf,
                ef,
                store.studies@,
                store.series@,
            ),
            out@.len() == store.instances@.take(i as int).filter(p).len(),
            forall|k: int|
                0 <= k < out@.len() ==> instance_dto_corresponds(
                    #[trigger] out@[k],
                    store.instances@.take(i as int).filter(p)[k],
                    sf is Some,
                    ef is Some,
                    store.studies@,
                    store.series@,
                    store.instances@,
                ),
        decreases store.instances@.len() - i,
    {
        let ghost prefix = store.instances@.take(i as int);
        proof {
            assert(store.instances@.take(i + 1 as int) =~= prefix + seq![
                store.instances@[i as int],
            ]);
            Seq::filter_distributes_over_add(prefix, seq![store.instances@[i as int]], p);
            lemma_filter_one(store.instances@[i as int], p);
        }
        let row = &store.instances[i];
        let mut included = false;
        let mut study_dto: Option<StudyDto> = None;
        let mut series_dto: Option<SeriesDto> = None;
        if instance_matches_exec(&search_instance_dto, row) {
            let study_ok = match search_study_dto {
                None => true,
                Some(f) => {
                    match find_study_row(&store.studies, row.study_instance_uid.as_str()) {
                        Some(j) => {
                            if study_matches_exec(f, &store.studies[j], &store.series) {
                                study_dto = Some(
                                    build_study_dto(
                                        &store.studies[j],
                                        &store.series,
                                        &store.instances,
                                    ),
                                );
                                true
                            } else {
                                false
                            }
                        },
                        None => false,
                    }
                },
            };
            let series_ok = match search_series_dto {
                None => true,
                Some(f) => {
                    match find_series_row(&store.series, row.series_instance_uid.as_str()) {
                        Some(j) => {
                            if series_matches_exec(f, &store.series[j]) {
                                series_dto = Some(build_series_dto(&store.series[j], &store.instances));
                                true
                            } else {
                                false
                            }
                        },
                        None => false,
                    }
                },
            };
            included = study_ok && series_ok;
        }
        if included {
            proof {
                assert(p(store.instances@[i as int]));
            }
            let d = InstanceDto {
                path: String::from_str(row.path.as_str()),
                study: study_dto,
                series: series_dto,
            };
            out.push(d);
        } else {
            proof {
                assert(!p(store.instances@[i as int]));
                assert(prefix.filter(p) + Seq::<StoreInstanceDto>::empty() =~= prefix.filter(p));
            }
        }
        i += 1;
    }
    proof {
        assert(store.instances@.take(store.instances@.len() as int) == store.instances@);
    }
    out
}

/// Whether an instance with this UID exists in the store.
pub fn is_exist(store: &MetadataStore, sop_instance_uid: &str) -> (r: bool)
    ensures
        r == has_instance(store.instances@, sop_instance_uid@),
{
    let ghost p = instance_uid_pred(sop_instance_uid@);
    let mut i: usize = 0;
    while i < store.instances.len()
        invariant
            i <= store.instances@.len(),
            p == instance_uid_pred(sop_instance_uid@),
            forall|k: int| 0 <= k < i ==> !p(#[trigger] store.instances@[k]),
        decreases store.instances@.len() - i,
    {
        if crate::sql::str_eq_str(
            store.instances[i].sop_instance_uid.as_str(),
            sop_instance_uid,
        ) {
            proof {
                lemma_first_match_found(store.instances@, p, i as int);
            }
            return true;
        }
        i += 1;
    }
    proof {
        lemma_first_match_none(store.instances@, p);
    }
    false
}

/// The storage path recorded for this instance UID, if the instance was
/// ingested before.
pub fn get_path_by_uid(store: &MetadataStore, sop_instance_uid: &str) -> (r: Option<String>)
    ensures
        match r {
            Some(p) => path_of_instance(store.instances@, sop_instance_uid@) == Some(p@),
            None => path_of_instance(store.instances@, sop_instance_uid@) is None,
        },
{
    match crate::studies::models::metadata::find_instance_row(&store.instances, sop_instance_uid) {
        Some(i) => Some(String::from_str(store.instances[i].path.as_str())),
        None => None,
    }
}

/// Save an instance: an update when a row with its UID exists, an insert
/// otherwise.
pub fn save(store: &mut MetadataStore, dto: StoreInstanceDto)
    requires
        old(store).wf(),
    ensures
        final(store).wf(),
        final(store).instances@ == upsert_instance(old(store).instances@, dto),
        final(store).studies@ == old(store).studies@,
        final(store).series@ == old(store).series@,
{
    let ghost p = instance_uid_pred(dto.sop_instance_uid@);
    let mut i: usize = 0;
    while i < store.instances.len()
        invariant
            i <= store.instances@.len(),
            old(store).wf(),
            store.instances@ == old(store).instances@,
            store.studies@ == old(store).studies@,
            store.series@ == old(store).series@,
            p == instance_uid_pred(dto.sop_instance_uid@),
            forall|k: int| 0 <= k < i ==> !p(#[trigger] store.instances@[k]),
        decreases store.instances@.len() - i,
    {
        if crate::sql::str_eq_str(
            store.instances[i].sop_instance_uid.as_str(),
            dto.sop_instance_uid.as_str(),
        ) {
            proof {
                lemma_first_match_found(store.instances@, p, i as int);
            }
            store.instances.set(i, dto);
            proof {
                let s = store.instances@;
                assert(forall|k: int|
                    0 <= k < s.len() ==> #[trigger] s[k].sop_instance_uid@ == old(
                        store,
                    ).instances@[k].sop_instance_uid@);
                assert forall|a: int, b: int|
                    #![trigger s[a], s[b]]
                    0 <= a < b < s.len() implies s[a].sop_instance_uid@
                    != s[b].sop_instance_uid@ by {
                    assert(old(store).instances@[a].sop_instance_uid@ != old(
                        store,
                    ).instances@[b].sop_instance_uid@);
                }
            }
            return;
        }
        i += 1;
    }
    proof {
        lemma_first_match_none(store.instances@, p);
    }
    store.instances.push(dto);
    proof {
        let s = store.instances@;
        assert forall|a: int, b: int|
            #![trigger s[a], s[b]]
            0 <= a < b < s.len() implies s[a].sop_instance_uid@ != s[b].sop_instance_uid@ by {
            if b < s.len() - 1 {
                assert(old(store).instances@[a].sop_instance_uid@ != old(
                    store,
                ).instances@[b].sop_instance_uid@);
            } else {
                assert(!p(old(store).instances@[a]));
            }
        }
    }
}

} // verus!
