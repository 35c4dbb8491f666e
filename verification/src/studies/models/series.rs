//! Series-level data-transfer objects, their SQL compilation, and the
//! series-level operations on the metadata store.

use crate::sql::{and_eq, join_sep, view_opt, SqlQuery};
use crate::studies::models::metadata::{
    build_series_dto, build_study_dto, find_study_row, has_series, lemma_filter_one,
    lemma_first_match_found, lemma_first_match_none, opt_study_filter, series_dto_corresponds,
    series_included_pred, series_matches_exec, series_uid_pred, study_matches_exec, upsert_series,
    MetadataStore,
};
use crate::studies::models::study::{SearchStudyDto, StudyDto};
use vstd::prelude::*;

verus! {

/// A data-transfer object for storing a DICOM series.
#[derive(Clone)]
pub struct StoreSeriesDto {
    pub modality: String,
    pub study_instance_uid: String,
    pub series_instance_uid: String,
    pub series_number: String,
    pub performed_procedure_step_start_date: String,
    pub performed_procedure_step_start_time: String,
}

impl StoreSeriesDto {
    /// The insert statement for a new series, with every value bound as a
    /// parameter.
    pub fn sql(&self) -> (r: SqlQuery)
        ensures
            r.text@ == (
            "INSERT INTO study_series (modality, study_instance_uid, series_instance_uid, series_number, performed_procedure_step_start_date, performed_procedure_step_start_time) VALUES ($1, $2, $3, $4, $5, $6);"
            )@,
            r.params.deep_view() == seq![
                self.modality@,
                self.study_instance_uid@,
                self.series_instance_uid@,
                self.series_number@,
                self.performed_procedure_step_start_date@,
                self.performed_procedure_step_start_time@,
            ],
    {
        let mut q = SqlQuery::new(
            "INSERT INTO study_series (modality, study_instance_uid, series_instance_uid, series_number, performed_procedure_step_start_date, performed_procedure_step_start_time) VALUES ($1, $2, $3, $4, $5, $6);",
        );
        q.bind(self.modality.as_str());
        q.bind(self.study_instance_uid.as_str());
        q.bind(self.series_instance_uid.as_str());
        q.bind(self.series_number.as_str());
        q.bind(self.performed_procedure_step_start_date.as_str());
        q.bind(self.performed_procedure_step_start_time.as_str());
        proof {
            assert(q.params.deep_view() =~= seq![
                self.modality@,
                self.study_instance_uid@,
                self.series_instance_uid@,
                self.series_number@,
                self.performed_procedure_step_start_date@,
                self.performed_procedure_step_start_time@,
            ]);
        }
        q
    }

    /// Extract the series-level fields from a parsed object; an absent or
    /// non-textual attribute becomes the empty string, never a failure.
    pub fn from_object(obj: &crate::utils::dicom::DicomObject) -> (r: StoreSeriesDto)
        ensures
            r.modality@ == crate::utils::dicom::element_str_or_empty(
                obj.elements@,
                crate::utils::dicom::tags::MODALITY,
            ),
            r.study_instance_uid@ == crate::utils::dicom::element_str_or_empty(
                obj.elements@,
                crate::utils::dicom::tags::STUDY_INSTANCE_UID,
            ),
            r.series_instance_uid@ == crate::utils::dicom::element_str_or_empty(
                obj.elements@,
                crate::utils::dicom::tags::SERIES_INSTANCE_UID,
            ),
            r.series_number@ == crate::utils::dicom::element_str_or_empty(
                obj.elements@,
                crate::utils::dicom::tags::SERIES_NUMBER,
            ),
            r.performed_procedure_step_start_date@ == crate::utils::dicom::element_str_or_empty(
                obj.elements@,
                crate::utils::dicom::tags::PERFORMED_PROCEDURE_STEP_START_DATE,
            ),
            r.performed_procedure_step_start_time@ == crate::utils::dicom::element_str_or_empty(
                obj.elements@,
                crate::utils::dicom::tags::PERFORMED_PROCEDURE_STEP_START_TIME,
            ),
    {
        StoreSeriesDto {
            modality: crate::utils::dicom::empty_if_unknown(
                obj,
                crate::utils::dicom::tags::MODALITY,
            ),
            study_instance_uid: crate::utils::dicom::empty_if_unknown(
                obj,
                crate::utils::dicom::tags::STUDY_INSTANCE_UID,
            ),
            series_instance_uid: crate::utils::dicom::empty_if_unknown(
                obj,
                crate::utils::dicom::tags::SERIES_INSTANCE_UID,
            ),
            series_number: crate::utils::dicom::empty_if_unknown(
                obj,
                crate::utils::dicom::tags::SERIES_NUMBER,
            ),
            performed_procedure_step_start_date: crate::utils::dicom::empty_if_unknown(
                obj,
                crate::utils::dicom::tags::PERFORMED_PROCEDURE_STEP_START_DATE,
            ),
            performed_procedure_step_start_time: crate::utils::dicom::empty_if_unknown(
                obj,
                crate::utils::dicom::tags::PERFORMED_PROCEDURE_STEP_START_TIME,
            ),
        }
    }

    /// The update statement for an existing series, keyed by its UID.
    pub fn update_sql(&self) -> (r: SqlQuery)
        ensures
            r.text@ == (
            "UPDATE study_series SET modality = $2, series_number = $3, performed_procedure_step_start_date = $4, performed_procedure_step_start_time = $5 WHERE series_instance_uid = $1;"
            )@,
            r.params.deep_view() == seq![
                self.series_instance_uid@,
                self.modality@,
                self.series_number@,
                self.performed_procedure_step_start_date@,
                self.performed_procedure_step_start_time@,
            ],
    {
        let mut q = SqlQuery::new(
            "UPDATE study_series SET modality = $2, series_number = $3, performed_procedure_step_start_date = $4, performed_procedure_step_start_time = $5 WHERE series_instance_uid = $1;",
        );
        q.bind(self.series_instance_uid.as_str());
        q.bind(self.modality.as_str());
        q.bind(self.series_number.as_str());
        q.bind(self.performed_procedure_step_start_date.as_str());
        q.bind(self.performed_procedure_step_start_time.as_str());
        proof {
            assert(q.params.deep_view() =~= seq![
                self.series_instance_uid@,
                self.modality@,
                self.series_number@,
                self.performed_procedure_step_start_date@,
                self.performed_procedure_step_start_time@,
            ]);
        }
        q
    }
}

/// A data-transfer object holding series search criteria.
///
/// Every field is optional; a present field becomes an exact-match condition
/// in the compiled query.
pub struct SearchSeriesDto {
    pub modality: Option<String>,
    pub study_instance_uid: Option<String>,
    pub series_instance_uid: Option<String>,
    pub series_number: Option<String>,
    pub performed_procedure_step_start_date: Option<String>,
    pub performed_procedure_step_start_time: Option<String>,
    /// Whether the compiled select joins the study view so that search
    /// results can carry study fields.
    pub include_study: bool,
}

/// The first condition group: modality and the two UIDs.
pub open spec fn series_front_conditions(
    d: &SearchSeriesDto,
    start: nat,
) -> (Seq<char>, Seq<Seq<char>>) {
    let acc = (Seq::<char>::empty(), Seq::<Seq<char>>::empty());
    let acc = and_eq(acc, start, " AND study_series_view.modality = "@, view_opt(d.modality));
    let acc = and_eq(
        acc,
        start,
        " AND study_series_view.series_instance_uid = "@,
        view_opt(d.series_instance_uid),
    );
    let acc = and_eq(
        acc,
        start,
        " AND study_series_view.study_instance_uid = "@,
        view_opt(d.study_instance_uid),
    );
    acc
}

/// The second condition group: the series number and the procedure-step
/// timestamps.
pub open spec fn series_back_conditions(
    d: &SearchSeriesDto,
    start: nat,
) -> (Seq<char>, Seq<Seq<char>>) {
    let acc = (Seq::<char>::empty(), Seq::<Seq<char>>::empty());
    let acc = and_eq(
        acc,
        start,
        " AND study_series_view.series_number = "@,
        view_opt(d.series_number),
    );
    let acc = and_eq(
        acc,
        start,
        " AND study_series_view.performed_procedure_step_start_date = "@,
        view_opt(d.performed_procedure_step_start_date),
    );
    let acc = and_eq(
        acc,
        start,
        " AND study_series_view.performed_procedure_step_start_time = "@,
        view_opt(d.performed_procedure_step_start_time),
    );
    acc
}

/// The conditions a series filter compiles to, and the values they bind,
/// when the query already holds `start` parameters.
pub open spec fn series_conditions(d: &SearchSeriesDto, start: nat) -> (Seq<char>, Seq<Seq<char>>) {
    let a = series_front_conditions(d, start);
    let b = series_back_conditions(d, start + a.1.len());
    (a.0 + b.0, a.1 + b.1)
}

impl SearchSeriesDto {
    /// An empty series filter: no conditions, no study join.
    pub fn new() -> (r: SearchSeriesDto)
        ensures
            r.modality is None,
            r.study_instance_uid is None,
            r.series_instance_uid is None,
            r.series_number is None,
            r.performed_procedure_step_start_date is None,
            r.performed_procedure_step_start_time is None,
            !r.include_study,
    {
        SearchSeriesDto {
            modality: None,
            study_instance_uid: None,
            series_instance_uid: None,
            series_number: None,
            performed_procedure_step_start_date: None,
            performed_procedure_step_start_time: None,
            include_study: false,
        }
    }

    /// Parse a series filter from loosely-keyed search parameters: each
    /// recognized key, by keyword or by hexadecimal tag form, fills its
    /// field; unrecognized keys are ignored.
    pub fn from_query(params: &crate::studies::models::query::QueryParams) -> (r: SearchSeriesDto)
        ensures
            view_opt(r.modality) == crate::studies::models::query::field_lookup(
                params.pairs@,
                "Modality"@,
                crate::utils::dicom::tags::MODALITY,
            ),
            view_opt(r.study_instance_uid) == crate::studies::models::query::field_lookup(
                params.pairs@,
                "StudyInstanceUID"@,
                crate::utils::dicom::tags::STUDY_INSTANCE_UID,
            ),
            view_opt(r.series_instance_uid) == crate::studies::models::query::field_lookup(
                params.pairs@,
                "SeriesInstanceUID"@,
                crate::utils::dicom::tags::SERIES_INSTANCE_UID,
            ),
            view_opt(r.series_number) == crate::studies::models::query::field_lookup(
                params.pairs@,
                "SeriesNumber"@,
                crate::utils::dicom::tags::SERIES_NUMBER,
            ),
            view_opt(r.performed_procedure_step_start_date)
                == crate::studies::models::query::field_lookup(
                params.pairs@,
                "PerformedProcedureStepStartDate"@,
                crate::utils::dicom::tags::PERFORMED_PROCEDURE_STEP_START_DATE,
            ),
            view_opt(r.performed_procedure_step_start_time)
                == crate::studies::models::query::field_lookup(
                params.pairs@,
                "PerformedProcedureStepStartTime"@,
                crate::utils::dicom::tags::PERFORMED_PROCEDURE_STEP_START_TIME,
            ),
            !r.include_study,
    {
        SearchSeriesDto {
            modality: crate::studies::models::query::get_field(
                params,
                "Modality",
                crate::utils::dicom::tags::MODALITY,
            ),
            study_instance_uid: crate::studies::models::query::get_field(
                params,
                "StudyInstanceUID",
                crate::utils::dicom::tags::STUDY_INSTANCE_UID,
            ),
            series_instance_uid: crate::studies::models::query::get_field(
                params,
                "SeriesInstanceUID",
                crate::utils::dicom::tags::SERIES_INSTANCE_UID,
            ),
            series_number: crate::studies::models::query::get_field(
                params,
                "SeriesNumber",
                crate::utils::dicom::tags::SERIES_NUMBER,
            ),
            performed_procedure_step_start_date: crate::studies::models::query::get_field(
                params,
                "PerformedProcedureStepStartDate",
                crate::utils::dicom::tags::PERFORMED_PROCEDURE_STEP_START_DATE,
            ),
            performed_procedure_step_start_time: crate::studies::models::query::get_field(
                params,
                "PerformedProcedureStepStartTime",
                crate::utils::dicom::tags::PERFORMED_PROCEDURE_STEP_START_TIME,
            ),
            include_study: false,
        }
    }

    /// Make the compiled select join the study view, so each series row can
    /// carry its study's fields.
    pub fn with_studies(&mut self)
        ensures
            final(self).include_study,
            final(self).modality == old(self).modality,
            final(self).study_instance_uid == old(self).study_instance_uid,
            final(self).series_instance_uid == old(self).series_instance_uid,
            final(self).series_number == old(self).series_number,
            final(self).performed_procedure_step_start_date == old(
                self,
            ).performed_procedure_step_start_date,
            final(self).performed_procedure_step_start_time == old(
                self,
            ).performed_procedure_step_start_time,
    {
        self.include_study = true;
    }

    /// Append the first group of exact-match conditions.
    #[verifier::rlimit(100)]
    #[verifier::spinoff_prover]
    fn push_front_conditions(&self, q: &mut SqlQuery)
        ensures
            final(q).text@ == old(q).text@ + series_front_conditions(
                self,
                old(q).params.deep_view().len(),
            ).0,
            final(q).params.deep_view() == old(q).params.deep_view() + series_front_conditions(
                self,
                old(q).params.deep_view().len(),
            ).1,
    {
        let ghost start = q.params.deep_view().len();
        let ghost base_text = q.text@;
        let ghost base_params = q.params.deep_view();
        if let Some(v) = &self.modality {
            q.push_sql(" AND study_series_view.modality = ");
            q.push_param(v.as_str());
        }
        if let Some(v) = &self.series_instance_uid {
            q.push_sql(" AND study_series_view.series_instance_uid = ");
            q.push_param(v.as_str());
        }
        if let Some(v) = &self.study_instance_uid {
            q.push_sql(" AND study_series_view.study_instance_uid = ");
            q.push_param(v.as_str());
        }
        proof {
            assert(q.text@ =~= base_text + series_front_conditions(self, start).0);
            assert(q.params.deep_view() =~= base_params + series_front_conditions(self, start).1);
        }
    }

    /// Append the second group of exact-match conditions.
    #[verifier::rlimit(100)]
    #[verifier::spinoff_prover]
    fn push_back_conditions(&self, q: &mut SqlQuery)
        ensures
            final(q).text@ == old(q).text@ + series_back_conditions(
                self,
                old(q).params.deep_view().len(),
            ).0,
            final(q).params.deep_view() == old(q).params.deep_view() + series_back_conditions(
                self,
                old(q).params.deep_view().len(),
            ).1,
    {
        let ghost start = q.params.deep_view().len();
        let ghost base_text = q.text@;
        let ghost base_params = q.params.deep_view();
        if let Some(v) = &self.series_number {
            q.push_sql(" AND study_series_view.series_number = ");
            q.push_param(v.as_str());
        }
        if let Some(v) = &self.performed_procedure_step_start_date {
            q.push_sql(" AND study_series_view.performed_procedure_step_start_date = ");
            q.push_param(v.as_str());
        }
        if let Some(v) = &self.performed_procedure_step_start_time {
            q.push_sql(" AND study_series_view.performed_procedure_step_start_time = ");
            q.push_param(v.as_str());
        }
        proof {
            assert(q.text@ =~= base_text + series_back_conditions(self, start).0);
            assert(q.params.deep_view() =~= base_params + series_back_conditions(self, start).1);
        }
    }

    /// Append every present filter as a condition on the query, binding the
    /// filter values as parameters.
    pub fn add_search_conditions(&self, q: &mut SqlQuery)
        ensures
            final(q).text@ == old(q).text@ + series_conditions(
                self,
                old(q).params.deep_view().len(),
            ).0,
            final(q).params.deep_view() == old(q).params.deep_view() + series_conditions(
                self,
                old(q).params.deep_view().len(),
            ).1,
    {
        let ghost start = q.params.deep_view().len();
        let ghost base_text = q.text@;
        let ghost base_params = q.params.deep_view();
        self.push_front_conditions(q);
        self.push_back_conditions(q);
        proof {
            assert(q.text@ =~= base_text + series_conditions(self, start).0);
            assert(q.params.deep_view() =~= base_params + series_conditions(self, start).1);
        }
    }

    /// Restrict a query to series whose UID appears among the series the
    /// filter matches, via a correlated sub-select.
    pub fn filter_series_by_uid(&self, q: &mut SqlQuery)
        ensures
            final(q).text@ == old(q).text@ + (
            " AND study_series_view.series_instance_uid IN (SELECT series_instance_uid FROM study_series_view WHERE 1 = 1"
            )@ + series_conditions(self, old(q).params.deep_view().len()).0 + ")"@,
            final(q).params.deep_view() == old(q).params.deep_view() + series_conditions(
                self,
                old(q).params.deep_view().len(),
            ).1,
    {
        q.push_sql(
            " AND study_series_view.series_instance_uid IN (SELECT series_instance_uid FROM study_series_view WHERE 1 = 1",
        );
        self.add_search_conditions(q);
        q.push_sql(")");
        proof {
            assert(q.text@ =~= old(q).text@ + (
            " AND study_series_view.series_instance_uid IN (SELECT series_instance_uid FROM study_series_view WHERE 1 = 1"
            )@ + series_conditions(self, old(q).params.deep_view().len()).0 + ")"@);
        }
    }

    /// Compile the select over the series view: the requested columns, the
    /// study join when requested, then every present filter as a condition.
    pub fn select(&self, fields: &Vec<String>) -> (r: SqlQuery)
        ensures
            r.text@ == "SELECT "@ + join_sep(fields.deep_view(), ", "@) + (
            " FROM study_series_view"
            )@ + (if self.include_study {
                (
                " JOIN studies_view ON study_series_view.study_instance_uid = studies_view.study_instance_uid"
                )@
            } else {
                Seq::<char>::empty()
            }) + " WHERE 1 = 1"@ + series_conditions(self, 0).0,
            r.params.deep_view() == series_conditions(self, 0).1,
    {
        let mut q = SqlQuery::new("SELECT ");
        let cols = crate::sql::join_comma(fields);
        q.push_sql(cols.as_str());
        q.push_sql(" FROM study_series_view");
        if self.include_study {
            q.push_sql(
                " JOIN studies_view ON study_series_view.study_instance_uid = studies_view.study_instance_uid",
            );
        }
        q.push_sql(" WHERE 1 = 1");
        self.add_search_conditions(&mut q);
        proof {
            assert(q.text@ =~= "SELECT "@ + join_sep(fields.deep_view(), ", "@) + (
            " FROM study_series_view"
            )@ + (if self.include_study {
                (
                " JOIN studies_view ON study_series_view.study_instance_uid = studies_view.study_instance_uid"
                )@
            } else {
                Seq::<char>::empty()
            }) + " WHERE 1 = 1"@ + series_conditions(self, 0).0);
            assert(q.params.deep_view() =~= series_conditions(self, 0).1);
        }
        q
    }
}

/// A series row as the search path reads it back: the derived instance
/// count, the storage path of a representative instance, and the study row
/// when the query joined it.
#[derive(Debug)]
pub struct SeriesDto {
    pub number_of_series_related_instances: u64,
    pub path: String,
    pub study: Option<StudyDto>,
}

impl SeriesDto {
    /// The columns selected to build a `SeriesDto`; a marker column records
    /// that the study join was included.
    pub fn fields(include_study: bool) -> (r: Vec<String>)
        ensures
            r.deep_view() == if include_study {
                seq![
                    "study_series_view.series_instance_uid"@,
                    "study_series_view.number_of_series_related_instances"@,
                    "study_series_view.path"@,
                    "1 AS include_study"@,
                ]
            } else {
                seq![
                    "study_series_view.series_instance_uid"@,
                    "study_series_view.number_of_series_related_instances"@,
                    "study_series_view.path"@,
                ]
            },
    {
        let mut fields: Vec<String> = Vec::new();
        fields.push(String::from_str("study_series_view.series_instance_uid"));
        fields.push(String::from_str("study_series_view.number_of_series_related_instances"));
        fields.push(String::from_str("study_series_view.path"));
        if include_study {
            fields.push(String::from_str("1 AS include_study"));
            proof {
                assert(fields.deep_view() =~~= seq![
                    "study_series_view.series_instance_uid"@,
                    "study_series_view.number_of_series_related_instances"@,
                    "study_series_view.path"@,
                    "1 AS include_study"@,
                ]);
            }
        } else {
            proof {
                assert(fields.deep_view() =~~= seq![
                    "study_series_view.series_instance_uid"@,
                    "study_series_view.number_of_series_related_instances"@,
                    "study_series_view.path"@,
                ]);
            }
        }
        fields
    }
}

/// Search the store for series matching the filter; when a study filter is
/// given, only series whose parent study matches it are returned, each with
/// its parent study's aggregates attached.
pub fn find(
    store: &MetadataStore,
    search_study_dto: Option<&SearchStudyDto>,
    search_series_dto: SearchSeriesDto,
) -> (r: Vec<SeriesDto>)
    ensures
        ({
            let sf = opt_study_filter(search_study_dto);
            let ms = store.series@.filter(
                series_included_pred(search_series_dto, sf, store.studies@, store.series@),
            );
            &&& r@.len() == ms.len()
            &&& forall|k: int|
                0 <= k < ms.len() ==> series_dto_corresponds(
                    #[trigger] r@[k],
                    ms[k],
                    sf is Some,
                    store.studies@,
                    store.series@,
                    store.instances@,
                )
        }),
{
    let ghost sf = opt_study_filter(search_study_dto);
    let ghost p = series_included_pred(search_series_dto, sf, store.studies@, store.series@);
    let mut out: Vec<SeriesDto> = Vec::new();
    let mut i: usize = 0;
    proof {
        assert(store.series@.take(0).filter(p) =~= Seq::<StoreSeriesDto>::empty());
    }
    while i < store.series.len()
        invariant
            i <= store.series@.len(),
            sf == opt_study_filter(search_study_dto),
            p == series_included_pred(search_series_dto, sf, store.studies@, store.series@),
            out@.len() == store.series@.take(i as int).filter(p).len(),
            forall|k: int|
                0 <= k < out@.len() ==> series_dto_corresponds(
                    #[trigger] out@[k],
                    store.series@.take(i as int).filter(p)[k],
                    sf is Some,
                    store.studies@,
                    store.series@,
                    store.instances@,
                ),
        decreases store.series@.len() - i,
    {
        let ghost prefix = store.series@.take(i as int);
        proof {
            assert(store.series@.take(i + 1 as int) =~= prefix + seq![store.series@[i as int]]);
            Seq::filter_distributes_over_add(prefix, seq![store.series@[i as int]], p);
            lemma_filter_one(store.series@[i as int], p);
        }
        let row = &store.series[i];
        let mut included = false;
        let mut study_dto: Option<StudyDto> = None;
        if series_matches_exec(&search_series_dto, row) {
            match search_study_dto {
                None => {
                    included = true;
                },
                Some(f) => {
                    match find_study_row(&store.studies, row.study_instance_uid.as_str()) {
                        Some(j) => {
                            if study_matches_exec(f, &store.studies[j], &store.series) {
                                included = true;
                                study_dto = Some(
                                    build_study_dto(
                                        &store.studies[j],
                                        &store.series,
                                        &store.instances,
                                    ),
                                );
                            }
                        },
                        None => {},
                    }
                },
            }
        }
        if included {
            proof {
                assert(p(store.series@[i as int]));
            }
            let base = build_series_dto(row, &store.instances);
            let d = SeriesDto { study: study_dto, ..base };
            out.push(d);
        } else {
            proof {
                assert(!p(store.series@[i as int]));
                assert(prefix.filter(p) + Seq::<StoreSeriesDto>::empty() =~= prefix.filter(p));
            }
        }
        i += 1;
    }
    proof {
        assert(store.series@.take(store.series@.len() as int) == store.series@);
    }
    out
}

/// Whether a series with this UID exists in the store.
pub fn is_exist(store: &MetadataStore, series_instance_uid: &str) -> (r: bool)
    ensures
        r == has_series(store.series@, series_instance_uid@),
{
    let ghost p = series_uid_pred(series_instance_uid@);
    let mut i: usize = 0;
    while i < store.series.len()
        invariant
            i <= store.series@.len(),
            p == series_uid_pred(series_instance_uid@),
            forall|k: int| 0 <= k < i ==> !p(#[trigger] store.series@[k]),
        decreases store.series@.len() - i,
    {
        if crate::sql::str_eq_str(
            store.series[i].series_instance_uid.as_str(),
            series_instance_uid,
        ) {
            proof {
                lemma_first_match_found(store.series@, p, i as int);
            }
            return true;
        }
        i += 1;
    }
    proof {
        lemma_first_match_none(store.series@, p);
    }
    false
}

/// Save a series: an update when a row with its UID exists, an insert
/// otherwise.
pub fn save(store: &mut MetadataStore, dto: StoreSeriesDto)
    requires
        old(store).wf(),
    ensures
        final(store).wf(),
        final(store).series@ == upsert_series(old(store).series@, dto),
        final(store).studies@ == old(store).studies@,
        final(store).instances@ == old(store).instances@,
{
    let ghost p = series_uid_pred(dto.series_instance_uid@);
    let mut i: usize = 0;
    while i < store.series.len()
        invariant
            i <= store.series@.len(),
            old(store).wf(),
            store.series@ == old(store).series@,
            store.studies@ == old(store).studies@,
            store.instances@ == old(store).instances@,
            p == series_uid_pred(dto.series_instance_uid@),
            forall|k: int| 0 <= k < i ==> !p(#[trigger] store.series@[k]),
        decreases store.series@.len() - i,
    {
        if crate::sql::str_eq_str(
            store.series[i].series_instance_uid.as_str(),
            dto.series_instance_uid.as_str(),
        ) {
            proof {
                lemma_first_match_found(store.series@, p, i as int);
            }
            store.series.set(i, dto);
            proof {
                let s = store.series@;
                assert(forall|k: int|
                    0 <= k < s.len() ==> #[trigger] s[k].series_instance_uid@ == old(
                        store,
                    ).series@[k].series_instance_uid@);
                assert forall|a: int, b: int|
                    #![trigger s[a], s[b]]
                    0 <= a < b < s.len() implies s[a].series_instance_uid@
                    != s[b].series_instance_uid@ by {
                    assert(old(store).series@[a].series_instance_uid@ != old(
                        store,
                    ).series@[b].series_instance_uid@);
                }
            }
            return;
        }
        i += 1;
    }
    proof {
        lemma_first_match_none(store.series@, p);
    }
    store.series.push(dto);
    proof {
        let s = store.series@;
        assert forall|a: int, b: int|
            #![trigger s[a], s[b]]
            0 <= a < b < s.len() implies s[a].series_instance_uid@ != s[b].series_instance_uid@ by {
            if b < s.len() - 1 {
                assert(old(store).series@[a].series_instance_uid@ != old(
                    store,
                ).series@[b].series_instance_uid@);
            } else {
                assert(!p(old(store).series@[a]));
            }
        }
    }
}

} // verus!
