//! Study-level data-transfer objects, their SQL compilation, and the
//! study-level operations on the metadata store.

use crate::sql::{and_eq, dialect_of, join_sep, placeholder, view_opt, Dialect, SqlQuery};
use crate::studies::models::metadata::{
    build_study_dto, first_match_idx, has_study, lemma_filter_one, lemma_first_match_found,
    lemma_first_match_none, study_dto_corresponds, study_match_pred, study_matches_exec,
    study_uid_pred, upsert_study, MetadataStore,
};
use vstd::prelude::*;

verus! {

/// A data-transfer object for storing a DICOM study.
#[derive(Clone)]
pub struct StoreStudyDto {
    pub study_date: String,
    pub study_time: String,
    pub accession_number: String,
    pub referring_physician_name: String,
    pub patient_name: String,
    pub patient_id: String,
    pub study_instance_uid: String,
    pub study_id: String,
}

impl StoreStudyDto {
    /// The insert statement for a new study, with every value bound as a
    /// parameter.
    pub fn sql(&self) -> (r: SqlQuery)
        ensures
            r.text@ == (
            "INSERT INTO studies (study_instance_uid, study_date, study_time, accession_number, referring_physician_name, patient_name, patient_id, study_id) VALUES ($1, $2, $3, $4, $5, $6, $7, $8);"
            )@,
            r.params.deep_view() == seq![
                self.study_instance_uid@,
                self.study_date@,
                self.study_time@,
                self.accession_number@,
                self.referring_physician_name@,
                self.patient_name@,
                self.patient_id@,
                self.study_id@,
            ],
    {
        let mut q = SqlQuery::new(
            "INSERT INTO studies (study_instance_uid, study_date, study_time, accession_number, referring_physician_name, patient_name, patient_id, study_id) VALUES ($1, $2, $3, $4, $5, $6, $7, $8);",
        );
        q.bind(self.study_instance_uid.as_str());
        q.bind(self.study_date.as_str());
        q.bind(self.study_time.as_str());
        q.bind(self.accession_number.as_str());
        q.bind(self.referring_physician_name.as_str());
        q.bind(self.patient_name.as_str());
        q.bind(self.patient_id.as_str());
        q.bind(self.study_id.as_str());
        proof {
            assert(q.params.deep_view() =~= seq![
                self.study_instance_uid@,
                self.study_date@,
                self.study_time@,
                self.accession_number@,
                self.referring_physician_name@,
                self.patient_name@,
                self.patient_id@,
                self.study_id@,
            ]);
        }
        q
    }

    /// Extract the study-level fields from a parsed object; an absent or
    /// non-textual attribute becomes the empty string, never a failure.
    pub fn from_object(obj: &crate::utils::dicom::DicomObject) -> (r: StoreStudyDto)
        ensures
            r.study_instance_uid@ == crate::utils::dicom::element_str_or_empty(
                obj.elements@,
                crate::utils::dicom::tags::STUDY_INSTANCE_UID,
            ),
            r.study_date@ == crate::utils::dicom::element_str_or_empty(
                obj.elements@,
                crate::utils::dicom::tags::STUDY_DATE,
            ),
            r.study_time@ == crate::utils::dicom::element_str_or_empty(
                obj.elements@,
                crate::utils::dicom::tags::STUDY_TIME,
            ),
            r.accession_number@ == crate::utils::dicom::element_str_or_empty(
                obj.elements@,
                crate::utils::dicom::tags::ACCESSION_NUMBER,
            ),
            r.referring_physician_name@ == crate::utils::dicom::element_str_or_empty(
                obj.elements@,
                crate::utils::dicom::tags::REFERRING_PHYSICIAN_NAME,
            ),
            r.patient_name@ == crate::utils::dicom::element_str_or_empty(
                obj.elements@,
                crate::utils::dicom::tags::PATIENT_NAME,
            ),
            r.patient_id@ == crate::utils::dicom::element_str_or_empty(
                obj.elements@,
                crate::utils::dicom::tags::PATIENT_ID,
            ),
            r.study_id@ == crate::utils::dicom::element_str_or_empty(
                obj.elements@,
                crate::utils::dicom::tags::STUDY_ID,
            ),
    {
        StoreStudyDto {
            study_instance_uid: crate::utils::dicom::empty_if_unknown(
                obj,
                crate::utils::dicom::tags::STUDY_INSTANCE_UID,
            ),
            study_date: crate::utils::dicom::empty_if_unknown(
                obj,
                crate::utils::dicom::tags::STUDY_DATE,
            ),
            study_time: crate::utils::dicom::empty_if_unknown(
                obj,
                crate::utils::dicom::tags::STUDY_TIME,
            ),
            accession_number: crate::utils::dicom::empty_if_unknown(
                obj,
                crate::utils::dicom::tags::ACCESSION_NUMBER,
            ),
            referring_physician_name: crate::utils::dicom::empty_if_unknown(
                obj,
                crate::utils::dicom::tags::REFERRING_PHYSICIAN_NAME,
            ),
            patient_name: crate::utils::dicom::empty_if_unknown(
                obj,
                crate::utils::dicom::tags::PATIENT_NAME,
            ),
            patient_id: crate::utils::dicom::empty_if_unknown(
                obj,
                crate::utils::dicom::tags::PATIENT_ID,
            ),
            study_id: crate::utils::dicom::empty_if_unknown(
                obj,
                crate::utils::dicom::tags::STUDY_ID,
            ),
        }
    }

    /// The update statement for an existing study, keyed by its UID.
    pub fn update_sql(&self) -> (r: SqlQuery)
        ensures
            r.text@ == (
            "UPDATE studies SET study_date = $2, study_time = $3, accession_number = $4, referring_physician_name = $5, patient_name = $6, patient_id = $7, study_id = $8 WHERE study_instance_uid = $1;"
            )@,
            r.params.deep_view() == seq![
                self.study_instance_uid@,
                self.study_date@,
                self.study_time@,
                self.accession_number@,
                self.referring_physician_name@,
                self.patient_name@,
                self.patient_id@,
                self.study_id@,
            ],
    {
        let mut q = SqlQuery::new(
            "UPDATE studies SET study_date = $2, study_time = $3, accession_number = $4, referring_physician_name = $5, patient_name = $6, patient_id = $7, study_id = $8 WHERE study_instance_uid = $1;",
        );
        q.bind(self.study_instance_uid.as_str());
        q.bind(self.study_date.as_str());
        q.bind(self.study_time.as_str());
        q.bind(self.accession_number.as_str());
        q.bind(self.referring_physician_name.as_str());
        q.bind(self.patient_name.as_str());
        q.bind(self.patient_id.as_str());
        q.bind(self.study_id.as_str());
        proof {
            assert(q.params.deep_view() =~= seq![
                self.study_instance_uid@,
                self.study_date@,
                self.study_time@,
                self.accession_number@,
                self.referring_physician_name@,
                self.patient_name@,
                self.patient_id@,
                self.study_id@,
            ]);
        }
        q
    }
}

/// A data-transfer object holding study search criteria.
///
/// Every field is optional; a present field becomes an exact-match condition
/// in the compiled query. The modality list is the one set-valued filter.
pub struct SearchStudyDto {
    pub study_date: Option<String>,
    pub study_time: Option<String>,
    pub accession_number: Option<String>,
    pub modalities_in_study: Option<Vec<String>>,
    pub referring_physician_name: Option<String>,
    pub patient_name: Option<String>,
    pub patient_id: Option<String>,
    pub study_instance_uid: Option<String>,
    pub study_id: Option<String>,
    /// The database backend identifier, which selects dialect-specific
    /// query fragments.
    pub database_backend: String,
}

/// The chain of `LIKE` alternatives for the generic dialect, one per
/// modality, numbered from `k + 1`.
pub open spec fn like_chain(ms: Seq<Seq<char>>, k: nat) -> Seq<char>
    decreases ms.len(),
{
    if ms.len() == 0 {
        Seq::empty()
    } else if ms.len() == 1 {
        "studies_view.modalities_in_study LIKE "@ + placeholder(k + 1)
    } else {
        like_chain(ms.drop_last(), k) + " OR studies_view.modalities_in_study LIKE "@
            + placeholder(k + ms.len())
    }
}

/// The `LIKE` patterns bound for the generic dialect: each modality wrapped
/// in `%`.
pub open spec fn like_params(ms: Seq<Seq<char>>) -> Seq<Seq<char>>
    decreases ms.len(),
{
    if ms.len() == 0 {
        Seq::empty()
    } else {
        like_params(ms.drop_last()).push("%"@ + ms.last() + "%"@)
    }
}

proof fn lemma_like_params_len(ms: Seq<Seq<char>>)
    ensures
        like_params(ms).len() == ms.len(),
    decreases ms.len(),
{
    if ms.len() > 0 {
        lemma_like_params_len(ms.drop_last());
    }
}

/// The placeholder list inside the PostgreSQL `ARRAY[...]` literal,
/// numbered from `k + 1`.
pub open spec fn array_placeholders(n: nat, k: nat) -> Seq<char>
    decreases n,
{
    if n == 0 {
        Seq::empty()
    } else if n == 1 {
        placeholder(k + 1)
    } else {
        array_placeholders((n - 1) as nat, k) + ", "@ + placeholder(k + n)
    }
}

/// The modality-containment condition and the values it binds, when the
/// query already holds `k` parameters: an overlap test against an array of
/// bound values on PostgreSQL, a chain of substring tests on every other
/// backend. A missing or empty modality list adds no condition.
pub open spec fn modalities_fragment(
    ms_opt: Option<Seq<Seq<char>>>,
    dialect: Dialect,
    k: nat,
) -> (Seq<char>, Seq<Seq<char>>) {
    match ms_opt {
        None => (Seq::empty(), Seq::empty()),
        Some(ms) => {
            if ms.len() == 0 {
                (Seq::empty(), Seq::empty())
            } else {
                match dialect {
                    Dialect::Generic => (
                        " AND ("@ + like_chain(ms, k) + ")"@,
                        like_params(ms),
                    ),
                    Dialect::Postgres => (
                        " AND studies_view.modalities_in_study && ARRAY["@ + array_placeholders(
                            ms.len(),
                            k,
                        ) + "]::varchar[]"@,
                        ms,
                    ),
                }
            }
        },
    }
}

/// The view of an optional string list.
pub open spec fn view_opt_list(o: Option<Vec<String>>) -> Option<Seq<Seq<char>>> {
    match o {
        Some(v) => Some(v.deep_view()),
        None => None,
    }
}

/// The first condition group: the four date- and physician-level exact
/// filters, in the order they are written into the query.
pub open spec fn front_conditions(d: &SearchStudyDto, start: nat) -> (Seq<char>, Seq<Seq<char>>) {
    let acc = (Seq::<char>::empty(), Seq::<Seq<char>>::empty());
    let acc = and_eq(acc, start, " AND studies_view.study_date = "@, view_opt(d.study_date));
    let acc = and_eq(acc, start, " AND studies_view.study_time = "@, view_opt(d.study_time));
    let acc = and_eq(
        acc,
        start,
        " AND studies_view.accession_number = "@,
        view_opt(d.accession_number),
    );
    let acc = and_eq(
        acc,
        start,
        " AND studies_view.referring_physician_name = "@,
        view_opt(d.referring_physician_name),
    );
    acc
}

/// The second condition group: the patient and identifier exact filters
/// written after the modality condition.
pub open spec fn back_conditions(d: &SearchStudyDto, start: nat) -> (Seq<char>, Seq<Seq<char>>) {
    let acc = (Seq::<char>::empty(), Seq::<Seq<char>>::empty());
    let acc = and_eq(acc, start, " AND studies_view.patient_name = "@, view_opt(d.patient_name));
    let acc = and_eq(acc, start, " AND studies_view.patient_id = "@, view_opt(d.patient_id));
    let acc = and_eq(
        acc,
        start,
        " AND studies_view.study_instance_uid = "@,
        view_opt(d.study_instance_uid),
    );
    let acc = and_eq(acc, start, " AND studies_view.study_id = "@, view_opt(d.study_id));
    acc
}

/// The conditions a study filter compiles to, and the values they bind,
/// when the query already holds `start` parameters: the first exact-match
/// group, then the modality containment condition, then the second group.
pub open spec fn study_conditions(d: &SearchStudyDto, start: nat) -> (Seq<char>, Seq<Seq<char>>) {
    let a = front_conditions(d, start);
    let m = modalities_fragment(
        view_opt_list(d.modalities_in_study),
        dialect_of(d.database_backend@),
        start + a.1.len(),
    );
    let b = back_conditions(d, start + a.1.len() + m.1.len());
    (a.0 + m.0 + b.0, a.1 + m.1 + b.1)
}

impl SearchStudyDto {
    /// An empty filter for the given backend: no conditions.
    pub fn new(backend: String) -> (r: SearchStudyDto)
        ensures
            r.study_date is None,
            r.study_time is None,
            r.accession_number is None,
            r.modalities_in_study is None,
            r.referring_physician_name is None,
            r.patient_name is None,
            r.patient_id is None,
            r.study_instance_uid is None,
            r.study_id is None,
            r.database_backend@ == backend@,
    {
        SearchStudyDto {
            study_date: None,
            study_time: None,
            accession_number: None,
            modalities_in_study: None,
            referring_physician_name: None,
            patient_name: None,
            patient_id: None,
            study_instance_uid: None,
            study_id: None,
            database_backend: backend,
        }
    }

    /// Parse a study filter from loosely-keyed search parameters: each
    /// recognized key, by keyword or by hexadecimal tag form, fills its
    /// field; the modality filter splits on commas; unrecognized keys are
    /// ignored.
    pub fn from_query(params: &crate::studies::models::query::QueryParams) -> (r: SearchStudyDto)
        ensures
            view_opt(r.study_date) == crate::studies::models::query::field_lookup(
                params.pairs@,
                "StudyDate"@,
                crate::utils::dicom::tags::STUDY_DATE,
            ),
            view_opt(r.study_time) == crate::studies::models::query::field_lookup(
                params.pairs@,
                "StudyTime"@,
                crate::utils::dicom::tags::STUDY_TIME,
            ),
            view_opt(r.accession_number) == crate::studies::models::query::field_lookup(
                params.pairs@,
                "AccessionNumber"@,
                crate::utils::dicom::tags::ACCESSION_NUMBER,
            ),
            view_opt(r.referring_physician_name) == crate::studies::models::query::field_lookup(
                params.pairs@,
                "ReferringPhysicianName"@,
                crate::utils::dicom::tags::REFERRING_PHYSICIAN_NAME,
            ),
            view_opt(r.patient_name) == crate::studies::models::query::field_lookup(
                params.pairs@,
                "PatientName"@,
                crate::utils::dicom::tags::PATIENT_NAME,
            ),
            view_opt(r.patient_id) == crate::studies::models::query::field_lookup(
                params.pairs@,
                "PatientID"@,
                crate::utils::dicom::tags::PATIENT_ID,
            ),
            view_opt(r.study_instance_uid) == crate::studies::models::query::field_lookup(
                params.pairs@,
                "StudyInstanceUID"@,
                crate::utils::dicom::tags::STUDY_INSTANCE_UID,
            ),
            view_opt(r.study_id) == crate::studies::models::query::field_lookup(
                params.pairs@,
                "StudyID"@,
                crate::utils::dicom::tags::STUDY_ID,
            ),
            view_opt_list(r.modalities_in_study) == match crate::studies::models::query::field_lookup(
                params.pairs@,
                "ModalitiesInStudy"@,
                crate::utils::dicom::tags::MODALITIES_IN_STUDY,
            ) {
                Some(v) => Some(crate::studies::models::query::split_commas_spec(v)),
                None => None,
            },
            r.database_backend@ == Seq::<char>::empty(),
    {
        let modalities = match crate::studies::models::query::get_field(
            params,
            "ModalitiesInStudy",
            crate::utils::dicom::tags::MODALITIES_IN_STUDY,
        ) {
            Some(v) => Some(crate::studies::models::query::split_commas(v.as_str())),
            None => None,
        };
        SearchStudyDto {
            study_date: crate::studies::models::query::get_field(
                params,
                "StudyDate",
                crate::utils::dicom::tags::STUDY_DATE,
            ),
            study_time: crate::studies::models::query::get_field(
                params,
                "StudyTime",
                crate::utils::dicom::tags::STUDY_TIME,
            ),
            accession_number: crate::studies::models::query::get_field(
                params,
                "AccessionNumber",
                crate::utils::dicom::tags::ACCESSION_NUMBER,
            ),
            modalities_in_study: modalities,
            referring_physician_name: crate::studies::models::query::get_field(
                params,
                "ReferringPhysicianName",
                crate::utils::dicom::tags::REFERRING_PHYSICIAN_NAME,
            ),
            patient_name: crate::studies::models::query::get_field(
                params,
                "PatientName",
                crate::utils::dicom::tags::PATIENT_NAME,
            ),
            patient_id: crate::studies::models::query::get_field(
                params,
                "PatientID",
                crate::utils::dicom::tags::PATIENT_ID,
            ),
            study_instance_uid: crate::studies::models::query::get_field(
                params,
                "StudyInstanceUID",
                crate::utils::dicom::tags::STUDY_INSTANCE_UID,
            ),
            study_id: crate::studies::models::query::get_field(
                params,
                "StudyID",
                crate::utils::dicom::tags::STUDY_ID,
            ),
            database_backend: String::new(),
        }
    }

    /// Replace the backend identifier that drives dialect selection.
    pub fn with_backend(self, backend: String) -> (r: SearchStudyDto)
        ensures
            r.database_backend@ == backend@,
            r.study_date == self.study_date,
            r.study_time == self.study_time,
            r.accession_number == self.accession_number,
            r.modalities_in_study == self.modalities_in_study,
            r.referring_physician_name == self.referring_physician_name,
            r.patient_name == self.patient_name,
            r.patient_id == self.patient_id,
            r.study_instance_uid == self.study_instance_uid,
            r.study_id == self.study_id,
    {
        SearchStudyDto { database_backend: backend, ..self }
    }

    /// Append the modality-containment condition, if a modality filter is
    /// present.
    fn push_modalities_condition(&self, q: &mut SqlQuery)
        ensures
            final(q).text@ == old(q).text@ + modalities_fragment(
                view_opt_list(self.modalities_in_study),
                dialect_of(self.database_backend@),
                old(q).params.deep_view().len(),
            ).0,
            final(q).params.deep_view() == old(q).params.deep_view() + modalities_fragment(
                view_opt_list(self.modalities_in_study),
                dialect_of(self.database_backend@),
                old(q).params.deep_view().len(),
            ).1,
    {
        let ghost k = q.params.deep_view().len();
        let ghost base_text = q.text@;
        let ghost base_params = q.params.deep_view();
        let ghost frag = modalities_fragment(
            view_opt_list(self.modalities_in_study),
            dialect_of(self.database_backend@),
            k,
        );
        let mut trivial = true;
        if let Some(ms) = &self.modalities_in_study {
            if ms.len() > 0 {
                trivial = false;
                let ghost all = ms.deep_view();
                let dialect = crate::sql::dialect_from_backend(self.database_backend.as_str());
                match dialect {
                    Dialect::Generic => {
                        q.push_sql(" AND (");
                        let mut i: usize = 0;
                        proof {
                            assert(q.text@ =~= base_text + " AND ("@ + like_chain(all.take(0), k));
                            assert(q.params.deep_view() =~~= base_params + like_params(
                                all.take(0),
                            ));
                        }
                        while i < ms.len()
                            invariant
                                i <= ms@.len(),
                                all == ms.deep_view(),
                                all.len() == ms@.len(),
                                forall|j: int| 0 <= j < all.len() ==> all[j] == #[trigger] ms@[j]@,
                                base_params.len() == k,
                                q.text@ == base_text + " AND ("@ + like_chain(all.take(i as int), k),
                                q.params.deep_view() == base_params + like_params(
                                    all.take(i as int),
                                ),
                            decreases ms@.len() - i,
                        {
                            if i > 0 {
                                q.push_sql(" OR studies_view.modalities_in_study LIKE ");
                            } else {
                                q.push_sql("studies_view.modalities_in_study LIKE ");
                            }
                            let mut pattern = String::new();
                            pattern.append("%");
                            pattern.append(ms[i].as_str());
                            pattern.append("%");
                            q.push_param(pattern.as_str());
                            proof {
                                assert(all.take(i + 1 as int).drop_last() =~= all.take(i as int));
                                assert(all.take(i + 1 as int).last() == all[i as int]);
                                lemma_like_params_len(all.take(i as int));
                                assert(q.text@ =~= base_text + " AND ("@ + like_chain(
                                    all.take(i + 1 as int),
                                    k,
                                ));
                                assert(q.params.deep_view() =~~= base_params + like_params(
                                    all.take(i + 1 as int),
                                ));
                            }
                            i += 1;
                        }
                        q.push_sql(")");
                        proof {
                            assert(all.take(all.len() as int) == all);
                            assert(q.text@ =~= base_text + frag.0);
                            assert(q.params.deep_view() =~~= base_params + frag.1);
                        }
                    },
                    Dialect::Postgres => {
                        q.push_sql(" AND studies_view.modalities_in_study && ARRAY[");
                        let mut i: usize = 0;
                        proof {
                            assert(q.text@ =~= base_text
                                + " AND studies_view.modalities_in_study && ARRAY["@
                                + array_placeholders(0, k));
                            assert(q.params.deep_view() =~~= base_params + all.take(0));
                        }
                        while i < ms.len()
                            invariant
                                i <= ms@.len(),
                                all == ms.deep_view(),
                                all.len() == ms@.len(),
                                forall|j: int| 0 <= j < all.len() ==> all[j] == #[trigger] ms@[j]@,
                                base_params.len() == k,
                                q.text@ == base_text
                                    + " AND studies_view.modalities_in_study && ARRAY["@
                                    + array_placeholders(i as nat, k),
                                q.params.deep_view() == base_params + all.take(i as int),
                            decreases ms@.len() - i,
                        {
                            if i > 0 {
                                q.push_sql(", ");
                            }
                            q.push_param(ms[i].as_str());
                            proof {
                                assert(all.take(i + 1 as int).drop_last() =~= all.take(i as int));
                                assert(all.take(i + 1 as int).last() == all[i as int]);
                                assert(q.text@ =~= base_text
                                    + " AND studies_view.modalities_in_study && ARRAY["@
                                    + array_placeholders((i + 1) as nat, k));
                                assert(q.params.deep_view() =~~= base_params + all.take(
                                    i + 1 as int,
                                ));
                            }
                            i += 1;
                        }
                        q.push_sql("]::varchar[]");
                        proof {
                            assert(all.take(all.len() as int) == all);
                            assert(q.text@ =~= base_text + frag.0);
                            assert(q.params.deep_view() =~~= base_params + frag.1);
                        }
                    },
                }
            }
        }
        if trivial {
            proof {
                assert(q.text@ =~= base_text + frag.0);
                assert(q.params.deep_view() =~~= base_params + frag.1);
            }
        }
    }

    /// Append the first group of exact-match conditions.
    #[verifier::rlimit(100)]
    #[verifier::spinoff_prover]
    fn push_front_conditions(&self, q: &mut SqlQuery)
        ensures
            final(q).text@ == old(q).text@ + front_conditions(
                self,
                old(q).params.deep_view().len(),
            ).0,
            final(q).params.deep_view() == old(q).params.deep_view() + front_conditions(
                self,
                old(q).params.deep_view().len(),
            ).1,
    {
        let ghost start = q.params.deep_view().len();
        let ghost base_text = q.text@;
        let ghost base_params = q.params.deep_view();
        if let Some(v) = &self.study_date {
            q.push_sql(" AND studies_view.study_date = ");
            q.push_param(v.as_str());
        }
        if let Some(v) = &self.study_time {
            q.push_sql(" AND studies_view.study_time = ");
            q.push_param(v.as_str());
        }
        if let Some(v) = &self.accession_number {
            q.push_sql(" AND studies_view.accession_number = ");
            q.push_param(v.as_str());
        }
        if let Some(v) = &self.referring_physician_name {
            q.push_sql(" AND studies_view.referring_physician_name = ");
            q.push_param(v.as_str());
        }
        proof {
            assert(q.text@ =~= base_text + front_conditions(self, start).0);
            assert(q.params.deep_view() =~= base_params + front_conditions(self, start).1);
        }
    }

    /// Append the second group of exact-match conditions.
    #[verifier::rlimit(100)]
    #[verifier::spinoff_prover]
    fn push_back_conditions(&self, q: &mut SqlQuery)
        ensures
            final(q).text@ == old(q).text@ + back_conditions(
                self,
                old(q).params.deep_view().len(),
            ).0,
            final(q).params.deep_view() == old(q).params.deep_view() + back_conditions(
                self,
                old(q).params.deep_view().len(),
            ).1,
    {
        let ghost start = q.params.deep_view().len();
        let ghost base_text = q.text@;
        let ghost base_params = q.params.deep_view();
        if let Some(v) = &self.patient_name {
            q.push_sql(" AND studies_view.patient_name = ");
            q.push_param(v.as_str());
        }
        if let Some(v) = &self.patient_id {
            q.push_sql(" AND studies_view.patient_id = ");
            q.push_param(v.as_str());
        }
        if let Some(v) = &self.study_instance_uid {
            q.push_sql(" AND studies_view.study_instance_uid = ");
            q.push_param(v.as_str());
        }
        if let Some(v) = &self.study_id {
            q.push_sql(" AND studies_view.study_id = ");
            q.push_param(v.as_str());
        }
        proof {
            assert(q.text@ =~= base_text + back_conditions(self, start).0);
            assert(q.params.deep_view() =~= base_params + back_conditions(self, start).1);
        }
    }

    /// Append every present filter as a condition on the query, binding the
    /// filter values as parameters.
    pub fn add_search_conditions(&self, q: &mut SqlQuery)
        ensures
            final(q).text@ == old(q).text@ + study_conditions(
                self,
                old(q).params.deep_view().len(),
            ).0,
            final(q).params.deep_view() == old(q).params.deep_view() + study_conditions(
                self,
                old(q).params.deep_view().len(),
            ).1,
    {
        let ghost start = q.params.deep_view().len();
        let ghost base_text = q.text@;
        let ghost base_params = q.params.deep_view();
        self.push_front_conditions(q);
        self.push_modalities_condition(q);
        self.push_back_conditions(q);
        proof {
            assert(q.text@ =~= base_text + study_conditions(self, start).0);
            assert(q.params.deep_view() =~= base_params + study_conditions(self, start).1);
        }
    }

    /// Restrict a query to studies whose UID appears among the studies the
    /// filter matches, via a correlated sub-select.
    pub fn filter_studies_by_uid(&self, q: &mut SqlQuery)
        ensures
            final(q).text@ == old(q).text@ + (
            " AND studies_view.study_instance_uid IN (SELECT study_instance_uid FROM studies_view WHERE 1 = 1"
            )@ + study_conditions(self, old(q).params.deep_view().len()).0 + ")"@,
            final(q).params.deep_view() == old(q).params.deep_view() + study_conditions(
                self,
                old(q).params.deep_view().len(),
            ).1,
    {
        q.push_sql(
            " AND studies_view.study_instance_uid IN (SELECT study_instance_uid FROM studies_view WHERE 1 = 1",
        );
        self.add_search_conditions(q);
        q.push_sql(")");
        proof {
            assert(q.text@ =~= old(q).text@ + (
            " AND studies_view.study_instance_uid IN (SELECT study_instance_uid FROM studies_view WHERE 1 = 1"
            )@ + study_conditions(self, old(q).params.deep_view().len()).0 + ")"@);
        }
    }

    /// Compile the select over the study view: the requested columns, then
    /// every present filter as a condition.
    pub fn select(&self, fields: &Vec<String>) -> (r: SqlQuery)
        ensures
            r.text@ == "SELECT "@ + join_sep(fields.deep_view(), ", "@) + (
            " FROM studies_view WHERE 1 = 1"
            )@ + study_conditions(self, 0).0,
            r.params.deep_view() == study_conditions(self, 0).1,
    {
        let mut q = SqlQuery::new("SELECT ");
        let cols = crate::sql::join_comma(fields);
        q.push_sql(cols.as_str());
        q.push_sql(" FROM studies_view WHERE 1 = 1");
        self.add_search_conditions(&mut q);
        proof {
            assert(q.text@ =~= "SELECT "@ + join_sep(fields.deep_view(), ", "@) + (
            " FROM studies_view WHERE 1 = 1"
            )@ + study_conditions(self, 0).0);
            assert(q.params.deep_view() =~~= study_conditions(self, 0).1);
        }
        q
    }
}

/// A study row as the search path reads it back: the derived aggregates and
/// the storage path of a representative instance.
#[derive(Debug)]
pub struct StudyDto {
    pub modalities_in_study: Vec<String>,
    pub number_of_study_related_series: u64,
    pub number_of_study_related_instances: u64,
    pub path: String,
}

impl StudyDto {
    /// The columns selected to build a `StudyDto`. The modality aggregate
    /// needs flattening from its array representation on PostgreSQL.
    pub fn fields(database_backend: &str) -> (r: Vec<String>)
        ensures
            r.deep_view() == seq![
                "studies_view.study_instance_uid"@,
                if dialect_of(database_backend@) is Postgres {
                    (
                    "array_to_string(studies_view.modalities_in_study, ',') AS modalities_in_study"
                    )@
                } else {
                    "studies_view.modalities_in_study"@
                },
                "studies_view.number_of_study_related_series"@,
                "studies_view.number_of_study_related_instances"@,
                "studies_view.path"@,
            ],
    {
        let mut fields: Vec<String> = Vec::new();
        fields.push(String::from_str("studies_view.study_instance_uid"));
        match crate::sql::dialect_from_backend(database_backend) {
            Dialect::Postgres => {
                fields.push(
                    String::from_str(
                        "array_to_string(studies_view.modalities_in_study, ',') AS modalities_in_study",
                    ),
                );
            },
            Dialect::Generic => {
                fields.push(String::from_str("studies_view.modalities_in_study"));
            },
        }
        fields.push(String::from_str("studies_view.number_of_study_related_series"));
        fields.push(String::from_str("studies_view.number_of_study_related_instances"));
        fields.push(String::from_str("studies_view.path"));
        proof {
            assert(fields.deep_view() =~~= seq![
                "studies_view.study_instance_uid"@,
                if dialect_of(database_backend@) is Postgres {
                    (
                    "array_to_string(studies_view.modalities_in_study, ',') AS modalities_in_study"
                    )@
                } else {
                    "studies_view.modalities_in_study"@
                },
                "studies_view.number_of_study_related_series"@,
                "studies_view.number_of_study_related_instances"@,
                "studies_view.path"@,
            ]);
        }
        fields
    }
}

/// Search the store for studies matching the filter, returning each with
/// its derived aggregates recomputed from the current child rows.
pub fn find(store: &MetadataStore, dto: SearchStudyDto) -> (r: Vec<StudyDto>)
    ensures
        ({
            let ms = store.studies@.filter(study_match_pred(dto, store.series@));
            &&& r@.len() == ms.len()
            &&& forall|k: int|
                0 <= k < ms.len() ==> study_dto_corresponds(
                    #[trigger] r@[k],
                    ms[k],
                    store.series@,
                    store.instances@,
                )
        }),
{
    let ghost p = study_match_pred(dto, store.series@);
    let mut out: Vec<StudyDto> = Vec::new();
    let mut i: usize = 0;
    proof {
        assert(store.studies@.take(0).filter(p) =~= Seq::<StoreStudyDto>::empty());
    }
    while i < store.studies.len()
        invariant
            i <= store.studies@.len(),
            p == study_match_pred(dto, store.series@),
            out@.len() == store.studies@.take(i as int).filter(p).len(),
            forall|k: int|
                0 <= k < out@.len() ==> study_dto_corresponds(
                    #[trigger] out@[k],
                    store.studies@.take(i as int).filter(p)[k],
                    store.series@,
                    store.instances@,
                ),
        decreases store.studies@.len() - i,
    {
        let ghost prefix = store.studies@.take(i as int);
        proof {
            assert(store.studies@.take(i + 1 as int) =~= prefix + seq![store.studies@[i as int]]);
            Seq::filter_distributes_over_add(prefix, seq![store.studies@[i as int]], p);
            lemma_filter_one(store.studies@[i as int], p);
        }
        let row = &store.studies[i];
        if study_matches_exec(&dto, row, &store.series) {
            let d = build_study_dto(row, &store.series, &store.instances);
            out.push(d);
        } else {
            proof {
                assert(prefix.filter(p) + Seq::<StoreStudyDto>::empty() =~= prefix.filter(p));
            }
        }
        i += 1;
    }
    proof {
        assert(store.studies@.take(store.studies@.len() as int) == store.studies@);
    }
    out
}

/// Whether a study with this UID exists in the store.
pub fn is_exist(store: &MetadataStore, study_instance_uid: &str) -> (r: bool)
    ensures
        r == has_study(store.studies@, study_instance_uid@),
{
    let ghost p = study_uid_pred(study_instance_uid@);
    let mut i: usize = 0;
    while i < store.studies.len()
        invariant
            i <= store.studies@.len(),
            p == study_uid_pred(study_instance_uid@),
            forall|k: int| 0 <= k < i ==> !p(#[trigger] store.studies@[k]),
        decreases store.studies@.len() - i,
    {
        if crate::sql::str_eq_str(
            store.studies[i].study_instance_uid.as_str(),
            study_instance_uid,
        ) {
            proof {
                lemma_first_match_found(store.studies@, p, i as int);
            }
            return true;
        }
        i += 1;
    }
    proof {
        lemma_first_match_none(store.studies@, p);
    }
    false
}

/// Save a study: an update when a row with its UID exists, an insert
/// otherwise.
pub fn save(store: &mut MetadataStore, dto: StoreStudyDto)
    requires
        old(store).wf(),
    ensures
        final(store).wf(),
        final(store).studies@ == upsert_study(old(store).studies@, dto),
        final(store).series@ == old(store).series@,
        final(store).instances@ == old(store).instances@,
{
    let ghost p = study_uid_pred(dto.study_instance_uid@);
    let ghost orig = store.studies@;
    let mut i: usize = 0;
    while i < store.studies.len()
        invariant
            i <= store.studies@.len(),
            old(store).wf(),
            store.studies@ == old(store).studies@,
            store.series@ == old(store).series@,
            store.instances@ == old(store).instances@,
            p == study_uid_pred(dto.study_instance_uid@),
            forall|k: int| 0 <= k < i ==> !p(#[trigger] store.studies@[k]),
        decreases store.studies@.len() - i,
    {
        if crate::sql::str_eq_str(
            store.studies[i].study_instance_uid.as_str(),
            dto.study_instance_uid.as_str(),
        ) {
            proof {
                lemma_first_match_found(store.studies@, p, i as int);
            }
            let ghost replaced_uid = store.studies@[i as int].study_instance_uid@;
            store.studies.set(i, dto);
            proof {
                let s = store.studies@;
                assert(forall|k: int|
                    0 <= k < s.len() ==> #[trigger] s[k].study_instance_uid@ == old(
                        store,
                    ).studies@[k].study_instance_uid@);
                assert forall|a: int, b: int|
                    #![trigger s[a], s[b]]
                    0 <= a < b < s.len() implies s[a].study_instance_uid@
                    != s[b].study_instance_uid@ by {
                    assert(old(store).studies@[a].study_instance_uid@ != old(
                        store,
                    ).studies@[b].study_instance_uid@);
                }
            }
            return;
        }
        i += 1;
    }
    proof {
        lemma_first_match_none(store.studies@, p);
    }
    store.studies.push(dto);
    proof {
        let s = store.studies@;
        assert forall|a: int, b: int|
            #![trigger s[a], s[b]]
            0 <= a < b < s.len() implies s[a].study_instance_uid@ != s[b].study_instance_uid@ by {
            if b < s.len() - 1 {
                assert(old(store).studies@[a].study_instance_uid@ != old(
                    store,
                ).studies@[b].study_instance_uid@);
            } else {
                assert(!p(old(store).studies@[a]));
            }
        }
    }
}

} // verus!
