use dicom_archive::sql::{dialect_from_backend, u64_to_string, Dialect};
use dicom_archive::studies::models::query::QueryParams;
use dicom_archive::studies::models::study::{SearchStudyDto, StoreStudyDto, StudyDto};

fn study_dto() -> StoreStudyDto {
    StoreStudyDto {
        study_date: String::from("20240102"),
        study_time: String::from("1200"),
        accession_number: String::from("ACC1"),
        referring_physician_name: String::from("DR"),
        patient_name: String::from("DOE"),
        patient_id: String::from("PAT1"),
        study_instance_uid: String::from("1.2.3"),
        study_id: String::from("S1"),
    }
}

#[test]
fn decimal_rendering() {
    assert_eq!(u64_to_string(0), "0");
    assert_eq!(u64_to_string(7), "7");
    assert_eq!(u64_to_string(12045), "12045");
}

#[test]
fn dialect_selection_falls_back_to_generic() {
    assert_eq!(dialect_from_backend("PostgreSQL"), Dialect::Postgres);
    assert_eq!(dialect_from_backend("SQLite"), Dialect::Generic);
    assert_eq!(dialect_from_backend("whatever"), Dialect::Generic);
}

#[test]
fn study_insert_binds_every_value() {
    let q = study_dto().sql();
    assert_eq!(
        q.text,
        "INSERT INTO studies (study_instance_uid, study_date, study_time, accession_number, referring_physician_name, patient_name, patient_id, study_id) VALUES ($1, $2, $3, $4, $5, $6, $7, $8);"
    );
    let expected: Vec<String> = ["1.2.3", "20240102", "1200", "ACC1", "DR", "DOE", "PAT1", "S1"]
        .iter()
        .map(|s| s.to_string())
        .collect();
    assert_eq!(q.params, expected);
}

#[test]
fn study_update_keys_on_the_uid() {
    let q = study_dto().update_sql();
    assert_eq!(
        q.text,
        "UPDATE studies SET study_date = $2, study_time = $3, accession_number = $4, referring_physician_name = $5, patient_name = $6, patient_id = $7, study_id = $8 WHERE study_instance_uid = $1;"
    );
    assert_eq!(q.params[0], "1.2.3");
}

#[test]
fn select_emits_placeholders_never_values() {
    let mut d = SearchStudyDto::new(String::from("SQLite"));
    d.patient_id = Some(String::from("PAT'; DROP TABLE studies;--"));
    let q = d.select(&StudyDto::fields("SQLite"));
    assert_eq!(
        q.text,
        "SELECT studies_view.study_instance_uid, studies_view.modalities_in_study, studies_view.number_of_study_related_series, studies_view.number_of_study_related_instances, studies_view.path FROM studies_view WHERE 1 = 1 AND studies_view.patient_id = $1"
    );
    assert_eq!(q.params, vec![String::from("PAT'; DROP TABLE studies;--")]);
}

#[test]
fn generic_modalities_become_substring_alternatives() {
    let mut d = SearchStudyDto::new(String::from("SQLite"));
    d.modalities_in_study = Some(vec![String::from("CT"), String::from("MR")]);
    let fields = vec![String::from("studies_view.path")];
    let q = d.select(&fields);
    assert_eq!(
        q.text,
        "SELECT studies_view.path FROM studies_view WHERE 1 = 1 AND (studies_view.modalities_in_study LIKE $1 OR studies_view.modalities_in_study LIKE $2)"
    );
    assert_eq!(q.params, vec![String::from("%CT%"), String::from("%MR%")]);
}

#[test]
fn postgres_modalities_become_an_array_overlap() {
    let mut d = SearchStudyDto::new(String::from("PostgreSQL"));
    d.modalities_in_study = Some(vec![String::from("CT"), String::from("MR")]);
    let fields = vec![String::from("studies_view.path")];
    let q = d.select(&fields);
    assert_eq!(
        q.text,
        "SELECT studies_view.path FROM studies_view WHERE 1 = 1 AND studies_view.modalities_in_study && ARRAY[$1, $2]::varchar[]"
    );
    assert_eq!(q.params, vec![String::from("CT"), String::from("MR")]);
}

#[test]
fn uid_containment_uses_a_correlated_subselect() {
    let mut d = SearchStudyDto::new(String::from("SQLite"));
    d.study_id = Some(String::from("S1"));
    let mut q = dicom_archive::sql::SqlQuery::new("SELECT x FROM t WHERE 1 = 1");
    d.filter_studies_by_uid(&mut q);
    assert_eq!(
        q.text,
        "SELECT x FROM t WHERE 1 = 1 AND studies_view.study_instance_uid IN (SELECT study_instance_uid FROM studies_view WHERE 1 = 1 AND studies_view.study_id = $1)"
    );
    assert_eq!(q.params, vec![String::from("S1")]);
}

#[test]
fn postgres_study_fields_flatten_the_modalities() {
    let fields = StudyDto::fields("PostgreSQL");
    assert_eq!(
        fields[1],
        "array_to_string(studies_view.modalities_in_study, ',') AS modalities_in_study"
    );
    let generic = StudyDto::fields("SQLite");
    assert_eq!(generic[1], "studies_view.modalities_in_study");
}

#[test]
fn from_query_recognizes_keywords_and_tag_keys() {
    let mut params = QueryParams::new();
    params.push(String::from("PatientID"), String::from("PAT9"));
    params.push(String::from("0020000D"), String::from("1.2.9"));
    params.push(String::from("ModalitiesInStudy"), String::from("CT,MR"));
    params.push(String::from("Unrecognized"), String::from("ignored"));
    let d = SearchStudyDto::from_query(&params);
    assert_eq!(d.patient_id, Some(String::from("PAT9")));
    assert_eq!(d.study_instance_uid, Some(String::from("1.2.9")));
    assert_eq!(
        d.modalities_in_study,
        Some(vec![String::from("CT"), String::from("MR")])
    );
    assert_eq!(d.study_date, None);
}

#[test]
fn instance_select_includes_joins_when_asked() {
    let mut d = dicom_archive::studies::models::instance::SearchInstanceDto::new();
    d.include_study = true;
    let fields = vec![String::from("sop_instances.path")];
    let q = d.select(&fields);
    assert_eq!(
        q.text,
        "SELECT sop_instances.path FROM sop_instances JOIN studies_view ON sop_instances.study_instance_uid = studies_view.study_instance_uid WHERE 1 = 1 AND sop_instances.sop_instance_uid IN (SELECT sop_instance_uid FROM sop_instances WHERE 1 = 1)"
    );
}
