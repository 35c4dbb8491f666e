use dicom_archive::studies::models::instance::{self, SearchInstanceDto, StoreInstanceDto};
use dicom_archive::studies::models::metadata::MetadataStore;
use dicom_archive::studies::models::series::{SearchSeriesDto, StoreSeriesDto};
use dicom_archive::studies::models::study::{self, SearchStudyDto, StoreStudyDto};
use dicom_archive::studies::services::store::{
    common_retrieve_url, store_sop_instance, store_sop_instances, IngestObject,
    ReferencedSopInstance, StoreOutcome,
};

const ORIGIN: &str = "http://localhost:3000";

fn object(study_uid: &str, series_uid: &str, sop_uid: &str, number: &str) -> (
    StoreStudyDto,
    StoreSeriesDto,
    StoreInstanceDto,
) {
    let study = StoreStudyDto {
        study_date: String::from("20240101"),
        study_time: String::from("0930"),
        accession_number: String::from("A1"),
        referring_physician_name: String::from("REF"),
        patient_name: String::from("DOE"),
        patient_id: String::from("PAT1"),
        study_instance_uid: String::from(study_uid),
        study_id: String::from("S"),
    };
    let series = StoreSeriesDto {
        modality: String::from("CT"),
        study_instance_uid: String::from(study_uid),
        series_instance_uid: String::from(series_uid),
        series_number: String::from("1"),
        performed_procedure_step_start_date: String::from(""),
        performed_procedure_step_start_time: String::from(""),
    };
    let inst = StoreInstanceDto {
        sop_class_uid: String::from("1.2.840.10008.5.1.4.1.1.2"),
        sop_instance_uid: String::from(sop_uid),
        study_instance_uid: String::from(study_uid),
        series_instance_uid: String::from(series_uid),
        instance_number: String::from(number),
        path: String::new(),
    };
    (study, series, inst)
}

#[test]
fn store_assigns_a_path_and_answers_with_the_retrieval_url() {
    let mut store = MetadataStore::new();
    let (st, se, inst) = object("1.1", "1.1.1", "1.1.1.1", "1");
    let r = store_sop_instance(&mut store, ORIGIN, None, st, se, inst);
    match r {
        StoreOutcome::Stored(item) => {
            assert_eq!(
                item.retrieve_url,
                "http://localhost:3000/studies/1.1/series/1.1.1/instances/1.1.1.1"
            );
        },
        StoreOutcome::Rejected(_) => panic!("expected success"),
    }
    let path = instance::get_path_by_uid(&store, "1.1.1.1").unwrap();
    assert_eq!(path.chars().count(), 36);
}

#[test]
fn mismatching_study_uid_is_rejected_without_a_write() {
    let mut store = MetadataStore::new();
    let (st, se, inst) = object("1.1", "1.1.1", "1.1.1.1", "1");
    let target = String::from("9.9");
    let r = store_sop_instance(&mut store, ORIGIN, Some(&target), st, se, inst);
    match r {
        StoreOutcome::Rejected(f) => {
            assert_eq!(f.failure_reason, "Study UID mismatch: expected 9.9, got 1.1");
            assert_eq!(f.sop_instance_uid, "1.1.1.1");
        },
        StoreOutcome::Stored(_) => panic!("expected rejection"),
    }
    assert!(!instance::is_exist(&store, "1.1.1.1"));
}

#[test]
fn reingest_keeps_the_path_and_takes_the_new_metadata() {
    let mut store = MetadataStore::new();
    let (st, se, inst) = object("1.1", "1.1.1", "1.1.1.1", "1");
    store_sop_instance(&mut store, ORIGIN, None, st, se, inst);
    let first_path = instance::get_path_by_uid(&store, "1.1.1.1").unwrap();
    let (st2, se2, inst2) = object("1.1", "1.1.1", "1.1.1.1", "2");
    store_sop_instance(&mut store, ORIGIN, None, st2, se2, inst2);
    assert_eq!(store.instances.len(), 1);
    assert_eq!(store.instances[0].instance_number, "2");
    let second_path = instance::get_path_by_uid(&store, "1.1.1.1").unwrap();
    assert_eq!(first_path, second_path);
}

#[test]
fn partial_batch_failure_keeps_the_committed_objects() {
    let mut store = MetadataStore::new();
    let target = String::from("1.1");
    let (st1, se1, in1) = object("1.1", "1.1.1", "1.1.1.1", "1");
    let (st2, se2, in2) = object("2.2", "2.2.1", "2.2.1.1", "1");
    let (st3, se3, in3) = object("1.1", "1.1.2", "1.1.2.1", "1");
    let objects = vec![
        IngestObject::Object(st1, se1, in1),
        IngestObject::Object(st2, se2, in2),
        IngestObject::Object(st3, se3, in3),
    ];
    let r = store_sop_instances(&mut store, ORIGIN, Some(&target), objects);
    assert_eq!(r.referenced_sop_sequence.len(), 2);
    assert_eq!(r.failed_sop_sequence.len(), 1);
    assert_eq!(r.other_failure_sequence.len(), 0);
    assert_eq!(r.failed_sop_sequence[0].sop_instance_uid, "2.2.1.1");
    assert!(instance::is_exist(&store, "1.1.1.1"));
    assert!(instance::is_exist(&store, "1.1.2.1"));
    assert!(!instance::is_exist(&store, "2.2.1.1"));
}

#[test]
fn unreadable_objects_land_in_the_other_failure_list() {
    let mut store = MetadataStore::new();
    let objects = vec![IngestObject::Unreadable(String::from("Failed to read DICOM file"))];
    let r = store_sop_instances(&mut store, ORIGIN, None, objects);
    assert_eq!(r.referenced_sop_sequence.len(), 0);
    assert_eq!(r.other_failure_sequence.len(), 1);
    assert_eq!(
        r.other_failure_sequence[0].failure_reason,
        "Failed to read DICOM file"
    );
    assert_eq!(r.retrieve_url, ORIGIN);
}

#[test]
fn aggregates_follow_the_child_rows() {
    let mut store = MetadataStore::new();
    let (st1, se1, in1) = object("1.1", "1.1.1", "1.1.1.1", "1");
    let (st2, se2, in2) = object("1.1", "1.1.2", "1.1.2.1", "1");
    let (st3, se3, in3) = object("1.1", "1.1.1", "1.1.1.2", "2");
    store_sop_instance(&mut store, ORIGIN, None, st1, se1, in1);
    store_sop_instance(&mut store, ORIGIN, None, st2, se2, in2);
    store_sop_instance(&mut store, ORIGIN, None, st3, se3, in3);
    let found = study::find(&store, SearchStudyDto::new(String::from("SQLite")));
    assert_eq!(found.len(), 1);
    assert_eq!(found[0].number_of_study_related_series, 2);
    assert_eq!(found[0].number_of_study_related_instances, 3);
    // one more instance in an existing series
    let (st4, se4, in4) = object("1.1", "1.1.2", "1.1.2.2", "2");
    store_sop_instance(&mut store, ORIGIN, None, st4, se4, in4);
    let again = study::find(&store, SearchStudyDto::new(String::from("SQLite")));
    assert_eq!(again[0].number_of_study_related_series, 2);
    assert_eq!(again[0].number_of_study_related_instances, 4);
    assert_eq!(again[0].modalities_in_study, vec![String::from("CT")]);
}

#[test]
fn series_filter_contains_the_instance_search() {
    let mut store = MetadataStore::new();
    let (st1, se1, in1) = object("1.1", "1.1.1", "1.1.1.1", "1");
    let (st2, mut se2, in2) = object("1.1", "1.1.2", "1.1.2.1", "1");
    se2.modality = String::from("MR");
    store_sop_instance(&mut store, ORIGIN, None, st1, se1, in1);
    store_sop_instance(&mut store, ORIGIN, None, st2, se2, in2);
    let mut series_filter = SearchSeriesDto::new();
    series_filter.modality = Some(String::from("CT"));
    let found = instance::find(
        &store,
        None,
        Some(&series_filter),
        SearchInstanceDto::new(),
    );
    assert_eq!(found.len(), 1);
    // only the instance of the CT series is returned
    let series = found[0].series.as_ref().unwrap();
    assert_eq!(series.number_of_series_related_instances, 1);
}

#[test]
fn study_level_filter_restricts_series_search() {
    let mut store = MetadataStore::new();
    let (st1, se1, in1) = object("1.1", "1.1.1", "1.1.1.1", "1");
    let (mut st2, se2, in2) = object("2.2", "2.2.1", "2.2.1.1", "1");
    st2.patient_id = String::from("OTHER");
    store_sop_instance(&mut store, ORIGIN, None, st1, se1, in1);
    store_sop_instance(&mut store, ORIGIN, None, st2, se2, in2);
    let mut study_filter = SearchStudyDto::new(String::from("SQLite"));
    study_filter.patient_id = Some(String::from("PAT1"));
    let found = dicom_archive::studies::models::series::find(
        &store,
        Some(&study_filter),
        SearchSeriesDto::new(),
    );
    assert_eq!(found.len(), 1);
    assert!(found[0].study.is_some());
}

#[test]
fn common_url_is_the_deepest_shared_level() {
    let item = |st: &str, se: &str, sop: &str| ReferencedSopInstance {
        study_instance_uid: String::from(st),
        series_instance_uid: String::from(se),
        sop_class_uid: String::new(),
        sop_instance_uid: String::from(sop),
        retrieve_url: String::new(),
        warning_reason: None,
    };
    let same_series = vec![item("1", "2", "3"), item("1", "2", "4")];
    assert_eq!(
        common_retrieve_url(ORIGIN, &same_series),
        "http://localhost:3000/studies/1/series/2"
    );
    let same_study = vec![item("1", "2", "3"), item("1", "9", "4")];
    assert_eq!(
        common_retrieve_url(ORIGIN, &same_study),
        "http://localhost:3000/studies/1"
    );
    let nothing_shared = vec![item("1", "2", "3"), item("8", "9", "4")];
    assert_eq!(common_retrieve_url(ORIGIN, &nothing_shared), ORIGIN);
    let single = vec![item("1", "2", "3")];
    assert_eq!(
        common_retrieve_url(ORIGIN, &single),
        "http://localhost:3000/studies/1/series/2/instances/3"
    );
    assert_eq!(common_retrieve_url(ORIGIN, &Vec::new()), ORIGIN);
}

#[test]
fn find_instances_reports_not_found_when_nothing_matches() {
    let store = MetadataStore::new();
    let r = dicom_archive::studies::services::utils::find_instances(
        &store,
        SearchInstanceDto::new(),
    );
    assert!(matches!(
        r,
        Err(dicom_archive::studies::error::StudiesServiceError::NotFound)
    ));
}
